//! The round of the worker: what it does next, and when it stops.

use vstd::prelude::*;

use super::worker::{DeviceCall, Worker, STATUS_INTERVAL_MS};
use super::{Bridge, BridgeView, Command};
use crate::types::{DriveStatus, Side, WriteId, WriteRequest};

verus! {

/// What the worker is doing.
#[derive(Debug, Clone, Copy, PartialEq, Eq, Structural)]
pub enum RunStage {
    /// Sleeping until something wakes it.
    Waiting,
    /// Taking the commands that wait.
    Draining,
    /// Answering a command.
    Serving,
    /// Answering the caller's latest wish.
    Wishing,
    /// Refreshing the drive state, if that is due.
    Refreshing,
    /// Capturing whatever the cache is short of.
    Capturing,
    /// Turning the motor off.
    Releasing,
    /// Nothing any more.
    Stopped,
}

/// What the worker does next.
#[derive(Debug)]
pub enum RunStep {
    /// Sleep until a command, a wake-up or the poll interval.
    Wait,
    /// Take a command, if one waits.
    TakeCommand,
    /// Write a track.
    Write {
        /// Identifier of the write.
        id: WriteId,
        /// What to write.
        request: WriteRequest,
    },
    /// Step without clicking, on a side.
    NoClick(Side),
    /// Answer the caller's latest wish.
    Wish,
    /// Refresh the drive state, if that is due.
    Status,
    /// Capture whatever the cache is short of.
    Capture,
    /// Turn the motor off; whether that succeeds makes no difference.
    MotorOff {
        /// The last call into the device.
        call: DeviceCall,
    },
    /// Release the device.
    Stopped,
}

/// What came of a step.
#[derive(Debug)]
pub enum RunEvent {
    /// The sleep is over, without a command.
    Woken,
    /// A command came.
    Command(Command),
    /// No command waits.
    NoCommand,
    /// No command can come any more.
    Closed,
    /// A command, a wish or the drive state is dealt with.
    StageDone,
    /// The capture is over.
    Captured {
        /// Whether a reading was taken.
        taken: bool,
    },
    /// The motor was told to stop.
    MotorAnswered,
}

/// How far a round of the worker has come.
#[derive(Debug)]
pub struct RunTask {
    stage: RunStage,
}

/// A [`RunTask`].
pub struct RunView {
    /// What the worker is doing.
    pub stage: RunStage,
}

impl View for RunTask {
    type V = RunView;

    closed spec fn view(&self) -> RunView {
        RunView { stage: self.stage }
    }
}

/// The call that ends every run: the motor is turned off without waiting for
/// the spindle.
pub open spec fn last_call() -> DeviceCall {
    DeviceCall::SetMotor { enabled: false, quick: true }
}

/// The run turns the motor off.
pub open spec fn releasing() -> (RunView, RunStep) {
    (RunView { stage: RunStage::Releasing }, RunStep::MotorOff { call: last_call() })
}

/// The run answers a command.
pub open spec fn serving(command: Command) -> (RunView, RunStep) {
    match command {
        Command::Shutdown => releasing(),
        Command::NoClick(side) => (
            RunView { stage: RunStage::Serving },
            RunStep::NoClick(side),
        ),
        Command::Write { id, request } => (
            RunView { stage: RunStage::Serving },
            RunStep::Write { id, request },
        ),
    }
}

impl RunView {
    /// A run that is about to begin.
    pub open spec fn fresh() -> RunView {
        RunView { stage: RunStage::Waiting }
    }

    /// Whether an event can come of what the worker is doing.
    pub open spec fn expects(self, event: RunEvent) -> bool {
        match self.stage {
            RunStage::Waiting => event is Woken || event is Command || event is Closed,
            RunStage::Draining => event is Command || event is NoCommand,
            RunStage::Serving | RunStage::Wishing | RunStage::Refreshing => event is StageDone,
            RunStage::Capturing => event is Captured,
            RunStage::Releasing => event is MotorAnswered,
            RunStage::Stopped => false,
        }
    }
}

/// What comes after an event: commands first, then the latest wish, the drive
/// state and a capture, and a sleep only when no reading was taken. A command
/// to stop, a closed channel and a lost drive end the run.
pub open spec fn after(run: RunView, failed: bool, event: RunEvent) -> (RunView, RunStep) {
    match run.stage {
        RunStage::Waiting => match event {
            RunEvent::Command(command) => serving(command),
            RunEvent::Closed => releasing(),
            _ => (RunView { stage: RunStage::Draining }, RunStep::TakeCommand),
        },
        RunStage::Draining => match event {
            RunEvent::Command(command) => serving(command),
            _ => (RunView { stage: RunStage::Wishing }, RunStep::Wish),
        },
        RunStage::Serving => if failed {
            releasing()
        } else {
            (RunView { stage: RunStage::Draining }, RunStep::TakeCommand)
        },
        RunStage::Wishing => if failed {
            releasing()
        } else {
            (RunView { stage: RunStage::Refreshing }, RunStep::Status)
        },
        RunStage::Refreshing => if failed {
            releasing()
        } else {
            (RunView { stage: RunStage::Capturing }, RunStep::Capture)
        },
        RunStage::Capturing => if failed {
            releasing()
        } else if event == (RunEvent::Captured { taken: true }) {
            (RunView { stage: RunStage::Draining }, RunStep::TakeCommand)
        } else {
            (RunView { stage: RunStage::Waiting }, RunStep::Wait)
        },
        RunStage::Releasing | RunStage::Stopped => (
            RunView { stage: RunStage::Stopped },
            RunStep::Stopped,
        ),
    }
}

/// A bridge once a step was decided: a worker that has stopped no longer works.
pub open spec fn bridge_after(bridge: BridgeView, step: RunStep) -> BridgeView {
    if step is Stopped {
        BridgeView { status: DriveStatus { working: false, ..bridge.status }, ..bridge }
    } else {
        bridge
    }
}

impl RunTask {
    /// Begins a run.
    pub fn begin() -> (result: (RunTask, RunStep))
        ensures
            result.0@ == RunView::fresh(),
            result.1 == RunStep::Wait,
    {
        (RunTask { stage: RunStage::Waiting }, RunStep::Wait)
    }

    /// Goes on to a stage.
    fn enter(&mut self, stage: RunStage, step: RunStep) -> (entered: RunStep)
        ensures
            final(self)@ == (RunView { stage }),
            entered == step,
    {
        self.stage = stage;
        step
    }

    /// Ends the run.
    fn release(&mut self) -> (step: RunStep)
        ensures
            (final(self)@, step) == releasing(),
    {
        self.enter(
            RunStage::Releasing,
            RunStep::MotorOff { call: DeviceCall::SetMotor { enabled: false, quick: true } },
        )
    }

    /// Answers a command.
    fn serve(&mut self, command: Command) -> (step: RunStep)
        ensures
            (final(self)@, step) == serving(command),
    {
        match command {
            Command::Shutdown => self.release(),
            Command::NoClick(side) => self.enter(RunStage::Serving, RunStep::NoClick(side)),
            Command::Write { id, request } => self.enter(
                RunStage::Serving,
                RunStep::Write { id, request },
            ),
        }
    }

    /// Decides what the worker does after an event.
    pub fn next(&mut self, worker: &Worker, bridge: &mut Bridge, event: RunEvent) -> (step: RunStep)
        requires
            old(self)@.expects(event),
        ensures
            (final(self)@, step) == after(old(self)@, worker.failed, event),
            final(bridge)@ == bridge_after(old(bridge)@, step),
            old(bridge).wf() ==> final(bridge).wf(),
    {
        match self.stage {
            RunStage::Waiting => match event {
                RunEvent::Command(command) => self.serve(command),
                RunEvent::Closed => self.release(),
                _ => self.enter(RunStage::Draining, RunStep::TakeCommand),
            },
            RunStage::Draining => match event {
                RunEvent::Command(command) => self.serve(command),
                _ => self.enter(RunStage::Wishing, RunStep::Wish),
            },
            RunStage::Serving => if worker.failed {
                self.release()
            } else {
                self.enter(RunStage::Draining, RunStep::TakeCommand)
            },
            RunStage::Wishing => if worker.failed {
                self.release()
            } else {
                self.enter(RunStage::Refreshing, RunStep::Status)
            },
            RunStage::Refreshing => if worker.failed {
                self.release()
            } else {
                self.enter(RunStage::Capturing, RunStep::Capture)
            },
            RunStage::Capturing => if worker.failed {
                self.release()
            } else {
                match event {
                    RunEvent::Captured { taken: true } => self.enter(
                        RunStage::Draining,
                        RunStep::TakeCommand,
                    ),
                    _ => self.enter(RunStage::Waiting, RunStep::Wait),
                }
            },
            RunStage::Releasing | RunStage::Stopped => {
                Worker::stopped(bridge);
                self.enter(RunStage::Stopped, RunStep::Stopped)
            },
        }
    }
}

/// Where a run is after some events, each with whether the drive was lost by
/// then, and the steps it has taken.
pub open spec fn trace(inputs: Seq<(bool, RunEvent)>) -> (RunView, Seq<RunStep>)
    decreases inputs.len(),
{
    if inputs.len() == 0 {
        (RunView::fresh(), seq![RunStep::Wait])
    } else {
        let before = trace(inputs.drop_last());
        let now = after(before.0, inputs.last().0, inputs.last().1);
        (now.0, before.1.push(now.1))
    }
}

/// Whether every event can come when it comes.
pub open spec fn admissible(inputs: Seq<(bool, RunEvent)>) -> bool
    decreases inputs.len(),
{
    inputs.len() == 0 || (admissible(inputs.drop_last()) && trace(
        inputs.drop_last(),
    ).0.expects(inputs.last().1))
}

/// Whether no step among the first ones ends a run.
pub open spec fn goes_on(steps: Seq<RunStep>, count: int) -> bool {
    forall|i: int|
        0 <= i < count ==> (#[trigger] steps[i]) !is MotorOff && steps[i] !is Stopped
}

proof fn lemma_steps(inputs: Seq<(bool, RunEvent)>)
    requires
        admissible(inputs),
    ensures
        ({
            let (run, steps) = trace(inputs);
            let count = steps.len() as int;
            match run.stage {
                RunStage::Releasing => {
                    &&& count >= 1
                    &&& steps[count - 1] == (RunStep::MotorOff { call: last_call() })
                    &&& goes_on(steps, count - 1)
                },
                RunStage::Stopped => {
                    &&& count >= 2
                    &&& steps[count - 1] is Stopped
                    &&& steps[count - 2] == (RunStep::MotorOff { call: last_call() })
                    &&& goes_on(steps, count - 2)
                },
                _ => goes_on(steps, count),
            }
        }),
    decreases inputs.len(),
{
    if inputs.len() > 0 {
        lemma_steps(inputs.drop_last());
        let before = trace(inputs.drop_last());
        let now = after(before.0, inputs.last().0, inputs.last().1);
        let steps = before.1.push(now.1);
        assert(forall|i: int| 0 <= i < before.1.len() ==> steps[i] == before.1[i]);
    }
}

/// However a run ends, the motor is turned off exactly once, nothing is asked
/// of the device after that, and the bridge then shows that the worker has
/// stopped.
pub proof fn law_motor_off_is_last(inputs: Seq<(bool, RunEvent)>, bridge: BridgeView)
    requires
        admissible(inputs),
        trace(inputs).0.stage == RunStage::Stopped,
    ensures
        ({
            let steps = trace(inputs).1;
            let count = steps.len() as int;
            &&& count >= 2
            &&& steps[count - 2] == (RunStep::MotorOff {
                call: DeviceCall::SetMotor { enabled: false, quick: true },
            })
            &&& steps[count - 1] is Stopped
            &&& !bridge_after(bridge, steps[count - 1]).status.working
            &&& forall|i: int| 0 <= i < count - 2 ==> (#[trigger] steps[i]) !is MotorOff
                && steps[i] !is Stopped
        }),
{
    lemma_steps(inputs);
}

/// A run ends for three causes and no other: it is told to stop, no command can
/// come any more, or the drive is lost. Once it has begun to end, it has
/// stopped after the next event.
pub proof fn law_run_ends_for_cause(run: RunView, failed: bool, event: RunEvent)
    requires
        run.expects(event),
    ensures
        after(run, failed, event).1 is MotorOff <==> {
            ||| event is Closed
            ||| event == RunEvent::Command(Command::Shutdown)
            ||| failed && (event is StageDone || event is Captured)
        },
        run.stage == RunStage::Releasing <==> after(run, failed, event).1 is Stopped,
{
}

/// Every pass keeps its order: a capture begins only after the drive state was
/// looked at, that only after the latest wish was answered, and that only when
/// no command waits.
pub proof fn law_pass_keeps_its_order(run: RunView, failed: bool, event: RunEvent)
    requires
        run.expects(event),
    ensures
        after(run, failed, event).1 is Capture ==> run.stage == RunStage::Refreshing,
        after(run, failed, event).1 is Status ==> run.stage == RunStage::Wishing,
        after(run, failed, event).1 is Wish ==> run.stage == RunStage::Draining
            && event is NoCommand,
        after(run, failed, event).0.stage == RunStage::Refreshing ==> run.stage
            == RunStage::Wishing,
        after(run, failed, event).0.stage == RunStage::Wishing ==> run.stage
            == RunStage::Draining,
{
}

/// A number of milliseconds after another.
pub open spec fn later(now_ms: u64, interval_ms: u64) -> u64 {
    if now_ms + interval_ms > u64::MAX {
        u64::MAX
    } else {
        (now_ms + interval_ms) as u64
    }
}

/// When the drive state is refreshed again, if it is refreshed now.
pub open spec fn next_refresh(now_ms: u64, due_ms: u64) -> Option<u64> {
    if now_ms < due_ms {
        None
    } else {
        Some(later(now_ms, STATUS_INTERVAL_MS))
    }
}

/// Decides whether the drive state is refreshed now, and when it is again.
pub fn refresh_due(now_ms: u64, due_ms: u64) -> (next: Option<u64>)
    ensures
        next == next_refresh(now_ms, due_ms),
{
    if now_ms < due_ms {
        return None;
    }
    Some(now_ms.saturating_add(STATUS_INTERVAL_MS))
}

/// The drive state is refreshed at a bounded cadence: not again before the
/// interval is over, and again as soon as it is.
pub proof fn law_refreshes_are_spaced(now_ms: u64, due_ms: u64, then_ms: u64)
    requires
        now_ms >= due_ms,
        now_ms + STATUS_INTERVAL_MS <= u64::MAX,
    ensures
        next_refresh(now_ms, due_ms) matches Some(next) && (next_refresh(then_ms, next) is Some
            <==> then_ms >= now_ms + STATUS_INTERVAL_MS),
{
}

} // verus!
