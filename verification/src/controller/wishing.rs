//! Answering the caller's latest wish.

use vstd::prelude::*;

use super::approach::{Approach, ApproachView};
use super::worker::{DeviceCall, ErrorStep, Worker};
use super::{Bridge, BridgeView, Desired};
use crate::error::{ErrorView, Result};
use crate::types::{BridgeEvent, BridgeEventView, DriveStatus, Side, TrackAddress};

verus! {

/// How far the answer to a wish has come.
#[derive(Debug, Clone, Copy, PartialEq, Eq, Structural)]
pub enum WishStage {
    /// The head is being moved to the track wished for.
    ToTarget,
    /// The head is being moved to the side of the motor wish.
    ToMotor,
    /// The motor is being switched.
    Switching,
    /// Nothing is left to do.
    Answered,
}

/// The answer to a wish in progress.
#[derive(Debug)]
pub struct WishTask {
    motor: Option<(Side, bool)>,
    way: Approach,
    stage: WishStage,
}

/// A [`WishTask`] with its calls as a sequence.
pub struct WishTaskView {
    /// The motor wish.
    pub motor: Option<(Side, bool)>,
    /// Way to the track being moved to.
    pub way: ApproachView,
    /// How far the answer has come.
    pub stage: WishStage,
}

impl View for WishTask {
    type V = WishTaskView;

    closed spec fn view(&self) -> WishTaskView {
        WishTaskView { motor: self.motor, way: self.way@, stage: self.stage }
    }
}

/// What to do next for a wish.
#[derive(Debug)]
pub enum WishStep {
    /// Make a call into the device.
    Call(DeviceCall),
    /// Nothing is left to do.
    Rest,
    /// Report that the drive is lost, and stop.
    Lost(BridgeEvent),
}

/// Everything a step of an answer decides.
pub struct WishState {
    /// What the worker knows.
    pub worker: Worker,
    /// What the bridge holds.
    pub bridge: BridgeView,
    /// How far the answer has come.
    pub task: WishTaskView,
    /// The call to make, if one is left.
    pub call: Option<DeviceCall>,
}

/// The step on the way to the side of a motor wish: the next call, or, with
/// every call made, the switch.
pub open spec fn toward_motor(worker: Worker, bridge: BridgeView, task: WishTaskView) -> WishState {
    if task.way.remaining.len() > 0 {
        WishState { worker, bridge, task, call: Some(task.way.remaining[0]) }
    } else {
        WishState {
            worker: Worker { positioned: true, ..worker },
            bridge: bridge.with_head(worker),
            task: WishTaskView { stage: WishStage::Switching, ..task },
            call: Some(DeviceCall::SetMotor { enabled: (task.motor->0).1, quick: false }),
        }
    }
}

/// The step after the head wish: the motor wish, if there is one.
pub open spec fn after_target(worker: Worker, bridge: BridgeView, task: WishTaskView) -> WishState {
    match task.motor {
        Some((side, _)) => toward_motor(
            worker,
            bridge,
            WishTaskView {
                way: ApproachView::planned(
                    worker,
                    TrackAddress { cylinder: worker.target.cylinder, side },
                ),
                stage: WishStage::ToMotor,
                ..task
            },
        ),
        None => WishState {
            worker,
            bridge,
            task: WishTaskView { stage: WishStage::Answered, ..task },
            call: None,
        },
    }
}

/// The step on the way to the track wished for: the next call, or, with every
/// call made, the motor wish.
pub open spec fn toward_target(
    worker: Worker,
    bridge: BridgeView,
    task: WishTaskView,
) -> WishState {
    if task.way.remaining.len() > 0 {
        WishState { worker, bridge, task, call: Some(task.way.remaining[0]) }
    } else {
        after_target(
            Worker { positioned: true, consecutive_errors: 0, ..worker },
            bridge.with_head(worker),
            task,
        )
    }
}

/// Whether a step is the one decided.
pub open spec fn takes(
    state: WishState,
    worker: Worker,
    bridge: BridgeView,
    task: WishTaskView,
    step: WishStep,
) -> bool {
    &&& worker == state.worker
    &&& bridge == state.bridge
    &&& task == state.task
    &&& step == match state.call {
        Some(call) => WishStep::Call(call),
        None => WishStep::Rest,
    }
}

/// The bridge after an unanswered wish: a motor wish behind a failed move is
/// handed back, unless a newer one has come. Only a switch that was tried is
/// not.
pub open spec fn handed_back(bridge: BridgeView, task: WishTaskView) -> BridgeView {
    if task.stage != WishStage::Switching && bridge.desired.motor is None {
        BridgeView { desired: Desired { motor: task.motor, ..bridge.desired }, ..bridge }
    } else {
        bridge
    }
}

impl WishTask {
    /// Whether the way to the track is well formed, and a motor is switched only
    /// if that is wished for.
    pub closed spec fn wf(self) -> bool {
        &&& self.way.wf()
        &&& self.stage == WishStage::ToMotor || self.stage == WishStage::Switching
            ==> self.motor is Some
    }

    fn advance_to_motor(&mut self, worker: &mut Worker, bridge: &mut Bridge) -> (step: WishStep)
        requires
            old(self).wf(),
            old(bridge).wf(),
            old(self)@.stage == WishStage::ToMotor,
        ensures
            final(self).wf(),
            final(bridge).wf(),
            takes(
                toward_motor(*old(worker), old(bridge)@, old(self)@),
                *final(worker),
                final(bridge)@,
                final(self)@,
                step,
            ),
    {
        match self.way.next() {
            Some(call) => WishStep::Call(call),
            None => {
                worker.arrived(bridge);
                self.stage = WishStage::Switching;
                match self.motor {
                    Some((_, enabled)) => WishStep::Call(Worker::motor_call(enabled)),
                    None => WishStep::Rest,
                }
            },
        }
    }

    fn advance_past_target(&mut self, worker: &mut Worker, bridge: &mut Bridge) -> (step: WishStep)
        requires
            old(self).wf(),
            old(bridge).wf(),
        ensures
            final(self).wf(),
            final(bridge).wf(),
            takes(
                after_target(*old(worker), old(bridge)@, old(self)@),
                *final(worker),
                final(bridge)@,
                final(self)@,
                step,
            ),
    {
        match self.motor {
            Some((side, _)) => {
                let track = worker.motor_track(side);
                self.way = Approach::plan(worker, track);
                self.stage = WishStage::ToMotor;
                self.advance_to_motor(worker, bridge)
            },
            None => {
                self.stage = WishStage::Answered;
                WishStep::Rest
            },
        }
    }

    fn advance_to_target(&mut self, worker: &mut Worker, bridge: &mut Bridge) -> (step: WishStep)
        requires
            old(self).wf(),
            old(bridge).wf(),
            old(self)@.stage == WishStage::ToTarget,
        ensures
            final(self).wf(),
            final(bridge).wf(),
            takes(
                toward_target(*old(worker), old(bridge)@, old(self)@),
                *final(worker),
                final(bridge)@,
                final(self)@,
                step,
            ),
    {
        match self.way.next() {
            Some(call) => WishStep::Call(call),
            None => {
                worker.arrived(bridge);
                worker.succeeded();
                self.advance_past_target(worker, bridge)
            },
        }
    }

    /// Takes the caller's latest wish and begins to answer it.
    ///
    /// A capture is then only ever begun with the freshest view of what the
    /// machine wants.
    pub fn begin(worker: &mut Worker, bridge: &mut Bridge) -> (result: (WishTask, WishStep))
        requires
            old(bridge).wf(),
        ensures
            result.0.wf(),
            final(bridge).wf(),
            ({
                let wish = old(bridge)@.desired;
                let taken = BridgeView {
                    desired: Desired { motor: None, target: None },
                    ..old(bridge)@
                };
                match wish.target {
                    Some(target) => {
                        let aimed = Worker { target, ..*old(worker) };
                        takes(
                            toward_target(
                                aimed,
                                taken,
                                WishTaskView {
                                    motor: wish.motor,
                                    way: ApproachView::planned(aimed, target),
                                    stage: WishStage::ToTarget,
                                },
                            ),
                            *final(worker),
                            final(bridge)@,
                            result.0@,
                            result.1,
                        )
                    },
                    None => takes(
                        after_target(
                            *old(worker),
                            taken,
                            WishTaskView {
                                motor: wish.motor,
                                way: ApproachView::planned(*old(worker), old(worker).target),
                                stage: WishStage::ToTarget,
                            },
                        ),
                        *final(worker),
                        final(bridge)@,
                        result.0@,
                        result.1,
                    ),
                }
            }),
    {
        let wish = bridge.take_wish();
        match wish.target {
            Some(target) => {
                worker.aim(target);
                let way = Approach::plan(worker, target);
                let mut task = WishTask { motor: wish.motor, way, stage: WishStage::ToTarget };
                let step = task.advance_to_target(worker, bridge);
                (task, step)
            },
            None => {
                let way = Approach::plan(worker, worker.target);
                let mut task = WishTask { motor: wish.motor, way, stage: WishStage::ToTarget };
                let step = task.advance_past_target(worker, bridge);
                (task, step)
            },
        }
    }

    /// Goes on with a wish once its last call has been answered.
    pub fn answered(&mut self, worker: &mut Worker, bridge: &mut Bridge, answer: Result<()>) -> (
    step: WishStep)
        requires
            old(self).wf(),
            old(bridge).wf(),
            old(self)@.stage != WishStage::Answered,
            old(self)@.stage != WishStage::Switching ==> old(self)@.way.remaining.len() > 0,
        ensures
            final(self).wf(),
            final(bridge).wf(),
            match answer {
                Err(error) => {
                    let bridge_before = handed_back(old(bridge)@, old(self)@);
                    &&& *final(worker) == old(worker).after_error(error@)
                    &&& final(bridge)@ == old(worker).bridge_after_error(bridge_before, error@)
                    &&& final(self)@ == WishTaskView { stage: WishStage::Answered, ..old(self)@ }
                    &&& if old(worker).loses_drive(error@) {
                        step matches WishStep::Lost(event) && event@
                            == BridgeEventView::Disconnected(error@)
                    } else {
                        step == WishStep::Rest
                    }
                },
                Ok(()) => {
                    let way = old(self)@.way.stepped();
                    let confirmed = old(worker).confirmed(old(self)@.way.remaining[0]);
                    match old(self)@.stage {
                        WishStage::ToTarget => takes(
                            toward_target(
                                confirmed,
                                old(bridge)@,
                                WishTaskView { way, ..old(self)@ },
                            ),
                            *final(worker),
                            final(bridge)@,
                            final(self)@,
                            step,
                        ),
                        WishStage::ToMotor => takes(
                            toward_motor(
                                confirmed,
                                old(bridge)@,
                                WishTaskView { way, ..old(self)@ },
                            ),
                            *final(worker),
                            final(bridge)@,
                            final(self)@,
                            step,
                        ),
                        _ => {
                            &&& *final(worker) == (Worker {
                                consecutive_errors: 0,
                                ..*old(worker)
                            })
                            &&& final(bridge)@ == (BridgeView {
                                status: DriveStatus {
                                    motor_running: (old(self)@.motor->0).1,
                                    ..old(bridge)@.status
                                },
                                ..old(bridge)@
                            })
                            &&& final(self)@ == WishTaskView {
                                stage: WishStage::Answered,
                                ..old(self)@
                            }
                            &&& step == WishStep::Rest
                        },
                    }
                },
            },
    {
        match answer {
            Err(error) => {
                if self.stage != WishStage::Switching {
                    bridge.return_motor_wish(self.motor);
                }
                self.stage = WishStage::Answered;
                match worker.note_error(bridge, error) {
                    ErrorStep::Continue => WishStep::Rest,
                    ErrorStep::Lost(event) => WishStep::Lost(event),
                }
            },
            Ok(()) => match self.stage {
                WishStage::ToTarget => {
                    self.way.advance(worker);
                    self.advance_to_target(worker, bridge)
                },
                WishStage::ToMotor => {
                    self.way.advance(worker);
                    self.advance_to_motor(worker, bridge)
                },
                _ => {
                    match self.motor {
                        Some((_, enabled)) => worker.motor_switched(bridge, enabled),
                        None => {},
                    }
                    self.stage = WishStage::Answered;
                    WishStep::Rest
                },
            },
        }
    }
}

/// A motor wish is not dropped when a move before it fails, to the track wished
/// for or to the motor's own side: it is handed back, unless a newer one has
/// come.
pub proof fn law_motor_wish_survives_failed_move(bridge: BridgeView, task: WishTaskView)
    requires
        task.stage == WishStage::ToTarget || task.stage == WishStage::ToMotor,
        task.motor is Some,
    ensures
        handed_back(bridge, task).desired.motor is Some,
        bridge.desired.motor is None ==> handed_back(bridge, task).desired.motor == task.motor,
        bridge.desired.motor is Some ==> handed_back(bridge, task).desired.motor
            == bridge.desired.motor,
{
}

} // verus!
