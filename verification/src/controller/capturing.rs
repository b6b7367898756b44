//! One capture, from the worker's choice to the cache.

use vstd::prelude::*;

use super::approach;
use super::approach::{Approach, ApproachView};
use super::worker;
use super::worker::{CaptureStep, DeviceCall, ErrorStep, Worker};
use super::{Bridge, BridgeView};
use crate::device::RawCapture;
use crate::error::{ErrorView, Result};
use crate::types::{BridgeEvent, BridgeEventView, TrackAddress};

verus! {

/// A capture in progress.
#[derive(Debug)]
pub struct CaptureTask {
    way: Approach,
}

impl View for CaptureTask {
    type V = ApproachView;

    closed spec fn view(&self) -> ApproachView {
        self.way@
    }
}

/// What to do next for a capture.
#[derive(Debug)]
pub enum CaptureAction {
    /// Make a call into the device.
    Call(DeviceCall),
    /// Read the track.
    Read,
    /// Give up for now.
    Rest,
    /// Report that the drive is lost, and stop.
    Lost(BridgeEvent),
}

/// Whether one step of a capture is the right one: the next call, or, with
/// every call made, the read.
pub open spec fn advances(
    worker: Worker,
    bridge: BridgeView,
    way: ApproachView,
    after_worker: Worker,
    after_bridge: BridgeView,
    action: CaptureAction,
) -> bool {
    if way.remaining.len() > 0 {
        &&& action == CaptureAction::Call(way.remaining[0])
        &&& after_worker == worker
        &&& after_bridge == bridge
    } else {
        &&& action == CaptureAction::Read
        &&& after_worker == (Worker { positioned: true, ..worker })
        &&& after_bridge == bridge.with_head(worker)
    }
}

/// Whether an error is answered as it should be.
pub open spec fn gives_up(
    worker: Worker,
    bridge: BridgeView,
    error: ErrorView,
    after_worker: Worker,
    after_bridge: BridgeView,
    action: CaptureAction,
) -> bool {
    &&& after_worker == worker.after_error(error)
    &&& after_bridge == worker.bridge_after_error(bridge, error)
    &&& if worker.loses_drive(error) {
        action matches CaptureAction::Lost(event) && event@ == BridgeEventView::Disconnected(error)
    } else {
        action == CaptureAction::Rest
    }
}

impl CaptureTask {
    /// Whether the way to the track is well formed.
    pub closed spec fn wf(self) -> bool {
        self.way.wf()
    }

    /// Returns the track that is captured.
    pub fn track(&self) -> (track: TrackAddress)
        ensures
            track == self@.track,
    {
        self.way.track()
    }

    /// Takes the next step of a capture that is moving.
    fn advance(&mut self, worker: &mut Worker, bridge: &mut Bridge) -> (action: CaptureAction)
        requires
            old(self).wf(),
            old(bridge).wf(),
        ensures
            final(self).wf(),
            final(bridge).wf(),
            final(self)@ == old(self)@,
            advances(
                *old(worker),
                old(bridge)@,
                old(self)@,
                *final(worker),
                final(bridge)@,
                action,
            ),
    {
        match self.way.next() {
            Some(call) => CaptureAction::Call(call),
            None => {
                worker.arrived(bridge);
                CaptureAction::Read
            },
        }
    }

    /// Begins the capture that is most wanted, if one is.
    pub fn begin(worker: &mut Worker, bridge: &mut Bridge) -> (result: Option<
        (CaptureTask, CaptureAction),
    >)
        requires
            old(bridge).wf(),
        ensures
            final(bridge).wf(),
            match old(worker).wanted(old(bridge)@) {
                Some(track) => {
                    &&& result matches Some((task, action))
                    &&& task.wf()
                    &&& task@ == ApproachView::planned(*old(worker), track)
                    &&& advances(
                        old(worker).chosen(old(bridge)@),
                        old(bridge)@,
                        task@,
                        *final(worker),
                        final(bridge)@,
                        action,
                    )
                    &&& task@.leads(*final(worker))
                    &&& action is Read ==> final(worker).positioned && final(worker).physical
                        == track
                },
                None => {
                    &&& result is None
                    &&& *final(worker) == old(worker).chosen(old(bridge)@)
                    &&& final(bridge)@ == old(bridge)@
                },
            },
    {
        match worker.choose_capture(bridge) {
            Some(track) => {
                let way = Approach::plan(worker, track);
                proof {
                    approach::law_way_keeps_leading(*worker, way@);
                }
                let mut task = CaptureTask { way };
                let ghost chosen = *worker;
                let action = task.advance(worker, bridge);
                proof {
                    lemma_leads_ignores_positioned(chosen, task@);
                }
                Some((task, action))
            },
            None => None,
        }
    }

    /// Goes on with a capture once its last call has been answered.
    ///
    /// The track is read only where the worker knows the head to be on it.
    pub fn answered(&mut self, worker: &mut Worker, bridge: &mut Bridge, answer: Result<()>) -> (
    action: CaptureAction)
        requires
            old(self).wf(),
            old(bridge).wf(),
            old(self)@.remaining.len() > 0,
            old(self)@.leads(*old(worker)),
        ensures
            final(self).wf(),
            final(bridge).wf(),
            match answer {
                Ok(()) => {
                    &&& final(self)@ == old(self)@.stepped()
                    &&& advances(
                        old(worker).confirmed(old(self)@.remaining[0]),
                        old(bridge)@,
                        final(self)@,
                        *final(worker),
                        final(bridge)@,
                        action,
                    )
                    &&& final(self)@.leads(*final(worker))
                },
                Err(error) => {
                    &&& final(self)@ == old(self)@
                    &&& gives_up(
                        *old(worker),
                        old(bridge)@,
                        error@,
                        *final(worker),
                        final(bridge)@,
                        action,
                    )
                },
            },
            action is Read ==> final(worker).positioned && final(worker).physical
                == old(self)@.track,
    {
        match answer {
            Ok(()) => {
                self.way.advance(worker);
                proof {
                    approach::law_way_keeps_leading(*worker, self.way@);
                    lemma_leads_ignores_positioned(*worker, self.way@);
                }
                self.advance(worker, bridge)
            },
            Err(error) => match worker.note_error(bridge, error) {
                ErrorStep::Continue => CaptureAction::Rest,
                ErrorStep::Lost(event) => CaptureAction::Lost(event),
            },
        }
    }

    /// Takes what the read has given, and withdraws what was published of it
    /// while it was arriving.
    pub fn finish(self, worker: &mut Worker, bridge: &mut Bridge, result: Result<RawCapture>) -> (
    step: CaptureStep)
        requires
            old(bridge).wf(),
        ensures
            final(bridge).wf(),
            worker::took_capture(
                *old(worker),
                BridgeView { partial: None, ..old(bridge)@ },
                self@.track,
                result,
                *final(worker),
                final(bridge)@,
                step,
            ),
    {
        bridge.withdraw_partial();
        let track = self.way.track();
        worker.take_capture(bridge, track, result)
    }
}

/// Where calls lead does not depend on whether the head was known to be in
/// position.
proof fn lemma_leads_ignores_positioned(worker: Worker, way: ApproachView)
    ensures
        way.leads(worker) == way.leads(Worker { positioned: true, ..worker }),
{
    lemma_confirmed_positioned(worker, way.remaining);
}

proof fn lemma_confirmed_positioned(worker: Worker, calls: Seq<DeviceCall>)
    ensures
        worker::confirmed_by(Worker { positioned: true, ..worker }, calls) == (Worker {
            positioned: true,
            ..worker::confirmed_by(worker, calls)
        }),
    decreases calls.len(),
{
    if calls.len() > 0 {
        lemma_confirmed_positioned(worker.confirmed(calls[0]), calls.drop_first());
    }
}

} // verus!
