//! The step used by track-zero disk-change detection.

use vstd::prelude::*;

use super::worker::{DeviceCall, ErrorStep, Worker};
use super::Bridge;
use crate::error::Result;
use crate::types::{BridgeEvent, BridgeEventView, Side};

verus! {

/// How far a no-click step has come.
#[derive(Debug, Clone, Copy, PartialEq, Eq, Structural)]
pub enum ClickStage {
    /// The side is being selected.
    Selecting(Side),
    /// The step is being made.
    Stepping,
    /// Nothing is left to do.
    Made,
}

/// A no-click step in progress.
#[derive(Debug)]
pub struct ClickTask {
    stage: ClickStage,
}

impl View for ClickTask {
    type V = ClickStage;

    closed spec fn view(&self) -> ClickStage {
        self.stage
    }
}

/// What to do next for a no-click step.
#[derive(Debug)]
pub enum ClickStep {
    /// Make a call into the device.
    Call(DeviceCall),
    /// Nothing is left to do.
    Rest,
    /// Report that the drive is lost, and stop.
    Lost(BridgeEvent),
}

impl ClickTask {
    /// Begins a no-click step on a side.
    pub fn begin(side: Side) -> (result: (ClickTask, ClickStep))
        ensures
            result.0@ == ClickStage::Selecting(side),
            result.1 == ClickStep::Call(DeviceCall::SelectSide(side)),
    {
        (
            ClickTask { stage: ClickStage::Selecting(side) },
            ClickStep::Call(DeviceCall::SelectSide(side)),
        )
    }

    /// Goes on once the last call has been answered.
    ///
    /// The side is then where the head is, so it is confirmed like any other
    /// move.
    pub fn answered(&mut self, worker: &mut Worker, bridge: &mut Bridge, answer: Result<()>) -> (
    step: ClickStep)
        requires
            old(self)@ != ClickStage::Made,
        ensures
            old(bridge).wf() ==> final(bridge).wf(),
            match answer {
                Err(error) => {
                    &&& *final(worker) == old(worker).after_error(error@)
                    &&& final(bridge)@ == old(worker).bridge_after_error(old(bridge)@, error@)
                    &&& final(self)@ == ClickStage::Made
                    &&& if old(worker).loses_drive(error@) {
                        step matches ClickStep::Lost(event) && event@
                            == BridgeEventView::Disconnected(error@)
                    } else {
                        step == ClickStep::Rest
                    }
                },
                Ok(()) => {
                    &&& final(bridge)@ == old(bridge)@
                    &&& match old(self)@ {
                        ClickStage::Selecting(side) => {
                            &&& *final(worker) == old(worker).confirmed(
                                DeviceCall::SelectSide(side),
                            )
                            &&& final(self)@ == ClickStage::Stepping
                            &&& step == ClickStep::Call(DeviceCall::NoClickStep)
                        },
                        _ => {
                            &&& *final(worker) == *old(worker)
                            &&& final(self)@ == ClickStage::Made
                            &&& step == ClickStep::Rest
                        },
                    }
                },
            },
    {
        match answer {
            Err(error) => {
                self.stage = ClickStage::Made;
                match worker.note_error(bridge, error) {
                    ErrorStep::Continue => ClickStep::Rest,
                    ErrorStep::Lost(event) => ClickStep::Lost(event),
                }
            },
            Ok(()) => match self.stage {
                ClickStage::Selecting(side) => {
                    worker.confirm(DeviceCall::SelectSide(side));
                    self.stage = ClickStage::Stepping;
                    ClickStep::Call(DeviceCall::NoClickStep)
                },
                _ => {
                    self.stage = ClickStage::Made;
                    ClickStep::Rest
                },
            },
        }
    }
}

} // verus!
