//! One write, from the worker's queue to the disk.

use vstd::prelude::*;

use super::approach;
use super::approach::{Approach, ApproachView};
use super::worker::{DeviceCall, Worker};
use super::{Bridge, BridgeView};
use crate::controller;
use crate::error::{ErrorView, Result};
use crate::types::{BridgeEvent, BridgeEventView, TrackAddress, WriteId, WriteRequest};

verus! {

/// How far a write has come.
#[derive(Debug, Clone, Copy, PartialEq, Eq, Structural)]
pub enum WriteStage {
    /// The head is being moved to the track.
    Moving,
    /// The track is being written.
    Writing,
    /// The write has ended.
    Finished,
}

/// A write in progress.
#[derive(Debug)]
pub struct WriteTask {
    id: WriteId,
    words: Vec<u16>,
    bit_len: usize,
    start_bit: usize,
    way: Approach,
    stage: WriteStage,
}

/// A [`WriteTask`] with its words and calls as sequences.
pub struct WriteTaskView {
    /// Identifier of the write.
    pub id: WriteId,
    /// Packed words.
    pub words: Seq<u16>,
    /// Exact number of meaningful bits.
    pub bit_len: int,
    /// Rotational bit position at which writing began.
    pub start_bit: int,
    /// Way to the destination track.
    pub way: ApproachView,
    /// How far the write has come.
    pub stage: WriteStage,
}

impl View for WriteTask {
    type V = WriteTaskView;

    closed spec fn view(&self) -> WriteTaskView {
        WriteTaskView {
            id: self.id,
            words: self.words@,
            bit_len: self.bit_len as int,
            start_bit: self.start_bit as int,
            way: self.way@,
            stage: self.stage,
        }
    }
}

/// What to do next for a write.
#[derive(Debug)]
pub enum WriteStep {
    /// Make a call into the device.
    Call(DeviceCall),
    /// Write the track.
    Write {
        /// Whether writing starts at the index pulse.
        from_index: bool,
    },
    /// Report how the write ended.
    Report(BridgeEvent),
}

/// A bridge that has forgotten the track of a write.
pub open spec fn bridge_written(bridge: BridgeView, track: TrackAddress) -> BridgeView {
    BridgeView { captures: bridge.captures.remove(track), ..bridge }
}

impl WriteTaskView {
    /// A write that is about to begin.
    pub open spec fn fresh(worker: Worker, id: WriteId, request: WriteRequest) -> WriteTaskView {
        WriteTaskView {
            id,
            words: request.words@,
            bit_len: request.bit_len as int,
            start_bit: request.start_bit as int,
            way: ApproachView::planned(worker, request.track),
            stage: WriteStage::Moving,
        }
    }

    /// The event that ends a write.
    pub open spec fn ended(self, outcome: core::result::Result<(), ErrorView>) -> BridgeEventView {
        match outcome {
            Ok(()) => BridgeEventView::WriteCompleted {
                id: self.id,
                track: self.way.track,
                bit_len: self.bit_len,
            },
            Err(error) => BridgeEventView::WriteFailed {
                id: self.id,
                track: self.way.track,
                error,
            },
        }
    }

    /// Bits of the track as far as they are known.
    pub open spec fn track_bits(self, bridge: BridgeView) -> int {
        Worker::known_bits(bridge, self.way.track, self.bit_len)
    }

    /// Whether a write can be placed, given what is known of its track.
    pub open spec fn placeable(self, bridge: BridgeView) -> bool {
        controller::placeable(self.start_bit, self.bit_len, self.track_bits(bridge))
    }

    /// The error of a write that cannot be placed.
    pub open spec fn misplaced(self, bridge: BridgeView) -> ErrorView {
        ErrorView::UnplaceablePartialWrite {
            start_bit: self.start_bit,
            track_bits: self.track_bits(bridge),
        }
    }
}

/// Whether one step of a write is the right one: the next call, or, with every
/// call made, the write itself if it can be placed.
pub open spec fn advances(
    worker: Worker,
    bridge: BridgeView,
    task: WriteTaskView,
    after_worker: Worker,
    after_bridge: BridgeView,
    after_task: WriteTaskView,
    step: WriteStep,
) -> bool {
    if task.way.remaining.len() > 0 {
        &&& step == WriteStep::Call(task.way.remaining[0])
        &&& after_worker == worker
        &&& after_bridge == bridge
        &&& after_task == task
    } else {
        let arrived = bridge.with_head(worker);
        &&& after_worker == (Worker { positioned: true, ..worker })
        &&& if task.placeable(bridge) {
            &&& step == (WriteStep::Write {
                from_index: controller::starts_at_index(task.start_bit, task.track_bits(bridge)),
            })
            &&& after_bridge == arrived
            &&& after_task == WriteTaskView { stage: WriteStage::Writing, ..task }
        } else {
            &&& step matches WriteStep::Report(event)
            &&& event@ == task.ended(Err(task.misplaced(bridge)))
            &&& after_bridge == bridge_written(arrived, task.way.track)
            &&& after_task == WriteTaskView { stage: WriteStage::Finished, ..task }
        }
    }
}

/// Whether one step ends a write.
pub open spec fn finishes(
    bridge: BridgeView,
    task: WriteTaskView,
    outcome: core::result::Result<(), ErrorView>,
    after_bridge: BridgeView,
    after_task: WriteTaskView,
    step: WriteStep,
) -> bool {
    &&& step matches WriteStep::Report(event)
    &&& event@ == task.ended(outcome)
    &&& after_bridge == bridge_written(bridge, task.way.track)
    &&& after_task == WriteTaskView { stage: WriteStage::Finished, ..task }
}

/// Whether a worker is on the way to the track of a write, with a call left to
/// make.
pub open spec fn on_the_way(worker: Worker, task: WriteTaskView) -> bool {
    task.way.remaining.len() > 0 && task.way.leads(worker)
}

impl WriteTask {
    /// Whether the way to the track is well formed.
    pub closed spec fn wf(self) -> bool {
        self.way.wf()
    }

    /// Packed words of the track.
    pub fn words(&self) -> (words: &[u16])
        ensures
            words@ == self@.words,
    {
        self.words.as_slice()
    }

    /// Exact number of meaningful bits.
    pub fn bit_len(&self) -> (bits: usize)
        ensures
            bits == self@.bit_len,
    {
        self.bit_len
    }

    /// Takes the next step of a write that is moving.
    fn advance(&mut self, worker: &mut Worker, bridge: &mut Bridge) -> (step: WriteStep)
        requires
            old(self).wf(),
            old(bridge).wf(),
            old(self)@.stage == WriteStage::Moving,
        ensures
            final(self).wf(),
            final(bridge).wf(),
            advances(
                *old(worker),
                old(bridge)@,
                old(self)@,
                *final(worker),
                final(bridge)@,
                final(self)@,
                step,
            ),
    {
        match self.way.next() {
            Some(call) => WriteStep::Call(call),
            None => {
                worker.arrived(bridge);
                match worker.plan_write(bridge, self.way.track(), self.start_bit, self.bit_len) {
                    Ok(from_index) => {
                        self.stage = WriteStage::Writing;
                        WriteStep::Write { from_index }
                    },
                    Err(error) => {
                        self.stage = WriteStage::Finished;
                        let track = self.way.track();
                        WriteStep::Report(
                            Worker::finish_write(
                                bridge,
                                self.id,
                                track,
                                self.bit_len,
                                Err(error),
                            ),
                        )
                    },
                }
            },
        }
    }

    /// Begins a write.
    ///
    /// Both coordinates are restored before every write. Automatic caching may
    /// have moved either one since the request was queued.
    pub fn begin(worker: &mut Worker, bridge: &mut Bridge, id: WriteId, request: WriteRequest) -> (
    result: (WriteTask, WriteStep))
        requires
            old(bridge).wf(),
        ensures
            result.0.wf(),
            final(bridge).wf(),
            advances(
                *old(worker),
                old(bridge)@,
                WriteTaskView::fresh(*old(worker), id, request),
                *final(worker),
                final(bridge)@,
                result.0@,
                result.1,
            ),
            result.1 is Write ==> final(worker).positioned && final(worker).physical
                == request.track,
            result.0@.stage == WriteStage::Moving ==> on_the_way(*final(worker), result.0@),
    {
        let way = Approach::plan(worker, request.track);
        proof {
            approach::law_way_keeps_leading(*worker, way@);
        }
        let WriteRequest { track: _, words, bit_len, start_bit } = request;
        let mut task = WriteTask { id, words, bit_len, start_bit, way, stage: WriteStage::Moving };
        let step = task.advance(worker, bridge);
        (task, step)
    }

    /// Goes on with a write once its last step has been answered.
    ///
    /// The track is written only where the worker knows the head to be on it.
    pub fn answered(&mut self, worker: &mut Worker, bridge: &mut Bridge, answer: Result<()>) -> (
    step: WriteStep)
        requires
            old(self).wf(),
            old(bridge).wf(),
            old(self)@.stage != WriteStage::Finished,
            old(self)@.stage == WriteStage::Moving ==> on_the_way(*old(worker), old(self)@),
        ensures
            final(self).wf(),
            final(bridge).wf(),
            match answer {
                Err(error) => {
                    &&& *final(worker) == *old(worker)
                    &&& finishes(
                        old(bridge)@,
                        old(self)@,
                        Err(error@),
                        final(bridge)@,
                        final(self)@,
                        step,
                    )
                },
                Ok(()) => if old(self)@.stage == WriteStage::Writing {
                    &&& *final(worker) == *old(worker)
                    &&& finishes(
                        old(bridge)@,
                        old(self)@,
                        Ok(()),
                        final(bridge)@,
                        final(self)@,
                        step,
                    )
                } else {
                    advances(
                        old(worker).confirmed(old(self)@.way.remaining[0]),
                        old(bridge)@,
                        WriteTaskView { way: old(self)@.way.stepped(), ..old(self)@ },
                        *final(worker),
                        final(bridge)@,
                        final(self)@,
                        step,
                    )
                },
            },
            step is Write ==> final(worker).positioned && final(worker).physical
                == old(self)@.way.track,
            final(self)@.stage == WriteStage::Moving ==> on_the_way(*final(worker), final(self)@),
    {
        if self.stage == WriteStage::Writing || answer.is_err() {
            self.stage = WriteStage::Finished;
            let track = self.way.track();
            return WriteStep::Report(
                Worker::finish_write(bridge, self.id, track, self.bit_len, answer),
            );
        }
        self.way.advance(worker);
        proof {
            approach::law_way_keeps_leading(*worker, self.way@);
        }
        self.advance(worker, bridge)
    }
}

} // verus!
