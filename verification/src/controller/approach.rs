//! Moving the head to a track, one call at a time.

use vstd::prelude::*;

use super::worker;
use super::worker::{DeviceCall, Worker};
use crate::types::TrackAddress;

verus! {

/// A way to a track.
#[derive(Debug)]
pub struct Approach {
    track: TrackAddress,
    calls: Vec<DeviceCall>,
    made: usize,
}

/// An [`Approach`] with its calls as a sequence.
pub struct ApproachView {
    /// Where the way leads.
    pub track: TrackAddress,
    /// Calls still to be made.
    pub remaining: Seq<DeviceCall>,
}

impl View for Approach {
    type V = ApproachView;

    closed spec fn view(&self) -> ApproachView {
        ApproachView { track: self.track, remaining: self.calls@.skip(self.made as int) }
    }
}

impl ApproachView {
    /// The way a worker takes to a track.
    pub open spec fn planned(worker: Worker, track: TrackAddress) -> ApproachView {
        ApproachView {
            track,
            remaining: worker::moves(worker.physical, worker.positioned, track),
        }
    }

    /// The same way with its first call made.
    pub open spec fn stepped(self) -> ApproachView {
        ApproachView { remaining: self.remaining.drop_first(), ..self }
    }

    /// Whether the calls still to be made bring a worker to the track.
    pub open spec fn leads(self, worker: Worker) -> bool {
        worker::confirmed_by(worker, self.remaining).physical == self.track
    }
}

/// A planned way leads to its track.
pub proof fn law_planned_way_leads(worker: Worker, track: TrackAddress)
    ensures
        ApproachView::planned(worker, track).leads(worker),
{
    worker::law_position_reaches_track(
        Worker { positioned: worker.positioned, ..worker },
        worker.physical,
        track,
    );
}

/// A way keeps leading to its track with every call that succeeds, and has
/// arrived once no call is left.
pub proof fn law_way_keeps_leading(worker: Worker, way: ApproachView)
    requires
        way.leads(worker),
    ensures
        way.remaining.len() == 0 ==> worker.physical == way.track,
        way.remaining.len() > 0 ==> way.stepped().leads(worker.confirmed(way.remaining[0])),
{
}

impl Approach {
    /// Whether no more calls were made than planned.
    pub closed spec fn wf(self) -> bool {
        self.made <= self.calls@.len()
    }

    /// Plans the way to a track.
    pub fn plan(worker: &Worker, track: TrackAddress) -> (way: Approach)
        ensures
            way.wf(),
            way@ == ApproachView::planned(*worker, track),
            way@.leads(*worker),
    {
        proof {
            law_planned_way_leads(*worker, track);
        }
        let calls = worker.position_plan(track);
        assert(calls@.skip(0) == calls@);
        Approach { track, calls, made: 0 }
    }

    /// Returns where the way leads.
    pub fn track(&self) -> (track: TrackAddress)
        ensures
            track == self@.track,
    {
        self.track
    }

    /// Returns the next call, if one is left.
    pub fn next(&self) -> (call: Option<DeviceCall>)
        requires
            self.wf(),
        ensures
            match call {
                Some(next) => self@.remaining.len() > 0 && next == self@.remaining[0],
                None => self@.remaining.len() == 0,
            },
    {
        if self.made < self.calls.len() {
            Some(self.calls[self.made])
        } else {
            None
        }
    }

    /// Takes note that the next call has succeeded.
    pub fn advance(&mut self, worker: &mut Worker)
        requires
            old(self).wf(),
            old(self)@.remaining.len() > 0,
        ensures
            final(self).wf(),
            final(self)@ == old(self)@.stepped(),
            *final(worker) == old(worker).confirmed(old(self)@.remaining[0]),
            old(self)@.leads(*old(worker)) ==> final(self)@.leads(*final(worker)),
    {
        let ghost before = self@;
        let _planned = self.calls.len();
        let call = self.calls[self.made];
        assert(before.remaining[0] == call);
        worker.confirm(call);
        self.made += 1;
        assert(self@.remaining == before.remaining.drop_first());
    }
}

} // verus!
