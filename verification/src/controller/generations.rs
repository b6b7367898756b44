//! What the numbers of captures promise: a capture that was retired is never
//! served again.

use vstd::prelude::*;

use super::cache;
use super::worker;
use super::worker::{CaptureStep, Worker};
use super::writing;
use super::BridgeView;
use crate::device;
use crate::device::RawCapture;
use crate::error::Result;
use crate::types::{TrackAddress, TrackCaptureView};

verus! {

/// The captures held at some moment, and the number of the latest one taken.
pub struct Moment {
    /// Captured revolutions by track, oldest first.
    pub captures: Map<TrackAddress, Seq<TrackCaptureView>>,
    /// Number of the latest capture.
    pub latest: int,
}

/// The moment of a worker and its bridge.
pub open spec fn moment(worker: Worker, bridge: BridgeView) -> Moment {
    Moment { captures: bridge.captures, latest: worker.generation as int }
}

/// Whether the numbers of some readings rise from the oldest to the newest.
pub open spec fn rising(held: Seq<TrackCaptureView>) -> bool {
    forall|i: int, j: int|
        0 <= i < j < held.len() ==> (#[trigger] held[i]).generation < (
        #[trigger] held[j]).generation
}

/// Whether every reading has a number above another.
pub open spec fn all_above(held: Seq<TrackCaptureView>, generation: int) -> bool {
    forall|i: int| 0 <= i < held.len() ==> generation < (#[trigger] held[i]).generation
}

/// Whether no reading has a number above another.
pub open spec fn none_above(held: Seq<TrackCaptureView>, generation: int) -> bool {
    forall|i: int| 0 <= i < held.len() ==> (#[trigger] held[i]).generation <= generation
}

impl Moment {
    /// The readings of a track.
    pub open spec fn held(self, track: TrackAddress) -> Seq<TrackCaptureView> {
        cache::held_readings(self.captures, track)
    }

    /// Whether the numbers rise within every track, up to the latest.
    pub open spec fn in_order(self) -> bool {
        forall|track: TrackAddress|
            rising(#[trigger] self.held(track)) && none_above(self.held(track), self.latest)
    }

    /// Whether `after` follows from a capture of some track.
    pub open spec fn captured(
        self,
        after: Moment,
        track: TrackAddress,
        capture: TrackCaptureView,
        target: TrackAddress,
    ) -> bool {
        &&& capture.generation == self.latest + 1
        &&& after.latest == self.latest + 1
        &&& cache::stored(self.captures, after.captures, track, capture, target)
    }

    /// The moment after the oldest reading of a track was retired.
    pub open spec fn retired(self, track: TrackAddress) -> Moment {
        Moment { captures: cache::retired(self.captures, track), ..self }
    }

    /// The moment after a track was forgotten.
    pub open spec fn forgotten(self, track: TrackAddress) -> Moment {
        Moment { captures: self.captures.remove(track), ..self }
    }

    /// Whether `after` can come next: nothing happens to the captures, one is
    /// taken, one is retired, a track is forgotten, or all are.
    pub open spec fn evolves(self, after: Moment) -> bool {
        ||| after == self
        ||| exists|track: TrackAddress, capture: TrackCaptureView, target: TrackAddress|
            #[trigger] self.captured(after, track, capture, target)
        ||| exists|track: TrackAddress| after == #[trigger] self.retired(track)
        ||| exists|track: TrackAddress| after == #[trigger] self.forgotten(track)
        ||| after == (Moment { captures: Map::empty(), ..self })
    }
}

/// How one step changes the readings of a track: they stay, they are gone, the
/// oldest is gone, or a newly numbered one is behind them.
proof fn lemma_readings_change(before: Moment, after: Moment, track: TrackAddress)
    requires
        before.evolves(after),
    ensures
        before.latest <= after.latest,
        ({
            let held = before.held(track);
            ||| after.held(track) == held
            ||| after.held(track) == Seq::<TrackCaptureView>::empty()
            ||| held.len() > 0 && after.held(track) == held.drop_first()
            ||| exists|capture: TrackCaptureView|
                capture.generation == before.latest + 1 && after.latest == before.latest + 1
                    && after.held(track) == #[trigger] cache::with_reading(held, capture)
        }),
{
    if exists|stored: TrackAddress, capture: TrackCaptureView, target: TrackAddress|
        before.captured(after, stored, capture, target) {
        let (stored, capture, target) = choose|
            stored: TrackAddress,
            capture: TrackCaptureView,
            target: TrackAddress,
        | before.captured(after, stored, capture, target);
        if stored == track {
            assert(after.held(track) == cache::with_reading(before.held(track), capture));
        }
    } else if exists|gone: TrackAddress| after == #[trigger] before.retired(gone) {
        let gone = choose|gone: TrackAddress| after == #[trigger] before.retired(gone);
        if gone == track && cache::readings(before.captures, track) > 0 {
            assert(after.held(track) == before.held(track).drop_first());
        } else {
            assert(after.held(track) == before.held(track));
        }
    } else if exists|gone: TrackAddress| after == #[trigger] before.forgotten(gone) {
        let gone = choose|gone: TrackAddress| after == #[trigger] before.forgotten(gone);
        if gone != track {
            assert(after.held(track) == before.held(track));
        }
    }
}

/// The numbers keep rising within every track, whatever comes next.
pub proof fn law_numbers_keep_rising(before: Moment, after: Moment)
    requires
        before.in_order(),
        before.evolves(after),
    ensures
        after.in_order(),
{
    assert forall|track: TrackAddress|
        rising(#[trigger] after.held(track)) && none_above(after.held(track), after.latest) by {
        lemma_readings_change(before, after, track);
        let held = before.held(track);
        assert(rising(held) && none_above(held, before.latest));
        let now = after.held(track);
        if now != held && now.len() > 0 && !(held.len() > 0 && now == held.drop_first()) {
            let capture = choose|capture: TrackCaptureView|
                capture.generation == before.latest + 1 && after.latest == before.latest + 1 && now
                    == #[trigger] cache::with_reading(held, capture);
            assert(now == cache::with_reading(held, capture));
        }
    }
}

/// A track whose readings all have numbers above another keeps it so, whatever
/// comes next.
proof fn lemma_stays_above(before: Moment, after: Moment, track: TrackAddress, generation: int)
    requires
        before.evolves(after),
        generation <= before.latest,
        all_above(before.held(track), generation),
    ensures
        generation <= after.latest,
        all_above(after.held(track), generation),
{
    lemma_readings_change(before, after, track);
    let held = before.held(track);
    let now = after.held(track);
    if now != held && now.len() > 0 && !(held.len() > 0 && now == held.drop_first()) {
        let capture = choose|capture: TrackCaptureView|
            capture.generation == before.latest + 1 && after.latest == before.latest + 1 && now
                == #[trigger] cache::with_reading(held, capture);
        assert(now == cache::with_reading(held, capture));
    }
}

/// Whether each of some moments can come after the one before it.
pub open spec fn history(moments: Seq<Moment>) -> bool {
    forall|i: int| 0 <= i < moments.len() - 1 ==> (#[trigger] moments[i]).evolves(moments[i + 1])
}

/// A retired capture is never served again: whatever happens after the oldest
/// reading of a track was retired, that track has no reading, or its readings
/// all have higher numbers.
pub proof fn law_retired_capture_is_never_served(
    before: Moment,
    track: TrackAddress,
    served: TrackCaptureView,
    later: Seq<Moment>,
)
    requires
        before.in_order(),
        cache::front_of(before.captures, track) == Some(served),
        later.len() > 0,
        later[0] == before.retired(track),
        history(later),
    ensures
        forall|i: int|
            0 <= i < later.len() ==> all_above(
                (#[trigger] later[i]).held(track),
                served.generation,
            ),
        forall|i: int|
            0 <= i < later.len() ==> (cache::front_of(
                (#[trigger] later[i]).captures,
                track,
            ) matches Some(next) ==> next.generation > served.generation),
{
    lemma_never_served(before, track, served, later);
    assert forall|i: int| 0 <= i < later.len() implies (cache::front_of(
        (#[trigger] later[i]).captures,
        track,
    ) matches Some(next) ==> next.generation > served.generation) by {
        assert(all_above(later[i].held(track), served.generation));
        if cache::front_of(later[i].captures, track) is Some {
            assert(later[i].held(track)[0].generation > served.generation);
        }
    }
}

proof fn lemma_never_served(
    before: Moment,
    track: TrackAddress,
    served: TrackCaptureView,
    later: Seq<Moment>,
)
    requires
        before.in_order(),
        cache::front_of(before.captures, track) == Some(served),
        later.len() > 0,
        later[0] == before.retired(track),
        history(later),
    ensures
        later.last().latest >= served.generation,
        forall|i: int|
            0 <= i < later.len() ==> all_above(
                (#[trigger] later[i]).held(track),
                served.generation,
            ),
    decreases later.len(),
{
    let held = before.held(track);
    assert(rising(held) && none_above(held, before.latest));
    assert(held[0] == served);
    if later.len() == 1 {
        let now = later[0].held(track);
        assert(now == held.drop_first());
        assert forall|i: int| 0 <= i < now.len() implies served.generation < (
        #[trigger] now[i]).generation by {
            assert(now[i] == held[i + 1]);
        }
    } else {
        let shorter = later.drop_last();
        assert forall|i: int| 0 <= i < shorter.len() - 1 implies (
        #[trigger] shorter[i]).evolves(shorter[i + 1]) by {
            assert(later[i].evolves(later[i + 1]));
        }
        lemma_never_served(before, track, served, shorter);
        let last = later.len() - 1;
        assert(later[last - 1].evolves(later[last - 1 + 1]));
        assert(shorter.last() == later[last - 1]);
        assert(all_above(shorter[last - 1].held(track), served.generation));
        lemma_stays_above(later[last - 1], later[last], track, served.generation);
        assert forall|i: int| 0 <= i < later.len() implies all_above(
            (#[trigger] later[i]).held(track),
            served.generation,
        ) by {
            if i < last {
                assert(shorter[i] == later[i]);
            }
        }
    }
}

/// Retiring a reading leaves every other track alone, and a track without a
/// reading as it is.
pub proof fn law_retiring_touches_one_track(
    captures: Map<TrackAddress, Seq<TrackCaptureView>>,
    track: TrackAddress,
    other: TrackAddress,
)
    ensures
        other != track ==> cache::held_readings(cache::retired(captures, track), other)
            == cache::held_readings(captures, other),
        cache::readings(captures, track) == 0 ==> cache::retired(captures, track) == captures,
{
}

/// A bridge without captures is in order.
pub proof fn law_new_bridge_is_in_order(worker: Worker, bridge: BridgeView)
    requires
        bridge.captures == Map::<TrackAddress, Seq<TrackCaptureView>>::empty(),
    ensures
        moment(worker, bridge).in_order(),
{
    let fresh = moment(worker, bridge);
    assert forall|track: TrackAddress|
        rising(#[trigger] fresh.held(track)) && none_above(fresh.held(track), fresh.latest) by {
        assert(fresh.held(track) == Seq::<TrackCaptureView>::empty());
    }
}

/// Whatever a read has given, taking it is a step of the history.
pub proof fn law_capture_is_a_step(
    worker: Worker,
    bridge: BridgeView,
    track: TrackAddress,
    result: Result<RawCapture>,
    after_worker: Worker,
    after_bridge: BridgeView,
    step: CaptureStep,
)
    requires
        worker::took_capture(worker, bridge, track, result, after_worker, after_bridge, step),
        worker.generation < u64::MAX,
    ensures
        moment(worker, bridge).evolves(moment(after_worker, after_bridge)),
{
    let before = moment(worker, bridge);
    let after = moment(after_worker, after_bridge);
    if step is Kept {
        let capture = worker.numbered_capture(result->Ok_0);
        assert(before.captured(after, track, capture, worker.target));
    } else {
        assert(after == before);
    }
}

/// Retiring a reading, writing a track and changing the disk are steps of the
/// history.
pub proof fn law_other_changes_are_steps(worker: Worker, bridge: BridgeView, track: TrackAddress)
    ensures
        moment(worker, bridge).evolves(moment(worker, bridge.retired(track))),
        moment(worker, bridge).evolves(moment(worker, writing::bridge_written(bridge, track))),
        moment(worker, bridge).evolves(
            moment(worker, BridgeView { captures: Map::empty(), ..bridge }),
        ),
{
    let before = moment(worker, bridge);
    let clamped = device::clamped(track, bridge.max_cylinders);
    assert(moment(worker, bridge.retired(track)) == before.retired(clamped));
    assert(moment(worker, writing::bridge_written(bridge, track)) == before.forgotten(track));
}

} // verus!
