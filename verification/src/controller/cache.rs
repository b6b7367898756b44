//! Captured revolutions by track.

use vstd::prelude::*;

use crate::types::{TrackAddress, TrackCapture, TrackCaptureView};

verus! {

/// Hard ceiling on readings kept per track. How many are wanted at any moment
/// is decided by [`wanted_depth`]; this only bounds the queue behind it.
pub const CAPTURES_PER_TRACK: usize = 2;

/// Most tracks kept at once.
pub const MAX_CACHED_TRACKS: usize = 8;

/// Captures with their words as sequences.
pub open spec fn capture_views(captures: Seq<TrackCapture>) -> Seq<TrackCaptureView> {
    captures.map_values(|capture: TrackCapture| capture@)
}

/// Readings of one track, oldest first.
#[derive(Debug)]
pub struct CacheEntry {
    track: TrackAddress,
    captures: Vec<TrackCapture>,
}

/// Captured revolutions by track.
#[derive(Debug)]
pub struct CaptureCache {
    entries: Vec<CacheEntry>,
}

/// Position of a track among some entries, or their number.
spec fn position_of(entries: Seq<CacheEntry>, track: TrackAddress) -> int
    decreases entries.len(),
{
    if entries.len() == 0 {
        0
    } else if entries[0].track == track {
        0
    } else {
        position_of(entries.drop_first(), track) + 1
    }
}

/// A position names the first entry of a track.
proof fn lemma_position(entries: Seq<CacheEntry>, track: TrackAddress)
    ensures
        0 <= position_of(entries, track) <= entries.len(),
        position_of(entries, track) < entries.len() ==> entries[position_of(entries, track)].track
            == track,
        forall|i: int|
            0 <= i < position_of(entries, track) ==> (#[trigger] entries[i]).track != track,
    decreases entries.len(),
{
    if entries.len() > 0 && entries[0].track != track {
        let rest = entries.drop_first();
        lemma_position(rest, track);
        assert forall|i: int| 0 <= i < position_of(entries, track) implies (
        #[trigger] entries[i]).track != track by {
            if i > 0 {
                assert(entries[i] == rest[i - 1]);
            }
        }
    }
}

/// What some entries hold.
spec fn contents(entries: Seq<CacheEntry>) -> Map<TrackAddress, Seq<TrackCaptureView>> {
    Map::new(
        |track: TrackAddress| position_of(entries, track) < entries.len(),
        |track: TrackAddress| capture_views(entries[position_of(entries, track)].captures@),
    )
}

/// Whether no track occurs twice.
spec fn distinct(entries: Seq<CacheEntry>) -> bool {
    forall|i: int, j: int|
        0 <= i < j < entries.len() ==> (#[trigger] entries[i]).track != (
        #[trigger] entries[j]).track
}

/// In a list without repetition every entry is found under its own track.
proof fn lemma_own_position(entries: Seq<CacheEntry>, at: int)
    requires
        distinct(entries),
        0 <= at < entries.len(),
    ensures
        position_of(entries, entries[at].track) == at,
        contents(entries).dom().contains(entries[at].track),
        contents(entries)[entries[at].track] == capture_views(entries[at].captures@),
{
    lemma_position(entries, entries[at].track);
}

/// A track is held exactly if an entry has it.
proof fn lemma_held(entries: Seq<CacheEntry>, track: TrackAddress)
    ensures
        contents(entries).dom().contains(track) <==> exists|i: int|
            0 <= i < entries.len() && (#[trigger] entries[i]).track == track,
{
    lemma_position(entries, track);
    if contents(entries).dom().contains(track) {
        assert(entries[position_of(entries, track)].track == track);
    }
}

impl View for CaptureCache {
    type V = Map<TrackAddress, Seq<TrackCaptureView>>;

    closed spec fn view(&self) -> Map<TrackAddress, Seq<TrackCaptureView>> {
        contents(self.entries@)
    }
}

/// The oldest reading of a track, if there is one.
pub open spec fn front_of(
    cache: Map<TrackAddress, Seq<TrackCaptureView>>,
    track: TrackAddress,
) -> Option<TrackCaptureView> {
    if cache.dom().contains(track) && cache[track].len() > 0 {
        Some(cache[track][0])
    } else {
        None
    }
}

/// How many readings of a track there are.
pub open spec fn readings(
    cache: Map<TrackAddress, Seq<TrackCaptureView>>,
    track: TrackAddress,
) -> nat {
    if cache.dom().contains(track) {
        cache[track].len()
    } else {
        0
    }
}

/// How many readings of a track are worth holding, given the newest one.
pub open spec fn depth_for(newest: Option<TrackCaptureView>) -> nat {
    match newest {
        Some(capture) => if capture.quality == crate::types::CaptureQuality::Unverified {
            CAPTURES_PER_TRACK as nat
        } else {
            1
        },
        None => 1,
    }
}

/// How many readings of a track are worth holding, given the newest one.
///
/// A reading that cannot be turned under the head twice is consumed and
/// advanced past, so its successor is stocked ahead: the retry is already in
/// hand when the consumer asks for it. A replayable reading is kept by the
/// consumer for as long as it is wanted, and a second would almost always go
/// unread, while the capture taking it sat in front of whichever track the
/// machine asked for next, uninterruptible once begun.
pub fn wanted_depth(newest: Option<&TrackCapture>) -> (depth: usize)
    ensures
        depth == depth_for(
            match newest {
                Some(capture) => Some(capture@),
                None => None,
            },
        ),
{
    match newest {
        Some(capture) => if capture.quality().reusable() {
            1
        } else {
            CAPTURES_PER_TRACK
        },
        None => 1,
    }
}

/// Whether a track has as many readings as are worth holding.
pub open spec fn full_of(
    cache: Map<TrackAddress, Seq<TrackCaptureView>>,
    track: TrackAddress,
) -> bool {
    &&& cache.dom().contains(track)
    &&& cache[track].len() >= depth_for(
        if cache[track].len() == 0 {
            None
        } else {
            Some(cache[track].last())
        },
    )
}

/// The readings of a track after a new one; the oldest makes room.
pub open spec fn with_reading(
    held: Seq<TrackCaptureView>,
    capture: TrackCaptureView,
) -> Seq<TrackCaptureView> {
    if held.len() >= CAPTURES_PER_TRACK {
        held.drop_first().push(capture)
    } else {
        held.push(capture)
    }
}

/// The readings of a track, none if it is not held.
pub open spec fn held_readings(
    cache: Map<TrackAddress, Seq<TrackCaptureView>>,
    track: TrackAddress,
) -> Seq<TrackCaptureView> {
    if cache.dom().contains(track) {
        cache[track]
    } else {
        Seq::empty()
    }
}

/// Whether `after` is `before` with a reading stored: a cache that is full makes
/// room by forgetting one track, never the one in use.
pub open spec fn stored(
    before: Map<TrackAddress, Seq<TrackCaptureView>>,
    after: Map<TrackAddress, Seq<TrackCaptureView>>,
    track: TrackAddress,
    capture: TrackCaptureView,
    target: TrackAddress,
) -> bool {
    let kept = with_reading(held_readings(before, track), capture);
    if before.dom().len() >= MAX_CACHED_TRACKS && !before.dom().contains(track) {
        exists|victim: TrackAddress|
            victim != target && #[trigger] before.dom().contains(victim) && after
                == before.remove(victim).insert(track, kept)
    } else {
        after == before.insert(track, kept)
    }
}

/// A cache with the oldest reading of a track retired.
pub open spec fn retired(
    cache: Map<TrackAddress, Seq<TrackCaptureView>>,
    track: TrackAddress,
) -> Map<TrackAddress, Seq<TrackCaptureView>> {
    if readings(cache, track) > 0 {
        cache.insert(track, cache[track].drop_first())
    } else {
        cache
    }
}

/// Whether a cache is within its bounds.
pub open spec fn bounded(cache: Map<TrackAddress, Seq<TrackCaptureView>>) -> bool {
    &&& cache.dom().finite()
    &&& cache.dom().len() <= MAX_CACHED_TRACKS
    &&& forall|track: TrackAddress| #[trigger]
        cache.dom().contains(track) ==> cache[track].len() <= CAPTURES_PER_TRACK
}

impl CaptureCache {
    /// Whether no track occurs twice and every bound is kept.
    pub closed spec fn wf(self) -> bool {
        &&& distinct(self.entries@)
        &&& self.entries@.len() <= MAX_CACHED_TRACKS
        &&& forall|i: int|
            0 <= i < self.entries@.len() ==> (#[trigger] self.entries@[i]).captures@.len()
                <= CAPTURES_PER_TRACK
    }

    /// Starts empty.
    pub fn new() -> (cache: CaptureCache)
        ensures
            cache.wf(),
            cache@ == Map::<TrackAddress, Seq<TrackCaptureView>>::empty(),
    {
        let cache = CaptureCache { entries: Vec::new() };
        assert(cache@ == Map::<TrackAddress, Seq<TrackCaptureView>>::empty());
        cache
    }

    /// Finds the entry of a track, or the number of entries.
    fn find(&self, track: TrackAddress) -> (at: usize)
        ensures
            at == position_of(self.entries@, track),
            at <= self.entries@.len(),
    {
        let mut at: usize = 0;
        let ghost entries = self.entries@;
        assert(entries.skip(0) == entries);
        while at < self.entries.len() && self.entries[at].track != track
            invariant
                entries == self.entries@,
                at <= entries.len(),
                position_of(entries, track) == at + position_of(entries.skip(at as int), track),
            decreases entries.len() - at,
        {
            assert(entries.skip(at as int)[0] == entries[at as int]);
            assert(entries.skip(at as int).drop_first() == entries.skip(at + 1));
            at += 1;
        }
        proof {
            if at < entries.len() {
                assert(entries.skip(at as int)[0] == entries[at as int]);
            }
        }
        at
    }

    /// Returns the oldest reading of a track.
    pub fn front(&self, track: TrackAddress) -> (capture: Option<&TrackCapture>)
        ensures
            match capture {
                Some(found) => front_of(self@, track) == Some(found@),
                None => front_of(self@, track) is None,
            },
    {
        let at = self.find(track);
        if at < self.entries.len() && self.entries[at].captures.len() > 0 {
            assert(capture_views(self.entries@[at as int].captures@)[0]
                == self.entries@[at as int].captures@[0]@);
            Some(&self.entries[at].captures[0])
        } else {
            None
        }
    }

    /// Whether a track has as many readings as are worth holding.
    pub fn is_full(&self, track: TrackAddress) -> (full: bool)
        ensures
            full == full_of(self@, track),
    {
        let at = self.find(track);
        if at >= self.entries.len() {
            return false;
        }
        let count = self.entries[at].captures.len();
        let ghost views = capture_views(self.entries@[at as int].captures@);
        let depth = if count == 0 {
            wanted_depth(None)
        } else {
            assert(views.last() == self.entries@[at as int].captures@[count - 1]@);
            wanted_depth(Some(&self.entries[at].captures[count - 1]))
        };
        count >= depth
    }

    /// Whether a track has any reading.
    pub fn has_reading(&self, track: TrackAddress) -> (present: bool)
        ensures
            present == (readings(self@, track) > 0),
    {
        let at = self.find(track);
        at < self.entries.len() && self.entries[at].captures.len() > 0
    }

    /// Forgets every track.
    pub fn clear(&mut self)
        ensures
            final(self).wf(),
            final(self)@ == Map::<TrackAddress, Seq<TrackCaptureView>>::empty(),
    {
        self.entries = Vec::new();
        assert(self@ == Map::<TrackAddress, Seq<TrackCaptureView>>::empty());
    }

    /// Forgets one track.
    pub fn remove(&mut self, track: TrackAddress)
        requires
            old(self).wf(),
        ensures
            final(self).wf(),
            final(self)@ == old(self)@.remove(track),
    {
        let at = self.find(track);
        let ghost before = self.entries@;
        proof {
            lemma_position(before, track);
        }
        if at < self.entries.len() {
            self.entries.remove(at);
            proof {
                lemma_removed(before, at as int);
            }
            assert(self.entries@ == before.remove(at as int));
        }
        proof {
            assert(self@ == contents(before).remove(track)) by {
                assert(contents(self.entries@) =~= contents(before).remove(track));
            }
        }
    }

    /// Retires the oldest reading of a track.
    pub fn retire(&mut self, track: TrackAddress)
        requires
            old(self).wf(),
        ensures
            final(self).wf(),
            final(self)@ == retired(old(self)@, track),
    {
        let at = self.find(track);
        let ghost before = self.entries@;
        proof {
            lemma_position(before, track);
        }
        if at < self.entries.len() && self.entries[at].captures.len() > 0 {
            let mut entry = self.entries.remove(at);
            let _ = entry.captures.remove(0);
            let ghost replaced = entry;
            self.entries.insert(at, entry);
            proof {
                assert(self.entries@ == before.update(at as int, replaced));
                lemma_replaced(before, at as int, replaced);
                assert(capture_views(replaced.captures@) == capture_views(
                    before[at as int].captures@,
                ).drop_first());
            }
        }
    }

    /// Stores a reading; see [`stored`].
    pub fn store(&mut self, track: TrackAddress, capture: TrackCapture, target: TrackAddress)
        requires
            old(self).wf(),
        ensures
            final(self).wf(),
            stored(old(self)@, final(self)@, track, capture@, target),
    {
        let ghost start = self.entries@;
        let at = self.find(track);
        proof {
            lemma_position(start, track);
            lemma_size(start);
        }
        if at < self.entries.len() {
            let mut entry = self.entries.remove(at);
            if entry.captures.len() >= CAPTURES_PER_TRACK {
                let _ = entry.captures.remove(0);
            }
            let ghost shown = capture@;
            entry.captures.push(capture);
            let ghost replaced = entry;
            self.entries.insert(at, entry);
            proof {
                assert(self.entries@ == start.update(at as int, replaced));
                lemma_replaced(start, at as int, replaced);
                assert(capture_views(replaced.captures@) == with_reading(
                    capture_views(start[at as int].captures@),
                    shown,
                ));
            }
        } else {
            if self.entries.len() >= MAX_CACHED_TRACKS {
                let victim: usize = if self.entries[0].track != target {
                    0
                } else {
                    1
                };
                let ghost forgotten = start[victim as int].track;
                self.entries.remove(victim);
                proof {
                    assert(start[0].track != start[1].track);
                    assert(self.entries@ == start.remove(victim as int));
                    lemma_removed(start, victim as int);
                    lemma_own_position(start, victim as int);
                    assert(contents(start).dom().contains(forgotten));
                    lemma_held(self.entries@, track);
                    assert(!contents(self.entries@).dom().contains(track)) by {
                        assert(contents(self.entries@) == contents(start).remove(forgotten));
                        lemma_held(start, track);
                    }
                }
            }
            let ghost middle = self.entries@;
            let ghost shown = capture@;
            proof {
                lemma_held(middle, track);
                lemma_held(start, track);
            }
            let captures: Vec<TrackCapture> = vec![capture];
            let ghost added = CacheEntry { track, captures };
            self.entries.push(CacheEntry { track, captures });
            proof {
                assert(self.entries@ == middle.push(added));
                lemma_added(middle, added);
                assert(capture_views(added.captures@) == Seq::<TrackCaptureView>::empty().push(
                    shown,
                ));
            }
        }
    }
}

/// Removing an entry forgets its track.
proof fn lemma_removed(entries: Seq<CacheEntry>, at: int)
    requires
        distinct(entries),
        0 <= at < entries.len(),
    ensures
        distinct(entries.remove(at)),
        contents(entries.remove(at)) == contents(entries).remove(entries[at].track),
{
    let rest = entries.remove(at);
    let gone = entries[at].track;
    assert forall|i: int| 0 <= i < rest.len() implies #[trigger] rest[i] == entries[if i < at {
        i
    } else {
        i + 1
    }] by {}
    assert(distinct(rest));
    assert forall|track: TrackAddress|
        contents(rest).dom().contains(track) == contents(entries).remove(gone).dom().contains(
            track,
        ) by {
        lemma_held(rest, track);
        lemma_held(entries, track);
        if contents(rest).dom().contains(track) {
            let i = choose|i: int| 0 <= i < rest.len() && (#[trigger] rest[i]).track == track;
            let j = if i < at {
                i
            } else {
                i + 1
            };
            assert(entries[j].track == track);
        } else if contents(entries).remove(gone).dom().contains(track) {
            let j = choose|j: int| 0 <= j < entries.len() && (#[trigger] entries[j]).track == track;
            let i = if j < at {
                j
            } else {
                j - 1
            };
            assert(rest[i].track == track);
        }
    }
    assert forall|track: TrackAddress| #[trigger]
        contents(rest).dom().contains(track) implies contents(rest)[track] == contents(entries).remove(
        gone,
    )[track] by {
        let i = position_of(rest, track);
        lemma_position(rest, track);
        let j = if i < at {
            i
        } else {
            i + 1
        };
        lemma_own_position(entries, j);
    }
    assert(contents(rest) =~= contents(entries).remove(gone));
}

/// Replacing an entry of the same track changes what is held of it alone.
proof fn lemma_replaced(entries: Seq<CacheEntry>, at: int, entry: CacheEntry)
    requires
        distinct(entries),
        0 <= at < entries.len(),
        entry.track == entries[at].track,
    ensures
        distinct(entries.update(at, entry)),
        contents(entries.update(at, entry)) == contents(entries).insert(
            entry.track,
            capture_views(entry.captures@),
        ),
        contents(entries).dom().contains(entry.track),
        contents(entries)[entry.track] == capture_views(entries[at].captures@),
{
    let changed = entries.update(at, entry);
    lemma_own_position(entries, at);
    assert forall|i: int| 0 <= i < changed.len() implies (#[trigger] changed[i]).track
        == entries[i].track by {}
    assert(distinct(changed));
    assert forall|track: TrackAddress| #[trigger]
        contents(changed).dom().contains(track) == contents(entries).dom().contains(track) by {
        lemma_held(changed, track);
        lemma_held(entries, track);
        if contents(changed).dom().contains(track) {
            let i = choose|i: int| 0 <= i < changed.len() && (#[trigger] changed[i]).track == track;
            assert(entries[i].track == track);
        } else if contents(entries).dom().contains(track) {
            let i = choose|i: int| 0 <= i < entries.len() && (#[trigger] entries[i]).track == track;
            assert(changed[i].track == track);
        }
    }
    assert forall|track: TrackAddress| #[trigger]
        contents(changed).dom().contains(track) implies contents(changed)[track] == contents(
        entries,
    ).insert(entry.track, capture_views(entry.captures@))[track] by {
        let i = position_of(changed, track);
        lemma_position(changed, track);
        lemma_own_position(entries, i);
    }
    assert(contents(changed) =~= contents(entries).insert(
        entry.track,
        capture_views(entry.captures@),
    ));
}

/// Adding an entry of a new track holds it too.
proof fn lemma_added(entries: Seq<CacheEntry>, entry: CacheEntry)
    requires
        distinct(entries),
        !contents(entries).dom().contains(entry.track),
    ensures
        distinct(entries.push(entry)),
        contents(entries.push(entry)) == contents(entries).insert(
            entry.track,
            capture_views(entry.captures@),
        ),
{
    let grown = entries.push(entry);
    lemma_held(entries, entry.track);
    assert(distinct(grown));
    lemma_own_position(grown, entries.len() as int);
    assert forall|track: TrackAddress| #[trigger]
        contents(grown).dom().contains(track) == contents(entries).insert(
            entry.track,
            capture_views(entry.captures@),
        ).dom().contains(track) by {
        lemma_held(grown, track);
        lemma_held(entries, track);
        if track != entry.track {
            if contents(grown).dom().contains(track) {
                let i = choose|i: int| 0 <= i < grown.len() && (#[trigger] grown[i]).track == track;
                assert(entries[i].track == track);
            } else if contents(entries).dom().contains(track) {
                let i = choose|i: int|
                    0 <= i < entries.len() && (#[trigger] entries[i]).track == track;
                assert(grown[i].track == track);
            }
        }
    }
    assert forall|track: TrackAddress| #[trigger]
        contents(grown).dom().contains(track) implies contents(grown)[track] == contents(
        entries,
    ).insert(entry.track, capture_views(entry.captures@))[track] by {
        if track != entry.track {
            let i = position_of(grown, track);
            lemma_position(grown, track);
            assert(grown[i] == entries[i]);
            lemma_own_position(entries, i);
        }
    }
    assert(contents(grown) =~= contents(entries).insert(
        entry.track,
        capture_views(entry.captures@),
    ));
}

/// As many tracks are held as there are entries.
proof fn lemma_size(entries: Seq<CacheEntry>)
    requires
        distinct(entries),
    ensures
        contents(entries).dom().finite(),
        contents(entries).dom().len() == entries.len(),
    decreases entries.len(),
{
    if entries.len() == 0 {
        assert(contents(entries).dom() =~= Set::<TrackAddress>::empty());
    } else {
        let shorter = entries.drop_last();
        let last = entries.last();
        assert(distinct(shorter));
        lemma_size(shorter);
        lemma_held(shorter, last.track);
        assert(!contents(shorter).dom().contains(last.track)) by {
            if contents(shorter).dom().contains(last.track) {
                let i = choose|i: int|
                    0 <= i < shorter.len() && (#[trigger] shorter[i]).track == last.track;
                assert(entries[i].track == entries[entries.len() - 1].track);
            }
        }
        assert(shorter.push(last) == entries);
        lemma_added(shorter, last);
        assert(contents(entries).dom() =~= contents(shorter).dom().insert(last.track));
    }
}

/// Every cache is within its bounds: at most eight tracks, at most two readings
/// of each.
pub proof fn law_cache_is_bounded(cache: CaptureCache)
    requires
        cache.wf(),
    ensures
        bounded(cache@),
{
    lemma_size(cache.entries@);
    assert forall|track: TrackAddress| #[trigger]
        cache@.dom().contains(track) implies cache@[track].len() <= CAPTURES_PER_TRACK by {
        lemma_position(cache.entries@, track);
    }
}

/// The track in use is never forgotten to make room for another.
pub proof fn law_target_is_kept(
    before: Map<TrackAddress, Seq<TrackCaptureView>>,
    after: Map<TrackAddress, Seq<TrackCaptureView>>,
    track: TrackAddress,
    capture: TrackCaptureView,
    target: TrackAddress,
)
    requires
        stored(before, after, track, capture, target),
        before.dom().contains(target),
        track != target,
    ensures
        after.dom().contains(target),
        after[target] == before[target],
{
}

/// A reading that was stored is the newest of its track.
pub proof fn law_stored_reading_is_newest(
    before: Map<TrackAddress, Seq<TrackCaptureView>>,
    after: Map<TrackAddress, Seq<TrackCaptureView>>,
    track: TrackAddress,
    capture: TrackCaptureView,
    target: TrackAddress,
)
    requires
        stored(before, after, track, capture, target),
    ensures
        after.dom().contains(track),
        after[track].len() > 0,
        after[track].last() == capture,
{
}

} // verus!
