//! What the bytes of a SuperCard Pro stream mean in time.

use vstd::prelude::*;

use super::laws;
use super::stream;
use super::stream::CaptureState;
use crate::device::bytes;
use crate::flux::pll::PllState;
use crate::flux::{self, following, mfm, rotation, FluxEvent};

verus! {

/// The bytes in which an interval comes: a zero for every 256 ticks, and what is
/// left, an escape before it where it would read as one.
pub open spec fn interval_bytes(ticks: int) -> Seq<u8> {
    let left = (ticks % 256) as u8;
    laws::zeros((ticks / 256) as nat) + if left == 0xff {
        seq![0xffu8, 0xffu8]
    } else {
        seq![left]
    }
}

/// The bytes of an index pulse, where there is one.
pub open spec fn pulse_bytes(marked: bool) -> Seq<u8> {
    if marked {
        seq![0xffu8, 0u8]
    } else {
        Seq::empty()
    }
}

/// The bytes of a stream of intervals, some of which follow an index pulse.
pub open spec fn stream_bytes(ticks: Seq<int>, marks: Seq<bool>) -> Seq<u8>
    decreases ticks.len(),
{
    if ticks.len() == 0 {
        Seq::empty()
    } else {
        stream_bytes(ticks.drop_last(), marks.drop_last()) + (pulse_bytes(marks.last())
            + interval_bytes(ticks.last()))
    }
}

/// Whether intervals can come in a stream.
pub open spec fn can_come(ticks: Seq<int>) -> bool {
    forall|i: int|
        0 <= i < ticks.len() ==> 0 < #[trigger] ticks[i] <= 42_949_672 && ticks[i] % 256 != 0
}

proof fn lemma_fed_on(state: CaptureState, left: Seq<u8>, right: Seq<u8>)
    ensures
        laws::fed(state, left + right) == laws::fed(laws::fed(state, left), right),
    decreases right.len(),
{
    if right.len() == 0 {
        assert(left + right == left);
    } else {
        lemma_fed_on(state, left, right.drop_last());
        assert((left + right).drop_last() == left + right.drop_last());
    }
}

proof fn lemma_one(state: CaptureState, byte: u8)
    ensures
        laws::fed(state, seq![byte]) == state.after(byte),
{
    reveal_with_fuel(laws::fed, 2);
    assert(seq![byte].drop_last() == Seq::<u8>::empty());
}

proof fn lemma_two(state: CaptureState, first: u8, second: u8)
    ensures
        laws::fed(state, seq![first, second]) == state.after(first).after(second),
{
    lemma_one(state, first);
    assert(seq![first, second].drop_last() == seq![first]);
}

/// An interval is one transition, and leaves nothing pending.
proof fn lemma_interval_comes(state: CaptureState, ticks: int)
    requires
        !state.escaped,
        state.ticks == 0,
        0 < ticks <= 42_949_672,
        ticks % 256 != 0,
        0 < state.resolution <= 100,
    ensures
        ({
            let after = laws::fed(state, interval_bytes(ticks));
            &&& after.events == state.events.push(
                FluxEvent {
                    nanoseconds: (ticks * state.resolution) as u32,
                    index: state.index,
                },
            )
            &&& after.ticks == 0
            &&& !after.index
            &&& !after.escaped
            &&& after.indices == state.indices
            &&& after.immediate == state.immediate
            &&& after.resolution == state.resolution
        }),
{
    let extensions = (ticks / 256) as nat;
    let left = (ticks % 256) as u8;
    let tail = if left == 0xff {
        seq![0xffu8, 0xffu8]
    } else {
        seq![left]
    };
    laws::law_extensions_add_ticks(state, extensions);
    let waiting = laws::fed(state, laws::zeros(extensions));
    lemma_fed_on(state, laws::zeros(extensions), tail);
    assert(256 * extensions + left == ticks);
    assert(0 < ticks * state.resolution <= 4_294_967_200) by (nonlinear_arith)
        requires
            0 < ticks <= 42_949_672,
            0 < state.resolution <= 100,
    ;
    if left == 0xff {
        lemma_two(waiting, 0xff, 0xff);
    } else {
        lemma_one(waiting, left);
    }
    assert(waiting.nanoseconds(left as int) == ticks * state.resolution);
}

/// Every interval of a stream is a transition after its time: 50 ns a tick at
/// double density, 100 at high density, so that a high-density cell becomes as
/// long as a double-density one. An index pulse marks the transition that
/// follows it.
pub proof fn law_stream_carries_intervals(
    immediate: bool,
    high_density: bool,
    ticks: Seq<int>,
    marks: Seq<bool>,
)
    requires
        can_come(ticks),
        marks.len() == ticks.len(),
        immediate || forall|i: int, j: int|
            0 <= i < j < marks.len() ==> !(#[trigger] marks[i] && #[trigger] marks[j]),
    ensures
        ({
            let state = laws::fed(
                CaptureState::start(immediate, high_density),
                stream_bytes(ticks, marks),
            );
            let tick = if high_density {
                100int
            } else {
                50int
            };
            &&& state.events.len() == ticks.len()
            &&& forall|i: int|
                0 <= i < ticks.len() ==> (#[trigger] state.events[i]).nanoseconds == ticks[i] * tick
                    && state.events[i].index == marks[i]
        }),
{
    lemma_intervals_come(immediate, high_density, ticks, marks);
}

proof fn lemma_intervals_come(
    immediate: bool,
    high_density: bool,
    ticks: Seq<int>,
    marks: Seq<bool>,
)
    requires
        can_come(ticks),
        marks.len() == ticks.len(),
        immediate || forall|i: int, j: int|
            0 <= i < j < marks.len() ==> !(#[trigger] marks[i] && #[trigger] marks[j]),
    ensures
        ({
            let state = laws::fed(
                CaptureState::start(immediate, high_density),
                stream_bytes(ticks, marks),
            );
            let tick = if high_density {
                100int
            } else {
                50int
            };
            &&& state.events.len() == ticks.len()
            &&& forall|i: int|
                0 <= i < ticks.len() ==> (#[trigger] state.events[i]).nanoseconds == ticks[i] * tick
                    && state.events[i].index == marks[i]
            &&& state.ticks == 0
            &&& !state.index
            &&& !state.escaped
            &&& state.immediate == immediate
            &&& state.resolution == tick
            &&& state.indices >= 0
            &&& (forall|i: int| 0 <= i < marks.len() ==> !#[trigger] marks[i]) ==> state.indices
                == 0
        }),
    decreases ticks.len(),
{
    let start = CaptureState::start(immediate, high_density);
    let tick = if high_density {
        100int
    } else {
        50int
    };
    if ticks.len() > 0 {
        let less = ticks.drop_last();
        let fewer = marks.drop_last();
        let last = ticks.len() - 1;
        assert forall|i: int| 0 <= i < less.len() implies 0 < #[trigger] less[i] <= 42_949_672
            && less[i] % 256 != 0 by {
            assert(less[i] == ticks[i]);
        }
        assert forall|i: int| 0 <= i < fewer.len() implies #[trigger] fewer[i] == marks[i] by {}
        lemma_intervals_come(immediate, high_density, less, fewer);
        let before = laws::fed(start, stream_bytes(less, fewer));
        lemma_fed_on(
            start,
            stream_bytes(less, fewer),
            pulse_bytes(marks[last]) + interval_bytes(ticks[last]),
        );
        lemma_fed_on(before, pulse_bytes(marks[last]), interval_bytes(ticks[last]));
        let pulsed = laws::fed(before, pulse_bytes(marks[last]));
        if marks[last] {
            lemma_two(before, 0xff, 0);
            if !immediate {
                assert forall|i: int| 0 <= i < fewer.len() implies !#[trigger] fewer[i] by {
                    assert(fewer[i] == marks[i]);
                    assert(!(marks[i] && marks[last]));
                }
            }
        } else {
            assert(pulsed == before);
        }
        assert(ticks[last] % 256 != 0);
        lemma_interval_comes(pulsed, ticks[last]);
        assert(0 < ticks[last] * tick <= 4_294_967_200) by (nonlinear_arith)
            requires
                0 < ticks[last] <= 42_949_672,
                0 < tick <= 100,
        ;
        let state = laws::fed(start, stream_bytes(ticks, marks));
        assert forall|i: int| 0 <= i < ticks.len() implies (#[trigger] state.events[i]).nanoseconds
            == ticks[i] * tick && state.events[i].index == marks[i] by {
            if i < last {
                assert(state.events[i] == before.events[i]);
                assert(less[i] == ticks[i] && fewer[i] == marks[i]);
            }
        }
        if forall|i: int| 0 <= i < marks.len() ==> !#[trigger] marks[i] {
            assert(!marks[last]);
            assert forall|i: int| 0 <= i < fewer.len() implies !#[trigger] fewer[i] by {
                assert(fewer[i] == marks[i]);
            }
        }
    }
}

/// A disk of legal gaps at nominal speed is decoded to the cells of its gaps:
/// 40 ticks a cell at double density, 20 at high density.
pub proof fn law_nominal_disk_decodes(high_density: bool, gaps: Seq<int>, marks: Seq<bool>)
    requires
        forall|i: int| 0 <= i < gaps.len() ==> 2 <= #[trigger] gaps[i] <= 4,
        marks.len() == gaps.len(),
    ensures
        ({
            let cell = if high_density {
                20int
            } else {
                40int
            };
            let ticks = gaps.map_values(|gap: int| gap * cell);
            let state = laws::fed(
                CaptureState::start(true, high_density),
                stream_bytes(ticks, marks),
            );
            rotation::decoded(PllState::centred(), state.events) == following::laid_out(gaps)
        }),
{
    let cell = if high_density {
        20int
    } else {
        40int
    };
    let ticks = gaps.map_values(|gap: int| gap * cell);
    assert forall|i: int| 0 <= i < ticks.len() implies 0 < #[trigger] ticks[i] <= 42_949_672
        && ticks[i] % 256 != 0 by {
        assert(2 <= gaps[i] <= 4);
        assert(ticks[i] == gaps[i] * cell);
    }
    law_stream_carries_intervals(true, high_density, ticks, marks);
    let events = laws::fed(
        CaptureState::start(true, high_density),
        stream_bytes(ticks, marks),
    ).events;
    assert forall|i: int| 0 <= i < gaps.len() implies (#[trigger] events[i]).nanoseconds == gaps[i]
        * 2_000 by {
        assert(ticks[i] == gaps[i] * cell);
    }
    following::law_steady_speed_decodes(events, gaps, 2_000);
}

/// An immediate capture is complete with the transition at which its times add
/// up to 260 ms; an index-aligned one with its second index pulse; neither with
/// anything else.
pub proof fn law_capture_ends(state: CaptureState, byte: u8)
    requires
        0 <= state.duration <= 0xffff_ffff,
        0 <= state.ticks,
        0 < state.resolution,
        0 <= state.indices < 255,
    ensures
        ({
            let after = state.after(byte);
            &&& state.immediate ==> (state.completes(byte) <==> after.events.len()
                > state.events.len() && state.duration + after.events.last().nanoseconds
                >= 260_000_000)
            &&& !state.immediate ==> (state.completes(byte) <==> state.escaped && byte == 0
                && state.indices >= 1)
        }),
{
    let ticks = stream::at_most(state.ticks + byte, u32::MAX as int);
    assert(ticks * state.resolution >= 0) by (nonlinear_arith)
        requires
            ticks >= 0,
            state.resolution > 0,
    ;
}

/// An interval of a track is written as 20 ticks a cell at high density and as
/// 80 ticks a cell at double density.
pub proof fn law_interval_lasts_its_cells(bits: Seq<bool>, high_density: bool, at: int)
    requires
        0 <= at < mfm::interval_cells(bits).len(),
    ensures
        stream::track_ticks(bits, high_density).len() == mfm::interval_cells(bits).len(),
        stream::track_ticks(bits, high_density)[at] == mfm::interval_cells(bits)[at] * (
        if high_density {
            20int
        } else {
            80int
        }),
{
    let cells = mfm::interval_cells(bits)[at] as int;
    if high_density {
        assert((cells * 1_000 + 25) / 50 == cells * 20);
    } else {
        assert((cells * 2_000 + 12) / 25 == cells * 80);
    }
}

/// The intervals that counters carry, and the ticks that are left over: a zero
/// is 65536 ticks without a transition, anything else ends an interval.
pub open spec fn grouped(values: Seq<int>) -> (Seq<int>, int)
    decreases values.len(),
{
    if values.len() == 0 {
        (Seq::empty(), 0)
    } else {
        let (done, pending) = grouped(values.drop_last());
        if values.last() == 0 {
            (done, pending + 65_536)
        } else {
            (done.push(pending + values.last()), 0)
        }
    }
}

/// The counters in some bytes, two bytes each, the more significant first.
pub open spec fn counters_in(bytes: Seq<u8>) -> Seq<int> {
    Seq::new((bytes.len() / 2) as nat, |i: int| bytes[2 * i] * 256 + bytes[2 * i + 1])
}

proof fn lemma_empty_counters(before: Seq<int>, count: nat)
    ensures
        grouped(before + Seq::new(count, |i: int| 0int)).0 == grouped(before).0,
        grouped(before + Seq::new(count, |i: int| 0int)).1 == grouped(before).1 + 65_536 * count,
    decreases count,
{
    let more = before + Seq::new(count, |i: int| 0int);
    if count == 0 {
        assert(more == before);
    } else {
        lemma_empty_counters(before, (count - 1) as nat);
        assert(more.drop_last() == before + Seq::new((count - 1) as nat, |i: int| 0int));
    }
}

proof fn lemma_grouped(ticks: Seq<int>)
    requires
        forall|i: int| 0 <= i < ticks.len() ==> 0 < #[trigger] ticks[i] && ticks[i] % 65_536 != 0,
    ensures
        grouped(stream::all_counters(ticks)).0 == ticks,
        grouped(stream::all_counters(ticks)).1 == 0,
        forall|i: int|
            0 <= i < stream::all_counters(ticks).len() ==> 0 <= #[trigger] stream::all_counters(
                ticks,
            )[i] <= 0xffff,
    decreases ticks.len(),
{
    if ticks.len() > 0 {
        let less = ticks.drop_last();
        let last = ticks[ticks.len() - 1];
        assert forall|i: int| 0 <= i < less.len() implies 0 < #[trigger] less[i] && less[i] % 65_536
            != 0 by {
            assert(less[i] == ticks[i]);
        }
        lemma_grouped(less);
        laws::law_counters_carry_ticks(last);
        let before = stream::all_counters(less);
        let own = stream::counters(last);
        let count = (own.len() - 1) as nat;
        lemma_empty_counters(before, count);
        let whole = stream::all_counters(ticks);
        assert(whole.drop_last() == before + Seq::new(count, |i: int| 0int));
        assert(grouped(whole).0 == less.push(last));
        assert(less.push(last) == ticks);
        assert forall|i: int| 0 <= i < whole.len() implies 0 <= #[trigger] whole[i] <= 0xffff by {
            if i < before.len() {
                assert(whole[i] == before[i]);
            } else {
                assert(whole[i] == own[i - before.len()]);
            }
        }
    }
}

proof fn lemma_counters_in(values: Seq<int>)
    requires
        forall|i: int| 0 <= i < values.len() ==> 0 <= #[trigger] values[i] <= 0xffff,
    ensures
        stream::counter_bytes(values).len() == 2 * values.len(),
        counters_in(stream::counter_bytes(values)) == values,
    decreases values.len(),
{
    if values.len() > 0 {
        let less = values.drop_last();
        let last = values[values.len() - 1];
        assert forall|i: int| 0 <= i < less.len() implies 0 <= #[trigger] less[i] <= 0xffff by {
            assert(less[i] == values[i]);
        }
        lemma_counters_in(less);
        let early = stream::counter_bytes(less);
        let whole = stream::counter_bytes(values);
        assert(whole == early + bytes::be16(last));
        assert forall|i: int| 0 <= i < values.len() implies #[trigger] counters_in(whole)[i]
            == values[i] by {
            if i < less.len() {
                assert(counters_in(early)[i] == less[i]);
                assert(whole[2 * i] == early[2 * i] && whole[2 * i + 1] == early[2 * i + 1]);
            } else {
                assert(whole[2 * i] == bytes::be16(last)[0]);
                assert(whole[2 * i + 1] == bytes::be16(last)[1]);
            }
        }
    } else {
        assert(counters_in(stream::counter_bytes(values)) =~= values);
    }
}

/// The counters written for a track carry its intervals in order: 20 ticks a
/// cell at high density, 80 at double density, with nothing left over.
pub proof fn law_written_counters_carry_cells(bits: Seq<bool>, high_density: bool)
    requires
        bits.len() > 0,
        forall|i: int|
            0 <= i < mfm::interval_cells(bits).len() ==> {
                &&& #[trigger] mfm::interval_cells(bits)[i] * 20 % 65_536 != 0 || !high_density
                &&& mfm::interval_cells(bits)[i] * 80 % 65_536 != 0 || high_density
            },
    ensures
        ({
            let written = stream::counter_bytes(
                stream::all_counters(stream::track_ticks(bits, high_density)),
            );
            let (carried, left) = grouped(counters_in(written));
            let counts = mfm::interval_cells(bits);
            &&& left == 0
            &&& carried.len() == counts.len()
            &&& high_density ==> forall|i: int|
                0 <= i < counts.len() ==> #[trigger] carried[i] == counts[i] * 20
            &&& !high_density ==> forall|i: int|
                0 <= i < counts.len() ==> #[trigger] carried[i] == counts[i] * 80
        }),
{
    let ticks = stream::track_ticks(bits, high_density);
    flux::laws::lemma_intervals_rebuild(bits);
    assert forall|i: int| 0 <= i < ticks.len() implies 0 < #[trigger] ticks[i] && ticks[i] % 65_536
        != 0 && ticks[i] == mfm::interval_cells(bits)[i] * (if high_density {
        20int
    } else {
        80int
    }) by {
        law_interval_lasts_its_cells(bits, high_density, i);
        assert(mfm::interval_cells(bits)[i] >= 1);
    }
    lemma_grouped(ticks);
    lemma_counters_in(stream::all_counters(ticks));
}

} // verus!
