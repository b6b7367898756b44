//! What holds of the PLL: it follows the speed of the disk.

use vstd::prelude::*;

use super::pll;
use super::pll::{FluxEvent, PllState};
use super::rotation;

verus! {

/// The cells of a gap: all empty but the last, which holds the transition.
pub open spec fn gap_cells(count: int) -> Seq<bool> {
    Seq::new(count as nat, |i: int| i == count - 1)
}

/// The cells of gaps in order.
pub open spec fn laid_out(counts: Seq<int>) -> Seq<bool>
    decreases counts.len(),
{
    if counts.len() == 0 {
        Seq::empty()
    } else {
        laid_out(counts.drop_last()) + gap_cells(counts.last())
    }
}

/// The distance between two numbers.
pub open spec fn apart(left: int, right: int) -> int {
    if left < right {
        right - left
    } else {
        left - right
    }
}

/// Where a transition `error` away from a multiple of the clock falls.
proof fn lemma_falls_in(state: PllState, delay: int, count: int)
    requires
        state.wf(),
        count >= 1,
        -(state.clock - state.clock / 2) <= state.pending + delay - count * state.clock < state.clock
            / 2,
    ensures
        state.emits(delay),
        state.zeros(delay) == count - 1,
        state.phase_error(delay) == state.pending + delay - count * state.clock,
{
    let clock = state.clock;
    let over = state.pending + delay - clock / 2;
    let rest = clock - clock / 2 + (state.pending + delay - count * clock);
    assert((count - 1) * clock == count * clock - clock) by (nonlinear_arith);
    assert((count - 1) * clock >= 0) by (nonlinear_arith)
        requires
            count >= 1,
            clock >= 0,
    ;
    vstd::arithmetic::div_mod::lemma_fundamental_div_mod_converse(over, clock, count - 1, rest);
    assert(state.zeros(delay) == count - 1);
    assert(((count - 1) + 1) * clock == count * clock) by (nonlinear_arith);
}

/// A transition that emits, as a number of cells and what is left over.
proof fn lemma_cells_of(state: PllState, delay: int)
    requires
        state.wf(),
        state.emits(delay),
    ensures
        state.cells(delay).len() == state.zeros(delay) + 1,
        state.cells(delay) == gap_cells(state.zeros(delay) + 1),
        state.phase_error(delay) == state.pending + delay - state.cells(delay).len()
            * state.clock,
        -(state.clock - state.clock / 2) <= state.phase_error(delay) < state.clock / 2,
{
    let clock = state.clock;
    let over = state.elapsed(delay) - clock / 2;
    pll::lemma_phase_error_bounded(state, delay);
    vstd::arithmetic::div_mod::lemma_fundamental_div_mod(over, clock);
    assert((over / clock + 1) * clock == clock * (over / clock) + clock) by (nonlinear_arith);
    assert(state.cells(delay) == gap_cells(state.zeros(delay) + 1));
}

/// A transition takes the cell nearest to it. The cells before that one are
/// empty, and half of the distance left over is carried on; a transition before
/// the middle of the first cell gives no cell and waits for the next.
pub proof fn law_transition_takes_nearest_cell(state: PllState, delay: int)
    requires
        state.wf(),
        delay >= 0,
    ensures
        ({
            let elapsed = state.pending + delay;
            let count = state.cells(delay).len() as int;
            let after = state.after(delay);
            &&& state.cells(delay) == gap_cells(count)
            &&& 2 * apart(elapsed, count * state.clock) <= state.clock + 1 || count == 0
            &&& count == 0 ==> 2 * elapsed < state.clock && after.pending == elapsed
                && after.clock == state.clock
            &&& 2 * elapsed >= state.clock ==> count > 0
            &&& count > 0 ==> apart(2 * after.pending, elapsed - count * state.clock) <= 1
            &&& count > 0 ==> 2 * apart(after.pending, 0) <= apart(elapsed, count * state.clock)
        }),
{
    if state.emits(delay) {
        lemma_cells_of(state, delay);
    } else {
        assert(state.cells(delay) == gap_cells(0));
    }
}

/// The pull of a legal gap, with its number of cells written out.
proof fn lemma_pull(state: PllState, delay: int, count: int)
    requires
        state.wf(),
        2 <= count <= 4,
        state.cells(delay).len() == count,
    ensures
        ({
            let error = state.pending + delay - count * state.clock;
            let pulled = state.clock + pll::div_toward_zero(
                pll::div_toward_zero(error, count),
                10,
            );
            &&& state.after(delay).clock == pll::clamp_clock(pulled)
            &&& count * state.clock == state.clock + state.clock || count > 2
            &&& count * state.clock == state.clock + state.clock + state.clock || count != 3
            &&& count * state.clock == 4 * state.clock || count != 4
        }),
{
    lemma_cells_of(state, delay);
    assert(state.zeros(delay) + 1 == count);
}

/// The clock follows the disk: after a legal gap of two to four cells it is not
/// farther from the length of the cells just seen than before.
pub proof fn law_clock_follows_disk(state: PllState, delay: int)
    requires
        state.wf(),
        2 <= state.cells(delay).len() <= 4,
    ensures
        ({
            let elapsed = state.pending + delay;
            let count = state.cells(delay).len() as int;
            apart(count * state.after(delay).clock, elapsed) <= apart(
                count * state.clock,
                elapsed,
            )
        }),
{
    let count = state.cells(delay).len() as int;
    let after = state.after(delay).clock;
    lemma_pull(state, delay, count);
    let elapsed = state.pending + delay;
    if count == 2 {
        assert(apart(2 * after, elapsed) <= apart(2 * state.clock, elapsed));
    } else if count == 3 {
        assert(apart(3 * after, elapsed) <= apart(3 * state.clock, elapsed));
    } else {
        assert(count == 4);
        assert(apart(4 * after, elapsed) <= apart(4 * state.clock, elapsed));
    }
}

/// How strongly the clock is pulled: by a tenth of what each cell of a legal
/// gap was off and no more, as far as the clock range goes.
pub proof fn law_clock_is_pulled_by_a_tenth(state: PllState, delay: int)
    requires
        state.wf(),
        2 <= state.cells(delay).len() <= 4,
    ensures
        ({
            let elapsed = state.pending + delay;
            let count = state.cells(delay).len() as int;
            let clock = state.after(delay).clock;
            &&& apart(10 * (count * (clock - state.clock)), 0) <= apart(
                elapsed,
                count * state.clock,
            )
            &&& {
                ||| clock == 1_800 && elapsed < count * state.clock
                ||| clock == 2_200 && elapsed > count * state.clock
                ||| apart(10 * (count * (clock - state.clock)), elapsed - count * state.clock) < 10
                    * count
            }
        }),
{
    let count = state.cells(delay).len() as int;
    let pull = state.after(delay).clock - state.clock;
    lemma_pull(state, delay, count);
    if count == 2 {
        assert(count * pull == 2 * pull);
    } else if count == 3 {
        assert(count * pull == 3 * pull);
    } else {
        assert(count == 4);
        assert(count * pull == 4 * pull);
    }
}

/// After a gap that is no legal MFM the clock returns toward two microseconds
/// by a tenth of the way.
pub proof fn law_clock_returns_to_nominal(state: PllState, delay: int)
    requires
        state.wf(),
        state.cells(delay).len() == 1 || state.cells(delay).len() > 4,
    ensures
        apart(10 * (state.after(delay).clock - state.clock), 2_000 - state.clock) < 10,
        10 * apart(state.after(delay).clock, state.clock) <= apart(state.clock, 2_000),
        apart(state.after(delay).clock, 2_000) <= apart(state.clock, 2_000),
{
    lemma_cells_of(state, delay);
}

/// The states of a PLL that has followed cells of one length from the start: how
/// far its clock is off, and how far its phase.
spec fn locked(state: PllState, cell: int) -> bool {
    let off = cell - state.clock;
    &&& -100 <= off <= 100
    &&& -300 <= state.pending <= 300
    &&& -200 <= state.pending - 2 * off <= 200
    &&& -600 <= state.pending + 4 * off <= 600
    &&& -2_020 <= state.pending + 20 * off <= 2_020
}

/// A PLL that follows cells of one length decodes a legal gap of them, and keeps
/// following.
#[verifier::spinoff_prover]
proof fn lemma_stays_locked(state: PllState, cell: int, count: int)
    requires
        1_900 <= cell <= 2_100,
        2 <= count <= 4,
        locked(state, cell),
    ensures
        state.cells(count * cell) == gap_cells(count),
        locked(state.after(count * cell), cell),
{
    let delay = count * cell;
    let off = cell - state.clock;
    let error = state.pending + count * off;
    assert(delay - count * state.clock == count * off) by (nonlinear_arith)
        requires
            delay == count * cell,
            off == cell - state.clock,
    ;
    assert(count * off == 2 * off || count * off == 3 * off || count * off == 4 * off) by {
        assert(count == 2 || count == 3 || count == 4);
    }
    lemma_falls_in(state, delay, count);
    lemma_cells_of(state, delay);
    assert(state.phase_error(delay) == error);
    let after = state.after(delay);
    assert(after.pending == pll::div_toward_zero(error, 2));
    if count == 2 {
        assert(pll::div_toward_zero(error, state.zeros(delay) + 1) == pll::div_toward_zero(
            error,
            2,
        ));
        assert(error == state.pending + 2 * off);
    } else if count == 3 {
        assert(pll::div_toward_zero(error, state.zeros(delay) + 1) == pll::div_toward_zero(
            error,
            3,
        ));
        assert(error == state.pending + 3 * off);
    } else {
        assert(pll::div_toward_zero(error, state.zeros(delay) + 1) == pll::div_toward_zero(
            error,
            4,
        ));
        assert(error == state.pending + 4 * off);
    }
}

proof fn lemma_steady_speed(start: PllState, events: Seq<FluxEvent>, counts: Seq<int>, cell: int)
    requires
        1_900 <= cell <= 2_100,
        locked(start, cell),
        steady(events, counts, cell),
    ensures
        rotation::decoded(start, events) == laid_out(counts),
        locked(rotation::pll_after(start, events), cell),
    decreases events.len(),
{
    if events.len() > 0 {
        let fewer = events.drop_last();
        let less = counts.drop_last();
        let last = counts.len() - 1;
        lemma_part_is_steady(events, counts, cell, 0, last);
        assert(events.subrange(0, last) == fewer);
        assert(counts.subrange(0, last) == less);
        lemma_steady_speed(start, fewer, less, cell);
        assert(2 <= counts[last] <= 4);
        assert(events[last].nanoseconds == counts[last] * cell);
        lemma_stays_locked(rotation::pll_after(start, fewer), cell, counts[last]);
    }
}

/// Whether some transitions are legal gaps of cells of one length: two to four
/// cells each.
pub open spec fn steady(events: Seq<FluxEvent>, counts: Seq<int>, cell: int) -> bool {
    &&& events.len() == counts.len()
    &&& forall|i: int| 0 <= i < counts.len() ==> 2 <= #[trigger] counts[i] <= 4
    &&& forall|i: int|
        0 <= i < counts.len() ==> (#[trigger] events[i]).nanoseconds == counts[i] * cell
}

proof fn lemma_part_is_steady(
    events: Seq<FluxEvent>,
    counts: Seq<int>,
    cell: int,
    from: int,
    to: int,
)
    requires
        steady(events, counts, cell),
        0 <= from <= to <= counts.len(),
    ensures
        steady(events.subrange(from, to), counts.subrange(from, to), cell),
{
    let part = events.subrange(from, to);
    let less = counts.subrange(from, to);
    assert forall|i: int| 0 <= i < less.len() implies 2 <= #[trigger] less[i] <= 4 by {
        assert(less[i] == counts[from + i]);
    }
    assert forall|i: int| 0 <= i < less.len() implies (#[trigger] part[i]).nanoseconds == less[i]
        * cell by {
        assert(part[i] == events[from + i]);
    }
}

/// A disk that turns at a steady speed within five percent of nominal is decoded
/// without a mistake: every legal gap of two to four cells gives that many
/// cells, empty but for the last.
pub proof fn law_steady_speed_decodes(events: Seq<FluxEvent>, counts: Seq<int>, cell: int)
    requires
        1_900 <= cell <= 2_100,
        steady(events, counts, cell),
    ensures
        rotation::decoded(PllState::centred(), events) == laid_out(counts),
{
    lemma_steady_speed(PllState::centred(), events, counts, cell);
}

/// A revolution is cut at the index pulses: the gaps from the transition at the
/// first pulse up to, and without, the one at the second, however fast or slow
/// the disk turns within five percent.
pub proof fn law_revolution_is_cut_at_index(
    events: Seq<FluxEvent>,
    counts: Seq<int>,
    cell: int,
    first: int,
    second: int,
)
    requires
        1_900 <= cell <= 2_100,
        steady(events, counts, cell),
        0 <= first < second <= events.len(),
        forall|i: int|
            0 <= i < events.len() && i <= second ==> (#[trigger] events[i]).index == (i == first
                || i == second),
    ensures
        rotation::has_index(events),
        rotation::revolution_bits(events) == laid_out(counts.subrange(first, second)),
{
    rotation::lemma_next_index(events, 0);
    rotation::lemma_next_index(events, first + 1);
    assert(events[first].index);
    let start = rotation::next_index(events, 0);
    assert(start == first) by {
        if start < first {
            assert(events[start].index);
        }
    }
    let end = rotation::next_index(events, first + 1);
    assert(end == second) by {
        assert(second < events.len() ==> events[second].index);
        if end < second {
            assert(events[end].index);
        }
    }
    lemma_part_is_steady(events, counts, cell, 0, first);
    lemma_part_is_steady(events, counts, cell, first, second);
    assert(events.take(first) == events.subrange(0, first));
    lemma_steady_speed(
        PllState::centred(),
        events.subrange(0, first),
        counts.subrange(0, first),
        cell,
    );
    lemma_steady_speed(
        rotation::warm_state(events),
        events.subrange(first, second),
        counts.subrange(first, second),
        cell,
    );
}

/// A stream without an index pulse is one revolution as a whole.
pub proof fn law_stream_without_index_is_whole(
    events: Seq<FluxEvent>,
    counts: Seq<int>,
    cell: int,
)
    requires
        1_900 <= cell <= 2_100,
        steady(events, counts, cell),
        forall|i: int| 0 <= i < events.len() ==> !(#[trigger] events[i]).index,
    ensures
        !rotation::has_index(events),
        rotation::revolution_bits(events) == laid_out(counts),
{
    rotation::lemma_next_index(events, 0);
    assert(!rotation::has_index(events)) by {
        if rotation::has_index(events) {
            assert(events[rotation::next_index(events, 0)].index);
        }
    }
    assert(events.take(0) == Seq::<FluxEvent>::empty());
    assert(events.subrange(0, events.len() as int) == events);
    lemma_steady_speed(PllState::centred(), events, counts, cell);
}

} // verus!
