//! How the gaps between transitions stand in a DrawBridge stream.

use vstd::prelude::*;

use super::laws;
use super::stream;
use super::stream::CaptureState;
use crate::flux::{following, mfm};

verus! {

/// The first cells of a stream, at most `window` of them.
pub open spec fn at_most(cells: Seq<bool>, window: int) -> Seq<bool> {
    if cells.len() > window {
        cells.take(window)
    } else {
        cells
    }
}

/// What a pulse adds to a byte that it stands in.
pub open spec fn pulse(marked: bool) -> int {
    if marked {
        128
    } else {
        0
    }
}

/// Whether the bytes of a double-density stream carry some gaps of two to four
/// cells: two in each byte, the earlier one above the later one, a pulse that
/// can mark the earlier one on top, and three bits that carry nothing.
pub open spec fn carry_double(bytes: Seq<u8>, gaps: Seq<int>, marks: Seq<bool>) -> bool {
    &&& gaps.len() == 2 * bytes.len()
    &&& marks.len() == gaps.len()
    &&& forall|i: int| 0 <= i < gaps.len() ==> 2 <= #[trigger] gaps[i] <= 4
    &&& forall|i: int|
        #![trigger bytes[i]]
        0 <= i < bytes.len() ==> {
            let spare = bytes[i] - (pulse(marks[2 * i]) + (gaps[2 * i] - 1) * 32 + (gaps[2 * i + 1]
                - 1) * 8);
            0 <= spare < 8 && !marks[2 * i + 1]
        }
}

/// The two bits that carry a gap of a high-density stream: a pulse stands with a
/// gap of two cells.
pub open spec fn high_code(gap: int, marked: bool) -> int {
    if marked {
        3
    } else {
        gap - 2
    }
}

/// Whether the bytes of a high-density stream carry some gaps of two to four
/// cells: four in each byte, the earliest one on top.
pub open spec fn carry_high(bytes: Seq<u8>, gaps: Seq<int>, marks: Seq<bool>) -> bool {
    &&& gaps.len() == 4 * bytes.len()
    &&& marks.len() == gaps.len()
    &&& forall|i: int|
        0 <= i < gaps.len() ==> 2 <= #[trigger] gaps[i] <= 4 && (marks[i] ==> gaps[i] == 2)
    &&& forall|i: int|
        0 <= i < bytes.len() ==> #[trigger] bytes[i] == high_code(gaps[4 * i], marks[4 * i]) * 64
            + high_code(gaps[4 * i + 1], marks[4 * i + 1]) * 16 + high_code(
            gaps[4 * i + 2],
            marks[4 * i + 2],
        ) * 4 + high_code(gaps[4 * i + 3], marks[4 * i + 3])
}

/// Whether a stream carries some gaps.
pub open spec fn carry(
    high_density: bool,
    bytes: Seq<u8>,
    gaps: Seq<int>,
    marks: Seq<bool>,
) -> bool {
    if high_density {
        carry_high(bytes, gaps, marks)
    } else {
        carry_double(bytes, gaps, marks)
    }
}

/// The gaps that one byte carries.
spec fn per_byte(high_density: bool) -> int {
    if high_density {
        4
    } else {
        2
    }
}

proof fn lemma_carry_fewer(
    high_density: bool,
    bytes: Seq<u8>,
    gaps: Seq<int>,
    marks: Seq<bool>,
)
    requires
        carry(high_density, bytes, gaps, marks),
        bytes.len() > 0,
    ensures
        carry(
            high_density,
            bytes.drop_last(),
            gaps.take(gaps.len() - per_byte(high_density)),
            marks.take(gaps.len() - per_byte(high_density)),
        ),
{
    let fewer = bytes.drop_last();
    let less = gaps.take(gaps.len() - per_byte(high_density));
    assert forall|i: int| 0 <= i < fewer.len() implies #[trigger] fewer[i] == bytes[i] by {}
    assert forall|i: int| 0 <= i < less.len() implies #[trigger] less[i] == gaps[i] by {}
}

proof fn lemma_sequence(gap: int)
    requires
        2 <= gap <= 4,
    ensures
        stream::sequence((gap - 1) as u8) == following::gap_cells(gap),
{
    assert(stream::sequence((gap - 1) as u8) =~= following::gap_cells(gap));
}

/// State of a capture after some gaps.
spec fn taken(state: CaptureState, gaps: Seq<int>, marks: Seq<bool>) -> CaptureState
    decreases gaps.len(),
{
    if gaps.len() == 0 {
        state
    } else {
        taken(state, gaps.drop_last(), marks.drop_last()).symbol(
            (gaps.last() - 1) as u8,
            marks.last(),
        )
    }
}

proof fn lemma_taken_one(state: CaptureState, gaps: Seq<int>, marks: Seq<bool>, at: int)
    requires
        0 <= at < gaps.len(),
        marks.len() == gaps.len(),
    ensures
        taken(state, gaps.take(at + 1), marks.take(at + 1)) == taken(
            state,
            gaps.take(at),
            marks.take(at),
        ).symbol((gaps[at] - 1) as u8, marks[at]),
{
    assert(gaps.take(at + 1).drop_last() == gaps.take(at));
    assert(marks.take(at + 1).drop_last() == marks.take(at));
}

proof fn lemma_four_codes(byte: u8, a: int, b: int, c: int, d: int)
    requires
        0 <= a < 4,
        0 <= b < 4,
        0 <= c < 4,
        0 <= d < 4,
        byte == a * 64 + b * 16 + c * 4 + d,
    ensures
        byte / 64 == a,
        byte / 16 % 4 == b,
        byte / 4 % 4 == c,
        byte % 4 == d,
{
    let whole = byte as int;
    vstd::arithmetic::div_mod::lemma_fundamental_div_mod_converse(
        whole,
        4,
        a * 16 + b * 4 + c,
        d,
    );
    vstd::arithmetic::div_mod::lemma_fundamental_div_mod_converse(
        whole,
        16,
        a * 4 + b,
        c * 4 + d,
    );
    vstd::arithmetic::div_mod::lemma_fundamental_div_mod_converse(
        whole,
        64,
        a,
        b * 16 + c * 4 + d,
    );
    vstd::arithmetic::div_mod::lemma_fundamental_div_mod_converse(
        whole / 4,
        4,
        a * 4 + b,
        c,
    );
    vstd::arithmetic::div_mod::lemma_fundamental_div_mod_converse(whole / 16, 4, a, b);
}

proof fn lemma_two_codes(byte: u8, marked: bool, a: int, b: int)
    requires
        0 <= a < 4,
        0 <= b < 4,
        0 <= byte - (pulse(marked) + a * 32 + b * 8) < 8,
    ensures
        byte / 32 % 4 == a,
        byte / 8 % 4 == b,
        (byte >= 128) == marked,
{
}

proof fn lemma_high_code(state: CaptureState, code: u8, gap: int, marked: bool)
    requires
        2 <= gap <= 4,
        marked ==> gap == 2,
        code == high_code(gap, marked),
    ensures
        state.high_symbol(code) == state.symbol((gap - 1) as u8, marked),
{
}

/// The codes of one byte are its gaps in order.
#[verifier::spinoff_prover]
#[verifier::rlimit(40)]
proof fn lemma_byte_is_its_gaps(
    state: CaptureState,
    start: CaptureState,
    bytes: Seq<u8>,
    gaps: Seq<int>,
    marks: Seq<bool>,
)
    requires
        carry(state.high_density, bytes, gaps, marks),
        bytes.len() > 0,
        ({
            let early = gaps.len() - per_byte(state.high_density);
            state == taken(start, gaps.take(early), marks.take(early))
        }),
    ensures
        state.codes(bytes.last()) == taken(start, gaps, marks),
{
    let last = bytes.len() - 1;
    let byte = bytes[last];
    let n = gaps.len() as int;
    assert(gaps.take(n) == gaps);
    assert(marks.take(n) == marks);
    if state.high_density {
        let at = n - 4;
        assert(at == 4 * last);
        lemma_taken_one(start, gaps, marks, at);
        lemma_taken_one(start, gaps, marks, at + 1);
        lemma_taken_one(start, gaps, marks, at + 2);
        lemma_taken_one(start, gaps, marks, at + 3);
        let a = high_code(gaps[at], marks[at]);
        let b = high_code(gaps[at + 1], marks[at + 1]);
        let c = high_code(gaps[at + 2], marks[at + 2]);
        let d = high_code(gaps[at + 3], marks[at + 3]);
        lemma_four_codes(byte, a, b, c, d);
        lemma_high_code(state, byte / 64, gaps[at], marks[at]);
        let first = state.high_symbol(byte / 64);
        lemma_high_code(first, byte / 16 % 4, gaps[at + 1], marks[at + 1]);
        let second = first.high_symbol(byte / 16 % 4);
        lemma_high_code(second, byte / 4 % 4, gaps[at + 2], marks[at + 2]);
        let third = second.high_symbol(byte / 4 % 4);
        lemma_high_code(third, byte % 4, gaps[at + 3], marks[at + 3]);
    } else {
        let at = n - 2;
        assert(at == 2 * last);
        lemma_taken_one(start, gaps, marks, at);
        lemma_taken_one(start, gaps, marks, at + 1);
        let a = gaps[at] - 1;
        let b = gaps[at + 1] - 1;
        lemma_two_codes(byte, marks[at], a, b);
    }
}

proof fn lemma_taken_settings(state: CaptureState, gaps: Seq<int>, marks: Seq<bool>)
    ensures
        taken(state, gaps, marks).immediate == state.immediate,
        taken(state, gaps, marks).high_density == state.high_density,
        taken(state, gaps, marks).received == state.received,
    decreases gaps.len(),
{
    if gaps.len() > 0 {
        lemma_taken_settings(state, gaps.drop_last(), marks.drop_last());
    }
}

/// Without a window, an immediate capture holds all of its gaps.
proof fn lemma_immediate_takes_all(high_density: bool, gaps: Seq<int>, marks: Seq<bool>)
    requires
        marks.len() == gaps.len(),
        forall|i: int| 0 <= i < gaps.len() ==> 2 <= #[trigger] gaps[i] <= 4,
    ensures
        ({
            let state = taken(CaptureState::start(true, high_density), gaps, marks);
            &&& state.bits == following::laid_out(gaps)
            &&& !state.complete
            &&& !state.indexed
        }),
    decreases gaps.len(),
{
    let start = CaptureState::start(true, high_density);
    if gaps.len() > 0 {
        let less = gaps.drop_last();
        assert forall|i: int| 0 <= i < less.len() implies 2 <= #[trigger] less[i] <= 4 by {
            assert(less[i] == gaps[i]);
        }
        lemma_immediate_takes_all(high_density, less, marks.drop_last());
        lemma_taken_settings(start, less, marks.drop_last());
        lemma_sequence(gaps[gaps.len() - 1]);
    }
}

/// The cells of fewer gaps are the first of those of more.
proof fn lemma_laid_out_grows(gaps: Seq<int>, count: int)
    requires
        0 <= count <= gaps.len(),
    ensures
        following::laid_out(gaps.take(count)).len() <= following::laid_out(gaps).len(),
        following::laid_out(gaps).take(following::laid_out(gaps.take(count)).len() as int)
            == following::laid_out(gaps.take(count)),
    decreases gaps.len(),
{
    let few = following::laid_out(gaps.take(count));
    if count == gaps.len() {
        assert(gaps.take(count) == gaps);
        assert(few.take(few.len() as int) == few);
    } else {
        let less = gaps.drop_last();
        assert(less.take(count) == gaps.take(count));
        lemma_laid_out_grows(less, count);
        assert(following::laid_out(gaps).take(few.len() as int) == following::laid_out(less).take(
            few.len() as int,
        ));
    }
}

/// An immediate capture holds the cells of the gaps that the stream carries, in
/// the order in which they came, up to its window: 120000 cells at double
/// density, 240000 at high density. It is complete once they are full.
pub proof fn law_immediate_capture_keeps_gaps(
    high_density: bool,
    bytes: Seq<u8>,
    gaps: Seq<int>,
    marks: Seq<bool>,
)
    requires
        carry(high_density, bytes, gaps, marks),
    ensures
        ({
            let window = if high_density {
                240_000int
            } else {
                120_000int
            };
            let state = laws::fed(CaptureState::start(true, high_density), bytes);
            &&& state.bits == at_most(following::laid_out(gaps), window)
            &&& state.complete == (following::laid_out(gaps).len() >= window)
            &&& !state.indexed
        }),
    decreases bytes.len(),
{
    let start = CaptureState::start(true, high_density);
    let window = if high_density {
        240_000int
    } else {
        120_000int
    };
    laws::lemma_settings_kept(start, bytes);
    lemma_immediate_takes_all(high_density, gaps, marks);
    if bytes.len() > 0 {
        let early = gaps.len() - per_byte(high_density);
        lemma_carry_fewer(high_density, bytes, gaps, marks);
        law_immediate_capture_keeps_gaps(
            high_density,
            bytes.drop_last(),
            gaps.take(early),
            marks.take(early),
        );
        let before = laws::fed(start, bytes.drop_last());
        laws::lemma_settings_kept(start, bytes.drop_last());
        lemma_laid_out_grows(gaps, early);
        if before.complete {
            assert(before.codes(bytes.last()) == before);
            assert(following::laid_out(gaps).take(window) == following::laid_out(
                gaps.take(early),
            ).take(window)) by {
                let few = following::laid_out(gaps.take(early));
                assert(following::laid_out(gaps).take(few.len() as int).take(window)
                    == following::laid_out(gaps).take(window));
            }
            assert(before.bits.take(window) == before.bits);
        } else {
            let whole = taken(start, gaps.take(early), marks.take(early));
            lemma_immediate_takes_all(high_density, gaps.take(early), marks.take(early));
            lemma_taken_settings(start, gaps.take(early), marks.take(early));
            lemma_byte_is_its_gaps(whole, start, bytes, gaps, marks);
            lemma_taken_settings(start, gaps, marks);
            assert(before == (CaptureState { received: before.received, ..whole }));
            lemma_received_is_apart(whole, before.received, bytes.last());
            assert(before.codes(bytes.last()).bits == following::laid_out(gaps));
            assert(following::laid_out(gaps).len() == window ==> following::laid_out(gaps).take(
                window,
            ) == following::laid_out(gaps));
        }
    }
}

/// How many bytes have come does not change what a byte does to the cells.
proof fn lemma_received_is_apart(state: CaptureState, received: int, byte: u8)
    ensures
        (CaptureState { received, ..state }).codes(byte) == (CaptureState {
            received,
            ..state.codes(byte)
        }),
{
    if state.high_density {
        let a = byte / 64;
        let b = byte / 16 % 4;
        let c = byte / 4 % 4;
        let d = byte % 4;
        let first = state.high_symbol(a);
        let second = first.high_symbol(b);
        let third = second.high_symbol(c);
        assert((CaptureState { received, ..state }).high_symbol(a) == (CaptureState {
            received,
            ..first
        }));
        assert((CaptureState { received, ..first }).high_symbol(b) == (CaptureState {
            received,
            ..second
        }));
        assert((CaptureState { received, ..second }).high_symbol(c) == (CaptureState {
            received,
            ..third
        }));
        assert((CaptureState { received, ..third }).high_symbol(d) == (CaptureState {
            received,
            ..third.high_symbol(d)
        }));
    } else {
        let first = state.symbol(byte / 32 % 4, byte >= 128);
        assert((CaptureState { received, ..state }).symbol(byte / 32 % 4, byte >= 128) == (
        CaptureState { received, ..first }));
    }
}

/// An index-aligned capture before, between and after its pulses.
proof fn lemma_aligned_takes(
    high_density: bool,
    gaps: Seq<int>,
    marks: Seq<bool>,
    first: int,
    second: int,
)
    requires
        marks.len() == gaps.len(),
        forall|i: int| 0 <= i < gaps.len() ==> 2 <= #[trigger] gaps[i] <= 4,
        0 <= first < second,
        forall|i: int|
            0 <= i < marks.len() && i <= second ==> #[trigger] marks[i] == (i == first || i
                == second),
    ensures
        ({
            let state = taken(CaptureState::start(false, high_density), gaps, marks);
            &&& state.indexed == (gaps.len() > first)
            &&& state.complete == (gaps.len() > second)
            &&& first < gaps.len() <= second ==> state.bits == following::laid_out(
                gaps.subrange(first, gaps.len() as int),
            )
            &&& gaps.len() > second ==> state.bits == following::laid_out(
                gaps.subrange(first, second),
            )
        }),
    decreases gaps.len(),
{
    let start = CaptureState::start(false, high_density);
    if gaps.len() > 0 {
        let last = gaps.len() - 1;
        let less = gaps.drop_last();
        let fewer = marks.drop_last();
        assert forall|i: int| 0 <= i < less.len() implies 2 <= #[trigger] less[i] <= 4 by {
            assert(less[i] == gaps[i]);
        }
        assert forall|i: int| 0 <= i < fewer.len() && i <= second implies #[trigger] fewer[i] == (i
            == first || i == second) by {
            assert(fewer[i] == marks[i]);
        }
        lemma_aligned_takes(high_density, less, fewer, first, second);
        lemma_taken_settings(start, less, fewer);
        lemma_sequence(gaps[last]);
        assert(last <= second ==> marks[last] == (last == first || last == second));
        if last == first {
            let own = gaps.subrange(first, first + 1);
            reveal_with_fuel(following::laid_out, 2);
            assert(own.drop_last() == Seq::<int>::empty());
            assert(following::laid_out(own) == Seq::<bool>::empty() + following::gap_cells(
                gaps[last],
            ));
        } else if first < last < second {
            let own = gaps.subrange(first, last + 1);
            assert(own.drop_last() == less.subrange(first, last));
        } else if last == second {
            assert(gaps.subrange(first, second) == less.subrange(first, last));
        } else if last > second {
            assert(gaps.subrange(first, second) == less.subrange(first, second));
        }
    }
}

/// An index-aligned capture holds the gaps from the first pulse up to, and
/// without, the one at the second pulse, in the order in which they came; it is
/// complete at the second pulse.
pub proof fn law_aligned_capture_keeps_gaps(
    high_density: bool,
    bytes: Seq<u8>,
    gaps: Seq<int>,
    marks: Seq<bool>,
    first: int,
    second: int,
)
    requires
        carry(high_density, bytes, gaps, marks),
        0 <= first < second < gaps.len(),
        forall|i: int| 0 <= i <= second ==> #[trigger] marks[i] == (i == first || i == second),
    ensures
        ({
            let state = laws::fed(CaptureState::start(false, high_density), bytes);
            &&& state.indexed
            &&& state.complete
            &&& state.bits == following::laid_out(gaps.subrange(first, second))
        }),
{
    assert forall|i: int| 0 <= i < gaps.len() implies 2 <= #[trigger] gaps[i] <= 4 by {}
    lemma_aligned_is_taken(high_density, bytes, gaps, marks);
    lemma_aligned_takes(high_density, gaps, marks, first, second);
}

proof fn lemma_aligned_is_taken(
    high_density: bool,
    bytes: Seq<u8>,
    gaps: Seq<int>,
    marks: Seq<bool>,
)
    requires
        carry(high_density, bytes, gaps, marks),
    ensures
        ({
            let start = CaptureState::start(false, high_density);
            laws::fed(start, bytes) == (CaptureState {
                received: bytes.len() as int,
                ..taken(start, gaps, marks)
            })
        }),
    decreases bytes.len(),
{
    let start = CaptureState::start(false, high_density);
    if bytes.len() > 0 {
        let early = gaps.len() - per_byte(high_density);
        lemma_carry_fewer(high_density, bytes, gaps, marks);
        lemma_aligned_is_taken(
            high_density,
            bytes.drop_last(),
            gaps.take(early),
            marks.take(early),
        );
        let whole = taken(start, gaps.take(early), marks.take(early));
        lemma_taken_settings(start, gaps.take(early), marks.take(early));
        lemma_taken_settings(start, gaps, marks);
        lemma_byte_is_its_gaps(whole, start, bytes, gaps, marks);
        lemma_received_is_apart(whole, bytes.len() - 1, bytes.last());
    }
}

/// A double-density code of no transition, zero, is three empty cells.
pub proof fn law_no_transition_is_three_cells(state: CaptureState, byte: u8)
    requires
        state.immediate,
        !state.high_density,
        !state.complete,
        state.bits.len() + 6 < 120_000,
        byte < 8,
    ensures
        state.after(byte).bits == state.bits + seq![false, false, false, false, false, false],
{
    assert(byte / 32 % 4 == 0 && byte / 8 % 4 == 0);
}

proof fn lemma_empty_cells_count(before: Seq<bool>, count: nat)
    ensures
        ({
            let more = before + Seq::new(count, |i: int| false);
            &&& mfm::transition_cells(more) == mfm::transition_cells(before)
            &&& mfm::trailing_cells(more) == mfm::trailing_cells(before) + count
        }),
    decreases count,
{
    let more = before + Seq::new(count, |i: int| false);
    if count == 0 {
        assert(more == before);
    } else {
        lemma_empty_cells_count(before, (count - 1) as nat);
        assert(more.drop_last() == before + Seq::new((count - 1) as nat, |i: int| false));
    }
}

proof fn lemma_gap_is_counted(before: Seq<bool>, gap: int)
    requires
        gap >= 1,
    ensures
        ({
            let more = before + following::gap_cells(gap);
            &&& mfm::transition_cells(more) == mfm::transition_cells(before).push(
                mfm::trailing_cells(before) + gap as nat,
            )
            &&& mfm::trailing_cells(more) == 0
        }),
{
    let more = before + following::gap_cells(gap);
    lemma_empty_cells_count(before, (gap - 1) as nat);
    assert(more.drop_last() == before + Seq::new((gap - 1) as nat, |i: int| false));
    assert(more.last());
}

/// What a gap is written as: from two cells to `limit`.
pub open spec fn kept(gap: int, limit: int) -> int {
    if gap < 2 {
        2
    } else if gap > limit {
        limit
    } else {
        gap
    }
}

proof fn lemma_gaps_are_counted(gaps: Seq<int>)
    requires
        forall|i: int| 0 <= i < gaps.len() ==> 1 <= #[trigger] gaps[i],
    ensures
        mfm::transition_cells(following::laid_out(gaps)) == gaps.map_values(|gap: int| gap as nat),
        mfm::trailing_cells(following::laid_out(gaps)) == 0,
    decreases gaps.len(),
{
    if gaps.len() > 0 {
        let less = gaps.drop_last();
        let last = gaps[gaps.len() - 1];
        assert forall|i: int| 0 <= i < less.len() implies 1 <= #[trigger] less[i] by {
            assert(less[i] == gaps[i]);
        }
        lemma_gaps_are_counted(less);
        lemma_gap_is_counted(following::laid_out(less), last);
        assert(gaps.map_values(|gap: int| gap as nat) == less.map_values(
            |gap: int| gap as nat,
        ).push(last as nat));
    }
}

/// The gaps of a track are counted in order, each kept to what can be written,
/// and four short ones run out after them.
pub proof fn law_gaps_are_counted_in_order(gaps: Seq<int>, limit: u8)
    requires
        limit >= 2,
        forall|i: int| 0 <= i < gaps.len() ==> 1 <= #[trigger] gaps[i],
    ensures
        ({
            let counted = stream::counts(following::laid_out(gaps), limit);
            &&& counted.len() == gaps.len() + 4
            &&& forall|i: int|
                0 <= i < gaps.len() ==> #[trigger] counted[i] == kept(gaps[i], limit as int)
            &&& forall|i: int| gaps.len() <= i < gaps.len() + 4 ==> #[trigger] counted[i] == 2
        }),
{
    let cells = following::laid_out(gaps);
    lemma_gaps_are_counted(gaps);
    let more = gaps + seq![1int, 2, 2, 2];
    let a = cells + following::gap_cells(1);
    let b = a + following::gap_cells(2);
    let c = b + following::gap_cells(2);
    let d = c + following::gap_cells(2);
    lemma_gap_is_counted(cells, 1);
    lemma_gap_is_counted(a, 2);
    lemma_gap_is_counted(b, 2);
    lemma_gap_is_counted(c, 2);
    lemma_empty_cells_count(d, 1);
    assert(cells + stream::run_out() == d + Seq::new(1, |i: int| false));
    let counted = mfm::transition_cells(d);
    assert(counted == gaps.map_values(|gap: int| gap as nat) + seq![1nat, 2, 2, 2]);
}

/// Half a byte of some bytes, the lower half of each first.
pub open spec fn half_byte(bytes: Seq<u8>, at: int) -> int {
    if at % 2 == 0 {
        bytes[at / 2] as int % 16
    } else {
        bytes[at / 2] as int / 16
    }
}

/// Two bits of some bytes: of each, bits 4 and 5, then bits 2 and 3, then bits 0
/// and 1, then bits 6 and 7.
pub open spec fn two_bits(bytes: Seq<u8>, at: int) -> int {
    let byte = bytes[at / 4] as int;
    if at % 4 == 0 {
        byte / 16 % 4
    } else if at % 4 == 1 {
        byte / 4 % 4
    } else if at % 4 == 2 {
        byte % 4
    } else {
        byte / 64
    }
}

/// A double-density write carries the gaps of a track in order, half a byte
/// each, behind a gap of two cells: a gap of two to five cells less two, and
/// above it how the transition at its end is shifted when precompensation is
/// asked for. It is shifted one way between a gap of two cells and one of four
/// or more, the other way between one of four or more and one of two, and not
/// otherwise.
pub proof fn law_double_write_carries_gaps(gaps: Seq<int>, precomp: bool, at: int)
    requires
        forall|i: int| 0 <= i < gaps.len() ==> 2 <= #[trigger] gaps[i] <= 5,
        0 <= at < gaps.len() + 4,
    ensures
        ({
            let bytes = stream::double_track(following::laid_out(gaps), precomp);
            let padded = seq![2int] + gaps + seq![2int, 2, 2, 2];
            let own = padded[at];
            let next = padded[at + 1];
            &&& bytes.len() == (gaps.len() + 5) / 2
            &&& half_byte(bytes, at) % 4 == own - 2
            &&& half_byte(bytes, at) / 4 == (if precomp && own == 2 && next >= 4 {
                1int
            } else if precomp && own >= 4 && next == 2 {
                2int
            } else {
                0int
            })
        }),
{
    let values = stream::counts(following::laid_out(gaps), 5);
    let padded = seq![2int] + gaps + seq![2int, 2, 2, 2];
    law_gaps_are_counted_in_order(gaps, 5);
    assert forall|i: int| 0 <= i < values.len() implies #[trigger] values[i] == padded[i + 1] by {
        if i < gaps.len() {
            assert(padded[i + 1] == gaps[i]);
        }
    }
    assert forall|i: int| 0 <= i < padded.len() implies 2 <= #[trigger] padded[i] <= 5 by {
        if 1 <= i <= gaps.len() {
            assert(padded[i] == gaps[i - 1]);
        }
    }
    let low = stream::nibble(values, at / 2 * 2, precomp);
    let high = stream::nibble(values, at / 2 * 2 + 1, precomp);
    assert(values[at] == padded[at + 1]);
    assert(at > 0 ==> values[at - 1] == padded[at]);
    assert(0 <= low < 16) by {
        let k = at / 2 * 2;
        assert(values[k] == padded[k + 1]);
        assert(k > 0 ==> values[k - 1] == padded[k]);
    }
    assert(0 <= high < 16) by {
        let k = at / 2 * 2 + 1;
        if k < values.len() {
            assert(values[k] == padded[k + 1]);
            assert(values[k - 1] == padded[k]);
        }
    }
    let bytes = stream::double_track(following::laid_out(gaps), precomp);
    assert(bytes[at / 2] == low + 16 * high);
    assert(half_byte(bytes, at) == stream::nibble(values, at, precomp));
}

/// A high-density write carries the gaps of a track in order, two bits each: a
/// gap of two to four cells less one. A zero byte ends it.
pub proof fn law_high_write_carries_gaps(gaps: Seq<int>, at: int)
    requires
        forall|i: int| 0 <= i < gaps.len() ==> 2 <= #[trigger] gaps[i] <= 4,
        0 <= at < gaps.len() + 4,
    ensures
        ({
            let bytes = stream::high_track(following::laid_out(gaps));
            let padded = gaps + seq![2int, 2, 2, 2];
            &&& bytes.len() == (gaps.len() + 7) / 4 + 1
            &&& two_bits(bytes, at) == padded[at] - 1
            &&& bytes.last() == 0
        }),
{
    let values = stream::counts(following::laid_out(gaps), 4);
    let padded = gaps + seq![2int, 2, 2, 2];
    law_gaps_are_counted_in_order(gaps, 4);
    assert forall|i: int| 0 <= i < values.len() implies #[trigger] values[i] == padded[i] && 2
        <= values[i] <= 4 by {
        if i < gaps.len() {
            assert(padded[i] == gaps[i]);
        }
    }
    let k = at / 4;
    let a = stream::crumb(values, 4 * k);
    let b = stream::crumb(values, 4 * k + 1);
    let c = stream::crumb(values, 4 * k + 2);
    let d = stream::crumb(values, 4 * k + 3);
    let bytes = stream::high_track(following::laid_out(gaps));
    assert(values[at] == padded[at]);
    assert(0 <= a < 4 && 0 <= b < 4 && 0 <= c < 4 && 0 <= d < 4) by {
        assert(values[4 * k] == padded[4 * k]);
        if 4 * k + 1 < values.len() {
            assert(values[4 * k + 1] == padded[4 * k + 1]);
        }
        if 4 * k + 2 < values.len() {
            assert(values[4 * k + 2] == padded[4 * k + 2]);
        }
        if 4 * k + 3 < values.len() {
            assert(values[4 * k + 3] == padded[4 * k + 3]);
        }
    }
    assert(bytes[k] == a * 16 + b * 4 + c + d * 64);
    assert(two_bits(bytes, at) == stream::crumb(values, at));
}

} // verus!
