//! Locating the repeated boundary of an immediate capture.

use vstd::prelude::*;

use super::packed;
use super::packed::pack_bits;
use super::pll::{FluxEvent, PllDecoder, PllState};
use super::rotation;
use super::rotation::{decode_bounded, MAX_TRACK_BITS};
use crate::error::{Error, ErrorView, Result};
use crate::text::append_decimal;

verus! {

/// Cells to leave untouched at the head of a capture before anything anchors
/// to it.
///
/// The first cells are decoded while the PLL is still pulling toward the
/// disk's real rate, and the very first interval is cut short by wherever the
/// capture happened to begin. A comparison anchored inside that stretch scores
/// decode noise, not disagreement between the two passes over the flux.
pub const JOIN_WARMUP_CELLS: usize = 2_000;

/// Cells compared per anchor when scoring a candidate join.
pub const JOIN_SAMPLE_CELLS: usize = 1_024;

/// Offset past the warm-up of the second anchor a candidate join is proved
/// against; the first sits at the warm-up itself.
///
/// The anchors are spread out so one patch of weak oxide under a single anchor
/// cannot veto a join the others prove.
pub const JOIN_SECOND_ANCHOR: usize = 4_096;

/// Offset past the warm-up of the third anchor.
pub const JOIN_THIRD_ANCHOR: usize = 8_192;

/// Matching cells at an anchor that make a candidate join convincing.
pub const JOIN_CONVINCING_CELLS: usize = JOIN_SAMPLE_CELLS * 3 / 4;

/// Cells past the start of a capture that a candidate join must leave for the
/// last anchor's comparison.
pub const JOIN_REACH_CELLS: usize = JOIN_WARMUP_CELLS + JOIN_THIRD_ANCHOR + JOIN_SAMPLE_CELLS;

/// Cells in a nominal revolution.
pub open spec fn nominal_cells(high_density: bool) -> int {
    if high_density {
        200_000
    } else {
        100_000
    }
}

/// Shortest revolution searched for.
pub open spec fn shortest_join(high_density: bool) -> int {
    nominal_cells(high_density) * 4 / 5
}

/// Longest revolution searched for in a capture of `len` cells.
pub open spec fn longest_join(len: int, high_density: bool) -> int {
    if len - JOIN_REACH_CELLS < nominal_cells(high_density) * 6 / 5 {
        len - JOIN_REACH_CELLS
    } else {
        nominal_cells(high_density) * 6 / 5
    }
}

/// Cells among `count` that agree between the windows at `left` and `right`.
pub open spec fn agreeing_cells(bits: Seq<bool>, left: int, right: int, count: nat) -> nat
    decreases count,
{
    if count == 0 {
        0
    } else {
        agreeing_cells(bits, left, right, (count - 1) as nat) + if bits[left + count - 1]
            == bits[right + count - 1] {
            1nat
        } else {
            0nat
        }
    }
}

/// How well a join at `candidate` repeats the stream at an anchor.
pub open spec fn join_score(bits: Seq<bool>, anchor: int, candidate: int) -> nat {
    agreeing_cells(
        bits,
        JOIN_WARMUP_CELLS + anchor,
        JOIN_WARMUP_CELLS + anchor + candidate,
        JOIN_SAMPLE_CELLS as nat,
    )
}

/// The earliest strongest join in `lower..=upper` by one anchor, with its
/// score; `(0, 0)` where nothing matches at all.
pub open spec fn best_join(bits: Seq<bool>, anchor: int, lower: int, upper: int) -> (int, nat)
    decreases upper - lower + 1,
{
    if upper < lower {
        (0, 0)
    } else {
        let best = best_join(bits, anchor, lower, upper - 1);
        let score = join_score(bits, anchor, upper);
        if score > best.1 {
            (upper, score)
        } else {
            best
        }
    }
}

/// Whether an anchor is convinced by a candidate.
pub open spec fn convinced(bits: Seq<bool>, anchor: int, candidate: int) -> bool {
    join_score(bits, anchor, candidate) >= JOIN_CONVINCING_CELLS
}

/// Whether most of the three anchors are convinced by a candidate.
pub open spec fn majority_convinced(bits: Seq<bool>, candidate: int) -> bool {
    let first = convinced(bits, 0, candidate);
    let second = convinced(bits, JOIN_SECOND_ANCHOR as int, candidate);
    let third = convinced(bits, JOIN_THIRD_ANCHOR as int, candidate);
    (first && second) || (first && third) || (second && third)
}

/// The best join a leading anchor finds in a capture.
pub open spec fn led_join(bits: Seq<bool>, anchor: int, high_density: bool) -> (int, nat) {
    best_join(
        bits,
        anchor,
        shortest_join(high_density),
        longest_join(bits.len() as int, high_density),
    )
}

/// Whether the best join of a leading anchor is believed.
pub open spec fn believed(bits: Seq<bool>, anchor: int, high_density: bool) -> bool {
    let best = led_join(bits, anchor, high_density);
    best.1 >= JOIN_CONVINCING_CELLS && majority_convinced(bits, best.0)
}

/// Whether a capture is too short to hold a revolution and its overlap.
pub open spec fn too_short(len: int, high_density: bool) -> bool {
    longest_join(len, high_density) <= shortest_join(high_density)
}

/// Length of the revolution proved by the first anchor whose best join is
/// believed.
pub open spec fn proven_join(bits: Seq<bool>, high_density: bool) -> Option<int> {
    if believed(bits, 0, high_density) {
        Some(led_join(bits, 0, high_density).0)
    } else if believed(bits, JOIN_SECOND_ANCHOR as int, high_density) {
        Some(led_join(bits, JOIN_SECOND_ANCHOR as int, high_density).0)
    } else if believed(bits, JOIN_THIRD_ANCHOR as int, high_density) {
        Some(led_join(bits, JOIN_THIRD_ANCHOR as int, high_density).0)
    } else {
        None
    }
}

/// The best score any leading anchor reached.
pub open spec fn nearest_score(bits: Seq<bool>, high_density: bool) -> nat {
    let first = led_join(bits, 0, high_density).1;
    let second = led_join(bits, JOIN_SECOND_ANCHOR as int, high_density).1;
    let third = led_join(bits, JOIN_THIRD_ANCHOR as int, high_density).1;
    if first >= second && first >= third {
        first
    } else if second >= third {
        second
    } else {
        third
    }
}

/// What [`bits_to_unaligned_revolution`] answers.
pub open spec fn unaligned_outcome(
    bits: Seq<bool>,
    high_density: bool,
) -> core::result::Result<Seq<bool>, ErrorView> {
    if too_short(bits.len() as int, high_density) {
        Err(
            ErrorView::Protocol(
                "immediate capture is too short to locate a revolution overlap"@,
            ),
        )
    } else {
        match proven_join(bits, high_density) {
            Some(join) => Ok(bits.take(join)),
            None => Err(
                ErrorView::Protocol(
                    "could not locate a reliable revolution overlap (best score "@
                        + crate::text::decimal(nearest_score(bits, high_density)) + "/"@
                        + crate::text::decimal(JOIN_SAMPLE_CELLS as nat) + ")"@,
                ),
            ),
        }
    }
}

proof fn lemma_agreeing_bounded(bits: Seq<bool>, left: int, right: int, count: nat)
    ensures
        agreeing_cells(bits, left, right, count) <= count,
    decreases count,
{
    if count > 0 {
        lemma_agreeing_bounded(bits, left, right, (count - 1) as nat);
    }
}

/// The best join is one of the candidates, earliest among the strongest.
pub proof fn lemma_best_join(bits: Seq<bool>, anchor: int, lower: int, upper: int)
    ensures
        ({
            let best = best_join(bits, anchor, lower, upper);
            &&& best.1 <= JOIN_SAMPLE_CELLS
            &&& best.1 > 0 ==> lower <= best.0 <= upper && best.1 == join_score(
                bits,
                anchor,
                best.0,
            )
            &&& forall|c: int|
                lower <= c <= upper ==> #[trigger] join_score(bits, anchor, c) <= best.1
            &&& best.1 > 0 ==> forall|c: int|
                lower <= c < best.0 ==> #[trigger] join_score(bits, anchor, c) < best.1
        }),
    decreases upper - lower + 1,
{
    if lower <= upper {
        lemma_best_join(bits, anchor, lower, upper - 1);
        lemma_agreeing_bounded(
            bits,
            JOIN_WARMUP_CELLS + anchor,
            JOIN_WARMUP_CELLS + anchor + upper,
            JOIN_SAMPLE_CELLS as nat,
        );
    }
}

/// Scores a candidate join at one anchor.
fn score_at(bits: &[bool], anchor: usize, candidate: usize) -> (score: usize)
    requires
        anchor <= JOIN_THIRD_ANCHOR,
        candidate <= 240_000,
        candidate + JOIN_REACH_CELLS <= bits@.len(),
    ensures
        score == join_score(bits@, anchor as int, candidate as int),
        score <= JOIN_SAMPLE_CELLS,
{
    let left: usize = JOIN_WARMUP_CELLS + anchor;
    let right: usize = left + candidate;
    let mut score: usize = 0;
    let mut offset: usize = 0;
    while offset < JOIN_SAMPLE_CELLS
        invariant
            offset <= JOIN_SAMPLE_CELLS,
            score <= offset,
            left <= right <= 260_000,
            left + JOIN_SAMPLE_CELLS <= bits@.len(),
            right + JOIN_SAMPLE_CELLS <= bits@.len(),
            score == agreeing_cells(bits@, left as int, right as int, offset as nat),
        decreases JOIN_SAMPLE_CELLS - offset,
    {
        if bits[left + offset] == bits[right + offset] {
            score += 1;
        }
        offset += 1;
    }
    score
}

/// Scans every candidate join with one leading anchor.
///
/// The correlation peak is a single cell wide, so no candidate can be skipped.
fn best_at(bits: &[bool], anchor: usize, lower: usize, upper: usize) -> (best: (usize, usize))
    requires
        anchor <= JOIN_THIRD_ANCHOR,
        lower <= upper <= 240_000,
        upper + JOIN_REACH_CELLS <= bits@.len(),
    ensures
        (best.0 as int, best.1 as nat) == best_join(
            bits@,
            anchor as int,
            lower as int,
            upper as int,
        ),
{
    let mut best: (usize, usize) = (0, 0);
    let mut candidate: usize = lower;
    while candidate <= upper
        invariant
            anchor <= JOIN_THIRD_ANCHOR,
            lower <= candidate <= upper + 1,
            upper <= 240_000,
            upper + JOIN_REACH_CELLS <= bits@.len(),
            (best.0 as int, best.1 as nat) == best_join(
                bits@,
                anchor as int,
                lower as int,
                candidate - 1,
            ),
        decreases upper + 1 - candidate,
    {
        let score = score_at(bits, anchor, candidate);
        if score > best.1 {
            best = (candidate, score);
        }
        candidate += 1;
    }
    best
}

/// Whether most anchors are convinced by a candidate.
fn majority_agrees(bits: &[bool], candidate: usize) -> (agrees: bool)
    requires
        candidate <= 240_000,
        candidate + JOIN_REACH_CELLS <= bits@.len(),
    ensures
        agrees == majority_convinced(bits@, candidate as int),
{
    let mut agreeing: usize = 0;
    if score_at(bits, 0, candidate) >= JOIN_CONVINCING_CELLS {
        agreeing += 1;
    }
    if score_at(bits, JOIN_SECOND_ANCHOR, candidate) >= JOIN_CONVINCING_CELLS {
        agreeing += 1;
    }
    if score_at(bits, JOIN_THIRD_ANCHOR, candidate) >= JOIN_CONVINCING_CELLS {
        agreeing += 1;
    }
    agreeing * 2 > 3
}

/// The first `len` cells of a capture.
fn prefix(bits: &[bool], len: usize) -> (head: Vec<bool>)
    requires
        len <= bits@.len(),
    ensures
        head@ == bits@.take(len as int),
{
    let mut head: Vec<bool> = Vec::with_capacity(len);
    while head.len() < len
        invariant
            head@.len() <= len <= bits@.len(),
            head@ == bits@.take(head@.len() as int),
        decreases len - head@.len(),
    {
        head.push(bits[head.len()]);
        assert(head@ == bits@.take(head@.len() as int));
    }
    head
}

/// The best join a leading anchor finds, and whether it is believed.
fn lead(bits: &[bool], anchor: usize, lower: usize, upper: usize) -> (found: (usize, usize, bool))
    requires
        anchor <= JOIN_THIRD_ANCHOR,
        0 < lower <= upper <= 240_000,
        upper + JOIN_REACH_CELLS <= bits@.len(),
    ensures
        (found.0 as int, found.1 as nat) == best_join(
            bits@,
            anchor as int,
            lower as int,
            upper as int,
        ),
        found.2 == (found.1 >= JOIN_CONVINCING_CELLS && majority_convinced(bits@, found.0 as int)),
        found.2 ==> lower <= found.0 <= upper,
        found.1 <= JOIN_SAMPLE_CELLS,
{
    let best = best_at(bits, anchor, lower, upper);
    proof {
        lemma_best_join(bits@, anchor as int, lower as int, upper as int);
    }
    if best.1 < JOIN_CONVINCING_CELLS {
        return (best.0, best.1, false);
    }
    (best.0, best.1, majority_agrees(bits, best.0))
}

/// Locates a repeated revolution boundary in an immediate decoded bit stream.
///
/// The capture must contain at least one revolution plus an overlap. Candidate
/// joins are searched around the physical DD or HD revolution length, and each
/// must repeat the stream at a majority of the anchors to be believed. One
/// anchor leads the scan; only if its winner fails does the next anchor lead a
/// fresh one, which is the rare case of the leading anchor itself sitting on
/// damaged oxide.
///
/// # Errors
///
/// Returns an error if no repeated boundary is sufficiently convincing.
pub fn bits_to_unaligned_revolution(bits: &[bool], high_density: bool) -> (result: Result<
    Vec<bool>,
>)
    ensures
        match unaligned_outcome(bits@, high_density) {
            Ok(cells) => result matches Ok(revolution) && revolution@ == cells,
            Err(expected) => result matches Err(error) && error@ == expected,
        },
{
    let nominal: usize = if high_density {
        200_000
    } else {
        100_000
    };
    let lower: usize = nominal * 4 / 5;
    let longest: usize = nominal * 6 / 5;
    if bits.len() <= lower + JOIN_REACH_CELLS {
        return Err(
            Error::Protocol(
                "immediate capture is too short to locate a revolution overlap".to_owned(),
            ),
        );
    }
    let room: usize = bits.len() - JOIN_REACH_CELLS;
    let upper: usize = if room < longest {
        room
    } else {
        longest
    };
    let first = lead(bits, 0, lower, upper);
    if first.2 {
        return Ok(prefix(bits, first.0));
    }
    let second = lead(bits, JOIN_SECOND_ANCHOR, lower, upper);
    if second.2 {
        return Ok(prefix(bits, second.0));
    }
    let third = lead(bits, JOIN_THIRD_ANCHOR, lower, upper);
    if third.2 {
        return Ok(prefix(bits, third.0));
    }
    let nearest: usize = if first.1 >= second.1 && first.1 >= third.1 {
        first.1
    } else if second.1 >= third.1 {
        second.1
    } else {
        third.1
    };
    let mut text = "could not locate a reliable revolution overlap (best score ".to_owned();
    append_decimal(&mut text, nearest as u64);
    text.append("/");
    append_decimal(&mut text, JOIN_SAMPLE_CELLS as u64);
    text.append(")");
    Err(Error::Protocol(text))
}

/// Decodes an immediate flux capture and locates its repeated revolution join.
///
/// # Errors
///
/// Returns an error when the capture is too short, too large, or contains no
/// sufficiently convincing repeated boundary.
pub fn flux_to_unaligned_revolution(events: &[FluxEvent], high_density: bool) -> (result: Result<
    (Vec<u16>, usize),
>)
    ensures
        match rotation::oversize(PllState::centred(), events@) {
            Some(bits) => result matches Err(error) && error@ == (ErrorView::TrackTooLarge {
                bits,
                limit: MAX_TRACK_BITS as int,
            }),
            None => match unaligned_outcome(
                rotation::decoded(PllState::centred(), events@),
                high_density,
            ) {
                Ok(cells) => {
                    &&& result matches Ok((words, bit_len))
                    &&& packed::packs(words@, cells)
                    &&& bit_len == cells.len()
                },
                Err(expected) => result matches Err(error) && error@ == expected,
            },
        },
{
    let mut pll = PllDecoder::new();
    assert(events@.subrange(0, events@.len() as int) == events@);
    let bits = match decode_bounded(&mut pll, events, 0, events.len()) {
        Ok(bits) => bits,
        Err(error) => return Err(error),
    };
    match bits_to_unaligned_revolution(&bits, high_density) {
        Ok(cells) => Ok((pack_bits(&cells), cells.len())),
        Err(error) => Err(error),
    }
}

} // verus!
