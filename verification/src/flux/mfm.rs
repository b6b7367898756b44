//! Conversion of packed MFM to flux transition delays.

use vstd::prelude::*;

use super::packed;
use super::packed::{bit_at, bits_fit};
use super::rotation::MAX_TRACK_BITS;
use crate::error::{Error, ErrorView, Result};
use crate::text::append_decimal;

verus! {

/// Empty cells at the end of a bit stream.
pub open spec fn trailing_cells(bits: Seq<bool>) -> nat
    decreases bits.len(),
{
    if bits.len() == 0 || bits.last() {
        0
    } else {
        trailing_cells(bits.drop_last()) + 1
    }
}

/// Cells from one transition to the next, for every transition.
pub open spec fn transition_cells(bits: Seq<bool>) -> Seq<nat>
    decreases bits.len(),
{
    if bits.len() == 0 {
        Seq::empty()
    } else if bits.last() {
        transition_cells(bits.drop_last()).push(trailing_cells(bits.drop_last()) + 1)
    } else {
        transition_cells(bits.drop_last())
    }
}

/// Every interval of a bit stream in cells, a run of trailing empty cells
/// being the last.
pub open spec fn interval_cells(bits: Seq<bool>) -> Seq<nat> {
    if trailing_cells(bits) == 0 {
        transition_cells(bits)
    } else {
        transition_cells(bits).push(trailing_cells(bits))
    }
}

/// Intervals of `cells` scaled to nanoseconds.
pub open spec fn scaled(cells: Seq<nat>, cell_nanoseconds: int) -> Seq<int> {
    cells.map_values(|count: nat| count * cell_nanoseconds)
}

/// Whether every interval in nanoseconds fits 32 bits.
pub open spec fn representable(cells: Seq<nat>, cell_nanoseconds: int) -> bool {
    forall|i: int| 0 <= i < cells.len() ==> #[trigger] cells[i] * cell_nanoseconds <= u32::MAX
}

/// Delays in nanoseconds as mathematical integers.
pub open spec fn delays(flux: Seq<u32>) -> Seq<int> {
    flux.map_values(|delay: u32| delay as int)
}

/// Why a bit stream cannot be written as flux, if it cannot.
pub open spec fn mfm_error(
    words: Seq<u16>,
    bit_len: int,
    cell_nanoseconds: int,
) -> Option<ErrorView> {
    let bits = packed::unpacked(words, bit_len);
    if bit_len == 0 || !packed::fits(words, bit_len) {
        Some(
            ErrorView::InvalidConfig(
                "bit length "@ + crate::text::decimal(bit_len as nat) + " does not fit "@
                    + crate::text::decimal(words.len()) + " MFM words"@,
            ),
        )
    } else if bit_len > MAX_TRACK_BITS {
        Some(ErrorView::TrackTooLarge { bits: bit_len, limit: MAX_TRACK_BITS as int })
    } else if !representable(transition_cells(bits), cell_nanoseconds) {
        Some(ErrorView::InvalidConfig("flux interval nanoseconds overflow"@))
    } else if trailing_cells(bits) * cell_nanoseconds > u32::MAX {
        Some(ErrorView::InvalidConfig("trailing flux interval overflow"@))
    } else {
        None
    }
}

/// There are no more intervals than cells, and none is longer than its track.
pub proof fn lemma_intervals_bounded(bits: Seq<bool>)
    ensures
        trailing_cells(bits) <= bits.len(),
        transition_cells(bits).len() + (if trailing_cells(bits) == 0 {
            0int
        } else {
            1int
        }) <= bits.len(),
        forall|i: int|
            0 <= i < interval_cells(bits).len() ==> #[trigger] interval_cells(bits)[i]
                <= bits.len(),
        forall|i: int|
            0 <= i < transition_cells(bits).len() ==> #[trigger] transition_cells(bits)[i]
                <= bits.len(),
    decreases bits.len(),
{
    if bits.len() > 0 {
        lemma_intervals_bounded(bits.drop_last());
        let shorter = transition_cells(bits.drop_last());
        assert forall|i: int| 0 <= i < transition_cells(bits).len() implies (
        #[trigger] transition_cells(bits)[i]) <= bits.len() by {
            if i < shorter.len() {
                assert(transition_cells(bits)[i] == shorter[i]);
            }
        }
        assert forall|i: int| 0 <= i < interval_cells(bits).len() implies (
        #[trigger] interval_cells(bits)[i]) <= bits.len() by {
            if i < transition_cells(bits).len() {
                assert(interval_cells(bits)[i] == transition_cells(bits)[i]);
            }
        }
    }
}

/// A prefix with an interval too long decides the whole stream.
proof fn lemma_unrepresentable_persists(bits: Seq<bool>, prefix: int, cell_nanoseconds: int)
    requires
        0 <= prefix <= bits.len(),
        !representable(transition_cells(bits.take(prefix)), cell_nanoseconds),
    ensures
        !representable(transition_cells(bits), cell_nanoseconds),
    decreases bits.len(),
{
    if prefix == bits.len() {
        assert(bits.take(prefix) == bits);
    } else {
        assert(bits.drop_last().take(prefix) == bits.take(prefix));
        lemma_unrepresentable_persists(bits.drop_last(), prefix, cell_nanoseconds);
        let shorter = transition_cells(bits.drop_last());
        let bad = choose|i: int|
            0 <= i < shorter.len() && #[trigger] shorter[i] * cell_nanoseconds > u32::MAX;
        assert(transition_cells(bits)[bad] == shorter[bad]);
    }
}

/// Converts packed MFM to transition delays for flux-writing interfaces.
///
/// A final partial word is truncated at `bit_len`.
pub fn mfm_to_flux(words: &[u16], bit_len: usize, cell_nanoseconds: u32) -> (result: Result<
    Vec<u32>,
>)
    ensures
        match mfm_error(words@, bit_len as int, cell_nanoseconds as int) {
            Some(expected) => result matches Err(error) && error@ == expected,
            None => result matches Ok(flux) && delays(flux@) == scaled(
                interval_cells(packed::unpacked(words@, bit_len as int)),
                cell_nanoseconds as int,
            ),
        },
{
    if bit_len == 0 || !bits_fit(words.len(), bit_len) {
        let mut text = "bit length ".to_owned();
        append_decimal(&mut text, bit_len as u64);
        text.append(" does not fit ");
        append_decimal(&mut text, words.len() as u64);
        text.append(" MFM words");
        return Err(Error::InvalidConfig(text));
    }
    if bit_len > MAX_TRACK_BITS {
        return Err(Error::TrackTooLarge { bits: bit_len, limit: MAX_TRACK_BITS });
    }
    let ghost bits = packed::unpacked(words@, bit_len as int);
    let ghost cell = cell_nanoseconds as int;
    let mut flux: Vec<u32> = Vec::with_capacity(bit_len / 2);
    let mut cells: u32 = 0;
    let mut position: usize = 0;
    assert(bits.take(0) == Seq::<bool>::empty());
    assert(delays(flux@) == scaled(transition_cells(bits.take(0)), cell));
    while position < bit_len
        invariant
            position <= bit_len <= MAX_TRACK_BITS,
            packed::fits(words@, bit_len as int),
            bits == packed::unpacked(words@, bit_len as int),
            cell == cell_nanoseconds,
            bit_len > 0,
            cells <= position,
            cells == trailing_cells(bits.take(position as int)),
            representable(transition_cells(bits.take(position as int)), cell),
            delays(flux@) == scaled(transition_cells(bits.take(position as int)), cell),
        decreases bit_len - position,
    {
        let ghost before = bits.take(position as int);
        let bit = bit_at(words, position);
        cells += 1;
        position += 1;
        let ghost now = bits.take(position as int);
        assert(now.drop_last() == before);
        assert(now.last() == bit);
        if bit {
            match cells.checked_mul(cell_nanoseconds) {
                Some(delay) => {
                    let ghost old_flux = flux@;
                    flux.push(delay);
                    assert(delays(flux@) == delays(old_flux).push(delay as int));
                    assert(scaled(transition_cells(now), cell) == scaled(
                        transition_cells(before),
                        cell,
                    ).push(delay as int));
                    assert(representable(transition_cells(now), cell)) by {
                        assert forall|i: int| 0 <= i < transition_cells(now).len() implies (
                        #[trigger] transition_cells(now)[i]) * cell <= u32::MAX by {
                            if i < transition_cells(before).len() {
                                assert(transition_cells(now)[i] == transition_cells(before)[i]);
                            }
                        }
                    }
                },
                None => {
                    proof {
                        let last = transition_cells(now).len() - 1;
                        assert(transition_cells(now)[last] * cell > u32::MAX);
                        lemma_unrepresentable_persists(bits, position as int, cell);
                    }
                    return Err(
                        Error::InvalidConfig("flux interval nanoseconds overflow".to_owned()),
                    );
                },
            }
            cells = 0;
        }
    }
    assert(bits.take(bit_len as int) == bits);
    if cells != 0 {
        match cells.checked_mul(cell_nanoseconds) {
            Some(delay) => {
                let ghost old_flux = flux@;
                flux.push(delay);
                assert(delays(flux@) == delays(old_flux).push(delay as int));
                assert(scaled(interval_cells(bits), cell) == scaled(
                    transition_cells(bits),
                    cell,
                ).push(delay as int));
            },
            None => {
                return Err(Error::InvalidConfig("trailing flux interval overflow".to_owned()));
            },
        }
    }
    Ok(flux)
}

} // verus!
