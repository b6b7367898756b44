//! Laws that relate the flux and MFM operations to each other.

use vstd::prelude::*;

use super::mfm;
use super::overlap;
use super::packed;
use super::pll;
use super::pll::{FluxEvent, PllState};
use super::rotation;
use super::scan;

verus! {

/// Reading a rotated ring is reading the ring from further round.
proof fn lemma_rotated_bit(ring: Seq<bool>, turn: int, position: int)
    requires
        ring.len() > 0,
    ensures
        scan::ring_bit(rotation::rotated(ring, turn), position) == scan::ring_bit(
            ring,
            position + turn,
        ),
{
    vstd::arithmetic::div_mod::lemma_add_mod_noop_right(turn, position, ring.len() as int);
}

proof fn lemma_rotated_value(ring: Seq<bool>, turn: int, start: int, width: nat)
    requires
        ring.len() > 0,
    ensures
        scan::shifted_in(rotation::rotated(ring, turn), start, width) == scan::shifted_in(
            ring,
            start + turn,
            width,
        ),
    decreases width,
{
    if width > 0 {
        lemma_rotated_value(ring, turn, start, (width - 1) as nat);
        lemma_rotated_bit(ring, turn, start + width - 1);
    }
}

proof fn lemma_rotated_checksum(ring: Seq<bool>, turn: int, start: int, count: nat)
    requires
        ring.len() > 0,
    ensures
        scan::mfm_checksum(rotation::rotated(ring, turn), start, count) == scan::mfm_checksum(
            ring,
            start + turn,
            count,
        ),
    decreases count,
{
    if count > 0 {
        lemma_rotated_checksum(ring, turn, start, (count - 1) as nat);
        lemma_rotated_value(ring, turn, start + (count - 1) * 32, 32);
    }
}

proof fn lemma_rotated_stored(ring: Seq<bool>, turn: int, start: int)
    requires
        ring.len() > 0,
    ensures
        scan::stored_value(rotation::rotated(ring, turn), start) == scan::stored_value(
            ring,
            start + turn,
        ),
{
    lemma_rotated_value(ring, turn, start, 32);
    lemma_rotated_value(ring, turn, start + 32, 32);
}

/// A sector of a rotated ring is the sector of the ring further round.
proof fn lemma_rotated_sector(ring: Seq<bool>, turn: int, position: int)
    requires
        ring.len() > 0,
    ensures
        scan::header_valid(rotation::rotated(ring, turn), position) == scan::header_valid(
            ring,
            position + turn,
        ),
        scan::sector_number(rotation::rotated(ring, turn), position) == scan::sector_number(
            ring,
            position + turn,
        ),
        scan::data_valid(rotation::rotated(ring, turn), position) == scan::data_valid(
            ring,
            position + turn,
        ),
{
    let n = ring.len();
    lemma_rotated_value(ring, turn, position, 16);
    lemma_rotated_value(ring, turn, position + 16, 16);
    lemma_rotated_value(ring, turn, position + n - 16, 16);
    lemma_rotated_stored(ring, turn, position + 32);
    lemma_rotated_checksum(ring, turn, position + 32, 10);
    lemma_rotated_stored(ring, turn, position + 352);
    lemma_rotated_checksum(ring, turn, position + 480, 256);
    lemma_rotated_stored(ring, turn, position + 416);
}

/// A sector does not depend on how often the ring has gone round.
proof fn lemma_sector_wraps(ring: Seq<bool>, left: int, right: int)
    requires
        ring.len() > 0,
        left % (ring.len() as int) == right % (ring.len() as int),
    ensures
        scan::header_valid(ring, left) == scan::header_valid(ring, right),
        scan::sector_number(ring, left) == scan::sector_number(ring, right),
        scan::data_valid(ring, left) == scan::data_valid(ring, right),
{
    law_rotation_wraps(ring, left, right);
    lemma_rotated_sector(ring, left, 0);
    lemma_rotated_sector(ring, right, 0);
}

/// Turns that differ by whole revolutions are the same rotation.
pub proof fn law_rotation_wraps(ring: Seq<bool>, left: int, right: int)
    requires
        ring.len() > 0,
        left % (ring.len() as int) == right % (ring.len() as int),
    ensures
        rotation::rotated(ring, left) == rotation::rotated(ring, right),
{
    assert forall|i: int| 0 <= i < ring.len() implies rotation::rotated(ring, left)[i]
        == rotation::rotated(ring, right)[i] by {
        vstd::arithmetic::div_mod::lemma_add_mod_noop(left, i, ring.len() as int);
        vstd::arithmetic::div_mod::lemma_add_mod_noop(right, i, ring.len() as int);
    }
}

/// A whole number of revolutions changes nothing.
pub proof fn law_full_turn_is_identity(ring: Seq<bool>, turn: int)
    requires
        ring.len() > 0,
        turn % (ring.len() as int) == 0,
    ensures
        rotation::rotated(ring, turn) == ring,
{
    vstd::arithmetic::div_mod::lemma_small_mod(0, ring.len());
    law_rotation_wraps(ring, turn, 0);
    assert forall|i: int| 0 <= i < ring.len() implies rotation::rotated(ring, 0)[i] == ring[i] by {
        vstd::arithmetic::div_mod::lemma_small_mod(i as nat, ring.len());
    }
}

/// Turning twice is turning once by the sum.
pub proof fn law_rotations_add(ring: Seq<bool>, first: int, second: int)
    requires
        ring.len() > 0,
    ensures
        rotation::rotated(rotation::rotated(ring, first), second) == rotation::rotated(
            ring,
            first + second,
        ),
{
    assert forall|i: int| 0 <= i < ring.len() implies rotation::rotated(
        rotation::rotated(ring, first),
        second,
    )[i] == rotation::rotated(ring, first + second)[i] by {
        lemma_rotated_bit(ring, first, second + i);
    }
}

proof fn lemma_headers_from_front(ring: Seq<bool>, from: int, to: int)
    requires
        from < to,
    ensures
        scan::headers_in(ring, from, to) == scan::headers_in(ring, from + 1, to)
            + if scan::header_valid(ring, from) {
            1nat
        } else {
            0nat
        },
    decreases to - from,
{
    if from + 1 < to {
        lemma_headers_from_front(ring, from, to - 1);
    } else {
        assert(scan::headers_in(ring, from, to - 1) == 0);
        assert(scan::headers_in(ring, from + 1, to) == 0);
    }
}

proof fn lemma_rotated_headers(ring: Seq<bool>, turn: int, to: int)
    requires
        ring.len() > 0,
        0 <= to,
    ensures
        scan::headers_in(rotation::rotated(ring, turn), 0, to) == scan::headers_in(
            ring,
            turn,
            turn + to,
        ),
    decreases to,
{
    if to > 0 {
        lemma_rotated_headers(ring, turn, to - 1);
        lemma_rotated_sector(ring, turn, to - 1);
    }
}

/// One revolution holds the same headers wherever it starts.
proof fn lemma_headers_anywhere(ring: Seq<bool>, from: int)
    requires
        ring.len() > 0,
        0 <= from,
    ensures
        scan::headers_in(ring, from, from + ring.len()) == scan::headers_in(
            ring,
            0,
            ring.len() as int,
        ),
    decreases from,
{
    let n = ring.len() as int;
    if from > 0 {
        lemma_headers_anywhere(ring, from - 1);
        lemma_headers_from_front(ring, from - 1, from - 1 + n);
        vstd::arithmetic::div_mod::lemma_mod_add_multiples_vanish(from - 1, n);
        lemma_sector_wraps(ring, from - 1, from - 1 + n);
    }
}

proof fn lemma_rotated_good(ring: Seq<bool>, turn: int, number: int)
    requires
        ring.len() > 0,
    ensures
        scan::sector_good(rotation::rotated(ring, turn), ring.len() as int, number)
            == scan::sector_good(ring, ring.len() as int, number),
{
    let n = ring.len() as int;
    let other = rotation::rotated(ring, turn);
    if scan::sector_good(other, n, number) {
        let at = choose|at: int|
            0 <= at < n && #[trigger] scan::header_valid(other, at) && scan::sector_number(
                other,
                at,
            ) == number && scan::data_valid(other, at);
        lemma_rotated_sector(ring, turn, at);
        vstd::arithmetic::div_mod::lemma_mod_twice(at + turn, n);
        lemma_sector_wraps(ring, at + turn, (at + turn) % n);
        assert(scan::header_valid(ring, (at + turn) % n));
    }
    if scan::sector_good(ring, n, number) {
        let at = choose|at: int|
            0 <= at < n && #[trigger] scan::header_valid(ring, at) && scan::sector_number(ring, at)
                == number && scan::data_valid(ring, at);
        let back = (at - turn) % n;
        lemma_rotated_sector(ring, turn, back);
        vstd::arithmetic::div_mod::lemma_add_mod_noop(at - turn, turn, n);
        vstd::arithmetic::div_mod::lemma_add_mod_noop(back, turn, n);
        vstd::arithmetic::div_mod::lemma_mod_twice(at - turn, n);
        assert((back + turn) % n == at % n);
        lemma_sector_wraps(ring, back + turn, at);
        assert(scan::header_valid(other, back));
    }
}

proof fn lemma_rotated_good_below(ring: Seq<bool>, turn: int, limit: nat)
    requires
        ring.len() > 0,
    ensures
        scan::good_below(rotation::rotated(ring, turn), limit) == scan::good_below(ring, limit),
    decreases limit,
{
    if limit > 0 {
        lemma_rotated_good_below(ring, turn, (limit - 1) as nat);
        lemma_rotated_good(ring, turn, limit - 1);
    }
}

/// Where a revolution is cut does not change its classification.
pub proof fn law_scan_ignores_rotation(
    words: Seq<u16>,
    turned: Seq<u16>,
    bit_len: int,
    start_bit: int,
)
    requires
        bit_len > 0,
        start_bit >= 0,
        packed::fits(words, bit_len),
        packed::packs(turned, rotation::rotated(packed::unpacked(words, bit_len), start_bit)),
    ensures
        packed::fits(turned, bit_len),
        scan::scan_outcome(packed::unpacked(turned, bit_len)) == scan::scan_outcome(
            packed::unpacked(words, bit_len),
        ),
{
    let ring = packed::unpacked(words, bit_len);
    let other = rotation::rotated(ring, start_bit);
    assert(packed::unpacked(turned, bit_len) == other);
    lemma_rotated_headers(ring, start_bit, bit_len);
    lemma_headers_anywhere(ring, start_bit);
    lemma_rotated_good_below(ring, start_bit, scan::HD_SECTORS as nat);
}

/// The PLL clock stays within ten percent of nominal whatever the flux does.
pub proof fn law_clock_stays_bounded(events: Seq<FluxEvent>)
    ensures
        rotation::pll_after(PllState::centred(), events).wf(),
    decreases events.len(),
{
    if events.len() > 0 {
        law_clock_stays_bounded(events.drop_last());
        let state = rotation::pll_after(PllState::centred(), events.drop_last());
        let delay = events.last().nanoseconds as int;
        if state.emits(delay) {
            pll::lemma_phase_error_bounded(state, delay);
        }
    }
}

/// Cells decoded from a stream of exact multiples of the nominal cell.
pub open spec fn ideal_cells(counts: Seq<nat>) -> Seq<bool>
    decreases counts.len(),
{
    if counts.len() == 0 {
        Seq::empty()
    } else {
        ideal_cells(counts.drop_last()) + pll::cells_to_transition((counts.last() - 1) as nat)
    }
}

/// A centred PLL decodes an exact number of nominal cells without drifting.
pub proof fn law_ideal_interval_decodes(count: nat)
    requires
        count >= 1,
    ensures
        PllState::centred().after(count * pll::CLOCK_CENTRE_NS) == PllState::centred(),
        PllState::centred().cells(count * pll::CLOCK_CENTRE_NS) == pll::cells_to_transition(
            (count - 1) as nat,
        ),
{
    assert((2000 * count - 1000) / 2000 == count - 1);
}

proof fn lemma_ideal_stream(events: Seq<FluxEvent>, counts: Seq<nat>)
    requires
        events.len() == counts.len(),
        forall|i: int| 0 <= i < counts.len() ==> #[trigger] counts[i] >= 1,
        forall|i: int|
            0 <= i < counts.len() ==> (#[trigger] events[i]).nanoseconds == counts[i]
                * pll::CLOCK_CENTRE_NS,
    ensures
        rotation::pll_after(PllState::centred(), events) == PllState::centred(),
        rotation::decoded(PllState::centred(), events) == ideal_cells(counts),
    decreases events.len(),
{
    if events.len() > 0 {
        lemma_ideal_stream(events.drop_last(), counts.drop_last());
        law_ideal_interval_decodes(counts.last());
        assert(events.last().nanoseconds == counts.last() * pll::CLOCK_CENTRE_NS);
    }
}

proof fn lemma_trailing_are_empty(bits: Seq<bool>)
    ensures
        mfm::trailing_cells(bits) <= bits.len(),
        forall|i: int|
            bits.len() - mfm::trailing_cells(bits) <= i < bits.len() ==> !(#[trigger] bits[i]),
    decreases bits.len(),
{
    if bits.len() > 0 && !bits.last() {
        lemma_trailing_are_empty(bits.drop_last());
        assert forall|i: int|
            bits.len() - mfm::trailing_cells(bits) <= i < bits.len() implies !(
        #[trigger] bits[i]) by {
            if i < bits.len() - 1 {
                assert(bits[i] == bits.drop_last()[i]);
            }
        }
    }
}

proof fn lemma_transitions_rebuild(bits: Seq<bool>)
    ensures
        mfm::trailing_cells(bits) <= bits.len(),
        ideal_cells(mfm::transition_cells(bits)) == bits.take(
            bits.len() - mfm::trailing_cells(bits),
        ),
        forall|i: int|
            0 <= i < mfm::transition_cells(bits).len() ==> #[trigger] mfm::transition_cells(bits)[i]
                >= 1,
    decreases bits.len(),
{
    lemma_trailing_are_empty(bits);
    if bits.len() > 0 {
        let shorter = bits.drop_last();
        lemma_transitions_rebuild(shorter);
        lemma_trailing_are_empty(shorter);
        if bits.last() {
            let counts = mfm::transition_cells(bits);
            assert(counts.drop_last() == mfm::transition_cells(shorter));
            let rebuilt = ideal_cells(counts);
            let empty = mfm::trailing_cells(shorter);
            assert(counts.last() == empty + 1);
            assert(rebuilt == shorter.take(shorter.len() - empty) + pll::cells_to_transition(empty));
            assert forall|i: int| 0 <= i < bits.len() implies #[trigger] rebuilt[i] == bits[i] by {
                if i < bits.len() - 1 {
                    assert(bits[i] == shorter[i]);
                }
            }
            assert(rebuilt == bits);
            assert forall|i: int| 0 <= i < counts.len() implies #[trigger] counts[i] >= 1 by {
                if i < counts.len() - 1 {
                    assert(counts[i] == mfm::transition_cells(shorter)[i]);
                }
            }
            assert(bits.take(bits.len() as int) == bits);
        } else {
            assert(bits.take(bits.len() - mfm::trailing_cells(bits)) == shorter.take(
                shorter.len() - mfm::trailing_cells(shorter),
            ));
        }
    }
}

pub proof fn lemma_intervals_rebuild(bits: Seq<bool>)
    requires
        bits.len() > 0,
    ensures
        ideal_cells(mfm::interval_cells(bits)) == bits.update(bits.len() - 1, true),
        forall|i: int|
            0 <= i < mfm::interval_cells(bits).len() ==> #[trigger] mfm::interval_cells(bits)[i]
                >= 1,
{
    lemma_transitions_rebuild(bits);
    lemma_trailing_are_empty(bits);
    let counts = mfm::interval_cells(bits);
    if mfm::trailing_cells(bits) == 0 {
        assert(bits.take(bits.len() as int) == bits);
        assert(bits.update(bits.len() - 1, true) == bits);
    } else {
        assert(counts.drop_last() == mfm::transition_cells(bits));
        assert forall|i: int| 0 <= i < counts.len() implies #[trigger] counts[i] >= 1 by {
            if i < counts.len() - 1 {
                assert(counts[i] == mfm::transition_cells(bits)[i]);
            }
        }
        assert(ideal_cells(counts) == bits.update(bits.len() - 1, true));
    }
}

pub proof fn lemma_oversize_is_long(state: PllState, events: Seq<FluxEvent>)
    requires
        rotation::oversize(state, events) is Some,
    ensures
        rotation::decoded(state, events).len() > rotation::MAX_TRACK_BITS,
    decreases events.len(),
{
    if rotation::oversize(state, events.drop_last()) is Some {
        lemma_oversize_is_long(state, events.drop_last());
    }
}

proof fn lemma_no_index(events: Seq<FluxEvent>, from: int)
    requires
        0 <= from <= events.len(),
        forall|i: int| 0 <= i < events.len() ==> !(#[trigger] events[i]).index,
    ensures
        rotation::next_index(events, from) == events.len(),
    decreases events.len() - from,
{
    if from < events.len() {
        lemma_no_index(events, from + 1);
    }
}

/// A track written as flux at the nominal cell and read back without an index
/// decodes to the cells written.
///
/// Flux ends with a transition, so the last cell reads back as one even where
/// it was written empty.
pub proof fn law_written_track_reads_back(
    words: Seq<u16>,
    bit_len: int,
    flux: Seq<u32>,
    events: Seq<FluxEvent>,
)
    requires
        mfm::mfm_error(words, bit_len, pll::CLOCK_CENTRE_NS as int) is None,
        bit_len >= 0,
        mfm::delays(flux) == mfm::scaled(
            mfm::interval_cells(packed::unpacked(words, bit_len)),
            pll::CLOCK_CENTRE_NS as int,
        ),
        events == flux.map_values(|delay: u32| FluxEvent { nanoseconds: delay, index: false }),
    ensures
        !rotation::has_index(events),
        rotation::oversize(rotation::warm_state(events), rotation::revolution_events(events))
            is None,
        rotation::revolution_bits(events) == packed::unpacked(words, bit_len).update(
            bit_len - 1,
            true,
        ),
{
    let bits = packed::unpacked(words, bit_len);
    let counts = mfm::interval_cells(bits);
    let cell = pll::CLOCK_CENTRE_NS as int;
    lemma_intervals_rebuild(bits);
    assert(events.len() == mfm::delays(flux).len());
    assert forall|i: int| 0 <= i < counts.len() implies (#[trigger] events[i]).nanoseconds
        == counts[i] * cell by {
        assert(mfm::delays(flux)[i] == mfm::scaled(counts, cell)[i]);
    }
    lemma_ideal_stream(events, counts);
    lemma_no_index(events, 0);
    assert(events.subrange(0, events.len() as int) == events);
    assert(events.take(0) == Seq::<FluxEvent>::empty());
    if rotation::oversize(PllState::centred(), events) is Some {
        lemma_oversize_is_long(PllState::centred(), events);
    }
}

/// Sum of a list of cell counts.
pub open spec fn total_cells(counts: Seq<nat>) -> nat
    decreases counts.len(),
{
    if counts.len() == 0 {
        0
    } else {
        total_cells(counts.drop_last()) + counts.last()
    }
}

proof fn lemma_transitions_total(bits: Seq<bool>)
    ensures
        total_cells(mfm::transition_cells(bits)) + mfm::trailing_cells(bits) == bits.len(),
    decreases bits.len(),
{
    if bits.len() > 0 {
        lemma_transitions_total(bits.drop_last());
        if bits.last() {
            assert(mfm::transition_cells(bits).drop_last() == mfm::transition_cells(
                bits.drop_last(),
            ));
        }
    }
}

/// The intervals written for a track last exactly as long as its cells.
pub proof fn law_intervals_cover_track(bits: Seq<bool>)
    ensures
        total_cells(mfm::interval_cells(bits)) == bits.len(),
{
    lemma_transitions_total(bits);
    if mfm::trailing_cells(bits) > 0 {
        assert(mfm::interval_cells(bits).drop_last() == mfm::transition_cells(bits));
    }
}

/// Every bit stream has exactly one packing.
pub proof fn law_packing_is_unique(left: Seq<u16>, right: Seq<u16>, bits: Seq<bool>)
    requires
        packed::packs(left, bits),
        packed::packs(right, bits),
    ensures
        left == right,
{
    packed::lemma_packing_is_unique(left, right, bits);
}

proof fn lemma_full_agreement(bits: Seq<bool>, left: int, right: int, count: nat)
    requires
        forall|i: int| 0 <= i < count ==> #[trigger] bits[left + i] == bits[right + i],
    ensures
        overlap::agreeing_cells(bits, left, right, count) == count,
    decreases count,
{
    if count > 0 {
        lemma_full_agreement(bits, left, right, (count - 1) as nat);
        assert(bits[left + (count - 1)] == bits[right + (count - 1)]);
    }
}

/// A capture that repeats itself after `period` cells is cut at the period,
/// where no shorter candidate matches the leading anchor perfectly.
pub proof fn law_repeated_capture_is_cut_at_its_period(
    bits: Seq<bool>,
    period: int,
    high_density: bool,
)
    requires
        !overlap::too_short(bits.len() as int, high_density),
        overlap::shortest_join(high_density) <= period <= overlap::longest_join(
            bits.len() as int,
            high_density,
        ),
        forall|i: int| 0 <= i && i + period < bits.len() ==> #[trigger] bits[i] == bits[i + period],
        forall|shorter: int|
            overlap::shortest_join(high_density) <= shorter < period
                ==> #[trigger] overlap::join_score(bits, 0, shorter) < overlap::JOIN_SAMPLE_CELLS,
    ensures
        overlap::unaligned_outcome(bits, high_density) == Ok::<
            Seq<bool>,
            crate::error::ErrorView,
        >(bits.take(period)),
{
    let lower = overlap::shortest_join(high_density);
    let upper = overlap::longest_join(bits.len() as int, high_density);
    let samples = overlap::JOIN_SAMPLE_CELLS as nat;
    let first = overlap::JOIN_WARMUP_CELLS as int;
    let second = first + overlap::JOIN_SECOND_ANCHOR;
    let third = first + overlap::JOIN_THIRD_ANCHOR;
    lemma_full_agreement(bits, first, first + period, samples);
    lemma_full_agreement(bits, second, second + period, samples);
    lemma_full_agreement(bits, third, third + period, samples);
    overlap::lemma_best_join(bits, 0, lower, upper);
    let best = overlap::best_join(bits, 0, lower, upper);
    assert(overlap::join_score(bits, 0, period) == samples);
    assert(overlap::join_score(bits, 0, best.0) == samples);
    assert(best.0 == period);
}

/// A revolution cut from an immediate capture is its head, of a length in the
/// searched window, and repeats at most of the anchors.
pub proof fn law_cut_is_proven(bits: Seq<bool>, high_density: bool, revolution: Seq<bool>)
    requires
        overlap::unaligned_outcome(bits, high_density) == Ok::<
            Seq<bool>,
            crate::error::ErrorView,
        >(revolution),
    ensures
        overlap::shortest_join(high_density) <= revolution.len() <= overlap::longest_join(
            bits.len() as int,
            high_density,
        ),
        revolution == bits.take(revolution.len() as int),
        overlap::majority_convinced(bits, revolution.len() as int),
{
    let lower = overlap::shortest_join(high_density);
    let upper = overlap::longest_join(bits.len() as int, high_density);
    overlap::lemma_best_join(bits, 0, lower, upper);
    overlap::lemma_best_join(bits, overlap::JOIN_SECOND_ANCHOR as int, lower, upper);
    overlap::lemma_best_join(bits, overlap::JOIN_THIRD_ANCHOR as int, lower, upper);
}

/// A revolution rotated to a bit begins with that bit, goes on to its end, and
/// then round from its beginning.
pub proof fn law_rotation_begins_at_its_bit(ring: Seq<bool>, start: int)
    requires
        0 <= start < ring.len(),
    ensures
        rotation::rotated(ring, start) == ring.skip(start) + ring.take(start),
{
    let n = ring.len() as int;
    let turned = rotation::rotated(ring, start);
    let joined = ring.skip(start) + ring.take(start);
    assert forall|i: int| 0 <= i < n implies turned[i] == joined[i] by {
        if start + i < n {
            vstd::arithmetic::div_mod::lemma_small_mod((start + i) as nat, n as nat);
        } else {
            vstd::arithmetic::div_mod::lemma_small_mod((start + i - n) as nat, n as nat);
            vstd::arithmetic::div_mod::lemma_mod_add_multiples_vanish(start + i - n, n);
        }
    }
    assert(turned =~= joined);
}

proof fn lemma_word_is_its_bits(word: u16)
    by (bit_vector)
    ensures
        word == 0x8000 * ((word >> 15) & 1)
            + 0x4000 * ((word >> 14) & 1)
            + 0x2000 * ((word >> 13) & 1)
            + 0x1000 * ((word >> 12) & 1)
            + 0x800 * ((word >> 11) & 1)
            + 0x400 * ((word >> 10) & 1)
            + 0x200 * ((word >> 9) & 1)
            + 0x100 * ((word >> 8) & 1)
            + 0x80 * ((word >> 7) & 1)
            + 0x40 * ((word >> 6) & 1)
            + 0x20 * ((word >> 5) & 1)
            + 0x10 * ((word >> 4) & 1)
            + 0x8 * ((word >> 3) & 1)
            + 0x4 * ((word >> 2) & 1)
            + 0x2 * ((word >> 1) & 1)
            + 0x1 * ((word >> 0) & 1),
        forall|i: u16| i < 16 ==> #[trigger] (word >> i) & 1 == 0 || (word >> i) & 1 == 1,
{
}

/// What a cell counts for in a number, at a weight.
pub open spec fn worth(cell: bool, weight: int) -> int {
    if cell {
        weight
    } else {
        0
    }
}

/// Sixteen cells of a stream are packed into one word as a number, the first
/// cell counting most.
pub proof fn law_word_is_the_number_of_its_cells(words: Seq<u16>, at: int)
    requires
        0 <= at < words.len(),
    ensures
        ({
            let cells = packed::unpacked(words, (words.len() * 16) as int);
            let from = at * 16;
            words[at] == worth(cells[from + 0], 0x8000)
                + worth(cells[from + 1], 0x4000)
                + worth(cells[from + 2], 0x2000)
                + worth(cells[from + 3], 0x1000)
                + worth(cells[from + 4], 0x800)
                + worth(cells[from + 5], 0x400)
                + worth(cells[from + 6], 0x200)
                + worth(cells[from + 7], 0x100)
                + worth(cells[from + 8], 0x80)
                + worth(cells[from + 9], 0x40)
                + worth(cells[from + 10], 0x20)
                + worth(cells[from + 11], 0x10)
                + worth(cells[from + 12], 0x8)
                + worth(cells[from + 13], 0x4)
                + worth(cells[from + 14], 0x2)
                + worth(cells[from + 15], 0x1)
        }),
{
    let word = words[at];
    let cells = packed::unpacked(words, (words.len() * 16) as int);
    lemma_word_is_its_bits(word);
    assert forall|i: int| 0 <= i < 16 implies #[trigger] cells[at * 16 + i] == packed::word_bit(
        word,
        i,
    ) by {
        assert((at * 16 + i) / 16 == at && (at * 16 + i) % 16 == i);
    }
}

/// How many of some cells are the same a period later.
pub open spec fn repeats(bits: Seq<bool>, from: int, to: int, period: int) -> nat
    decreases to - from,
{
    if from >= to {
        0
    } else {
        repeats(bits, from + 1, to, period) + if bits[from] == bits[from + period] {
            1nat
        } else {
            0nat
        }
    }
}

proof fn lemma_repeats_agree(bits: Seq<bool>, from: int, period: int, count: nat)
    ensures
        overlap::agreeing_cells(bits, from, from + period, count) == repeats(
            bits,
            from,
            from + count,
            period,
        ),
    decreases count,
{
    if count > 0 {
        lemma_repeats_agree(bits, from, period, (count - 1) as nat);
        lemma_repeats_from_back(bits, from, from + count, period);
    }
}

proof fn lemma_repeats_from_back(bits: Seq<bool>, from: int, to: int, period: int)
    requires
        from < to,
    ensures
        repeats(bits, from, to, period) == repeats(bits, from, to - 1, period) + if bits[to - 1]
            == bits[to - 1 + period] {
            1nat
        } else {
            0nat
        },
    decreases to - from,
{
    if from + 1 < to {
        lemma_repeats_from_back(bits, from + 1, to, period);
    } else {
        assert(repeats(bits, from + 1, to, period) == 0);
        assert(repeats(bits, from, to - 1, period) == 0);
    }
}

/// A revolution cut from an immediate capture is within a fifth of nominal, and
/// what follows it repeats it: in at least two of three stretches of 1024 cells,
/// at least 768 come again one revolution later.
pub proof fn law_cut_revolution_comes_again(
    bits: Seq<bool>,
    high_density: bool,
    revolution: Seq<bool>,
)
    requires
        overlap::unaligned_outcome(bits, high_density) == Ok::<
            Seq<bool>,
            crate::error::ErrorView,
        >(revolution),
    ensures
        ({
            let period = revolution.len() as int;
            let first = repeats(bits, 2_000, 3_024, period) >= 768;
            let second = repeats(bits, 6_096, 7_120, period) >= 768;
            let third = repeats(bits, 10_192, 11_216, period) >= 768;
            &&& revolution == bits.take(period)
            &&& period + 11_216 <= bits.len()
            &&& high_density ==> 160_000 <= period <= 240_000
            &&& !high_density ==> 80_000 <= period <= 120_000
            &&& (first && second) || (first && third) || (second && third)
        }),
{
    law_cut_is_proven(bits, high_density, revolution);
    let period = revolution.len() as int;
    lemma_repeats_agree(bits, 2_000, period, 1_024);
    lemma_repeats_agree(bits, 6_096, period, 1_024);
    lemma_repeats_agree(bits, 10_192, period, 1_024);
}

/// A capture that comes again after a period within a fifth of nominal, and after
/// no shorter one, is cut at that period.
pub proof fn law_repeated_capture_is_found(bits: Seq<bool>, period: int, high_density: bool)
    requires
        high_density ==> 160_000 < period <= 240_000,
        !high_density ==> 80_000 < period <= 120_000,
        period + 11_216 <= bits.len(),
        forall|i: int| 0 <= i && i + period < bits.len() ==> #[trigger] bits[i] == bits[i + period],
        forall|shorter: int|
            (if high_density {
                160_000int
            } else {
                80_000int
            }) <= shorter < period ==> #[trigger] repeats(bits, 2_000, 3_024, shorter) < 1_024,
    ensures
        overlap::unaligned_outcome(bits, high_density) == Ok::<
            Seq<bool>,
            crate::error::ErrorView,
        >(bits.take(period)),
{
    assert forall|shorter: int| overlap::shortest_join(high_density) <= shorter < period implies
        #[trigger] overlap::join_score(bits, 0, shorter) < overlap::JOIN_SAMPLE_CELLS by {
        lemma_repeats_agree(bits, 2_000, shorter, 1_024);
        assert(repeats(bits, 2_000, 3_024, shorter) < 1_024);
    }
    law_repeated_capture_is_cut_at_its_period(bits, period, high_density);
}

/// Flux that carries every interval of a track at two microseconds a cell, with
/// no index pulse, decodes to the cells of the track; the last one reads back as
/// a transition even where it was written empty.
pub proof fn law_exact_flux_reads_back(bits: Seq<bool>, events: Seq<FluxEvent>)
    requires
        0 < bits.len() <= 237_568,
        events.len() == mfm::interval_cells(bits).len(),
        forall|i: int|
            0 <= i < events.len() ==> (#[trigger] events[i]).nanoseconds == 2_000
                * mfm::interval_cells(bits)[i] && !events[i].index,
    ensures
        !rotation::has_index(events),
        rotation::oversize(rotation::warm_state(events), rotation::revolution_events(events))
            is None,
        rotation::revolution_bits(events) == bits.update(bits.len() - 1, true),
{
    lemma_intervals_rebuild(bits);
    lemma_ideal_stream(events, mfm::interval_cells(bits));
    lemma_no_index(events, 0);
    assert(events.subrange(0, events.len() as int) == events);
    assert(events.take(0) == Seq::<FluxEvent>::empty());
    if rotation::oversize(PllState::centred(), events) is Some {
        lemma_oversize_is_long(PllState::centred(), events);
    }
}

} // verus!
