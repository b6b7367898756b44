//! What holds of every AmigaDOS track: one that was written whole scans as
//! clean, and damage to its data is seen.

use vstd::prelude::*;

use super::scan;
use super::scan::RevolutionScan;

verus! {

/// A cell of a ring.
pub open spec fn cell(ring: Seq<bool>, at: int) -> bool {
    ring[at % (ring.len() as int)]
}

/// The data bit of a lane of an MFM long: clocks and data alternate, the clock
/// first.
pub open spec fn data_bit(ring: Seq<bool>, start: int, long: int, lane: int) -> bool {
    cell(ring, start + 32 * long + 2 * lane + 1)
}

/// Whether an odd number of some longs has its data bit set in a lane.
pub open spec fn odd_parity(ring: Seq<bool>, start: int, longs: nat, lane: int) -> bool
    decreases longs,
{
    if longs == 0 {
        false
    } else {
        odd_parity(ring, start, (longs - 1) as nat, lane) != data_bit(
            ring,
            start,
            longs - 1,
            lane,
        )
    }
}

/// The cells of the sync word, in which a clock is missing.
pub open spec fn sync_cells() -> Seq<bool> {
    seq![
        false,
        true,
        false,
        false,
        false,
        true,
        false,
        false,
        true,
        false,
        false,
        false,
        true,
        false,
        false,
        true,
    ]
}

/// Whether the sync word is written somewhere.
pub open spec fn synced(ring: Seq<bool>, at: int) -> bool {
    forall|i: int| 0 <= i < 16 ==> cell(ring, at + i) == #[trigger] sync_cells()[i]
}

/// Bit of a number, counted from the least significant.
pub open spec fn number_bit(value: u32, at: u32) -> bool {
    (value >> at) & 1 == 1
}

/// Whether a number is written in two MFM longs: its odd bits, then its even
/// bits.
pub open spec fn holds_number(ring: Seq<bool>, start: int, value: u32) -> bool {
    forall|lane: int|
        0 <= lane < 16 ==> #[trigger] data_bit(ring, start, 0, lane) == number_bit(
            value,
            (31 - 2 * lane) as u32,
        ) && data_bit(ring, start, 1, lane) == number_bit(value, (30 - 2 * lane) as u32)
}

/// Whether two MFM longs hold the checksum of some others: nothing in the odd
/// bits, and in the even ones the exclusive-or of all of them.
pub open spec fn holds_checksum(ring: Seq<bool>, at: int, start: int, longs: nat) -> bool {
    forall|lane: int|
        0 <= lane < 16 ==> !(#[trigger] data_bit(ring, at, 0, lane)) && data_bit(ring, at, 1, lane)
            == odd_parity(ring, start, longs, lane)
}

/// Whether a sector header is written at a position: two sync words and no
/// third before them, the header of an AmigaDOS sector, and the checksum of its
/// ten longs.
pub open spec fn header_written(
    ring: Seq<bool>,
    position: int,
    track: int,
    number: int,
    to_gap: int,
) -> bool {
    &&& 0 <= track < 256
    &&& 0 <= number < 22
    &&& 0 <= to_gap < 256
    &&& synced(ring, position)
    &&& synced(ring, position + 16)
    &&& !synced(ring, position - 16)
    &&& holds_number(
        ring,
        position + 32,
        (0xff00_0000 + track * 0x1_0000 + number * 0x100 + to_gap) as u32,
    )
    &&& holds_checksum(ring, position + 352, position + 32, 10)
}

/// Whether sector data is written behind a header: the checksum of its 256
/// longs, and then they.
pub open spec fn data_written(ring: Seq<bool>, position: int) -> bool {
    holds_checksum(ring, position + 416, position + 480, 256)
}

proof fn lemma_next_bit(value: u32, bit: u32, other: u32)
    by (bit_vector)
    requires
        bit <= 1,
        other < 31,
    ensures
        (((value << 1) | bit) >> 0) & 1 == bit,
        (((value << 1) | bit) >> ((other + 1) as u32)) & 1 == (value >> other) & 1,
{
}

/// Cells shifted in come out as the bits of the value, the first one highest.
proof fn lemma_shifted_bit(ring: Seq<bool>, start: int, width: nat, at: int)
    requires
        0 <= at < width <= 32,
    ensures
        number_bit(scan::shifted_in(ring, start, width), (width - 1 - at) as u32) == cell(
            ring,
            start + at,
        ),
    decreases width,
{
    let shorter = scan::shifted_in(ring, start, (width - 1) as nat);
    let bit = if scan::ring_bit(ring, start + width - 1) {
        1u32
    } else {
        0u32
    };
    if at == width - 1 {
        lemma_next_bit(shorter, bit, 0);
    } else {
        lemma_shifted_bit(ring, start, (width - 1) as nat, at);
        lemma_next_bit(shorter, bit, (width - 2 - at) as u32);
    }
}

proof fn lemma_fewer_bits(value: u32, bit: u32, limit: u32)
    by (bit_vector)
    requires
        value < limit,
        limit <= 0x8000,
        bit <= 1,
    ensures
        ((value << 1) | bit) < limit * 2,
{
}

/// Sixteen cells make a number of sixteen bits.
proof fn lemma_shifted_bounded(ring: Seq<bool>, start: int, width: nat)
    requires
        width <= 16,
    ensures
        scan::shifted_in(ring, start, width) < vstd::arithmetic::power2::pow2(width),
        vstd::arithmetic::power2::pow2(width) <= 0x1_0000,
    decreases width,
{
    vstd::arithmetic::power2::lemma2_to64();
    if width > 0 {
        lemma_shifted_bounded(ring, start, (width - 1) as nat);
        vstd::arithmetic::power2::lemma_pow2_unfold(width);
        let limit = vstd::arithmetic::power2::pow2((width - 1) as nat);
        if width < 16 {
            vstd::arithmetic::power2::lemma_pow2_strictly_increases(width, 16);
        }
        let shorter = scan::shifted_in(ring, start, (width - 1) as nat);
        let bit = if scan::ring_bit(ring, start + width - 1) {
            1u32
        } else {
            0u32
        };
        assert(limit <= 0x8000);
        lemma_fewer_bits(shorter, bit, limit as u32);
    }
}

proof fn lemma_equal_bits(left: u32, right: u32)
    by (bit_vector)
    requires
        ((left >> 0) & 1 == 1) == ((right >> 0) & 1 == 1),
        ((left >> 1) & 1 == 1) == ((right >> 1) & 1 == 1),
        ((left >> 2) & 1 == 1) == ((right >> 2) & 1 == 1),
        ((left >> 3) & 1 == 1) == ((right >> 3) & 1 == 1),
        ((left >> 4) & 1 == 1) == ((right >> 4) & 1 == 1),
        ((left >> 5) & 1 == 1) == ((right >> 5) & 1 == 1),
        ((left >> 6) & 1 == 1) == ((right >> 6) & 1 == 1),
        ((left >> 7) & 1 == 1) == ((right >> 7) & 1 == 1),
        ((left >> 8) & 1 == 1) == ((right >> 8) & 1 == 1),
        ((left >> 9) & 1 == 1) == ((right >> 9) & 1 == 1),
        ((left >> 10) & 1 == 1) == ((right >> 10) & 1 == 1),
        ((left >> 11) & 1 == 1) == ((right >> 11) & 1 == 1),
        ((left >> 12) & 1 == 1) == ((right >> 12) & 1 == 1),
        ((left >> 13) & 1 == 1) == ((right >> 13) & 1 == 1),
        ((left >> 14) & 1 == 1) == ((right >> 14) & 1 == 1),
        ((left >> 15) & 1 == 1) == ((right >> 15) & 1 == 1),
        ((left >> 16) & 1 == 1) == ((right >> 16) & 1 == 1),
        ((left >> 17) & 1 == 1) == ((right >> 17) & 1 == 1),
        ((left >> 18) & 1 == 1) == ((right >> 18) & 1 == 1),
        ((left >> 19) & 1 == 1) == ((right >> 19) & 1 == 1),
        ((left >> 20) & 1 == 1) == ((right >> 20) & 1 == 1),
        ((left >> 21) & 1 == 1) == ((right >> 21) & 1 == 1),
        ((left >> 22) & 1 == 1) == ((right >> 22) & 1 == 1),
        ((left >> 23) & 1 == 1) == ((right >> 23) & 1 == 1),
        ((left >> 24) & 1 == 1) == ((right >> 24) & 1 == 1),
        ((left >> 25) & 1 == 1) == ((right >> 25) & 1 == 1),
        ((left >> 26) & 1 == 1) == ((right >> 26) & 1 == 1),
        ((left >> 27) & 1 == 1) == ((right >> 27) & 1 == 1),
        ((left >> 28) & 1 == 1) == ((right >> 28) & 1 == 1),
        ((left >> 29) & 1 == 1) == ((right >> 29) & 1 == 1),
        ((left >> 30) & 1 == 1) == ((right >> 30) & 1 == 1),
        ((left >> 31) & 1 == 1) == ((right >> 31) & 1 == 1),
    ensures
        left == right,
{
}

/// Numbers with the same bits are the same.
proof fn lemma_same_number(left: u32, right: u32)
    requires
        forall|at: u32| at < 32 ==> #[trigger] number_bit(left, at) == number_bit(right, at),
    ensures
        left == right,
{
    assert(number_bit(left, 0) == number_bit(right, 0));
    assert(number_bit(left, 1) == number_bit(right, 1));
    assert(number_bit(left, 2) == number_bit(right, 2));
    assert(number_bit(left, 3) == number_bit(right, 3));
    assert(number_bit(left, 4) == number_bit(right, 4));
    assert(number_bit(left, 5) == number_bit(right, 5));
    assert(number_bit(left, 6) == number_bit(right, 6));
    assert(number_bit(left, 7) == number_bit(right, 7));
    assert(number_bit(left, 8) == number_bit(right, 8));
    assert(number_bit(left, 9) == number_bit(right, 9));
    assert(number_bit(left, 10) == number_bit(right, 10));
    assert(number_bit(left, 11) == number_bit(right, 11));
    assert(number_bit(left, 12) == number_bit(right, 12));
    assert(number_bit(left, 13) == number_bit(right, 13));
    assert(number_bit(left, 14) == number_bit(right, 14));
    assert(number_bit(left, 15) == number_bit(right, 15));
    assert(number_bit(left, 16) == number_bit(right, 16));
    assert(number_bit(left, 17) == number_bit(right, 17));
    assert(number_bit(left, 18) == number_bit(right, 18));
    assert(number_bit(left, 19) == number_bit(right, 19));
    assert(number_bit(left, 20) == number_bit(right, 20));
    assert(number_bit(left, 21) == number_bit(right, 21));
    assert(number_bit(left, 22) == number_bit(right, 22));
    assert(number_bit(left, 23) == number_bit(right, 23));
    assert(number_bit(left, 24) == number_bit(right, 24));
    assert(number_bit(left, 25) == number_bit(right, 25));
    assert(number_bit(left, 26) == number_bit(right, 26));
    assert(number_bit(left, 27) == number_bit(right, 27));
    assert(number_bit(left, 28) == number_bit(right, 28));
    assert(number_bit(left, 29) == number_bit(right, 29));
    assert(number_bit(left, 30) == number_bit(right, 30));
    assert(number_bit(left, 31) == number_bit(right, 31));
    lemma_equal_bits(left, right);
}

proof fn lemma_high_bits(value: u32, at: u32)
    by (bit_vector)
    requires
        value < 0x1_0000,
        16 <= at < 32,
    ensures
        (value >> at) & 1 != 1,
{
}

proof fn lemma_sync_bits()
    by (bit_vector)
    ensures
        (0x4489u32 >> 15) & 1 != 1,
        (0x4489u32 >> 14) & 1 == 1,
        (0x4489u32 >> 13) & 1 != 1,
        (0x4489u32 >> 12) & 1 != 1,
        (0x4489u32 >> 11) & 1 != 1,
        (0x4489u32 >> 10) & 1 == 1,
        (0x4489u32 >> 9) & 1 != 1,
        (0x4489u32 >> 8) & 1 != 1,
        (0x4489u32 >> 7) & 1 == 1,
        (0x4489u32 >> 6) & 1 != 1,
        (0x4489u32 >> 5) & 1 != 1,
        (0x4489u32 >> 4) & 1 != 1,
        (0x4489u32 >> 3) & 1 == 1,
        (0x4489u32 >> 2) & 1 != 1,
        (0x4489u32 >> 1) & 1 != 1,
        (0x4489u32 >> 0) & 1 == 1,
{
}

/// The scan sees the sync word exactly where its cells are written.
proof fn lemma_sync(ring: Seq<bool>, at: int)
    ensures
        scan::sync_at(ring, at) == synced(ring, at),
{
    let value = scan::shifted_in(ring, at, 16);
    lemma_sync_bits();
    vstd::arithmetic::power2::lemma2_to64();
    lemma_shifted_bounded(ring, at, 16);
    assert forall|i: int| 0 <= i < 16 implies number_bit(value, (15 - i) as u32) == cell(
        ring,
        #[trigger] (at + i),
    ) by {
        lemma_shifted_bit(ring, at, 16, i);
    }
    assert forall|i: int| 0 <= i < 16 implies number_bit(0x4489, (15 - i) as u32)
        == #[trigger] sync_cells()[i] by {}
    if synced(ring, at) {
        assert forall|bit: u32| bit < 32 implies #[trigger] number_bit(value, bit) == number_bit(
            0x4489,
            bit,
        ) by {
            if bit < 16 {
                let i = 15 - bit as int;
                assert(cell(ring, at + i) == sync_cells()[i]);
                assert((15 - i) as u32 == bit);
            } else {
                lemma_high_bits(value, bit);
                lemma_high_bits(0x4489, bit);
            }
        }
        lemma_same_number(value, 0x4489);
    }
    if scan::sync_at(ring, at) {
        assert forall|i: int| 0 <= i < 16 implies cell(ring, at + i)
            == #[trigger] sync_cells()[i] by {
            assert(number_bit(value, (15 - i) as u32) == cell(ring, at + i));
        }
    }
}

proof fn lemma_masked_bit(value: u32, lane: u32)
    by (bit_vector)
    requires
        lane < 16,
    ensures
        ((value & 0x5555_5555) >> ((30 - 2 * lane) as u32)) & 1 == (value >> ((30 - 2
            * lane) as u32)) & 1,
        ((value & 0x5555_5555) >> ((31 - 2 * lane) as u32)) & 1 == 0,
{
}

proof fn lemma_joined_bits(odd: u32, even: u32, lane: u32)
    by (bit_vector)
    requires
        lane < 16,
    ensures
        ((((odd & 0x5555_5555) << 1) | (even & 0x5555_5555)) >> ((31 - 2 * lane) as u32)) & 1 == (
        odd >> ((30 - 2 * lane) as u32)) & 1,
        ((((odd & 0x5555_5555) << 1) | (even & 0x5555_5555)) >> ((30 - 2 * lane) as u32)) & 1 == (
        even >> ((30 - 2 * lane) as u32)) & 1,
{
}

proof fn lemma_xor_bit(left: u32, right: u32, at: u32)
    by (bit_vector)
    requires
        at < 32,
    ensures
        ((left ^ right) >> at) & 1 == 1 <==> ((left >> at) & 1 == 1) != ((right >> at) & 1 == 1),
{
}

proof fn lemma_zero_bit(at: u32)
    by (bit_vector)
    requires
        at < 32,
    ensures
        (0u32 >> at) & 1 != 1,
{
}

/// A stored value has its odd bits in one long and its even bits in the next.
proof fn lemma_stored_bits(ring: Seq<bool>, start: int, lane: int)
    requires
        0 <= lane < 16,
    ensures
        number_bit(scan::stored_value(ring, start), (31 - 2 * lane) as u32) == data_bit(
            ring,
            start,
            0,
            lane,
        ),
        number_bit(scan::stored_value(ring, start), (30 - 2 * lane) as u32) == data_bit(
            ring,
            start,
            1,
            lane,
        ),
{
    lemma_shifted_bit(ring, start, 32, 2 * lane + 1);
    lemma_shifted_bit(ring, start + 32, 32, 2 * lane + 1);
    lemma_joined_bits(
        scan::ring_long(ring, start),
        scan::ring_long(ring, start + 32),
        lane as u32,
    );
}

/// The checksum of some longs has the parity of every lane in its even bits,
/// and nothing in its odd ones.
proof fn lemma_checksum_bits(ring: Seq<bool>, start: int, longs: nat, lane: int)
    requires
        0 <= lane < 16,
    ensures
        number_bit(scan::mfm_checksum(ring, start, longs), (30 - 2 * lane) as u32) == odd_parity(
            ring,
            start,
            longs,
            lane,
        ),
        !number_bit(scan::mfm_checksum(ring, start, longs), (31 - 2 * lane) as u32),
    decreases longs,
{
    if longs == 0 {
        lemma_zero_bit((30 - 2 * lane) as u32);
        lemma_zero_bit((31 - 2 * lane) as u32);
    } else {
        let before = (longs - 1) as nat;
        lemma_checksum_bits(ring, start, before, lane);
        let long = scan::ring_long(ring, start + before * 32);
        lemma_shifted_bit(ring, start + before * 32, 32, 2 * lane + 1);
        lemma_masked_bit(long, lane as u32);
        let sum = scan::mfm_checksum(ring, start, before);
        lemma_xor_bit(sum, long & 0x5555_5555, (30 - 2 * lane) as u32);
        lemma_xor_bit(sum, long & 0x5555_5555, (31 - 2 * lane) as u32);
    }
}

/// The scan accepts a checksum exactly if it was written.
proof fn lemma_checksum(ring: Seq<bool>, at: int, start: int, longs: nat)
    ensures
        (scan::mfm_checksum(ring, start, longs) == scan::stored_value(ring, at)) == holds_checksum(
            ring,
            at,
            start,
            longs,
        ),
{
    let sum = scan::mfm_checksum(ring, start, longs);
    let stored = scan::stored_value(ring, at);
    assert forall|lane: int| 0 <= lane < 16 implies {
        &&& number_bit(stored, (31 - 2 * lane) as u32) == #[trigger] data_bit(ring, at, 0, lane)
        &&& number_bit(stored, (30 - 2 * lane) as u32) == data_bit(ring, at, 1, lane)
        &&& number_bit(sum, (30 - 2 * lane) as u32) == odd_parity(ring, start, longs, lane)
        &&& !number_bit(sum, (31 - 2 * lane) as u32)
    } by {
        lemma_stored_bits(ring, at, lane);
        lemma_checksum_bits(ring, start, longs, lane);
    }
    if holds_checksum(ring, at, start, longs) {
        assert forall|bit: u32| bit < 32 implies #[trigger] number_bit(sum, bit) == number_bit(
            stored,
            bit,
        ) by {
            let lane = (31 - bit as int) / 2;
            assert(bit == 31 - 2 * lane || bit == 30 - 2 * lane);
            assert(!data_bit(ring, at, 0, lane));
        }
        lemma_same_number(sum, stored);
    }
}

/// The scan reads a number exactly as it was written.
proof fn lemma_number(ring: Seq<bool>, start: int, value: u32)
    requires
        holds_number(ring, start, value),
    ensures
        scan::stored_value(ring, start) == value,
{
    let stored = scan::stored_value(ring, start);
    assert forall|bit: u32| bit < 32 implies #[trigger] number_bit(stored, bit) == number_bit(
        value,
        bit,
    ) by {
        let lane = (31 - bit as int) / 2;
        assert(bit == 31 - 2 * lane || bit == 30 - 2 * lane);
        lemma_stored_bits(ring, start, lane);
        assert(data_bit(ring, start, 0, lane) == number_bit(value, (31 - 2 * lane) as u32));
    }
    lemma_same_number(stored, value);
}

/// A header that was written is valid, and carries its number.
proof fn lemma_header(ring: Seq<bool>, position: int, track: int, number: int, to_gap: int)
    requires
        ring.len() > 0,
        header_written(ring, position, track, number, to_gap),
    ensures
        scan::header_valid(ring, position),
        scan::sector_number(ring, position) == number,
{
    let n = ring.len() as int;
    lemma_sync(ring, position);
    lemma_sync(ring, position + 16);
    lemma_sync(ring, position - 16);
    vstd::arithmetic::div_mod::lemma_mod_add_multiples_vanish(position - 16, n);
    scan::lemma_shifted_in_wraps(ring, position - 16, position + n - 16, 16);
    let info = (0xff00_0000 + track * 0x1_0000 + number * 0x100 + to_gap) as u32;
    lemma_number(ring, position + 32, info);
    lemma_checksum(ring, position + 352, position + 32, 10);
}

/// What the scan takes for a sector was written as one: a header counts only as
/// a whole AmigaDOS header with its checksum, and data only with its own.
pub proof fn law_sector_counts_as_written(ring: Seq<bool>, position: int)
    requires
        ring.len() > 0,
    ensures
        scan::header_valid(ring, position) <==> exists|track: int, number: int, to_gap: int|
            #[trigger] header_written(ring, position, track, number, to_gap),
        scan::data_valid(ring, position) <==> data_written(ring, position),
{
    let n = ring.len() as int;
    lemma_checksum(ring, position + 416, position + 480, 256);
    if scan::header_valid(ring, position) {
        lemma_sync(ring, position);
        lemma_sync(ring, position + 16);
        lemma_sync(ring, position - 16);
        vstd::arithmetic::div_mod::lemma_mod_add_multiples_vanish(position - 16, n);
        scan::lemma_shifted_in_wraps(ring, position - 16, position + n - 16, 16);
        lemma_checksum(ring, position + 352, position + 32, 10);
        let info = scan::stored_value(ring, position + 32);
        let track = info as int / 0x1_0000 % 256;
        let number = info as int / 256 % 256;
        let to_gap = info as int % 256;
        assert(0xff00_0000 + track * 0x1_0000 + number * 0x100 + to_gap == info);
        assert(holds_number(ring, position + 32, info)) by {
            assert forall|lane: int| 0 <= lane < 16 implies #[trigger] data_bit(
                ring,
                position + 32,
                0,
                lane,
            ) == number_bit(info, (31 - 2 * lane) as u32) && data_bit(ring, position + 32, 1, lane)
                == number_bit(info, (30 - 2 * lane) as u32) by {
                lemma_stored_bits(ring, position + 32, lane);
            }
        }
        assert(header_written(ring, position, track, number, to_gap));
    }
    if exists|track: int, number: int, to_gap: int|
        header_written(ring, position, track, number, to_gap) {
        let (track, number, to_gap) = choose|track: int, number: int, to_gap: int|
            header_written(ring, position, track, number, to_gap);
        lemma_header(ring, position, track, number, to_gap);
    }
}

/// Whether some sectors are written on a ring with different numbers, and no
/// other opens on it.
pub open spec fn track_written(
    ring: Seq<bool>,
    positions: Seq<int>,
    track: int,
    numbers: Seq<int>,
    gaps: Seq<int>,
) -> bool {
    &&& positions.len() == numbers.len() == gaps.len()
    &&& forall|i: int|
        0 <= i < positions.len() ==> 0 <= #[trigger] positions[i] < ring.len() && header_written(
            ring,
            positions[i],
            track,
            numbers[i],
            gaps[i],
        )
    &&& forall|i: int, j: int|
        0 <= i < j < numbers.len() ==> #[trigger] numbers[i] != #[trigger] numbers[j]
    &&& forall|at: int|
        0 <= at < ring.len() && #[trigger] synced(ring, at) && synced(ring, at + 16) && !synced(
            ring,
            at - 16,
        ) ==> positions.contains(at)
}

/// How many of some numbers are below a limit.
pub open spec fn below(numbers: Seq<int>, limit: int) -> nat
    decreases numbers.len(),
{
    if numbers.len() == 0 {
        0
    } else {
        below(numbers.drop_last(), limit) + if numbers.last() < limit {
            1nat
        } else {
            0nat
        }
    }
}

proof fn lemma_below_step(numbers: Seq<int>, limit: int)
    requires
        forall|i: int, j: int|
            0 <= i < j < numbers.len() ==> #[trigger] numbers[i] != #[trigger] numbers[j],
    ensures
        below(numbers, limit + 1) == below(numbers, limit) + if numbers.contains(limit) {
            1nat
        } else {
            0nat
        },
    decreases numbers.len(),
{
    if numbers.len() > 0 {
        let fewer = numbers.drop_last();
        let last = numbers.len() - 1;
        assert forall|i: int, j: int| 0 <= i < j < fewer.len() implies #[trigger] fewer[i]
            != #[trigger] fewer[j] by {
            assert(numbers[i] != numbers[j]);
        }
        lemma_below_step(fewer, limit);
        if fewer.contains(limit) {
            let i = choose|i: int| 0 <= i < fewer.len() && fewer[i] == limit;
            assert(numbers[i] != numbers[last]);
            assert(numbers.contains(limit));
        } else if numbers.contains(limit) {
            let i = choose|i: int| 0 <= i < numbers.len() && numbers[i] == limit;
            if i < last {
                assert(fewer[i] == limit);
            }
        }
        if numbers[last] == limit {
            assert(numbers.contains(limit));
        }
    }
}

proof fn lemma_below_bounds(numbers: Seq<int>, limit: int)
    ensures
        (forall|i: int| 0 <= i < numbers.len() ==> 0 <= #[trigger] numbers[i]) ==> below(
            numbers,
            0,
        ) == 0,
        (forall|i: int| 0 <= i < numbers.len() ==> #[trigger] numbers[i] < limit) ==> below(
            numbers,
            limit,
        ) == numbers.len(),
    decreases numbers.len(),
{
    if numbers.len() > 0 {
        let fewer = numbers.drop_last();
        lemma_below_bounds(fewer, limit);
        assert(forall|i: int| 0 <= i < fewer.len() ==> fewer[i] == numbers[i]);
        let last = numbers.len() - 1;
        assert(numbers.last() == numbers[last]);
    }
}

/// The good sectors below a limit are as many as the numbers of intact sectors.
proof fn lemma_good_below(ring: Seq<bool>, intact: Seq<int>, limit: nat)
    requires
        forall|i: int, j: int|
            0 <= i < j < intact.len() ==> #[trigger] intact[i] != #[trigger] intact[j],
        forall|i: int| 0 <= i < intact.len() ==> 0 <= #[trigger] intact[i],
        forall|number: int|
            #[trigger] scan::sector_good(ring, ring.len() as int, number) == intact.contains(
                number,
            ),
    ensures
        scan::good_below(ring, limit) == below(intact, limit as int),
    decreases limit,
{
    lemma_below_bounds(intact, 0);
    if limit > 0 {
        lemma_good_below(ring, intact, (limit - 1) as nat);
        lemma_below_step(intact, limit - 1);
        assert(scan::sector_good(ring, ring.len() as int, limit - 1) == intact.contains(limit - 1));
    }
}

/// The positions where a valid header opens are those of written sectors.
proof fn lemma_opens_where_written(
    ring: Seq<bool>,
    positions: Seq<int>,
    track: int,
    numbers: Seq<int>,
    gaps: Seq<int>,
    at: int,
)
    requires
        track_written(ring, positions, track, numbers, gaps),
        0 <= at < ring.len(),
        scan::header_valid(ring, at),
    ensures
        positions.contains(at),
{
    let n = ring.len() as int;
    lemma_sync(ring, at);
    lemma_sync(ring, at + 16);
    lemma_sync(ring, at - 16);
    vstd::arithmetic::div_mod::lemma_mod_add_multiples_vanish(at - 16, n);
    scan::lemma_shifted_in_wraps(ring, at - 16, at + n - 16, 16);
}

/// Whether each sector but one at most has its data as it was written.
pub open spec fn intact_but(ring: Seq<bool>, positions: Seq<int>, damaged: Option<int>) -> bool {
    forall|i: int|
        0 <= i < positions.len() ==> data_written(ring, #[trigger] positions[i]) == (damaged
            != Some(i))
}

proof fn lemma_good_numbers(
    ring: Seq<bool>,
    positions: Seq<int>,
    track: int,
    numbers: Seq<int>,
    gaps: Seq<int>,
    damaged: Option<int>,
    number: int,
)
    requires
        ring.len() > 0,
        track_written(ring, positions, track, numbers, gaps),
        intact_but(ring, positions, damaged),
    ensures
        scan::sector_good(ring, ring.len() as int, number) == exists|i: int|
            0 <= i < numbers.len() && damaged != Some(i) && #[trigger] numbers[i] == number,
{
    let n = ring.len() as int;
    if scan::sector_good(ring, n, number) {
        let at = choose|at: int|
            0 <= at < n && #[trigger] scan::header_valid(ring, at) && scan::sector_number(ring, at)
                == number && scan::data_valid(ring, at);
        lemma_opens_where_written(ring, positions, track, numbers, gaps, at);
        let i = choose|i: int| 0 <= i < positions.len() && positions[i] == at;
        assert(header_written(ring, positions[i], track, numbers[i], gaps[i]));
        lemma_header(ring, at, track, numbers[i], gaps[i]);
        lemma_checksum(ring, at + 416, at + 480, 256);
        assert(data_written(ring, positions[i]));
        assert(numbers[i] == number);
    }
    if exists|i: int|
        0 <= i < numbers.len() && damaged != Some(i) && #[trigger] numbers[i] == number {
        let i = choose|i: int|
            0 <= i < numbers.len() && damaged != Some(i) && #[trigger] numbers[i] == number;
        let at = positions[i];
        assert(header_written(ring, positions[i], track, numbers[i], gaps[i]));
        lemma_header(ring, at, track, numbers[i], gaps[i]);
        assert(data_written(ring, positions[i]));
        lemma_checksum(ring, at + 416, at + 480, 256);
        assert(scan::header_valid(ring, at));
    }
}

/// A track that was written whole is clean: eleven sectors on a double-density
/// revolution or twenty-two on a high-density one, whatever their data.
pub proof fn law_written_track_is_clean(
    ring: Seq<bool>,
    positions: Seq<int>,
    track: int,
    numbers: Seq<int>,
    gaps: Seq<int>,
)
    requires
        ring.len() >= 64,
        track_written(ring, positions, track, numbers, gaps),
        forall|i: int| 0 <= i < positions.len() ==> data_written(ring, #[trigger] positions[i]),
        positions.len() == if ring.len() > 150_000 {
            22int
        } else {
            11int
        },
    ensures
        scan::scan_outcome(ring) == (RevolutionScan::CleanAmigaDos {
            sectors: positions.len() as u8,
        }),
{
    assert(intact_but(ring, positions, None));
    assert forall|number: int| #[trigger] scan::sector_good(ring, ring.len() as int, number)
        == numbers.contains(number) by {
        lemma_good_numbers(ring, positions, track, numbers, gaps, None, number);
        if numbers.contains(number) {
            let i = choose|i: int| 0 <= i < numbers.len() && numbers[i] == number;
            assert(numbers[i] == number && None::<int> != Some(i));
        }
    }
    assert forall|i: int| 0 <= i < numbers.len() implies 0 <= #[trigger] numbers[i] < 22 by {
        assert(header_written(ring, positions[i], track, numbers[i], gaps[i]));
    }
    lemma_good_below(ring, numbers, 22);
    lemma_below_bounds(numbers, 22);
}

/// Every written sector shows its header, and nothing else does.
proof fn lemma_headers(
    ring: Seq<bool>,
    positions: Seq<int>,
    track: int,
    numbers: Seq<int>,
    gaps: Seq<int>,
    to: int,
)
    requires
        track_written(ring, positions, track, numbers, gaps),
        0 <= to <= ring.len(),
    ensures
        scan::headers_in(ring, 0, to) == below(positions, to),
    decreases to,
{
    assert forall|i: int, j: int| 0 <= i < j < positions.len() implies #[trigger] positions[i]
        != #[trigger] positions[j] by {
        assert(numbers[i] != numbers[j]);
        assert(header_written(ring, positions[i], track, numbers[i], gaps[i]));
        assert(header_written(ring, positions[j], track, numbers[j], gaps[j]));
        lemma_header(ring, positions[i], track, numbers[i], gaps[i]);
        lemma_header(ring, positions[j], track, numbers[j], gaps[j]);
    }
    if to == 0 {
        lemma_below_bounds(positions, 0);
    } else {
        lemma_headers(ring, positions, track, numbers, gaps, to - 1);
        lemma_below_step(positions, to - 1);
        if scan::header_valid(ring, to - 1) {
            lemma_opens_where_written(ring, positions, track, numbers, gaps, to - 1);
        }
        if positions.contains(to - 1) {
            let i = choose|i: int| 0 <= i < positions.len() && positions[i] == to - 1;
            assert(header_written(ring, positions[i], track, numbers[i], gaps[i]));
            lemma_header(ring, to - 1, track, numbers[i], gaps[i]);
        }
    }
}

/// Cells less than a turn apart are different cells.
proof fn lemma_other_cell(ring: Seq<bool>, left: int, right: int)
    requires
        left < right < left + ring.len(),
    ensures
        left % (ring.len() as int) != right % (ring.len() as int),
{
    let n = ring.len() as int;
    if left % n == right % n {
        vstd::arithmetic::div_mod::lemma_fundamental_div_mod(left, n);
        vstd::arithmetic::div_mod::lemma_fundamental_div_mod(right, n);
        let turns = right / n - left / n;
        assert(right - left == n * turns) by (nonlinear_arith)
            requires
                left == n * (left / n) + left % n,
                right == n * (right / n) + right % n,
                left % n == right % n,
                turns == right / n - left / n,
        ;
        assert(turns >= 1 || turns <= 0);
        assert(false) by (nonlinear_arith)
            requires
                0 < right - left < n,
                right - left == n * turns,
        ;
    }
}

/// A ring with one cell turned over.
pub open spec fn turned_over(ring: Seq<bool>, at: int) -> Seq<bool> {
    ring.update(at % (ring.len() as int), !cell(ring, at))
}

/// Turning over a data bit of one long changes the parity of its lane.
proof fn lemma_parity_changes(
    ring: Seq<bool>,
    start: int,
    longs: nat,
    long: int,
    lane: int,
)
    requires
        0 <= long < 256,
        0 <= lane < 16,
        longs <= 256,
        ring.len() >= 8_192,
    ensures
        ({
            let other = turned_over(ring, start + 32 * long + 2 * lane + 1);
            odd_parity(other, start, longs, lane) == if long < longs {
                !odd_parity(ring, start, longs, lane)
            } else {
                odd_parity(ring, start, longs, lane)
            }
        }),
    decreases longs,
{
    let flipped = start + 32 * long + 2 * lane + 1;
    let n = ring.len() as int;
    if longs > 0 {
        lemma_parity_changes(ring, start, (longs - 1) as nat, long, lane);
        let own = start + 32 * (longs - 1) + 2 * lane + 1;
        if own < flipped {
            lemma_other_cell(ring, own, flipped);
        } else if own > flipped {
            lemma_other_cell(ring, flipped, own);
        }
        assert(0 <= flipped % n < n && 0 <= own % n < n);
    }
}

/// Damage to the data of a sector is seen: with any one data bit of its 256
/// longs turned over, the track has one good sector less, and is called damaged.
pub proof fn law_damaged_data_is_seen(
    ring: Seq<bool>,
    positions: Seq<int>,
    track: int,
    numbers: Seq<int>,
    gaps: Seq<int>,
    sector: int,
    long: int,
    lane: int,
)
    requires
        ring.len() >= 8_672,
        positions.len() == if ring.len() > 150_000 {
            22int
        } else {
            11int
        },
        0 <= sector < positions.len(),
        0 <= long < 256,
        0 <= lane < 16,
        data_written(ring, positions[sector]),
        ({
            let damaged = turned_over(ring, positions[sector] + 480 + 32 * long + 2 * lane + 1);
            &&& track_written(damaged, positions, track, numbers, gaps)
            &&& forall|i: int|
                0 <= i < positions.len() && i != sector ==> data_written(
                    damaged,
                    #[trigger] positions[i],
                )
        }),
    ensures
        scan::scan_outcome(
            turned_over(ring, positions[sector] + 480 + 32 * long + 2 * lane + 1),
        ) == (RevolutionScan::DamagedAmigaDos {
            good: (positions.len() - 1) as u8,
            expected: positions.len() as u8,
        }),
{
    let at = positions[sector];
    let flipped = at + 480 + 32 * long + 2 * lane + 1;
    let damaged = turned_over(ring, flipped);
    let n = ring.len() as int;
    lemma_parity_changes(ring, at + 480, 256, long, lane);
    lemma_other_cell(ring, at + 416 + 32 + 2 * lane + 1, flipped);
    assert(data_bit(damaged, at + 416, 1, lane) == data_bit(ring, at + 416, 1, lane)) by {
        assert(0 <= flipped % n < n);
        assert(0 <= (at + 416 + 32 + 2 * lane + 1) % n < n);
    }
    assert(!(data_bit(ring, at + 416, 0, lane)));
    assert(!data_written(damaged, at)) by {
        if data_written(damaged, at) {
            assert(!(data_bit(damaged, at + 416, 0, lane)));
        }
    }
    let lost: Option<int> = Some(sector);
    assert(intact_but(damaged, positions, lost));
    let intact = numbers.remove(sector);
    assert forall|number: int|
        #[trigger] scan::sector_good(damaged, damaged.len() as int, number) == intact.contains(
            number,
        ) by {
        lemma_good_numbers(damaged, positions, track, numbers, gaps, lost, number);
        if intact.contains(number) {
            let i = choose|i: int| 0 <= i < intact.len() && intact[i] == number;
            let j = if i < sector {
                i
            } else {
                i + 1
            };
            assert(numbers[j] == number && lost != Some(j));
        }
        if exists|i: int|
            0 <= i < numbers.len() && lost != Some(i) && #[trigger] numbers[i] == number {
            let i = choose|i: int|
                0 <= i < numbers.len() && lost != Some(i) && #[trigger] numbers[i] == number;
            let j = if i < sector {
                i
            } else {
                i - 1
            };
            assert(intact[j] == number);
        }
    }
    assert forall|i: int| 0 <= i < intact.len() implies 0 <= #[trigger] intact[i] < 22 by {
        let j = if i < sector {
            i
        } else {
            i + 1
        };
        assert(header_written(damaged, positions[j], track, numbers[j], gaps[j]));
    }
    assert forall|i: int, j: int| 0 <= i < j < intact.len() implies #[trigger] intact[i]
        != #[trigger] intact[j] by {
        let left = if i < sector {
            i
        } else {
            i + 1
        };
        let right = if j < sector {
            j
        } else {
            j + 1
        };
        assert(numbers[left] != numbers[right]);
    }
    lemma_good_below(damaged, intact, 22);
    lemma_below_bounds(intact, 22);
    lemma_headers(damaged, positions, track, numbers, gaps, n);
    lemma_below_bounds(positions, n);
}

/// A revolution with fewer than ten headers where eleven sectors are expected, or
/// fewer than twenty-one where twenty-two are, is not judged: a custom format is
/// not called damaged.
pub proof fn law_unknown_format_is_not_judged(
    ring: Seq<bool>,
    positions: Seq<int>,
    track: int,
    numbers: Seq<int>,
    gaps: Seq<int>,
)
    requires
        ring.len() > 0,
        track_written(ring, positions, track, numbers, gaps),
        positions.len() + 1 < if ring.len() > 150_000 {
            22int
        } else {
            11int
        },
    ensures
        scan::scan_outcome(ring) == RevolutionScan::Unrecognised,
{
    let n = ring.len() as int;
    let expected = if ring.len() > 150_000 {
        22int
    } else {
        11int
    };
    lemma_headers(ring, positions, track, numbers, gaps, n);
    lemma_below_bounds(positions, n);
    assert forall|number: int| #[trigger] scan::sector_good(ring, n, number) implies
        numbers.contains(number) by {
        let at = choose|at: int|
            0 <= at < n && #[trigger] scan::header_valid(ring, at) && scan::sector_number(ring, at)
                == number && scan::data_valid(ring, at);
        lemma_opens_where_written(ring, positions, track, numbers, gaps, at);
        let i = choose|i: int| 0 <= i < positions.len() && positions[i] == at;
        assert(header_written(ring, positions[i], track, numbers[i], gaps[i]));
        lemma_header(ring, at, track, numbers[i], gaps[i]);
        assert(numbers[i] == number);
    }
    assert forall|i: int| 0 <= i < numbers.len() implies 0 <= #[trigger] numbers[i] < 22 by {
        assert(header_written(ring, positions[i], track, numbers[i], gaps[i]));
    }
    lemma_few_good(ring, numbers, 22);
    lemma_below_bounds(numbers, 22);
}

proof fn lemma_few_good(ring: Seq<bool>, numbers: Seq<int>, limit: nat)
    requires
        forall|i: int, j: int|
            0 <= i < j < numbers.len() ==> #[trigger] numbers[i] != #[trigger] numbers[j],
        forall|i: int| 0 <= i < numbers.len() ==> 0 <= #[trigger] numbers[i],
        forall|number: int|
            #[trigger] scan::sector_good(ring, ring.len() as int, number) ==> numbers.contains(
                number,
            ),
    ensures
        scan::good_below(ring, limit) <= below(numbers, limit as int),
    decreases limit,
{
    lemma_below_bounds(numbers, 0);
    if limit > 0 {
        lemma_few_good(ring, numbers, (limit - 1) as nat);
        lemma_below_step(numbers, limit - 1);
        assert(scan::sector_good(ring, ring.len() as int, limit - 1) ==> numbers.contains(
            limit - 1,
        ));
    }
}

} // verus!
