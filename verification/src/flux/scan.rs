//! Format-aware verification of an index-less revolution boundary.

use vstd::prelude::*;

use super::packed;
use super::packed::{bit_at, bits_fit};
use super::rotation;

verus! {

/// Data bits of an MFM long; the others carry clocks.
pub const MFM_DATA_MASK: u32 = 0x5555_5555;

/// The MFM word that opens a sector.
pub const SYNC_WORD: u32 = 0x4489;

/// Sectors on a double-density AmigaDOS track.
pub const DD_SECTORS: usize = 11;

/// Sectors on a high-density AmigaDOS track.
pub const HD_SECTORS: usize = 22;

/// Revolutions longer than this are high density.
pub const HD_BIT_THRESHOLD: usize = 150_000;

/// Fewest bits worth scanning.
pub const MIN_SCAN_BITS: usize = 64;

/// Classification of a captured revolution.
#[derive(Debug, Clone, Copy, PartialEq, Eq, Structural)]
pub enum RevolutionScan {
    /// A complete AmigaDOS track whose header and data checksums pass.
    CleanAmigaDos {
        /// Sectors decoded: 11 for DD or 22 for HD.
        sectors: u8,
    },
    /// Recognisable but incomplete or corrupt AmigaDOS data.
    DamagedAmigaDos {
        /// Distinct sectors whose header and data passed.
        good: u8,
        /// Sector count implied by density.
        expected: u8,
    },
    /// Insufficient AmigaDOS structure to judge; this includes custom formats.
    Unrecognised,
}

/// Bit `position` of a ring.
pub open spec fn ring_bit(ring: Seq<bool>, position: int) -> bool {
    ring[position % (ring.len() as int)]
}

/// `width` bits of a ring from `start`, shifted in most significant first.
pub open spec fn shifted_in(ring: Seq<bool>, start: int, width: nat) -> u32
    decreases width,
{
    if width == 0 {
        0
    } else {
        (shifted_in(ring, start, (width - 1) as nat) << 1) | (if ring_bit(
            ring,
            start + width - 1,
        ) {
            1u32
        } else {
            0u32
        })
    }
}

/// The 32 bits of a ring from `start`.
pub open spec fn ring_long(ring: Seq<bool>, start: int) -> u32 {
    shifted_in(ring, start, 32)
}

/// A decoded long whose odd and even data bits are stored apart.
pub open spec fn deinterleaved(odd: u32, even: u32) -> u32 {
    ((odd & MFM_DATA_MASK) << 1) | (even & MFM_DATA_MASK)
}

/// Exclusive-or of the data bits of `count` longs from `start`.
pub open spec fn mfm_checksum(ring: Seq<bool>, start: int, count: nat) -> u32
    decreases count,
{
    if count == 0 {
        0
    } else {
        mfm_checksum(ring, start, (count - 1) as nat) ^ (ring_long(ring, start + (count - 1) * 32)
            & MFM_DATA_MASK)
    }
}

/// A stored value: an odd long and then an even long.
pub open spec fn stored_value(ring: Seq<bool>, start: int) -> u32 {
    deinterleaved(ring_long(ring, start), ring_long(ring, start + 32))
}

/// Whether the sync word stands at `position`.
pub open spec fn sync_at(ring: Seq<bool>, position: int) -> bool {
    shifted_in(ring, position, 16) == SYNC_WORD
}

/// Whether a sector opens at `position`: the first of a pair of sync words.
pub open spec fn sector_opens(ring: Seq<bool>, position: int) -> bool {
    &&& sync_at(ring, position)
    &&& sync_at(ring, position + 16)
    &&& !sync_at(ring, position + ring.len() - 16)
}

/// The header of a sector: format, track, sector, and distance to the gap.
pub open spec fn sector_info(ring: Seq<bool>, position: int) -> u32 {
    stored_value(ring, position + 32)
}

/// The sector number in a header.
pub open spec fn sector_number(ring: Seq<bool>, position: int) -> int {
    (sector_info(ring, position) as int / 256) % 256
}

/// Whether an AmigaDOS sector header that passes its checksum opens at
/// `position`.
pub open spec fn header_valid(ring: Seq<bool>, position: int) -> bool {
    &&& sector_opens(ring, position)
    &&& sector_info(ring, position) as int / 0x100_0000 == 0xff
    &&& sector_number(ring, position) < HD_SECTORS
    &&& mfm_checksum(ring, position + 32, 10) == stored_value(ring, position + 352)
}

/// Whether the data of the sector at `position` passes its checksum.
pub open spec fn data_valid(ring: Seq<bool>, position: int) -> bool {
    mfm_checksum(ring, position + 480, 256) == stored_value(ring, position + 416)
}

/// Valid headers opening at positions in `from..to`.
pub open spec fn headers_in(ring: Seq<bool>, from: int, to: int) -> nat
    decreases to - from,
{
    if to <= from {
        0
    } else {
        headers_in(ring, from, to - 1) + if header_valid(ring, to - 1) {
            1nat
        } else {
            0nat
        }
    }
}

/// Whether a sector opening in `0..to` carries `number` and passes both
/// checksums.
pub open spec fn sector_good(ring: Seq<bool>, to: int, number: int) -> bool {
    exists|position: int|
        0 <= position < to && #[trigger] header_valid(ring, position) && sector_number(
            ring,
            position,
        ) == number && data_valid(ring, position)
}

/// Distinct good sectors numbered below `limit`.
pub open spec fn good_below(ring: Seq<bool>, limit: nat) -> nat
    decreases limit,
{
    if limit == 0 {
        0
    } else {
        good_below(ring, (limit - 1) as nat) + if sector_good(
            ring,
            ring.len() as int,
            limit - 1,
        ) {
            1nat
        } else {
            0nat
        }
    }
}

/// Sectors expected on a revolution of `bit_len` bits.
pub open spec fn expected_sectors(bit_len: int) -> nat {
    if bit_len > HD_BIT_THRESHOLD {
        HD_SECTORS as nat
    } else {
        DD_SECTORS as nat
    }
}

/// Classification of a revolution given as a ring of bits.
pub open spec fn scan_outcome(ring: Seq<bool>) -> RevolutionScan {
    let expected = expected_sectors(ring.len() as int);
    let good = good_below(ring, HD_SECTORS as nat);
    let headers = headers_in(ring, 0, ring.len() as int);
    if ring.len() < MIN_SCAN_BITS {
        RevolutionScan::Unrecognised
    } else if good == expected {
        RevolutionScan::CleanAmigaDos { sectors: expected as u8 }
    } else if headers + 1 >= expected {
        RevolutionScan::DamagedAmigaDos { good: good as u8, expected: expected as u8 }
    } else {
        RevolutionScan::Unrecognised
    }
}

/// Reads `width` bits of a ring from any start.
fn read_ring(words: &[u16], bit_len: usize, start: usize, width: usize) -> (value: u32)
    requires
        0 < bit_len,
        packed::fits(words@, bit_len as int),
        start < bit_len,
        width <= 32,
    ensures
        value == shifted_in(
            packed::unpacked(words@, bit_len as int),
            start as int,
            width as nat,
        ),
{
    let ghost ring = packed::unpacked(words@, bit_len as int);
    let mut value: u32 = 0;
    let mut offset: usize = 0;
    let mut position: usize = start;
    assert(start as int % bit_len as int == start) by {
        vstd::arithmetic::div_mod::lemma_small_mod(start as nat, bit_len as nat);
    }
    while offset < width
        invariant
            offset <= width <= 32,
            position < bit_len,
            packed::fits(words@, bit_len as int),
            ring == packed::unpacked(words@, bit_len as int),
            position == (start + offset) % (bit_len as int),
            value == shifted_in(ring, start as int, offset as nat),
        decreases width - offset,
    {
        let bit = bit_at(words, position);
        value = (value << 1) | (if bit {
            1u32
        } else {
            0u32
        });
        proof {
            rotation::lemma_step_around(start + offset, bit_len as int);
        }
        offset += 1;
        position = if position + 1 == bit_len {
            0
        } else {
            position + 1
        };
    }
    value
}

/// The position `offset` further round a ring.
fn ring_add(position: usize, offset: usize, bit_len: usize) -> (sum: usize)
    requires
        position < bit_len,
    ensures
        sum < bit_len,
        sum == (position + offset) % (bit_len as int),
{
    let part: usize = offset % bit_len;
    proof {
        vstd::arithmetic::div_mod::lemma_add_mod_noop_right(
            position as int,
            offset as int,
            bit_len as int,
        );
        let total = position + part;
        if total < bit_len {
            vstd::arithmetic::div_mod::lemma_small_mod(total as nat, bit_len as nat);
        } else {
            vstd::arithmetic::div_mod::lemma_small_mod((total - bit_len) as nat, bit_len as nat);
            vstd::arithmetic::div_mod::lemma_mod_add_multiples_vanish(
                total - bit_len,
                bit_len as int,
            );
        }
    }
    if position >= bit_len - part {
        position - (bit_len - part)
    } else {
        position + part
    }
}

/// Reading a ring does not depend on how often it has gone round.
pub proof fn lemma_shifted_in_wraps(ring: Seq<bool>, left: int, right: int, width: nat)
    requires
        ring.len() > 0,
        left % (ring.len() as int) == right % (ring.len() as int),
    ensures
        shifted_in(ring, left, width) == shifted_in(ring, right, width),
    decreases width,
{
    if width > 0 {
        lemma_shifted_in_wraps(ring, left, right, (width - 1) as nat);
        let n = ring.len() as int;
        vstd::arithmetic::div_mod::lemma_add_mod_noop(left, width - 1, n);
        vstd::arithmetic::div_mod::lemma_add_mod_noop(right, width - 1, n);
    }
}

/// Reads 32 bits of a ring, `offset` past `position`.
fn long_at(words: &[u16], bit_len: usize, position: usize, offset: usize) -> (value: u32)
    requires
        packed::fits(words@, bit_len as int),
        position < bit_len,
    ensures
        value == ring_long(packed::unpacked(words@, bit_len as int), position + offset),
{
    let start = ring_add(position, offset, bit_len);
    proof {
        vstd::arithmetic::div_mod::lemma_mod_twice(position + offset, bit_len as int);
        lemma_shifted_in_wraps(
            packed::unpacked(words@, bit_len as int),
            start as int,
            position + offset,
            32,
        );
    }
    read_ring(words, bit_len, start, 32)
}

/// Whether the sync word stands `offset` past `position`.
fn is_sync(words: &[u16], bit_len: usize, position: usize, offset: usize) -> (sync: bool)
    requires
        packed::fits(words@, bit_len as int),
        position < bit_len,
    ensures
        sync == sync_at(packed::unpacked(words@, bit_len as int), position + offset),
{
    let start = ring_add(position, offset, bit_len);
    proof {
        vstd::arithmetic::div_mod::lemma_mod_twice(position + offset, bit_len as int);
        lemma_shifted_in_wraps(
            packed::unpacked(words@, bit_len as int),
            start as int,
            position + offset,
            16,
        );
    }
    read_ring(words, bit_len, start, 16) == SYNC_WORD
}

/// Joins the odd and even halves of a stored long.
fn deinterleave(odd: u32, even: u32) -> (value: u32)
    ensures
        value == deinterleaved(odd, even),
{
    ((odd & MFM_DATA_MASK) << 1) | (even & MFM_DATA_MASK)
}

/// Reads a stored value, `offset` past `position`.
fn value_at(words: &[u16], bit_len: usize, position: usize, offset: usize) -> (value: u32)
    requires
        packed::fits(words@, bit_len as int),
        position < bit_len,
        offset < 10_000,
    ensures
        value == stored_value(packed::unpacked(words@, bit_len as int), position + offset),
{
    deinterleave(
        long_at(words, bit_len, position, offset),
        long_at(words, bit_len, position, offset + 32),
    )
}

/// Sums the data bits of `count` longs, `offset` past `position`.
fn checksum_at(
    words: &[u16],
    bit_len: usize,
    position: usize,
    offset: usize,
    count: usize,
) -> (sum: u32)
    requires
        packed::fits(words@, bit_len as int),
        position < bit_len,
        offset < 10_000,
        count <= 256,
    ensures
        sum == mfm_checksum(
            packed::unpacked(words@, bit_len as int),
            position + offset,
            count as nat,
        ),
{
    let mut sum: u32 = 0;
    let mut done: usize = 0;
    while done < count
        invariant
            done <= count <= 256,
            packed::fits(words@, bit_len as int),
            position < bit_len,
            offset < 10_000,
            sum == mfm_checksum(
                packed::unpacked(words@, bit_len as int),
                position + offset,
                done as nat,
            ),
        decreases count - done,
    {
        sum = sum ^ (long_at(words, bit_len, position, offset + done * 32) & MFM_DATA_MASK);
        done += 1;
    }
    sum
}

/// Whether a sector opens at `position`.
fn opens(words: &[u16], bit_len: usize, position: usize) -> (result: bool)
    requires
        packed::fits(words@, bit_len as int),
        MIN_SCAN_BITS <= bit_len,
        position < bit_len,
    ensures
        result == sector_opens(packed::unpacked(words@, bit_len as int), position as int),
{
    is_sync(words, bit_len, position, 0) && is_sync(words, bit_len, position, 16) && !is_sync(
        words,
        bit_len,
        position,
        bit_len - 16,
    )
}

/// The sector number of the valid header at `position`, if one opens there.
fn valid_header(words: &[u16], bit_len: usize, position: usize) -> (number: Option<usize>)
    requires
        packed::fits(words@, bit_len as int),
        MIN_SCAN_BITS <= bit_len,
        position < bit_len,
    ensures
        match number {
            Some(number) => {
                &&& header_valid(packed::unpacked(words@, bit_len as int), position as int)
                &&& number == sector_number(
                    packed::unpacked(words@, bit_len as int),
                    position as int,
                )
            },
            None => !header_valid(packed::unpacked(words@, bit_len as int), position as int),
        },
{
    if !opens(words, bit_len, position) {
        return None;
    }
    let info = value_at(words, bit_len, position, 32);
    let number: usize = ((info / 256) % 256) as usize;
    if info / 0x100_0000 != 0xff || number >= HD_SECTORS {
        return None;
    }
    if checksum_at(words, bit_len, position, 32, 10) != value_at(words, bit_len, position, 352) {
        return None;
    }
    Some(number)
}

/// Decodes all AmigaDOS sectors in a packed revolution, treating its ends as
/// joined, and verifies both header and data checksums.
pub fn scan_revolution(words: &[u16], bit_len: usize) -> (result: RevolutionScan)
    ensures
        result == if packed::fits(words@, bit_len as int) {
            scan_outcome(packed::unpacked(words@, bit_len as int))
        } else {
            RevolutionScan::Unrecognised
        },
{
    if bit_len < MIN_SCAN_BITS || !bits_fit(words.len(), bit_len) {
        return RevolutionScan::Unrecognised;
    }
    let ghost ring = packed::unpacked(words@, bit_len as int);
    let mut headers: usize = 0;
    let mut good: Vec<bool> = vec![false; HD_SECTORS];
    let mut position: usize = 0;
    while position < bit_len
        invariant
            packed::fits(words@, bit_len as int),
            MIN_SCAN_BITS <= bit_len,
            ring == packed::unpacked(words@, bit_len as int),
            position <= bit_len,
            headers <= position,
            headers == headers_in(ring, 0, position as int),
            good@.len() == HD_SECTORS,
            forall|number: int|
                0 <= number < HD_SECTORS ==> #[trigger] good@[number] == sector_good(
                    ring,
                    position as int,
                    number,
                ),
        decreases bit_len - position,
    {
        let ghost before = good@;
        let found = valid_header(words, bit_len, position);
        if let Some(number) = found {
            headers += 1;
            if checksum_at(words, bit_len, position, 480, 256) == value_at(
                words,
                bit_len,
                position,
                416,
            ) {
                good.set(number, true);
            }
        }
        proof {
            assert forall|number: int| 0 <= number < HD_SECTORS implies #[trigger] good@[number]
                == sector_good(ring, position + 1, number) by {
                assert(before[number] == sector_good(ring, position as int, number));
                if sector_good(ring, position as int, number) {
                    let at = choose|at: int|
                        0 <= at < position && #[trigger] header_valid(ring, at) && sector_number(
                            ring,
                            at,
                        ) == number && data_valid(ring, at);
                    assert(header_valid(ring, at));
                }
                if sector_good(ring, position + 1, number) && !before[number] {
                    let at = choose|at: int|
                        0 <= at < position + 1 && #[trigger] header_valid(ring, at)
                            && sector_number(ring, at) == number && data_valid(ring, at);
                    assert(at == position);
                }
                if header_valid(ring, position as int) && sector_number(ring, position as int)
                    == number && data_valid(ring, position as int) {
                    assert(sector_good(ring, position + 1, number));
                }
            }
        }
        position += 1;
    }
    let mut distinct: usize = 0;
    let mut number: usize = 0;
    while number < HD_SECTORS
        invariant
            number <= HD_SECTORS,
            distinct <= number,
            ring.len() == bit_len,
            good@.len() == HD_SECTORS,
            distinct == good_below(ring, number as nat),
            forall|number: int|
                0 <= number < HD_SECTORS ==> #[trigger] good@[number] == sector_good(
                    ring,
                    bit_len as int,
                    number,
                ),
        decreases HD_SECTORS - number,
    {
        if good[number] {
            distinct += 1;
        }
        number += 1;
    }
    let expected: usize = if bit_len > HD_BIT_THRESHOLD {
        HD_SECTORS
    } else {
        DD_SECTORS
    };
    if distinct == expected {
        RevolutionScan::CleanAmigaDos { sectors: expected as u8 }
    } else if headers >= expected - 1 {
        RevolutionScan::DamagedAmigaDos { good: distinct as u8, expected: expected as u8 }
    } else {
        RevolutionScan::Unrecognised
    }
}

} // verus!
