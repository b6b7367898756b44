//! Integers as they travel on the wire.

use vstd::prelude::*;

verus! {

/// Two bytes, least significant first.
pub open spec fn le16(value: int) -> Seq<u8> {
    seq![(value % 256) as u8, (value / 256) as u8]
}

/// Four bytes, least significant first.
pub open spec fn le32(value: int) -> Seq<u8> {
    le16(value % 65536) + le16(value / 65536)
}

/// Two bytes, most significant first.
pub open spec fn be16(value: int) -> Seq<u8> {
    seq![(value / 256) as u8, (value % 256) as u8]
}

/// Four bytes, most significant first.
pub open spec fn be32(value: int) -> Seq<u8> {
    be16(value / 65536) + be16(value % 65536)
}

/// The number two bytes hold, least significant first.
pub open spec fn from_le16(bytes: Seq<u8>, at: int) -> int {
    bytes[at] + bytes[at + 1] * 256
}

/// The number four bytes hold, least significant first.
pub open spec fn from_le32(bytes: Seq<u8>, at: int) -> int {
    from_le16(bytes, at) + from_le16(bytes, at + 2) * 65536
}

/// Appends two bytes, least significant first.
pub(crate) fn append_le16(bytes: &mut Vec<u8>, value: u16)
    ensures
        final(bytes)@ == old(bytes)@ + le16(value as int),
{
    bytes.push((value % 256) as u8);
    bytes.push((value / 256) as u8);
    assert(bytes@ == old(bytes)@ + le16(value as int));
}

/// Appends four bytes, least significant first.
pub(crate) fn append_le32(bytes: &mut Vec<u8>, value: u32)
    ensures
        final(bytes)@ == old(bytes)@ + le32(value as int),
{
    append_le16(bytes, (value % 65536) as u16);
    append_le16(bytes, (value / 65536) as u16);
    assert(bytes@ == old(bytes)@ + le32(value as int));
}

/// Appends two bytes, most significant first.
pub(crate) fn append_be16(bytes: &mut Vec<u8>, value: u16)
    ensures
        final(bytes)@ == old(bytes)@ + be16(value as int),
{
    bytes.push((value / 256) as u8);
    bytes.push((value % 256) as u8);
    assert(bytes@ == old(bytes)@ + be16(value as int));
}

/// Appends four bytes, most significant first.
pub(crate) fn append_be32(bytes: &mut Vec<u8>, value: u32)
    ensures
        final(bytes)@ == old(bytes)@ + be32(value as int),
{
    append_be16(bytes, (value / 65536) as u16);
    append_be16(bytes, (value % 65536) as u16);
    assert(bytes@ == old(bytes)@ + be32(value as int));
}

/// Reads two bytes, least significant first.
pub(crate) fn read_le16(bytes: &[u8], at: usize) -> (value: u16)
    requires
        at + 1 < bytes@.len(),
    ensures
        value == from_le16(bytes@, at as int),
{
    let _length = bytes.len();
    bytes[at] as u16 + bytes[at + 1] as u16 * 256
}

/// Reads four bytes, least significant first.
pub(crate) fn read_le32(bytes: &[u8], at: usize) -> (value: u32)
    requires
        at + 3 < bytes@.len(),
    ensures
        value == from_le32(bytes@, at as int),
{
    let _length = bytes.len();
    read_le16(bytes, at) as u32 + read_le16(bytes, at + 2) as u32 * 65536
}

/// Number of a flag.
pub(crate) fn flag(value: bool) -> (number: u8)
    ensures
        number == flag_number(value),
{
    if value {
        1
    } else {
        0
    }
}

/// Number of a flag: one when it is set.
pub open spec fn flag_number(value: bool) -> u8 {
    if value {
        1
    } else {
        0
    }
}

/// What a number sent least significant byte first is read back as.
pub proof fn law_le32_reads_back(value: int)
    requires
        0 <= value <= u32::MAX,
    ensures
        from_le32(le32(value), 0) == value,
{
    let bytes = le32(value);
    assert(bytes[0] == value % 65536 % 256);
    assert(bytes[1] == value % 65536 / 256);
    assert(bytes[2] == value / 65536 % 256);
    assert(bytes[3] == value / 65536 / 256);
}

/// A number sent most significant byte first weighs each byte 256 times the
/// next.
pub proof fn law_be32_weighs_its_bytes(value: int)
    requires
        0 <= value <= u32::MAX,
    ensures
        ({
            let bytes = be32(value);
            &&& bytes.len() == 4
            &&& ((bytes[0] * 256 + bytes[1]) * 256 + bytes[2]) * 256 + bytes[3] == value
        }),
{
    let bytes = be32(value);
    assert(bytes[0] == value / 65536 / 256);
    assert(bytes[1] == value / 65536 % 256);
    assert(bytes[2] == value % 65536 / 256);
    assert(bytes[3] == value % 65536 % 256);
}

/// A number sent least significant byte first weighs each byte 256 times the one
/// before.
pub proof fn law_le32_weighs_its_bytes(value: int)
    requires
        0 <= value <= u32::MAX,
    ensures
        ({
            let bytes = le32(value);
            &&& bytes.len() == 4
            &&& bytes[0] + 256 * (bytes[1] + 256 * (bytes[2] + 256 * bytes[3])) == value
        }),
{
    let bytes = le32(value);
    assert(bytes[0] == value % 65536 % 256);
    assert(bytes[1] == value % 65536 / 256);
    assert(bytes[2] == value / 65536 % 256);
    assert(bytes[3] == value / 65536 / 256);
}

} // verus!
