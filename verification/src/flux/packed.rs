//! Bits packed most significant first into 16-bit words.

use vstd::prelude::*;

verus! {

/// Words needed to hold `bit_len` bits.
pub open spec fn words_for(bit_len: int) -> int {
    (bit_len + 15) / 16
}

/// Bit `index` of one word, counted from the most significant.
pub open spec fn word_bit(word: u16, index: int) -> bool {
    (word >> ((15 - index) as u16)) & 1 == 1
}

/// Bit `position` of a packed stream.
pub open spec fn packed_bit(words: Seq<u16>, position: int) -> bool {
    word_bit(words[position / 16], position % 16)
}

/// Whether `words` has room for `bit_len` bits.
pub open spec fn fits(words: Seq<u16>, bit_len: int) -> bool {
    bit_len <= words.len() * 16
}

/// The first `bit_len` bits of a packed stream.
pub open spec fn unpacked(words: Seq<u16>, bit_len: int) -> Seq<bool> {
    Seq::new(bit_len as nat, |i: int| packed_bit(words, i))
}

/// Whether `words` is exactly `bits`, packed, with a zero-filled last word.
pub open spec fn packs(words: Seq<u16>, bits: Seq<bool>) -> bool {
    &&& words.len() == words_for(bits.len() as int)
    &&& forall|i: int|
        #![trigger packed_bit(words, i)]
        0 <= i < words.len() * 16 ==> packed_bit(words, i) == (i < bits.len() && bits[i])
}

proof fn lemma_set_bit(word: u16, shift: u16, other: u16)
    by (bit_vector)
    requires
        shift < 16,
        other < 16,
    ensures
        ((word | (1u16 << shift)) >> other) & 1 == 1 <==> other == shift || (word >> other) & 1
            == 1,
{
}

proof fn lemma_zero_word(shift: u16)
    by (bit_vector)
    requires
        shift < 16,
    ensures
        (0u16 >> shift) & 1 != 1,
{
}

proof fn lemma_mask_bit(word: u16, shift: u16)
    by (bit_vector)
    requires
        shift < 16,
    ensures
        (word & (1u16 << shift) != 0) <==> (word >> shift) & 1 == 1,
{
}

proof fn lemma_same_bits(left: u16, right: u16)
    by (bit_vector)
    requires
        ((left >> 0) & 1 == 1) == ((right >> 0) & 1 == 1),
        ((left >> 1) & 1 == 1) == ((right >> 1) & 1 == 1),
        ((left >> 2) & 1 == 1) == ((right >> 2) & 1 == 1),
        ((left >> 3) & 1 == 1) == ((right >> 3) & 1 == 1),
        ((left >> 4) & 1 == 1) == ((right >> 4) & 1 == 1),
        ((left >> 5) & 1 == 1) == ((right >> 5) & 1 == 1),
        ((left >> 6) & 1 == 1) == ((right >> 6) & 1 == 1),
        ((left >> 7) & 1 == 1) == ((right >> 7) & 1 == 1),
        ((left >> 8) & 1 == 1) == ((right >> 8) & 1 == 1),
        ((left >> 9) & 1 == 1) == ((right >> 9) & 1 == 1),
        ((left >> 10) & 1 == 1) == ((right >> 10) & 1 == 1),
        ((left >> 11) & 1 == 1) == ((right >> 11) & 1 == 1),
        ((left >> 12) & 1 == 1) == ((right >> 12) & 1 == 1),
        ((left >> 13) & 1 == 1) == ((right >> 13) & 1 == 1),
        ((left >> 14) & 1 == 1) == ((right >> 14) & 1 == 1),
        ((left >> 15) & 1 == 1) == ((right >> 15) & 1 == 1),
    ensures
        left == right,
{
}

/// A packed stream is determined by the bits it packs.
pub proof fn lemma_packing_is_unique(left: Seq<u16>, right: Seq<u16>, bits: Seq<bool>)
    requires
        packs(left, bits),
        packs(right, bits),
    ensures
        left == right,
{
    assert forall|w: int| 0 <= w < left.len() implies left[w] == right[w] by {
        let (l, r) = (left[w], right[w]);
        assert forall|shift: u16| shift < 16 implies ((l >> shift) & 1 == 1) == ((r >> shift) & 1
            == 1) by {
            let i = w * 16 + 15 - shift;
            assert(i / 16 == w && i % 16 == 15 - shift);
            assert(packed_bit(left, i) == packed_bit(right, i));
        }
        lemma_same_bits(l, r);
    }
}

/// Reads one bit of a packed stream.
pub fn bit_at(words: &[u16], position: usize) -> (bit: bool)
    requires
        position < words@.len() * 16,
    ensures
        bit == packed_bit(words@, position as int),
{
    let shift: u16 = 15 - (position % 16) as u16;
    proof {
        lemma_mask_bit(words@[position as int / 16], shift);
    }
    words[position / 16] & (1u16 << shift) != 0
}

/// Whether `bit_len` bits fit in `count` words.
pub fn bits_fit(count: usize, bit_len: usize) -> (fit: bool)
    ensures
        fit == (bit_len <= count * 16),
{
    bit_len / 16 < count || (bit_len / 16 == count && bit_len % 16 == 0)
}

/// Packs a bit stream into most-significant-bit-first words.
pub fn pack_bits(bits: &[bool]) -> (words: Vec<u16>)
    ensures
        packs(words@, bits@),
        unpacked(words@, bits@.len() as int) == bits@,
{
    let count: usize = bits.len() / 16 + (if bits.len() % 16 == 0 {
        0
    } else {
        1
    });
    let mut words: Vec<u16> = vec![0u16; count];
    assert forall|i: int| #![trigger packed_bit(words@, i)]
        0 <= i < words@.len() * 16 implies !packed_bit(words@, i) by {
        lemma_zero_word((15 - i % 16) as u16);
    }
    let mut position: usize = 0;
    while position < bits.len()
        invariant
            position <= bits@.len(),
            count == words_for(bits@.len() as int),
            words@.len() == count,
            forall|i: int|
                #![trigger packed_bit(words@, i)]
                0 <= i < words@.len() * 16 ==> packed_bit(words@, i) == (i < position && bits@[i]),
        decreases bits@.len() - position,
    {
        if bits[position] {
            let ghost before = words@;
            let shift: u16 = 15 - (position % 16) as u16;
            let word = words[position / 16] | (1u16 << shift);
            words.set(position / 16, word);
            assert forall|i: int| #![trigger packed_bit(words@, i)]
                0 <= i < words@.len() * 16 implies packed_bit(words@, i) == (i < position + 1
                && bits@[i]) by {
                assert(packed_bit(before, i) == (i < position && bits@[i]));
                if i / 16 == position as int / 16 {
                    lemma_set_bit(before[i / 16], shift, (15 - i % 16) as u16);
                }
            }
        }
        position += 1;
    }
    assert(unpacked(words@, bits@.len() as int) == bits@);
    words
}

} // verus!
