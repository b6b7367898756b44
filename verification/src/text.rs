//! Small text helpers used by messages, port matching, and identifiers.

use vstd::prelude::*;

verus! {

/// The decimal digit for `value` below ten.
pub open spec fn digit(value: int) -> char {
    if value == 0 {
        '0'
    } else if value == 1 {
        '1'
    } else if value == 2 {
        '2'
    } else if value == 3 {
        '3'
    } else if value == 4 {
        '4'
    } else if value == 5 {
        '5'
    } else if value == 6 {
        '6'
    } else if value == 7 {
        '7'
    } else if value == 8 {
        '8'
    } else {
        '9'
    }
}

/// The lower-case hexadecimal digit for `value` below sixteen.
pub open spec fn hex_digit(value: int) -> char {
    if value < 10 {
        digit(value)
    } else if value == 10 {
        'a'
    } else if value == 11 {
        'b'
    } else if value == 12 {
        'c'
    } else if value == 13 {
        'd'
    } else if value == 14 {
        'e'
    } else {
        'f'
    }
}

/// Decimal text of a number, without leading zeros.
pub open spec fn decimal(value: nat) -> Seq<char>
    decreases value,
{
    if value < 10 {
        seq![digit(value as int)]
    } else {
        decimal(value / 10).push(digit(value as int % 10))
    }
}

/// Two hexadecimal digits.
pub open spec fn hex2(value: int) -> Seq<char> {
    seq![hex_digit(value / 16), hex_digit(value % 16)]
}

/// A byte as `0x` and two hexadecimal digits.
pub open spec fn hex_byte(value: int) -> Seq<char> {
    seq!['0', 'x'] + hex2(value)
}

/// Four hexadecimal digits.
pub open spec fn hex4(value: int) -> Seq<char> {
    hex2(value / 256) + hex2(value % 256)
}

/// ASCII lower case of one character; others are unchanged.
pub open spec fn lower(c: char) -> char {
    if 'A' <= c <= 'Z' {
        ((c as u32) + 32) as char
    } else {
        c
    }
}

/// ASCII lower case of a text.
pub open spec fn lowered(text: Seq<char>) -> Seq<char> {
    text.map_values(|c: char| lower(c))
}

/// Whether `needle` occurs in `text` at `at`.
pub open spec fn occurs_at(text: Seq<char>, needle: Seq<char>, at: int) -> bool {
    &&& 0 <= at
    &&& at + needle.len() <= text.len()
    &&& forall|i: int| 0 <= i < needle.len() ==> #[trigger] text[at + i] == needle[i]
}

/// Whether `needle` occurs anywhere in `text`.
pub open spec fn occurs(text: Seq<char>, needle: Seq<char>) -> bool {
    exists|at: int| #[trigger] occurs_at(text, needle, at)
}

/// Whether a character is Unicode white space.
pub open spec fn is_space(c: char) -> bool {
    let v = c as u32;
    ||| 0x9 <= v <= 0xd
    ||| v == 0x20
    ||| v == 0x85
    ||| v == 0xa0
    ||| v == 0x1680
    ||| 0x2000 <= v <= 0x200a
    ||| v == 0x2028
    ||| v == 0x2029
    ||| v == 0x202f
    ||| v == 0x205f
    ||| v == 0x3000
}

/// Order of texts by their code points, a prefix coming first.
pub open spec fn text_before(left: Seq<char>, right: Seq<char>) -> bool
    decreases left.len(),
{
    if right.len() == 0 {
        false
    } else if left.len() == 0 {
        true
    } else if left[0] == right[0] {
        text_before(left.drop_first(), right.drop_first())
    } else {
        left[0] < right[0]
    }
}

fn hex_digit_text(value: u8) -> (text: &'static str)
    requires
        value < 16,
    ensures
        text@ == seq![hex_digit(value as int)],
{
    proof {
        reveal_strlit("0");
        reveal_strlit("1");
        reveal_strlit("2");
        reveal_strlit("3");
        reveal_strlit("4");
        reveal_strlit("5");
        reveal_strlit("6");
        reveal_strlit("7");
        reveal_strlit("8");
        reveal_strlit("9");
        reveal_strlit("a");
        reveal_strlit("b");
        reveal_strlit("c");
        reveal_strlit("d");
        reveal_strlit("e");
        reveal_strlit("f");
    }
    match value {
        0 => "0",
        1 => "1",
        2 => "2",
        3 => "3",
        4 => "4",
        5 => "5",
        6 => "6",
        7 => "7",
        8 => "8",
        9 => "9",
        10 => "a",
        11 => "b",
        12 => "c",
        13 => "d",
        14 => "e",
        _ => "f",
    }
}

/// Appends the decimal text of a number.
pub fn append_decimal(text: &mut String, value: u64)
    ensures
        final(text)@ == old(text)@ + decimal(value as nat),
    decreases value,
{
    if value >= 10 {
        append_decimal(text, value / 10);
    }
    text.append(hex_digit_text((value % 10) as u8));
    assert(text@ == old(text)@ + decimal(value as nat));
}

/// Appends two hexadecimal digits.
pub fn append_hex2(text: &mut String, value: u8)
    ensures
        final(text)@ == old(text)@ + hex2(value as int),
{
    text.append(hex_digit_text(value / 16));
    text.append(hex_digit_text(value % 16));
    assert(text@ == old(text)@ + hex2(value as int));
}

/// Appends a byte as `0x` and two hexadecimal digits.
pub fn append_hex_byte(text: &mut String, value: u8)
    ensures
        final(text)@ == old(text)@ + hex_byte(value as int),
{
    proof {
        reveal_strlit("0x");
    }
    text.append("0x");
    append_hex2(text, value);
    assert(text@ == old(text)@ + hex_byte(value as int));
}

/// Appends four hexadecimal digits.
pub fn append_hex4(text: &mut String, value: u16)
    ensures
        final(text)@ == old(text)@ + hex4(value as int),
{
    append_hex2(text, (value / 256) as u8);
    append_hex2(text, (value % 256) as u8);
    assert(text@ == old(text)@ + hex4(value as int));
}

/// The characters of a text.
pub fn characters(text: &str) -> (chars: Vec<char>)
    ensures
        chars@ == text@,
{
    let mut chars: Vec<char> = Vec::new();
    for c in iter: text.chars()
        invariant
            iter.seq() == text@,
            chars@ == text@.subrange(0, iter.index() as int),
    {
        chars.push(c);
        assert(chars@ == text@.subrange(0, iter.index() + 1));
    }
    assert(text@.subrange(0, text@.len() as int) == text@);
    chars
}

/// ASCII lower case of one character.
pub fn to_lower(c: char) -> (result: char)
    ensures
        result == lower(c),
{
    if 'A' <= c && c <= 'Z' {
        (c as u8 + 32) as char
    } else {
        c
    }
}

/// Whether two texts are the same.
pub fn same_text(chars: &[char], text: &str) -> (same: bool)
    ensures
        same == (chars@ == text@),
{
    let other = characters(text);
    if chars.len() != other.len() {
        return false;
    }
    let mut i: usize = 0;
    while i < chars.len()
        invariant
            i <= chars@.len(),
            chars@.len() == other@.len(),
            other@ == text@,
            forall|j: int| 0 <= j < i ==> chars@[j] == other@[j],
        decreases chars@.len() - i,
    {
        if chars[i] != other[i] {
            return false;
        }
        i += 1;
    }
    assert(chars@ == text@);
    true
}

/// Whether a text begins with `prefix`.
pub fn begins_with(chars: &[char], prefix: &str) -> (begins: bool)
    ensures
        begins == prefix@.is_prefix_of(chars@),
{
    let other = characters(prefix);
    if chars.len() < other.len() {
        return false;
    }
    let mut i: usize = 0;
    while i < other.len()
        invariant
            i <= other@.len() <= chars@.len(),
            other@ == prefix@,
            forall|j: int| 0 <= j < i ==> chars@[j] == other@[j],
        decreases other@.len() - i,
    {
        if chars[i] != other[i] {
            assert(chars@.subrange(0, other@.len() as int)[i as int] != other@[i as int]);
            return false;
        }
        i += 1;
    }
    assert(prefix@ == chars@.subrange(0, prefix@.len() as int));
    true
}

/// Whether `needle` occurs in a text at `at`.
fn matches_at(chars: &[char], needle: &[char], at: usize) -> (found: bool)
    requires
        at + needle@.len() <= chars@.len(),
    ensures
        found == occurs_at(chars@, needle@, at as int),
{
    let total = chars.len();
    let mut i: usize = 0;
    while i < needle.len()
        invariant
            i <= needle@.len(),
            at + needle@.len() <= chars@.len(),
            chars@.len() == total,
            forall|j: int| 0 <= j < i ==> #[trigger] chars@[at + j] == needle@[j],
        decreases needle@.len() - i,
    {
        if chars[at + i] != needle[i] {
            return false;
        }
        i += 1;
    }
    true
}

/// Whether `needle` occurs anywhere in a text.
pub fn contains_text(chars: &[char], needle: &str) -> (found: bool)
    ensures
        found == occurs(chars@, needle@),
{
    let pattern = characters(needle);
    if pattern.len() > chars.len() {
        return false;
    }
    let last: usize = chars.len() - pattern.len();
    let mut at: usize = 0;
    loop
        invariant
            at <= last,
            pattern@ == needle@,
            last + pattern@.len() == chars@.len(),
            forall|j: int| 0 <= j < at ==> !#[trigger] occurs_at(chars@, needle@, j),
        decreases last - at,
    {
        if matches_at(chars, &pattern, at) {
            return true;
        }
        if at == last {
            return false;
        }
        at += 1;
    }
}

/// ASCII lower case of a text.
pub fn lower_characters(text: &str) -> (chars: Vec<char>)
    ensures
        chars@ == lowered(text@),
{
    let source = characters(text);
    let mut chars: Vec<char> = Vec::with_capacity(source.len());
    while chars.len() < source.len()
        invariant
            source@ == text@,
            chars@.len() <= source@.len(),
            chars@ == lowered(text@).take(chars@.len() as int),
        decreases source@.len() - chars@.len(),
    {
        chars.push(to_lower(source[chars.len()]));
        assert(chars@ == lowered(text@).take(chars@.len() as int));
    }
    assert(chars@ == lowered(text@));
    chars
}

/// Whether a character is Unicode white space.
pub fn is_white_space(c: char) -> (space: bool)
    ensures
        space == is_space(c),
{
    let v = c as u32;
    (0x9 <= v && v <= 0xd) || v == 0x20 || v == 0x85 || v == 0xa0 || v == 0x1680 || (0x2000 <= v
        && v <= 0x200a) || v == 0x2028 || v == 0x2029 || v == 0x202f || v == 0x205f || v == 0x3000
}

/// Text of a string in quotation marks, as `{:?}` prints it.
pub uninterp spec fn debug_text(value: Seq<char>) -> Seq<char>;

/// Quotes a string with std's `Debug` formatting of `str`.
///
/// Trusted: the text is a function of the string alone; which characters are
/// escaped, and how, is left to std.
#[verifier::external_body]
pub(crate) fn quoted(value: &str) -> (text: String)
    ensures
        text@ == debug_text(value@),
{
    format!("{value:?}")
}

/// Texts are ordered by the first character in which they differ; one that goes
/// on where the other ends comes after it.
pub proof fn law_first_difference_decides(left: Seq<char>, right: Seq<char>, same: int)
    requires
        0 <= same <= left.len(),
        same <= right.len(),
        forall|i: int| 0 <= i < same ==> #[trigger] left[i] == right[i],
        same < left.len() && same < right.len() ==> left[same] != right[same],
    ensures
        text_before(left, right) <==> same < right.len() && (same == left.len() || left[same]
            < right[same]),
    decreases same,
{
    if same > 0 {
        assert(left[0] == right[0]);
        let shorter = left.drop_first();
        let other = right.drop_first();
        assert forall|i: int| 0 <= i < same - 1 implies #[trigger] shorter[i] == other[i] by {
            assert(left[i + 1] == right[i + 1]);
        }
        law_first_difference_decides(shorter, other, same - 1);
    }
}

/// A number is written without leading zeros, and its last digit is what is left
/// of it by tens.
pub proof fn law_decimal_is_short(value: nat)
    ensures
        decimal(value).len() > 0,
        value > 0 ==> decimal(value)[0] != '0',
        value < 10 ==> decimal(value).len() == 1,
        value >= 10 ==> decimal(value).len() == decimal(value / 10).len() + 1,
    decreases value,
{
    if value >= 10 {
        law_decimal_is_short(value / 10);
        assert(decimal(value)[0] == decimal(value / 10)[0]);
    }
}

/// A text in lower case has no capital letter of ASCII, and is its own lower
/// case; a letter that was one is 32 code points further on.
pub proof fn law_lower_case_has_no_capitals(text: Seq<char>, at: int)
    requires
        0 <= at < text.len(),
    ensures
        !('A' <= lowered(text)[at] <= 'Z'),
        lowered(lowered(text)) == lowered(text),
        'A' <= text[at] <= 'Z' ==> lowered(text)[at] as u32 == text[at] as u32 + 32,
        !('A' <= text[at] <= 'Z') ==> lowered(text)[at] == text[at],
{
    assert forall|i: int| 0 <= i < text.len() implies !('A' <= #[trigger] lowered(text)[i] <= 'Z')
        by {
        assert(lowered(text)[i] == lower(text[i]));
    }
    assert(lowered(lowered(text)) =~= lowered(text));
}

} // verus!
