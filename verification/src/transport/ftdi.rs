//! Identifiers of direct FTDI interfaces.

use vstd::prelude::*;

use crate::error::{Error, ErrorView, Result};
use crate::text;
use crate::text::{characters, same_text};
use crate::transport;
use crate::types::PortId;

verus! {

/// Which of several alike interfaces is meant.
#[derive(Debug)]
pub enum FtdiSelector {
    /// By position.
    Index(usize),
    /// By serial number.
    Serial(String),
}

/// A [`FtdiSelector`] with its text as a sequence.
pub enum SelectorView {
    /// See [`FtdiSelector::Index`].
    Index(int),
    /// See [`FtdiSelector::Serial`].
    Serial(Seq<char>),
}

impl View for FtdiSelector {
    type V = SelectorView;

    open spec fn view(&self) -> SelectorView {
        match *self {
            FtdiSelector::Index(index) => SelectorView::Index(index as int),
            FtdiSelector::Serial(serial) => SelectorView::Serial(serial@),
        }
    }
}

/// A direct FTDI interface.
#[derive(Debug)]
pub struct FtdiAddress {
    /// USB vendor identifier.
    pub vid: u16,
    /// USB product identifier.
    pub pid: u16,
    /// Which of several alike interfaces is meant.
    pub selector: FtdiSelector,
}

/// The value of a digit, if it is one below `radix`.
pub open spec fn digit_value(c: char, radix: int) -> Option<int> {
    let value = if '0' <= c <= '9' {
        c as u32 - '0' as u32
    } else if 'a' <= c <= 'f' {
        c as u32 - 'a' as u32 + 10
    } else if 'A' <= c <= 'F' {
        c as u32 - 'A' as u32 + 10
    } else {
        radix
    };
    if value < radix {
        Some(value)
    } else {
        None
    }
}

/// Whether a text holds digits alone.
pub open spec fn all_digits(digits: Seq<char>, radix: int) -> bool {
    forall|i: int| 0 <= i < digits.len() ==> digit_value(#[trigger] digits[i], radix) is Some
}

/// The number some digits stand for.
pub open spec fn positional(digits: Seq<char>, radix: int) -> int
    decreases digits.len(),
{
    if digits.len() == 0 {
        0
    } else {
        positional(digits.drop_last(), radix) * radix + digit_value(digits.last(), radix)->0
    }
}

/// A text without its plus sign.
pub open spec fn without_plus(text: Seq<char>) -> Seq<char> {
    if text.len() > 1 && text[0] == '+' {
        text.drop_first()
    } else {
        text
    }
}

/// The number a text stands for: at least one digit, after at most one plus
/// sign, and at most `limit`.
pub open spec fn number(text: Seq<char>, radix: int, limit: int) -> Option<int> {
    let digits = without_plus(text);
    if digits.len() == 0 || !all_digits(digits, radix) || positional(digits, radix) > limit {
        None
    } else {
        Some(positional(digits, radix))
    }
}

/// The value of a digit.
fn to_digit(c: char, radix: u64) -> (value: Option<u64>)
    requires
        radix <= 16,
    ensures
        match value {
            Some(found) => digit_value(c, radix as int) == Some(found as int) && found < radix,
            None => digit_value(c, radix as int) is None,
        },
{
    let value: u64 = if '0' <= c && c <= '9' {
        c as u64 - '0' as u64
    } else if 'a' <= c && c <= 'f' {
        c as u64 - 'a' as u64 + 10
    } else if 'A' <= c && c <= 'F' {
        c as u64 - 'A' as u64 + 10
    } else {
        radix
    };
    if value < radix {
        Some(value)
    } else {
        None
    }
}

/// Parses the characters `from..to` as a number.
fn parse_number(chars: &[char], from: usize, to: usize, radix: u64, limit: u64) -> (result: Option<
    u64,
>)
    requires
        from <= to <= chars@.len(),
        2 <= radix <= 16,
    ensures
        match result {
            Some(value) => number(
                chars@.subrange(from as int, to as int),
                radix as int,
                limit as int,
            ) == Some(value as int),
            None => number(
                chars@.subrange(from as int, to as int),
                radix as int,
                limit as int,
            ) is None,
        },
{
    let ghost text = chars@.subrange(from as int, to as int);
    let start: usize = if to - from > 1 && chars[from] == '+' {
        from + 1
    } else {
        from
    };
    let ghost digits = chars@.subrange(start as int, to as int);
    assert(digits == without_plus(text));
    if start == to {
        return None;
    }
    let mut value: u64 = 0;
    let mut over = false;
    let mut at: usize = start;
    assert(digits.take(0) == Seq::<char>::empty());
    while at < to
        invariant
            start <= at <= to <= chars@.len(),
            2 <= radix <= 16,
            digits == chars@.subrange(start as int, to as int),
            digits == without_plus(text),
            text == chars@.subrange(from as int, to as int),
            all_digits(digits.take(at - start), radix as int),
            over ==> positional(digits.take(at - start), radix as int) > limit,
            !over ==> value == positional(digits.take(at - start), radix as int) && value <= limit,
            positional(digits.take(at - start), radix as int) >= 0,
        decreases to - at,
    {
        let ghost before = digits.take(at - start);
        let ghost now = digits.take(at - start + 1);
        assert(now.drop_last() == before);
        assert(now.last() == chars@[at as int]);
        assert(digits[at - start] == chars@[at as int]);
        match to_digit(chars[at], radix) {
            Some(digit) => {
                proof {
                    let low = positional(before, radix as int);
                    assert(low * radix >= low) by (nonlinear_arith)
                        requires
                            low >= 0,
                            radix >= 2,
                    ;
                    assert(low * radix >= 0);
                    assert(all_digits(now, radix as int)) by {
                        assert forall|i: int| 0 <= i < now.len() implies digit_value(
                            #[trigger] now[i],
                            radix as int,
                        ) is Some by {
                            if i < before.len() {
                                assert(now[i] == before[i]);
                            }
                        }
                    }
                }
                if !over {
                    assert(0 <= value * radix <= 0xffff_ffff_ffff_ffff * 16) by (nonlinear_arith)
                        requires
                            0 <= value <= 0xffff_ffff_ffff_ffff,
                            0 <= radix <= 16,
                    ;
                    let next = value as u128 * radix as u128 + digit as u128;
                    if next > limit as u128 {
                        over = true;
                    } else {
                        value = next as u64;
                    }
                }
            },
            None => {
                assert(!all_digits(digits, radix as int));
                return None;
            },
        }
        at += 1;
    }
    assert(digits.take(to - start) == digits);
    if over {
        None
    } else {
        Some(value)
    }
}

/// Position of the first colon at or after `from`, or the length.
pub open spec fn next_colon(text: Seq<char>, from: int) -> int
    decreases text.len() - from,
{
    if from >= text.len() {
        text.len() as int
    } else if text[from] == ':' {
        from
    } else {
        next_colon(text, from + 1)
    }
}

/// Finds the first colon at or after `from`.
fn find_colon(chars: &[char], from: usize) -> (at: usize)
    requires
        from <= chars@.len(),
    ensures
        at == next_colon(chars@, from as int),
        from <= at <= chars@.len(),
{
    let mut at: usize = from;
    while at < chars.len() && chars[at] != ':'
        invariant
            from <= at <= chars@.len(),
            next_colon(chars@, from as int) == next_colon(chars@, at as int),
        decreases chars@.len() - at,
    {
        at += 1;
    }
    at
}

/// What an identifier of four fields says: `ftdi`, two hexadecimal USB
/// identifiers, and a selector that is a position if it is a number.
pub open spec fn address(id: Seq<char>) -> Option<(u16, u16, SelectorView)> {
    let first = next_colon(id, 0);
    let second = next_colon(id, first + 1);
    let third = next_colon(id, second + 1);
    if third >= id.len() || id.subrange(0, first) != "ftdi"@ {
        None
    } else {
        let vid = number(id.subrange(first + 1, second), 16, 0xffff);
        let pid = number(id.subrange(second + 1, third), 16, 0xffff);
        let selector = id.subrange(third + 1, id.len() as int);
        match (vid, pid) {
            (Some(vid), Some(pid)) => Some(
                (
                    vid as u16,
                    pid as u16,
                    match number(selector, 10, usize::MAX as int) {
                        Some(index) => SelectorView::Index(index),
                        None => SelectorView::Serial(selector),
                    },
                ),
            ),
            _ => None,
        }
    }
}

/// The error of an identifier that names no interface.
fn malformed(id: &PortId) -> (error: Error)
    ensures
        error@ == ErrorView::InvalidConfig("malformed direct FTDI port identifier "@ + id@),
{
    let mut message = "malformed direct FTDI port identifier ".to_owned();
    message.append(id.as_str());
    Error::InvalidConfig(message)
}

/// Reads the identifier of a direct FTDI interface.
pub fn parse_identifier(id: &PortId) -> (result: Result<FtdiAddress>)
    ensures
        match address(id@) {
            Some((vid, pid, selector)) => {
                &&& result matches Ok(found)
                &&& found.vid == vid
                &&& found.pid == pid
                &&& found.selector@ == selector
            },
            None => result matches Err(error) && error@ == ErrorView::InvalidConfig(
                "malformed direct FTDI port identifier "@ + id@,
            ),
        },
{
    let chars = characters(id.as_str());
    let total = chars.len();
    let first = find_colon(&chars, 0);
    if first == total {
        return Err(malformed(id));
    }
    let second = find_colon(&chars, first + 1);
    if second == total {
        return Err(malformed(id));
    }
    let third = find_colon(&chars, second + 1);
    if third == total {
        return Err(malformed(id));
    }
    let prefix = id.as_str().substring_char(0, first);
    if !same_text(&characters(prefix), "ftdi") {
        return Err(malformed(id));
    }
    let vid = match parse_number(&chars, first + 1, second, 16, 0xffff) {
        Some(vid) => vid as u16,
        None => return Err(malformed(id)),
    };
    let pid = match parse_number(&chars, second + 1, third, 16, 0xffff) {
        Some(pid) => pid as u16,
        None => return Err(malformed(id)),
    };
    let selector = match parse_number(&chars, third + 1, total, 10, usize::MAX as u64) {
        Some(index) => FtdiSelector::Index(index as usize),
        None => FtdiSelector::Serial(id.as_str().substring_char(third + 1, total).to_owned()),
    };
    Ok(FtdiAddress { vid, pid, selector })
}

/// A hexadecimal digit is one, and no colon.
proof fn lemma_hex_digit(value: int)
    requires
        0 <= value < 16,
    ensures
        digit_value(text::hex_digit(value), 16) == Some(value),
        text::hex_digit(value) != ':',
        text::hex_digit(value) != '+',
{
}

/// Four hexadecimal digits are read back as the number they were written for.
proof fn lemma_hex4_reads_back(value: u16)
    ensures
        text::hex4(value as int).len() == 4,
        number(text::hex4(value as int), 16, 0xffff) == Some(value as int),
        forall|i: int| 0 <= i < 4 ==> #[trigger] text::hex4(value as int)[i] != ':',
{
    let (a, b, c, d) = (
        value as int / 256 / 16,
        value as int / 256 % 16,
        value as int % 256 / 16,
        value as int % 256 % 16,
    );
    lemma_hex_digit(a);
    lemma_hex_digit(b);
    lemma_hex_digit(c);
    lemma_hex_digit(d);
    let digits = text::hex4(value as int);
    assert(digits == seq![
        text::hex_digit(a),
        text::hex_digit(b),
        text::hex_digit(c),
        text::hex_digit(d),
    ]);
    reveal_with_fuel(positional, 5);
    assert(digits.drop_last().last() == digits[2]);
    assert(digits.drop_last().drop_last().last() == digits[1]);
    assert(digits.drop_last().drop_last().drop_last().last() == digits[0]);
    assert(positional(digits, 16) == ((a * 16 + b) * 16 + c) * 16 + d);
    assert(value == ((a * 16 + b) * 16 + c) * 16 + d);
}

/// Decimal text is read back as the number it was written for.
proof fn lemma_decimal_reads_back(value: nat)
    ensures
        text::decimal(value).len() > 0,
        text::decimal(value)[0] != '+',
        all_digits(text::decimal(value), 10),
        positional(text::decimal(value), 10) == value,
    decreases value,
{
    reveal_with_fuel(positional, 2);
    let digits = text::decimal(value);
    if value < 10 {
        assert(digits.drop_last() == Seq::<char>::empty());
        assert(digits.last() == text::digit(value as int));
    } else {
        let early = text::decimal(value / 10);
        lemma_decimal_reads_back(value / 10);
        assert(digits.drop_last() == early);
        assert(digits.last() == text::digit(value as int % 10));
        assert(digits[0] == early[0]);
        assert forall|i: int| 0 <= i < digits.len() implies digit_value(#[trigger] digits[i], 10) is Some by {
            if i < early.len() {
                assert(digits[i] == early[i]);
            }
        }
    }
}

/// The next colon is the one at `at` if there is none before it.
proof fn lemma_next_colon(text: Seq<char>, from: int, at: int)
    requires
        0 <= from <= at < text.len(),
        text[at] == ':',
        forall|i: int| from <= i < at ==> #[trigger] text[i] != ':',
    ensures
        next_colon(text, from) == at,
    decreases at - from,
{
    if from < at {
        lemma_next_colon(text, from + 1, at);
    }
}

/// The identifier under which an interface is listed names it when it is
/// opened: the same USB identifiers, and the selector it was listed with.
pub proof fn law_identifier_names_interface(vid: u16, pid: u16, selector: Seq<char>)
    ensures
        address(transport::ftdi_identifier(vid, pid, selector)) == Some(
            (
                vid,
                pid,
                match number(selector, 10, usize::MAX as int) {
                    Some(index) => SelectorView::Index(index),
                    None => SelectorView::Serial(selector),
                },
            ),
        ),
{
    reveal_strlit("ftdi:");
    reveal_strlit("ftdi");
    reveal_strlit(":");
    lemma_hex4_reads_back(vid);
    lemma_hex4_reads_back(pid);
    let id = transport::ftdi_identifier(vid, pid, selector);
    let left = text::hex4(vid as int);
    let right = text::hex4(pid as int);
    assert(id.len() == 15 + selector.len());
    assert(id[4] == ':');
    assert(id[9] == ':');
    assert(id[14] == ':');
    assert(id.subrange(0, 4) == "ftdi"@);
    assert(id.subrange(5, 9) == left);
    assert(id.subrange(10, 14) == right);
    assert(id.subrange(15, id.len() as int) == selector);
    assert forall|i: int| 0 <= i < 4 implies #[trigger] id[i] != ':' by {
        assert(id[i] == "ftdi"@[i]);
    }
    assert forall|i: int| 5 <= i < 9 implies #[trigger] id[i] != ':' by {
        assert(id[i] == left[i - 5]);
    }
    assert forall|i: int| 10 <= i < 14 implies #[trigger] id[i] != ':' by {
        assert(id[i] == right[i - 10]);
    }
    lemma_next_colon(id, 0, 4);
    lemma_next_colon(id, 5, 9);
    lemma_next_colon(id, 10, 14);
}

/// An interface without serial number is found again by its position.
pub proof fn law_position_selects_interface(vid: u16, pid: u16, index: usize)
    ensures
        address(transport::ftdi_identifier(vid, pid, text::decimal(index as nat))) == Some(
            (vid, pid, SelectorView::Index(index as int)),
        ),
{
    law_identifier_names_interface(vid, pid, text::decimal(index as nat));
    lemma_decimal_reads_back(index as nat);
}

} // verus!
