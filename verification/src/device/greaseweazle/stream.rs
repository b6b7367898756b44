//! Greaseweazle flux streams.

use vstd::prelude::*;

use crate::error::{Error, ErrorView, Result};
use crate::flux::{mfm, mfm_to_flux, packed, FluxEvent, MAX_TRACK_BITS};
use crate::text;
use crate::text::append_decimal;

verus! {

/// The number held by four bytes of seven bits each, least significant first.
pub open spec fn number28(bytes: Seq<u8>, at: int) -> int {
    bytes[at] as int / 2 + bytes[at + 1] as int / 2 * 0x80 + bytes[at + 2] as int / 2 * 0x4000
        + bytes[at + 3] as int / 2 * 0x20_0000
}

/// One element of a flux stream.
pub enum Item {
    /// An index pulse.
    Index,
    /// Ticks that pass without a transition.
    Space(int),
    /// A run of transitions the interface could not place.
    Astable,
    /// Ticks up to a transition.
    Interval(int),
}

/// The element starting at `at`, and where the next one starts.
pub open spec fn item_at(bytes: Seq<u8>, at: int) -> core::result::Result<(Item, int), ErrorView> {
    let first = bytes[at];
    let left = bytes.len() - at;
    if first == 255 {
        if left < 2 {
            Err(ErrorView::Protocol("truncated Greaseweazle opcode"@))
        } else if bytes[at + 1] == 1 || bytes[at + 1] == 2 {
            if left < 6 {
                Err(ErrorView::Protocol("truncated Greaseweazle 28-bit value"@))
            } else if bytes[at + 1] == 1 {
                Ok((Item::Index, at + 6))
            } else {
                Ok((Item::Space(number28(bytes, at + 2)), at + 6))
            }
        } else if bytes[at + 1] == 3 {
            if left < 3 {
                Err(ErrorView::Protocol("truncated Greaseweazle astable opcode"@))
            } else {
                Ok((Item::Astable, at + 3))
            }
        } else {
            Err(
                ErrorView::Protocol(
                    "unknown Greaseweazle flux opcode "@ + text::decimal(bytes[at + 1] as nat),
                ),
            )
        }
    } else if first < 250 {
        Ok((Item::Interval(first as int), at + 1))
    } else if left < 2 {
        Err(ErrorView::Protocol("truncated Greaseweazle flux interval"@))
    } else {
        let low = if bytes[at + 1] == 0 {
            0
        } else {
            bytes[at + 1] - 1
        };
        Ok((Item::Interval(250 + (first - 250) * 255 + low), at + 2))
    }
}

/// A sum of ticks, kept to 32 bits.
pub open spec fn more_ticks(left: int, right: int) -> int {
    if left + right > u32::MAX {
        u32::MAX as int
    } else {
        left + right
    }
}

/// Ticks in nanoseconds, to the nearest.
pub open spec fn tick_nanoseconds(ticks: int, frequency: int) -> int {
    (ticks * 1_000_000_000 + frequency / 2) / frequency
}

/// Nanoseconds as the decoder expects them: high-density intervals are
/// stretched to double-density ones.
pub open spec fn normalized(nanoseconds: int, high_density: bool) -> u32 {
    if !high_density {
        nanoseconds as u32
    } else if nanoseconds * 2 > u32::MAX {
        u32::MAX
    } else {
        (nanoseconds * 2) as u32
    }
}

/// The transitions of a flux stream up to the first problem, and that problem.
pub struct Parse {
    /// Transitions in order.
    pub events: Seq<FluxEvent>,
    /// What is wrong with the stream after them, if anything.
    pub problem: Option<ErrorView>,
}

/// Parses a stream from `at` on, with `ticks` and an index pulse pending.
pub open spec fn parse_from(
    bytes: Seq<u8>,
    at: int,
    ticks: int,
    index: bool,
    frequency: int,
    high_density: bool,
) -> Parse
    decreases bytes.len() - at,
{
    if at >= bytes.len() {
        Parse { events: Seq::empty(), problem: None }
    } else {
        match item_at(bytes, at) {
            Err(problem) => Parse { events: Seq::empty(), problem: Some(problem) },
            Ok((Item::Index, next)) => parse_from(
                bytes,
                next,
                ticks,
                true,
                frequency,
                high_density,
            ),
            Ok((Item::Space(more), next)) => parse_from(
                bytes,
                next,
                more_ticks(ticks, more),
                index,
                frequency,
                high_density,
            ),
            Ok((Item::Astable, next)) => parse_from(
                bytes,
                next,
                ticks,
                index,
                frequency,
                high_density,
            ),
            Ok((Item::Interval(more), next)) => {
                let nanoseconds = tick_nanoseconds(more_ticks(ticks, more), frequency);
                if nanoseconds > u32::MAX {
                    Parse {
                        events: Seq::empty(),
                        problem: Some(
                            ErrorView::Protocol("Greaseweazle flux interval is too large"@),
                        ),
                    }
                } else {
                    let rest = parse_from(bytes, next, 0, false, frequency, high_density);
                    Parse {
                        events: seq![
                            FluxEvent {
                                nanoseconds: normalized(nanoseconds, high_density),
                                index,
                            },
                        ] + rest.events,
                        problem: rest.problem,
                    }
                }
            },
        }
    }
}

/// Parses a whole stream.
pub open spec fn parsed(bytes: Seq<u8>, frequency: u32, high_density: bool) -> Parse {
    parse_from(bytes, 0, 0, false, frequency as int, high_density)
}

/// Reads a number of four bytes of seven bits each.
pub fn read_28bit(bytes: &[u8], at: usize) -> (result: Result<u32>)
    requires
        at <= bytes@.len(),
    ensures
        match result {
            Ok(value) => bytes@.len() - at >= 4 && value == number28(bytes@, at as int),
            Err(error) => bytes@.len() - at < 4 && error@ == ErrorView::Protocol(
                "truncated Greaseweazle 28-bit value"@,
            ),
        },
{
    if bytes.len() - at < 4 {
        return Err(Error::Protocol("truncated Greaseweazle 28-bit value".to_owned()));
    }
    Ok(
        (bytes[at] / 2) as u32 + (bytes[at + 1] / 2) as u32 * 0x80 + (bytes[at + 2] / 2) as u32
            * 0x4000 + (bytes[at + 3] / 2) as u32 * 0x20_0000,
    )
}

/// Ticks in nanoseconds, if they fit 32 bits.
fn interval_nanoseconds(ticks: u32, frequency: u32) -> (nanoseconds: Option<u32>)
    requires
        frequency > 0,
    ensures
        match nanoseconds {
            Some(value) => value == tick_nanoseconds(ticks as int, frequency as int),
            None => tick_nanoseconds(ticks as int, frequency as int) > u32::MAX,
        },
{
    let value = (ticks as u64 * 1_000_000_000 + frequency as u64 / 2) / frequency as u64;
    if value > u32::MAX as u64 {
        None
    } else {
        Some(value as u32)
    }
}

/// Parses a stream as far as it goes.
#[verifier::spinoff_prover]
#[verifier::rlimit(40)]
fn parse(bytes: &[u8], frequency: u32, high_density: bool) -> (result: (
    Vec<FluxEvent>,
    Option<Error>,
))
    requires
        frequency > 0,
    ensures
        result.0@ == parsed(bytes@, frequency, high_density).events,
        match parsed(bytes@, frequency, high_density).problem {
            Some(problem) => result.1 matches Some(error) && error@ == problem,
            None => result.1 is None,
        },
{
    let total = bytes.len();
    let ghost whole = parsed(bytes@, frequency, high_density);
    let mut events: Vec<FluxEvent> = Vec::new();
    let mut at: usize = 0;
    let mut ticks: u32 = 0;
    let mut index = false;
    assert(events@ + whole.events == whole.events);
    while at < total
        invariant
            total == bytes@.len(),
            at <= total,
            frequency > 0,
            whole == parsed(bytes@, frequency, high_density),
            whole.events == events@ + parse_from(
                bytes@,
                at as int,
                ticks as int,
                index,
                frequency as int,
                high_density,
            ).events,
            whole.problem == parse_from(
                bytes@,
                at as int,
                ticks as int,
                index,
                frequency as int,
                high_density,
            ).problem,
        decreases total - at,
    {
        let ghost rest = parse_from(
            bytes@,
            at as int,
            ticks as int,
            index,
            frequency as int,
            high_density,
        );
        let byte = bytes[at];
        if byte == 255 {
            if total - at < 2 {
                assert(events@ + rest.events == events@);
                return (events, Some(Error::Protocol("truncated Greaseweazle opcode".to_owned())));
            }
            let opcode = bytes[at + 1];
            if opcode == 1 || opcode == 2 {
                match read_28bit(bytes, at + 2) {
                    Ok(value) => {
                        if opcode == 1 {
                            index = true;
                        } else {
                            ticks = ticks.saturating_add(value);
                        }
                        at += 6;
                    },
                    Err(error) => {
                        assert(events@ + rest.events == events@);
                        return (events, Some(error));
                    },
                }
            } else if opcode == 3 {
                if total - at < 3 {
                    assert(events@ + rest.events == events@);
                    return (
                        events,
                        Some(Error::Protocol("truncated Greaseweazle astable opcode".to_owned())),
                    );
                }
                at += 3;
            } else {
                let mut message = "unknown Greaseweazle flux opcode ".to_owned();
                append_decimal(&mut message, opcode as u64);
                assert(events@ + rest.events == events@);
                return (events, Some(Error::Protocol(message)));
            }
        } else {
            let ghost before = ticks;
            let ghost start = at;
            if byte < 250 {
                ticks = ticks.saturating_add(byte as u32);
                at += 1;
            } else {
                if total - at < 2 {
                    assert(events@ + rest.events == events@);
                    return (
                        events,
                        Some(Error::Protocol("truncated Greaseweazle flux interval".to_owned())),
                    );
                }
                let low = bytes[at + 1].saturating_sub(1);
                ticks = ticks.saturating_add(250 + (byte as u32 - 250) * 255 + low as u32);
                at += 2;
            }
            let nanoseconds = match interval_nanoseconds(ticks, frequency) {
                Some(value) => value,
                None => {
                    assert(events@ + rest.events == events@);
                    return (
                        events,
                        Some(
                            Error::Protocol("Greaseweazle flux interval is too large".to_owned()),
                        ),
                    );
                },
            };
            let shown = if high_density {
                nanoseconds.saturating_add(nanoseconds)
            } else {
                nanoseconds
            };
            let ghost earlier = events@;
            events.push(FluxEvent { nanoseconds: shown, index });
            assert(earlier + rest.events == events@ + parse_from(
                bytes@,
                at as int,
                0,
                false,
                frequency as int,
                high_density,
            ).events);
            ticks = 0;
            index = false;
        }
    }
    assert(events@ + Seq::<FluxEvent>::empty() == events@);
    (events, None)
}

/// Decodes a complete flux stream into transitions.
pub fn decode_stream(bytes: &[u8], frequency: u32, high_density: bool) -> (result: Result<
    Vec<FluxEvent>,
>)
    requires
        frequency > 0,
    ensures
        match parsed(bytes@, frequency, high_density).problem {
            Some(problem) => result matches Err(error) && error@ == problem,
            None => result matches Ok(events) && events@ == parsed(
                bytes@,
                frequency,
                high_density,
            ).events,
        },
{
    let (events, problem) = parse(bytes, frequency, high_density);
    match problem {
        Some(error) => Err(error),
        None => Ok(events),
    }
}

/// Decodes a flux stream that is still arriving: every transition up to the
/// first element that is not complete.
pub fn decode_available(bytes: &[u8], frequency: u32, high_density: bool) -> (events: Vec<
    FluxEvent,
>)
    requires
        frequency > 0,
    ensures
        events@ == parsed(bytes@, frequency, high_density).events,
{
    parse(bytes, frequency, high_density).0
}

/// Four bytes of seven bits each, least significant first; every byte is odd.
pub open spec fn bytes28(value: int) -> Seq<u8> {
    seq![
        (value % 0x80 * 2 + 1) as u8,
        (value / 0x80 % 0x80 * 2 + 1) as u8,
        (value / 0x4000 % 0x80 * 2 + 1) as u8,
        (value / 0x20_0000 % 0x80 * 2 + 1) as u8,
    ]
}

/// Appends a number as four bytes of seven bits each; the four highest bits
/// are dropped.
pub fn encode_28bit(value: u32, output: &mut Vec<u8>)
    ensures
        final(output)@ == old(output)@ + bytes28(value as int),
{
    output.push((value % 0x80 * 2 + 1) as u8);
    output.push((value / 0x80 % 0x80 * 2 + 1) as u8);
    output.push((value / 0x4000 % 0x80 * 2 + 1) as u8);
    output.push((value / 0x20_0000 % 0x80 * 2 + 1) as u8);
    assert(output@ == old(output)@ + bytes28(value as int));
}

/// The bytes of one interval.
pub open spec fn tick_bytes(ticks: int) -> Seq<u8> {
    let high = (ticks - 250) / 255;
    if ticks < 250 {
        seq![ticks as u8]
    } else if high < 5 {
        seq![(250 + high) as u8, (1 + (ticks - 250) % 255) as u8]
    } else {
        seq![255u8, 2u8] + bytes28(ticks - 249) + seq![249u8]
    }
}

/// Appends the bytes of one interval.
pub fn encode_ticks(ticks: u32, output: &mut Vec<u8>)
    ensures
        final(output)@ == old(output)@ + tick_bytes(ticks as int),
{
    if ticks < 250 {
        output.push(ticks as u8);
    } else {
        let high = (ticks - 250) / 255;
        if high < 5 {
            output.push((250 + high) as u8);
            output.push((1 + (ticks - 250) % 255) as u8);
        } else {
            output.push(255);
            output.push(2);
            encode_28bit(ticks - 249, output);
            output.push(249);
        }
    }
    assert(output@ == old(output)@ + tick_bytes(ticks as int));
}

/// The bytes of a run of intervals.
pub open spec fn encoded(ticks: Seq<int>) -> Seq<u8>
    decreases ticks.len(),
{
    if ticks.len() == 0 {
        Seq::empty()
    } else {
        encoded(ticks.drop_last()) + tick_bytes(ticks.last())
    }
}

/// Nanoseconds in ticks, to the nearest and at least one.
pub open spec fn delay_ticks(nanoseconds: int, frequency: int) -> int {
    let ticks = (nanoseconds * frequency + 500_000_000) / 1_000_000_000;
    if ticks < 1 {
        1
    } else {
        ticks
    }
}

/// Length of one bit cell in nanoseconds.
pub open spec fn cell_nanoseconds(high_density: bool) -> int {
    if high_density {
        1_000
    } else {
        2_000
    }
}

/// Every interval of a track in ticks.
pub open spec fn track_ticks(bits: Seq<bool>, frequency: int, high_density: bool) -> Seq<int> {
    mfm::scaled(mfm::interval_cells(bits), cell_nanoseconds(high_density)).map_values(
        |nanoseconds: int| delay_ticks(nanoseconds, frequency),
    )
}

/// A track as the flux stream that writes it: its intervals, and an end marker.
pub open spec fn track_bytes(bits: Seq<bool>, frequency: int, high_density: bool) -> Seq<u8> {
    encoded(track_ticks(bits, frequency, high_density)).push(0)
}

/// Converts one delay to ticks.
fn to_ticks(nanoseconds: u32, frequency: u32) -> (ticks: u64)
    ensures
        ticks == delay_ticks(nanoseconds as int, frequency as int),
{
    assert(0 <= nanoseconds * frequency <= 0xffff_ffff * 0xffff_ffff) by (nonlinear_arith)
        requires
            0 <= nanoseconds <= 0xffff_ffff,
            0 <= frequency <= 0xffff_ffff,
    ;
    let ticks = (nanoseconds as u64 * frequency as u64 + 500_000_000) / 1_000_000_000;
    if ticks < 1 {
        1
    } else {
        ticks
    }
}

/// Encodes a track as the flux stream that writes it.
pub fn encode_track(words: &[u16], bit_len: usize, frequency: u32, high_density: bool) -> (result:
    Result<Vec<u8>>)
    ensures
        match mfm::mfm_error(words@, bit_len as int, cell_nanoseconds(high_density)) {
            Some(expected) => result matches Err(error) && error@ == expected,
            None => result matches Ok(bytes) && bytes@ == track_bytes(
                packed::unpacked(words@, bit_len as int),
                frequency as int,
                high_density,
            ),
        },
{
    let cell: u32 = if high_density {
        1_000
    } else {
        2_000
    };
    let timings = match mfm_to_flux(words, bit_len, cell) {
        Ok(timings) => timings,
        Err(error) => return Err(error),
    };
    let ghost bits = packed::unpacked(words@, bit_len as int);
    let ghost ticks = track_ticks(bits, frequency as int, high_density);
    let mut output: Vec<u8> = Vec::with_capacity(timings.len());
    let mut i: usize = 0;
    assert(mfm::delays(timings@) == mfm::scaled(mfm::interval_cells(bits), cell as int));
    assert(ticks.len() == timings@.len());
    assert(ticks.take(0) == Seq::<int>::empty());
    while i < timings.len()
        invariant
            i <= timings@.len(),
            cell == cell_nanoseconds(high_density),
            bits.len() <= MAX_TRACK_BITS,
            ticks == track_ticks(bits, frequency as int, high_density),
            ticks.len() == timings@.len(),
            mfm::delays(timings@) == mfm::scaled(mfm::interval_cells(bits), cell as int),
            output@ == encoded(ticks.take(i as int)),
        decreases timings@.len() - i,
    {
        let delay = timings[i];
        assert(delay == mfm::delays(timings@)[i as int]);
        let count = to_ticks(delay, frequency);
        proof {
            mfm::lemma_intervals_bounded(bits);
            let cells = mfm::interval_cells(bits)[i as int];
            assert(delay == cells * cell);
            assert(delay <= 475_136_000) by (nonlinear_arith)
                requires
                    delay == cells * cell,
                    0 <= cells <= 237_568,
                    0 <= cell <= 2_000,
            ;
            assert(delay * frequency <= 475_136_000 * 0xffff_ffff) by (nonlinear_arith)
                requires
                    0 <= delay <= 475_136_000,
                    0 <= frequency <= 0xffff_ffff,
            ;
        }
        encode_ticks(count as u32, &mut output);
        assert(ticks[i as int] == count);
        assert(ticks.take(i + 1).drop_last() == ticks.take(i as int));
        assert(ticks.take(i + 1).last() == count);
        i += 1;
    }
    assert(ticks.take(ticks.len() as int) == ticks);
    output.push(0);
    Ok(output)
}

/// Raw intervals below this many nanoseconds are shorter than a double-density
/// track can hold.
///
/// Its shortest legal interval is two cells, four microseconds; three cells of
/// a high-density track are three. What lies between them is told apart in the
/// middle, so that either may be off by some jitter.
pub const SHORT_INTERVAL: u32 = 3_500;

/// Raw intervals from this many nanoseconds on are longer than a high-density
/// track can hold.
///
/// Its longest legal interval is four cells, four microseconds; three cells of
/// a double-density track are six.
pub const LONG_INTERVAL: u32 = 5_000;

/// How many raw intervals are shorter than a double-density track can hold.
pub open spec fn short_intervals(events: Seq<FluxEvent>) -> nat
    decreases events.len(),
{
    if events.len() == 0 {
        0
    } else if events.last().nanoseconds < SHORT_INTERVAL {
        short_intervals(events.drop_last()) + 1
    } else {
        short_intervals(events.drop_last())
    }
}

/// Whether no raw interval is longer than a high-density track can hold.
pub open spec fn fits_high_density(events: Seq<FluxEvent>) -> bool {
    forall|i: int| 0 <= i < events.len() ==> (#[trigger] events[i]).nanoseconds < LONG_INTERVAL
}

/// The density of a capture, by the intervals that only one density can hold.
///
/// A short interval shows high density. Where long ones show double density at
/// the same time, some are noise: a splice or a weak spot of a double-density
/// track leaves a few short intervals among many long ones, so there at least
/// one interval in sixteen has to be short. Flux without a short interval is
/// double density; four-microsecond intervals alone, which both densities can
/// hold, are the two-cell ones of a double-density track. An empty capture says
/// nothing.
pub open spec fn measured(events: Seq<FluxEvent>, previous: bool) -> bool {
    if events.len() == 0 {
        previous
    } else {
        ||| short_intervals(events) > 0 && fits_high_density(events)
        ||| short_intervals(events) * 16 >= events.len()
    }
}

/// Measures the density of raw, unstretched transitions.
pub fn measure_density(events: &[FluxEvent], previous: bool) -> (high_density: bool)
    ensures
        high_density == measured(events@, previous),
{
    if events.len() == 0 {
        return previous;
    }
    let mut short: usize = 0;
    let mut fits = true;
    let mut i: usize = 0;
    assert(events@.take(0) == Seq::<FluxEvent>::empty());
    while i < events.len()
        invariant
            i <= events@.len(),
            short <= i,
            short == short_intervals(events@.take(i as int)),
            fits == (forall|j: int|
                0 <= j < i ==> (#[trigger] events@[j]).nanoseconds < LONG_INTERVAL),
        decreases events@.len() - i,
    {
        assert(events@.take(i + 1).drop_last() == events@.take(i as int));
        assert(events@.take(i + 1).last() == events@[i as int]);
        if events[i].nanoseconds < SHORT_INTERVAL {
            short += 1;
        }
        if events[i].nanoseconds >= LONG_INTERVAL {
            fits = false;
        }
        i += 1;
    }
    assert(events@.take(events@.len() as int) == events@);
    (short > 0 && fits) || short >= events.len() / 16 + (if events.len() % 16 == 0 {
        0usize
    } else {
        1usize
    })
}

} // verus!
