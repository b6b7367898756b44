//! What the bytes of a Greaseweazle flux stream mean in time.

use vstd::prelude::*;

use super::{laws, stream};
use crate::flux::{self, mfm, rotation, FluxEvent};

verus! {

/// Whether a time in nanoseconds is that of some ticks, to the nearest.
pub open spec fn lasts(nanoseconds: int, ticks: int, frequency: int) -> bool {
    -frequency < 2 * (nanoseconds * frequency - ticks * 1_000_000_000) <= frequency
}

proof fn lemma_lasts(ticks: int, frequency: int)
    requires
        frequency > 0,
        ticks >= 0,
    ensures
        lasts(stream::tick_nanoseconds(ticks, frequency), ticks, frequency),
        stream::tick_nanoseconds(ticks, frequency) >= 0,
{
    let shifted = ticks * 1_000_000_000 + frequency / 2;
    vstd::arithmetic::div_mod::lemma_fundamental_div_mod(shifted, frequency);
    vstd::arithmetic::div_mod::lemma_mod_bound(shifted, frequency);
    vstd::arithmetic::div_mod::lemma_div_pos_is_pos(shifted, frequency);
    let nanoseconds = shifted / frequency;
    assert(frequency * nanoseconds == nanoseconds * frequency) by (nonlinear_arith);
}

proof fn lemma_stretched(
    bytes: Seq<u8>,
    at: int,
    ticks: int,
    index: bool,
    frequency: int,
)
    requires
        0 <= at,
        ticks >= 0,
        frequency > 0,
    ensures
        ({
            let double = stream::parse_from(bytes, at, ticks, index, frequency, false);
            let high = stream::parse_from(bytes, at, ticks, index, frequency, true);
            &&& high.problem == double.problem
            &&& stretched(double.events, high.events)
        }),
    decreases bytes.len() - at,
{
    if at < bytes.len() {
        match stream::item_at(bytes, at) {
            Err(_) => {},
            Ok((stream::Item::Index, next)) => {
                lemma_stretched(bytes, next, ticks, true, frequency);
            },
            Ok((stream::Item::Space(more), next)) => {
                lemma_stretched(bytes, next, stream::more_ticks(ticks, more), index, frequency);
            },
            Ok((stream::Item::Astable, next)) => {
                lemma_stretched(bytes, next, ticks, index, frequency);
            },
            Ok((stream::Item::Interval(more), next)) => {
                lemma_stretched(bytes, next, 0, false, frequency);
                lemma_lasts(stream::more_ticks(ticks, more), frequency);
            },
        }
    }
}

/// Whether the second transitions are the first ones at half the speed: each
/// after twice the time, kept to 32 bits, and index pulses at the same ones.
pub open spec fn stretched(double: Seq<FluxEvent>, high: Seq<FluxEvent>) -> bool {
    &&& high.len() == double.len()
    &&& forall|i: int|
        0 <= i < double.len() ==> {
            let twice = double[i].nanoseconds + double[i].nanoseconds;
            &&& (#[trigger] high[i]).index == double[i].index
            &&& twice <= 0xffff_ffff ==> high[i].nanoseconds == twice
            &&& twice > 0xffff_ffff ==> high[i].nanoseconds == 0xffff_ffff
        }
}

/// A stream read as high density gives the transitions that the same bytes give
/// as double density, each after twice the time: a high-density cell becomes as
/// long as a double-density one.
pub proof fn law_high_density_takes_twice_the_time(bytes: Seq<u8>, frequency: u32)
    requires
        frequency > 0,
    ensures
        stream::parsed(bytes, frequency, true).problem == stream::parsed(
            bytes,
            frequency,
            false,
        ).problem,
        stretched(
            stream::parsed(bytes, frequency, false).events,
            stream::parsed(bytes, frequency, true).events,
        ),
{
    lemma_stretched(bytes, 0, 0, false, frequency as int);
}

proof fn lemma_item_moves(head: Seq<u8>, bytes: Seq<u8>, at: int)
    requires
        0 <= at < bytes.len(),
    ensures
        match stream::item_at(bytes, at) {
            Ok((item, next)) => next > at && stream::item_at(head + bytes, head.len() + at) == Ok::<
                (stream::Item, int),
                crate::error::ErrorView,
            >((item, head.len() + next)),
            Err(problem) => stream::item_at(head + bytes, head.len() + at) == Err::<
                (stream::Item, int),
                crate::error::ErrorView,
            >(problem),
        },
{
    let whole = head + bytes;
    let moved = head.len() + at;
    assert(whole.len() - moved == bytes.len() - at);
    assert forall|i: int| at <= i < bytes.len() implies #[trigger] bytes[i] == whole[head.len()
        + i] by {}
}

/// What follows some bytes of a stream is parsed as if it stood alone.
proof fn lemma_parse_moves(
    head: Seq<u8>,
    bytes: Seq<u8>,
    at: int,
    ticks: int,
    index: bool,
    frequency: int,
    high_density: bool,
)
    requires
        0 <= at,
    ensures
        stream::parse_from(head + bytes, head.len() + at, ticks, index, frequency, high_density)
            == stream::parse_from(bytes, at, ticks, index, frequency, high_density),
    decreases bytes.len() - at,
{
    if at < bytes.len() {
        lemma_item_moves(head, bytes, at);
        match stream::item_at(bytes, at) {
            Err(_) => {},
            Ok((stream::Item::Index, next)) => {
                lemma_parse_moves(head, bytes, next, ticks, true, frequency, high_density);
            },
            Ok((stream::Item::Space(more), next)) => {
                lemma_parse_moves(
                    head,
                    bytes,
                    next,
                    stream::more_ticks(ticks, more),
                    index,
                    frequency,
                    high_density,
                );
            },
            Ok((stream::Item::Astable, next)) => {
                lemma_parse_moves(head, bytes, next, ticks, index, frequency, high_density);
            },
            Ok((stream::Item::Interval(more), next)) => {
                lemma_parse_moves(head, bytes, next, 0, false, frequency, high_density);
            },
        }
    }
}

/// Whether a stream is an interval of some ticks and then the rest.
pub open spec fn begins_with(bytes: Seq<u8>, ticks: int, rest: Seq<u8>, frequency: u32) -> bool {
    let whole = stream::parsed(bytes, frequency, false);
    let later = stream::parsed(rest, frequency, false);
    &&& whole.problem == later.problem
    &&& whole.events.len() == later.events.len() + 1
    &&& whole.events.skip(1) == later.events
    &&& !whole.events[0].index
    &&& lasts(whole.events[0].nanoseconds as int, ticks, frequency as int)
}

proof fn lemma_begins(head: Seq<u8>, ticks: int, rest: Seq<u8>, frequency: u32)
    requires
        frequency > 0,
        0 <= ticks <= u32::MAX,
        stream::tick_nanoseconds(ticks, frequency as int) <= u32::MAX,
        ({
            let later = stream::parse_from(
                head + rest,
                head.len() as int,
                0,
                false,
                frequency as int,
                false,
            );
            let whole = stream::parsed(head + rest, frequency, false);
            &&& whole.problem == later.problem
            &&& whole.events == seq![laws::transition(ticks, frequency as int, false)]
                + later.events
        }),
    ensures
        begins_with(head + rest, ticks, rest, frequency),
{
    lemma_lasts(ticks, frequency as int);
    lemma_parse_moves(head, rest, 0, 0, false, frequency as int, false);
    let whole = stream::parsed(head + rest, frequency, false);
    let later = stream::parsed(rest, frequency, false);
    assert(whole.events.skip(1) == later.events);
}

/// A byte under 250 is an interval of that many ticks.
pub proof fn law_byte_is_its_ticks(byte: u8, rest: Seq<u8>, frequency: u32)
    requires
        frequency > 0,
        byte < 250,
        byte * 1_000_000_000 <= 0xffff_0000 * frequency,
    ensures
        begins_with(seq![byte] + rest, byte as int, rest, frequency),
{
    let bytes = seq![byte] + rest;
    assert(bytes[0] == byte);
    assert(stream::item_at(bytes, 0)->Ok_0 == (stream::Item::Interval(byte as int), 1int));
    assert(stream::more_ticks(0, byte as int) == byte as int);
    lemma_fits(byte as int, frequency as int);
    lemma_begins(seq![byte], byte as int, rest, frequency);
}

proof fn lemma_fits(ticks: int, frequency: int)
    requires
        frequency > 0,
        0 <= ticks,
        ticks * 1_000_000_000 <= 0xffff_0000 * frequency,
    ensures
        stream::tick_nanoseconds(ticks, frequency) <= u32::MAX,
{
    lemma_lasts(ticks, frequency);
    let nanoseconds = stream::tick_nanoseconds(ticks, frequency);
    assert(nanoseconds <= 0xffff_ffff) by (nonlinear_arith)
        requires
            frequency > 0,
            2 * (nanoseconds * frequency - ticks * 1_000_000_000) <= frequency,
            ticks * 1_000_000_000 <= 0xffff_0000 * frequency,
    ;
}

/// A byte from 250 to 254 begins an interval of two bytes: 250 ticks, 255 more
/// for each step of the first byte, and one less than the second.
pub proof fn law_two_bytes_are_their_ticks(first: u8, second: u8, rest: Seq<u8>, frequency: u32)
    requires
        frequency >= 1_000_000,
        250 <= first <= 254,
        1 <= second,
    ensures
        begins_with(
            seq![first, second] + rest,
            249 + (first - 250) * 255 + second,
            rest,
            frequency,
        ),
{
    let bytes = seq![first, second] + rest;
    let ticks = 249 + (first - 250) * 255 + second;
    assert(bytes[0] == first);
    assert(bytes[1] == second);
    assert(stream::item_at(bytes, 0)->Ok_0 == (stream::Item::Interval(ticks), 2int));
    assert(stream::more_ticks(0, ticks) == ticks);
    lemma_fits(ticks, frequency as int);
    lemma_begins(seq![first, second], ticks, rest, frequency);
}

/// The bytes 255 and 2 begin a pause: the number in the upper seven bits of each
/// of the four bytes that follow, the first counting least, is added to the next
/// interval.
pub proof fn law_pause_lengthens_interval(
    a: u8,
    b: u8,
    c: u8,
    d: u8,
    byte: u8,
    rest: Seq<u8>,
    frequency: u32,
)
    requires
        frequency > 0,
        byte < 250,
        (a as int / 2 + b as int / 2 * 128 + c as int / 2 * 16_384 + d as int / 2 * 2_097_152 + byte)
            * 1_000_000_000 <= 0xffff_0000 * frequency,
    ensures
        begins_with(
            seq![255u8, 2u8, a, b, c, d, byte] + rest,
            a as int / 2 + b as int / 2 * 128 + c as int / 2 * 16_384 + d as int / 2 * 2_097_152
                + byte,
            rest,
            frequency,
        ),
{
    let head = seq![255u8, 2u8, a, b, c, d, byte];
    let bytes = head + rest;
    let pause = a as int / 2 + b as int / 2 * 128 + c as int / 2 * 16_384 + d as int / 2 * 2_097_152;
    assert(bytes[0] == 255 && bytes[1] == 2 && bytes[2] == a && bytes[3] == b && bytes[4] == c
        && bytes[5] == d && bytes[6] == byte);
    assert(stream::item_at(bytes, 0)->Ok_0 == (stream::Item::Space(pause), 6int));
    assert(stream::item_at(bytes, 6)->Ok_0 == (stream::Item::Interval(byte as int), 7int));
    assert(stream::more_ticks(0, pause) == pause);
    assert(stream::more_ticks(pause, byte as int) == pause + byte);
    assert(stream::parsed(bytes, frequency, false) == stream::parse_from(
        bytes,
        6,
        pause,
        false,
        frequency as int,
        false,
    ));
    lemma_fits(pause + byte, frequency as int);
    lemma_begins(head, pause + byte, rest, frequency);
}

/// A pending index pulse marks the next transition and no other.
proof fn lemma_pulse_marks(
    bytes: Seq<u8>,
    at: int,
    ticks: int,
    frequency: int,
    high_density: bool,
)
    requires
        0 <= at,
    ensures
        ({
            let plain = stream::parse_from(bytes, at, ticks, false, frequency, high_density);
            let pulsed = stream::parse_from(bytes, at, ticks, true, frequency, high_density);
            &&& pulsed.problem == plain.problem
            &&& pulsed.events.len() == plain.events.len()
            &&& pulsed.events.len() > 0 ==> pulsed.events[0].index && pulsed.events[0].nanoseconds
                == plain.events[0].nanoseconds
            &&& forall|i: int|
                0 < i < pulsed.events.len() ==> #[trigger] pulsed.events[i] == plain.events[i]
        }),
    decreases bytes.len() - at,
{
    if at < bytes.len() {
        match stream::item_at(bytes, at) {
            Err(_) => {},
            Ok((stream::Item::Index, next)) => {
                lemma_pulse_marks(bytes, next, ticks, frequency, high_density);
            },
            Ok((stream::Item::Space(more), next)) => {
                lemma_pulse_marks(
                    bytes,
                    next,
                    stream::more_ticks(ticks, more),
                    frequency,
                    high_density,
                );
            },
            Ok((stream::Item::Astable, next)) => {
                lemma_pulse_marks(bytes, next, ticks, frequency, high_density);
            },
            Ok((stream::Item::Interval(_), _)) => {},
        }
    }
}

/// The bytes 255 and 1, and four that are skipped, are an index pulse: it marks
/// the first transition after it, and changes nothing else.
pub proof fn law_pulse_marks_next_transition(
    skipped: Seq<u8>,
    rest: Seq<u8>,
    frequency: u32,
    high_density: bool,
)
    requires
        frequency > 0,
        skipped.len() == 4,
    ensures
        ({
            let plain = stream::parsed(rest, frequency, high_density);
            let pulsed = stream::parsed(
                seq![255u8, 1u8] + skipped + rest,
                frequency,
                high_density,
            );
            &&& pulsed.problem == plain.problem
            &&& pulsed.events.len() == plain.events.len()
            &&& pulsed.events.len() > 0 ==> pulsed.events[0].index && pulsed.events[0].nanoseconds
                == plain.events[0].nanoseconds
            &&& forall|i: int|
                0 < i < pulsed.events.len() ==> #[trigger] pulsed.events[i] == plain.events[i]
        }),
{
    let head = seq![255u8, 1u8] + skipped;
    let bytes = head + rest;
    assert(bytes[0] == 255 && bytes[1] == 1);
    assert(stream::item_at(bytes, 0)->Ok_0 == (stream::Item::Index, 6int));
    lemma_parse_moves(head, rest, 0, 0, true, frequency as int, high_density);
    lemma_pulse_marks(rest, 0, 0, frequency as int, high_density);
}

/// An interval of a track is written as the ticks of its cells: a microsecond a
/// cell at high density, two at double density.
pub proof fn law_interval_lasts_its_cells(
    bits: Seq<bool>,
    frequency: u32,
    high_density: bool,
    at: int,
)
    requires
        frequency > 0,
        frequency % 1_000_000 == 0,
        0 <= at < mfm::interval_cells(bits).len(),
    ensures
        ({
            let cells = mfm::interval_cells(bits)[at];
            let microseconds = if high_density {
                1int
            } else {
                2int
            };
            stream::track_ticks(bits, frequency as int, high_density)[at] == cells * microseconds * (
            frequency / 1_000_000)
        }),
{
    let cells = mfm::interval_cells(bits)[at] as int;
    let megahertz = frequency as int / 1_000_000;
    let microseconds = if high_density {
        1int
    } else {
        2int
    };
    flux::laws::lemma_intervals_rebuild(bits);
    let ticks = cells * microseconds * megahertz;
    assert(cells * (microseconds * 1_000) * (megahertz * 1_000_000) == ticks * 1_000_000_000)
        by (nonlinear_arith)
        requires
            ticks == cells * microseconds * megahertz,
    ;
    assert(ticks >= 1) by (nonlinear_arith)
        requires
            ticks == cells * microseconds * megahertz,
            cells >= 1,
            microseconds >= 1,
            megahertz >= 1,
    ;
    assert(frequency == megahertz * 1_000_000);
    assert(mfm::scaled(
        mfm::interval_cells(bits),
        stream::cell_nanoseconds(high_density),
    )[at] == cells * (microseconds * 1_000));
}

/// A track written to a Greaseweazle and read back, at either density, decodes
/// to the cells written; the last one reads back as a transition even where it
/// was written empty. The end marker is the only zero byte.
pub proof fn law_written_track_reads_back(bits: Seq<bool>, frequency: u32, high_density: bool)
    requires
        0 < bits.len() <= 237_568,
        0 < frequency <= 500_000_000,
        frequency % 1_000_000 == 0,
    ensures
        ({
            let written = stream::track_bytes(bits, frequency as int, high_density);
            let read = stream::parsed(written.drop_last(), frequency, high_density);
            &&& written.last() == 0
            &&& forall|i: int| 0 <= i < written.len() - 1 ==> #[trigger] written[i] != 0
            &&& read.problem is None
            &&& rotation::revolution_bits(read.events) == bits.update(bits.len() - 1, true)
        }),
{
    let f = frequency as int;
    let ticks = stream::track_ticks(bits, f, high_density);
    let counts = mfm::interval_cells(bits);
    let events = laws::transitions(ticks, f, high_density);
    let microseconds = if high_density {
        1int
    } else {
        2int
    };
    flux::laws::lemma_intervals_rebuild(bits);
    mfm::lemma_intervals_bounded(bits);
    assert forall|i: int| 0 <= i < ticks.len() implies 1 <= #[trigger] ticks[i]
        <= laws::longest_interval() && stream::tick_nanoseconds(ticks[i], f) == counts[i]
        * microseconds * 1_000 by {
        law_interval_lasts_its_cells(bits, frequency, high_density, i);
        let cells = counts[i] as int;
        let megahertz = f / 1_000_000;
        lemma_ticks_of_cells(cells, microseconds, megahertz);
    }
    assert(laws::carried(ticks, f));
    laws::law_encoded_stream_decodes(ticks, frequency, high_density);
    laws::law_intervals_hold_no_end_marker(ticks);
    let written = stream::track_bytes(bits, f, high_density);
    assert(written.drop_last() == stream::encoded(ticks));
    assert forall|i: int| 0 <= i < written.len() - 1 implies #[trigger] written[i] != 0 by {
        assert(written[i] == stream::encoded(ticks)[i]);
    }
    assert forall|i: int| 0 <= i < events.len() implies (#[trigger] events[i]).nanoseconds == 2_000
        * counts[i] && !events[i].index by {
        assert(stream::tick_nanoseconds(ticks[i], f) == counts[i] * microseconds * 1_000);
    }
    flux::laws::law_exact_flux_reads_back(bits, events);
}

proof fn lemma_ticks_of_cells(cells: int, microseconds: int, megahertz: int)
    requires
        1 <= cells <= 237_568,
        1 <= microseconds <= 2,
        1 <= megahertz <= 500,
    ensures
        1 <= cells * microseconds * megahertz <= laws::longest_interval(),
        stream::tick_nanoseconds(cells * microseconds * megahertz, megahertz * 1_000_000) == cells
            * microseconds * 1_000,
{
    let ticks = cells * microseconds * megahertz;
    let nanoseconds = cells * microseconds * 1_000;
    let frequency = megahertz * 1_000_000;
    assert(1 <= ticks <= 237_568 * 2 * 500) by (nonlinear_arith)
        requires
            ticks == cells * microseconds * megahertz,
            1 <= cells <= 237_568,
            1 <= microseconds <= 2,
            1 <= megahertz <= 500,
    ;
    assert(ticks * 1_000_000_000 == nanoseconds * frequency) by (nonlinear_arith)
        requires
            ticks == cells * microseconds * megahertz,
            nanoseconds == cells * microseconds * 1_000,
            frequency == megahertz * 1_000_000,
    ;
    vstd::arithmetic::div_mod::lemma_fundamental_div_mod_converse(
        nanoseconds * frequency + frequency / 2,
        frequency,
        nanoseconds,
        frequency / 2,
    );
}

} // verus!
