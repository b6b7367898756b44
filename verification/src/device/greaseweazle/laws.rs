//! What holds of every Greaseweazle flux stream.

use vstd::prelude::*;

use super::stream;
use crate::flux::FluxEvent;

verus! {

/// Most ticks one interval can carry on the wire.
pub open spec fn longest_interval() -> int {
    0x1000_00f8
}

/// A number of at most 28 bits is read back as written.
pub proof fn law_28bit_reads_back(value: int)
    requires
        0 <= value < 0x1000_0000,
    ensures
        stream::number28(stream::bytes28(value), 0) == value,
{
    let coded = stream::bytes28(value);
    assert(coded[0] as int / 2 == value % 0x80);
    assert(coded[1] as int / 2 == value / 0x80 % 0x80);
    assert(coded[2] as int / 2 == value / 0x4000 % 0x80);
    assert(coded[3] as int / 2 == value / 0x20_0000 % 0x80);
    assert(value / 0x20_0000 < 0x80);
}

/// The transition that ends an interval.
pub open spec fn transition(ticks: int, frequency: int, high_density: bool) -> FluxEvent {
    FluxEvent {
        nanoseconds: stream::normalized(
            stream::tick_nanoseconds(ticks, frequency),
            high_density,
        ),
        index: false,
    }
}

/// What a stream holds from `at` on, with nothing pending.
#[verifier::opaque]
spec fn rest_of(bytes: Seq<u8>, at: int, frequency: int, high_density: bool) -> stream::Parse {
    stream::parse_from(bytes, at, 0, false, frequency, high_density)
}

/// Whether the element at `at` parses to the transition of `ticks` and the rest
/// of the stream from `next` on.
spec fn interval_stands(
    bytes: Seq<u8>,
    at: int,
    next: int,
    ticks: int,
    frequency: int,
    high_density: bool,
) -> bool {
    let rest = rest_of(bytes, next, frequency, high_density);
    let whole = rest_of(bytes, at, frequency, high_density);
    &&& whole.problem == rest.problem
    &&& whole.events == seq![transition(ticks, frequency, high_density)] + rest.events
}

/// An interval in its long form: empty ticks, then a transition.
proof fn lemma_long_interval(
    bytes: Seq<u8>,
    at: int,
    ticks: int,
    frequency: int,
    high_density: bool,
)
    requires
        0 <= at,
        at + 7 <= bytes.len(),
        249 <= ticks <= longest_interval(),
        frequency > 0,
        stream::tick_nanoseconds(ticks, frequency) <= u32::MAX,
        bytes[at] == 255,
        bytes[at + 1] == 2,
        stream::number28(bytes, at + 2) == ticks - 249,
        bytes[at + 6] == 249,
    ensures
        interval_stands(bytes, at, at + 7, ticks, frequency, high_density),
{
    reveal(rest_of);
    let value = ticks - 249;
    assert(stream::item_at(bytes, at)->Ok_0 == (stream::Item::Space(value), at + 6));
    assert(stream::item_at(bytes, at + 6)->Ok_0 == (stream::Item::Interval(249), at + 7));
    assert(stream::more_ticks(0, value) == value);
    assert(stream::more_ticks(value, 249) == ticks);
    assert(stream::parse_from(bytes, at, 0, false, frequency, high_density) == stream::parse_from(
        bytes,
        at + 6,
        value,
        false,
        frequency,
        high_density,
    ));
}

/// Where an interval stands in a stream does not change how it is parsed.
proof fn lemma_interval_in_place(
    before: Seq<u8>,
    ticks: int,
    after: Seq<u8>,
    frequency: int,
    high_density: bool,
)
    requires
        0 <= ticks <= longest_interval(),
        frequency > 0,
        stream::tick_nanoseconds(ticks, frequency) <= u32::MAX,
    ensures
        interval_stands(
            before + stream::tick_bytes(ticks) + after,
            before.len() as int,
            (before.len() + stream::tick_bytes(ticks).len()) as int,
            ticks,
            frequency,
            high_density,
        ),
{
    let own = stream::tick_bytes(ticks);
    let bytes = before + own + after;
    let at = before.len() as int;
    if ticks < 250 {
        reveal(rest_of);
        assert(bytes[at] == own[0]);
        assert(stream::item_at(bytes, at)->Ok_0 == (stream::Item::Interval(ticks), at + 1));
        assert(stream::more_ticks(0, ticks) == ticks);
    } else if (ticks - 250) / 255 < 5 {
        reveal(rest_of);
        assert(bytes[at] == own[0]);
        assert(bytes[at + 1] == own[1]);
        assert(stream::item_at(bytes, at)->Ok_0 == (stream::Item::Interval(ticks), at + 2));
        assert(stream::more_ticks(0, ticks) == ticks);
    } else {
        let coded = stream::bytes28(ticks - 249);
        assert(own == seq![255u8, 2u8] + coded + seq![249u8]);
        assert(bytes[at] == own[0]);
        assert(bytes[at + 1] == own[1]);
        assert(bytes[at + 2] == coded[0]);
        assert(bytes[at + 3] == coded[1]);
        assert(bytes[at + 4] == coded[2]);
        assert(bytes[at + 5] == coded[3]);
        assert(bytes[at + 6] == own[6]);
        law_28bit_reads_back(ticks - 249);
        lemma_long_interval(bytes, at, ticks, frequency, high_density);
    }
}

/// The transitions of intervals given in ticks.
pub open spec fn transitions(ticks: Seq<int>, frequency: int, high_density: bool) -> Seq<
    FluxEvent,
> {
    ticks.map_values(|count: int| transition(count, frequency, high_density))
}

/// Whether every interval can be written and read back.
pub open spec fn carried(ticks: Seq<int>, frequency: int) -> bool {
    forall|i: int|
        0 <= i < ticks.len() ==> 0 <= #[trigger] ticks[i] <= longest_interval()
            && stream::tick_nanoseconds(ticks[i], frequency) <= u32::MAX
}

/// Parsing the encoding of `ticks` followed by `after` gives their transitions
/// and then those of `after`.
#[verifier::spinoff_prover]
proof fn lemma_encoding_parses(ticks: Seq<int>, after: Seq<u8>, frequency: int, high_density: bool)
    requires
        frequency > 0,
        carried(ticks, frequency),
    ensures
        ({
            let head = stream::encoded(ticks);
            let rest = rest_of(head + after, head.len() as int, frequency, high_density);
            let whole = rest_of(head + after, 0, frequency, high_density);
            &&& whole.problem == rest.problem
            &&& whole.events == transitions(ticks, frequency, high_density) + rest.events
        }),
    decreases ticks.len(),
{
    if ticks.len() == 0 {
        let rest = rest_of(after, 0, frequency, high_density);
        assert(stream::encoded(ticks) + after == after);
        assert(transitions(ticks, frequency, high_density) + rest.events == rest.events);
    } else {
        let shorter = ticks.drop_last();
        let last = ticks.last();
        let own = stream::tick_bytes(last);
        let before = stream::encoded(shorter);
        assert(last == ticks[ticks.len() - 1]);
        assert(carried(shorter, frequency)) by {
            assert forall|i: int| 0 <= i < shorter.len() implies 0 <= #[trigger] shorter[i]
                <= longest_interval() && stream::tick_nanoseconds(shorter[i], frequency)
                <= u32::MAX by {
                assert(shorter[i] == ticks[i]);
            }
        }
        lemma_encoding_parses(shorter, own + after, frequency, high_density);
        let bytes = before + own + after;
        assert(before + (own + after) == bytes);
        assert(stream::encoded(ticks) + after == bytes);
        lemma_interval_in_place(before, last, after, frequency, high_density);
        let early = transitions(shorter, frequency, high_density);
        let event = transition(last, frequency, high_density);
        assert(transitions(ticks, frequency, high_density) == early.push(event));
        let rest = rest_of(
            bytes,
            (before.len() + own.len()) as int,
            frequency,
            high_density,
        );
        assert(early + (seq![event] + rest.events) == early.push(event) + rest.events);
    }
}

/// A written flux stream is read back as the same intervals: decoding the
/// encoding of any run of intervals gives one transition for each, in order,
/// and no problem.
pub proof fn law_encoded_stream_decodes(ticks: Seq<int>, frequency: u32, high_density: bool)
    requires
        frequency > 0,
        carried(ticks, frequency as int),
    ensures
        stream::parsed(stream::encoded(ticks), frequency, high_density).problem is None,
        stream::parsed(stream::encoded(ticks), frequency, high_density).events == transitions(
            ticks,
            frequency as int,
            high_density,
        ),
{
    reveal(rest_of);
    lemma_encoding_parses(ticks, Seq::empty(), frequency as int, high_density);
    assert(stream::encoded(ticks) + Seq::<u8>::empty() == stream::encoded(ticks));
    assert(transitions(ticks, frequency as int, high_density) + Seq::<FluxEvent>::empty()
        == transitions(ticks, frequency as int, high_density));
}

/// Only the end marker of a flux stream is a zero byte: the encoding of
/// intervals of at least one tick holds none.
pub proof fn law_intervals_hold_no_end_marker(ticks: Seq<int>)
    requires
        forall|i: int| 0 <= i < ticks.len() ==> 1 <= #[trigger] ticks[i] <= u32::MAX,
    ensures
        forall|i: int|
            0 <= i < stream::encoded(ticks).len() ==> #[trigger] stream::encoded(ticks)[i] != 0,
    decreases ticks.len(),
{
    if ticks.len() > 0 {
        let shorter = ticks.drop_last();
        let last = ticks[ticks.len() - 1];
        assert forall|i: int| 0 <= i < shorter.len() implies 1 <= #[trigger] shorter[i]
            <= u32::MAX by {
            assert(shorter[i] == ticks[i]);
        }
        law_intervals_hold_no_end_marker(shorter);
        let own = stream::tick_bytes(last);
        assert forall|i: int| 0 <= i < own.len() implies #[trigger] own[i] != 0 by {
            if last >= 250 && (last - 250) / 255 >= 5 {
                assert(own == seq![255u8, 2u8] + stream::bytes28(last - 249) + seq![249u8]);
            }
        }
        assert forall|i: int| 0 <= i < stream::encoded(ticks).len() implies #[trigger] stream::encoded(
            ticks,
        )[i] != 0 by {
            if i < stream::encoded(shorter).len() {
                assert(stream::encoded(ticks)[i] == stream::encoded(shorter)[i]);
            } else {
                assert(stream::encoded(ticks)[i] == own[i - stream::encoded(shorter).len()]);
            }
        }
    }
}

/// A delay of a whole number of ticks survives the sample clock unchanged.
pub proof fn law_whole_ticks_keep_their_delay(nanoseconds: int, frequency: int)
    requires
        nanoseconds > 0,
        frequency > 0,
        (nanoseconds * frequency) % 1_000_000_000 == 0,
    ensures
        stream::tick_nanoseconds(
            stream::delay_ticks(nanoseconds, frequency),
            frequency,
        ) == nanoseconds,
{
    let product = nanoseconds * frequency;
    let ticks = product / 1_000_000_000;
    assert(product > 0) by (nonlinear_arith)
        requires
            nanoseconds > 0,
            frequency > 0,
            product == nanoseconds * frequency,
    ;
    assert(product == ticks * 1_000_000_000);
    assert((product + 500_000_000) / 1_000_000_000 == ticks);
    assert(stream::delay_ticks(nanoseconds, frequency) == ticks);
    vstd::arithmetic::div_mod::lemma_fundamental_div_mod_converse(
        product + frequency / 2,
        frequency,
        nanoseconds,
        frequency / 2,
    );
}

} // verus!
