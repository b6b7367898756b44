//! Revolution extraction and MFM/flux conversion.

use vstd::prelude::*;

use super::packed;
use super::packed::{bit_at, bits_fit, pack_bits};
use super::pll::{FluxEvent, PllDecoder, PllState};
use crate::error::{Error, ErrorView, Result};

verus! {

/// Maximum bounded MFM track length accepted by the crate.
pub const MAX_TRACK_BITS: usize = 0x3a00 * 2 * 8;

/// Fewest cells that can be a revolution.
pub const MIN_REVOLUTION_BITS: usize = 64;

/// `bits` read as a ring from `start` on.
pub open spec fn rotated(bits: Seq<bool>, start: int) -> Seq<bool> {
    Seq::new(bits.len(), |i: int| bits[(start + i) % (bits.len() as int)])
}

/// Rotates a packed revolution left by `start_bit`.
pub fn rotate_revolution(words: &[u16], bit_len: usize, start_bit: usize) -> (result: Result<
    Vec<u16>,
>)
    ensures
        match result {
            Ok(turned) => {
                &&& bit_len > 0
                &&& packed::fits(words@, bit_len as int)
                &&& packed::packs(
                    turned@,
                    rotated(packed::unpacked(words@, bit_len as int), start_bit as int),
                )
            },
            Err(error) => {
                &&& bit_len == 0 || !packed::fits(words@, bit_len as int)
                &&& error@ == ErrorView::Protocol("invalid packed revolution length"@)
            },
        },
{
    if bit_len == 0 || !bits_fit(words.len(), bit_len) {
        return Err(Error::Protocol("invalid packed revolution length".to_owned()));
    }
    let ghost ring = packed::unpacked(words@, bit_len as int);
    let mut position: usize = start_bit % bit_len;
    let mut bits: Vec<bool> = Vec::new();
    while bits.len() < bit_len
        invariant
            0 <= position < bit_len,
            bits@.len() <= bit_len,
            packed::fits(words@, bit_len as int),
            ring == packed::unpacked(words@, bit_len as int),
            position == (start_bit + bits@.len()) % (bit_len as int),
            bits@ == rotated(ring, start_bit as int).take(bits@.len() as int),
        decreases bit_len - bits@.len(),
    {
        bits.push(bit_at(words, position));
        assert(bits@ == rotated(ring, start_bit as int).take(bits@.len() as int));
        proof {
            lemma_step_around((start_bit + bits@.len() - 1) as int, bit_len as int);
        }
        position = if position + 1 == bit_len {
            0
        } else {
            position + 1
        };
    }
    assert(bits@ == rotated(ring, start_bit as int));
    Ok(pack_bits(&bits))
}

/// One step along a ring of `len` cells.
pub proof fn lemma_step_around(value: int, len: int)
    requires
        len > 0,
    ensures
        (value + 1) % len == if value % len + 1 == len {
            0
        } else {
            value % len + 1
        },
{
    vstd::arithmetic::div_mod::lemma_fundamental_div_mod(value, len);
    let q = value / len;
    let r = value % len;
    if r + 1 == len {
        assert(value + 1 == (q + 1) * len) by (nonlinear_arith)
            requires
                value == len * q + r,
                r + 1 == len,
        ;
        vstd::arithmetic::div_mod::lemma_fundamental_div_mod_converse(value + 1, len, q + 1, 0);
    } else {
        assert(value + 1 == q * len + (r + 1)) by (nonlinear_arith)
            requires
                value == len * q + r,
        ;
        vstd::arithmetic::div_mod::lemma_fundamental_div_mod_converse(value + 1, len, q, r + 1);
    }
}

/// PLL state after decoding `events` from `state`.
pub open spec fn pll_after(state: PllState, events: Seq<FluxEvent>) -> PllState
    decreases events.len(),
{
    if events.len() == 0 {
        state
    } else {
        pll_after(state, events.drop_last()).after(events.last().nanoseconds as int)
    }
}

/// Cells decoded for `events` by a PLL starting in `state`.
pub open spec fn decoded(state: PllState, events: Seq<FluxEvent>) -> Seq<bool>
    decreases events.len(),
{
    if events.len() == 0 {
        Seq::empty()
    } else {
        decoded(state, events.drop_last()) + pll_after(state, events.drop_last()).cells(
            events.last().nanoseconds as int,
        )
    }
}

/// Cells decoded by the first event that takes a capture past the track limit,
/// if any does.
pub open spec fn oversize(state: PllState, events: Seq<FluxEvent>) -> Option<int>
    decreases events.len(),
{
    if events.len() == 0 {
        None
    } else if oversize(state, events.drop_last()) is Some {
        oversize(state, events.drop_last())
    } else if decoded(state, events).len() > MAX_TRACK_BITS {
        Some(decoded(state, events).len() as int)
    } else {
        None
    }
}

/// Position of the first index pulse at or after `from`, or the event count.
pub open spec fn next_index(events: Seq<FluxEvent>, from: int) -> int
    decreases events.len() - from,
{
    if from >= events.len() {
        events.len() as int
    } else if events[from].index {
        from
    } else {
        next_index(events, from + 1)
    }
}

/// Whether the stream holds an index pulse.
pub open spec fn has_index(events: Seq<FluxEvent>) -> bool {
    next_index(events, 0) < events.len()
}

/// First event of the captured revolution: the first index pulse, or the first
/// event of a stream without one.
pub open spec fn revolution_start(events: Seq<FluxEvent>) -> int {
    if has_index(events) {
        next_index(events, 0)
    } else {
        0
    }
}

/// End of the captured revolution: the second index pulse, or the end of the
/// stream.
pub open spec fn revolution_end(events: Seq<FluxEvent>) -> int {
    if has_index(events) {
        next_index(events, next_index(events, 0) + 1)
    } else {
        events.len() as int
    }
}

/// The events of the captured revolution.
pub open spec fn revolution_events(events: Seq<FluxEvent>) -> Seq<FluxEvent> {
    events.subrange(revolution_start(events), revolution_end(events))
}

/// PLL state at the start of the captured revolution.
pub open spec fn warm_state(events: Seq<FluxEvent>) -> PllState {
    pll_after(PllState::centred(), events.take(revolution_start(events)))
}

/// Cells of the captured revolution.
pub open spec fn revolution_bits(events: Seq<FluxEvent>) -> Seq<bool> {
    decoded(warm_state(events), revolution_events(events))
}

/// [`next_index`] stays in range and finds the nearest pulse.
pub proof fn lemma_next_index(events: Seq<FluxEvent>, from: int)
    requires
        0 <= from <= events.len(),
    ensures
        from <= next_index(events, from) <= events.len(),
        next_index(events, from) < events.len() ==> events[next_index(events, from)].index,
        forall|i: int| from <= i < next_index(events, from) ==> !(#[trigger] events[i]).index,
    decreases events.len() - from,
{
    if from < events.len() && !events[from].index {
        lemma_next_index(events, from + 1);
    }
}

/// Finds the first index pulse at or after `from`.
fn find_index(events: &[FluxEvent], from: usize) -> (position: usize)
    requires
        from <= events@.len(),
    ensures
        position == next_index(events@, from as int),
        from <= position <= events@.len(),
{
    let mut position: usize = from;
    while position < events.len() && !events[position].index
        invariant
            from <= position <= events@.len(),
            next_index(events@, from as int) == next_index(events@, position as int),
        decreases events@.len() - position,
    {
        position += 1;
    }
    position
}

/// Decodes `events[from..to]`, appending to an empty `bits`, within the track
/// limit.
pub(crate) fn decode_bounded(
    pll: &mut PllDecoder,
    events: &[FluxEvent],
    from: usize,
    to: usize,
) -> (result: Result<Vec<bool>>)
    requires
        from <= to <= events@.len(),
        old(pll)@.wf(),
    ensures
        match oversize(old(pll)@, events@.subrange(from as int, to as int)) {
            Some(bits) => result matches Err(error) && error@ == (ErrorView::TrackTooLarge {
                bits,
                limit: MAX_TRACK_BITS as int,
            }),
            None => result matches Ok(bits) && bits@ == decoded(
                old(pll)@,
                events@.subrange(from as int, to as int),
            ),
        },
{
    let ghost start = pll@;
    let ghost part = events@.subrange(from as int, to as int);
    let mut bits: Vec<bool> = Vec::new();
    let mut position: usize = from;
    assert(part.take(0) == Seq::<FluxEvent>::empty());
    while position < to
        invariant
            from <= position <= to <= events@.len(),
            start == old(pll)@,
            part == events@.subrange(from as int, to as int),
            pll@.wf(),
            pll@ == pll_after(start, part.take(position - from)),
            bits@ == decoded(start, part.take(position - from)),
            oversize(start, part.take(position - from)) is None,
        decreases to - position,
    {
        let ghost before = part.take(position - from);
        pll.submit(events[position].nanoseconds, &mut bits);
        position += 1;
        assert(part.take(position - from).drop_last() == before);
        assert(part.take(position - from).last() == events@[position - 1]);
        if bits.len() > MAX_TRACK_BITS {
            proof {
                lemma_oversize_persists(start, part, position - from);
            }
            return Err(Error::TrackTooLarge { bits: bits.len(), limit: MAX_TRACK_BITS });
        }
    }
    assert(part.take(to - from) == part);
    Ok(bits)
}

/// A prefix that is too large decides the whole stream.
proof fn lemma_oversize_persists(state: PllState, events: Seq<FluxEvent>, prefix: int)
    requires
        0 <= prefix <= events.len(),
        oversize(state, events.take(prefix)) is Some,
    ensures
        oversize(state, events) == oversize(state, events.take(prefix)),
    decreases events.len(),
{
    if prefix == events.len() {
        assert(events.take(prefix) == events);
    } else {
        assert(events.drop_last().take(prefix) == events.take(prefix));
        lemma_oversize_persists(state, events.drop_last(), prefix);
    }
}

/// Decodes flux events between two index pulses into one packed revolution.
///
/// Events before the first index establish PLL phase but are not returned.
/// If the stream contains no index pulse, all decoded events form the result;
/// callers must then treat the capture as unverified.
pub fn flux_to_revolution(events: &[FluxEvent]) -> (result: Result<(Vec<u16>, usize, bool)>)
    ensures
        match oversize(warm_state(events@), revolution_events(events@)) {
            Some(bits) => result matches Err(error) && error@ == (ErrorView::TrackTooLarge {
                bits,
                limit: MAX_TRACK_BITS as int,
            }),
            None => if revolution_bits(events@).len() < MIN_REVOLUTION_BITS {
                result matches Err(error) && error@ == ErrorView::Protocol(
                    "flux stream did not contain a complete revolution"@,
                )
            } else {
                &&& result matches Ok((words, bit_len, indexed))
                &&& packed::packs(words@, revolution_bits(events@))
                &&& bit_len == revolution_bits(events@).len()
                &&& indexed == has_index(events@)
            },
        },
{
    let first = find_index(events, 0);
    let indexed = first < events.len();
    let (start, end) = if indexed {
        (first, find_index(events, first + 1))
    } else {
        (0, events.len())
    };
    let mut pll = PllDecoder::new();
    let mut position: usize = 0;
    assert(events@.take(0) == Seq::<FluxEvent>::empty());
    while position < start
        invariant
            position <= start <= events@.len(),
            pll@.wf(),
            pll@ == pll_after(PllState::centred(), events@.take(position as int)),
        decreases start - position,
    {
        let mut warmup: Vec<bool> = Vec::new();
        pll.submit(events[position].nanoseconds, &mut warmup);
        position += 1;
        assert(events@.take(position as int).drop_last() == events@.take(position - 1));
    }
    let bits = match decode_bounded(&mut pll, events, start, end) {
        Ok(bits) => bits,
        Err(error) => return Err(error),
    };
    if bits.len() < MIN_REVOLUTION_BITS {
        return Err(
            Error::Protocol("flux stream did not contain a complete revolution".to_owned()),
        );
    }
    Ok((pack_bits(&bits), bits.len(), indexed))
}

} // verus!
