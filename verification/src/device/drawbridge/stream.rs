//! DrawBridge track streams.

use vstd::prelude::*;

use crate::device::MAX_STREAM_BYTES;
use crate::error::{Error, ErrorView, Result};
use crate::flux::packed::{bit_at, bits_fit};
use crate::flux::{mfm, packed};

verus! {

/// The cells a code of a stream stands for.
pub open spec fn sequence(code: u8) -> Seq<bool> {
    if code == 0 {
        seq![false, false, false]
    } else if code == 1 {
        seq![false, true]
    } else if code == 2 {
        seq![false, false, true]
    } else {
        seq![false, false, false, true]
    }
}

/// Appends the cells a code stands for.
pub fn append_sequence(bits: &mut Vec<bool>, code: u8)
    ensures
        final(bits)@ == old(bits)@ + sequence(code),
{
    bits.push(false);
    if code == 0 {
        bits.push(false);
        bits.push(false);
    } else {
        if code > 1 {
            bits.push(false);
        }
        if code > 2 {
            bits.push(false);
        }
        bits.push(true);
    }
    assert(bits@ == old(bits)@ + sequence(code));
}

/// State of a capture in progress.
#[verifier::ext_equal]
pub struct CaptureState {
    /// Whether the capture starts at once instead of at an index pulse.
    pub immediate: bool,
    /// Whether the stream is a high-density one.
    pub high_density: bool,
    /// Whether an index pulse has passed.
    pub indexed: bool,
    /// Whether the capture is complete.
    pub complete: bool,
    /// Bytes received.
    pub received: int,
    /// Cells captured.
    pub bits: Seq<bool>,
}

/// Cells of an immediate capture.
pub open spec fn window_cells(high_density: bool) -> int {
    if high_density {
        240_000
    } else {
        120_000
    }
}

impl CaptureState {
    /// A capture of which nothing has been received.
    pub open spec fn start(immediate: bool, high_density: bool) -> CaptureState {
        CaptureState {
            immediate,
            high_density,
            indexed: false,
            complete: false,
            received: 0,
            bits: Seq::empty(),
        }
    }

    /// The state after one code. The first index pulse of an index-aligned
    /// capture starts it, the second completes it.
    pub open spec fn symbol(self, code: u8, at_index: bool) -> CaptureState {
        if self.complete {
            self
        } else if at_index && !self.immediate {
            if self.indexed {
                CaptureState { complete: true, ..self }
            } else {
                CaptureState { indexed: true, bits: sequence(code), ..self }
            }
        } else {
            CaptureState { bits: self.bits + sequence(code), ..self }
        }
    }

    /// The state after one two-bit code of a high-density stream, of which the
    /// highest marks the index pulse.
    pub open spec fn high_symbol(self, code: u8) -> CaptureState {
        if code == 3 {
            self.symbol(1, true)
        } else {
            self.symbol((code + 1) as u8, false)
        }
    }

    /// An immediate capture is complete once its window is full.
    pub open spec fn windowed(self) -> CaptureState {
        if self.immediate && self.bits.len() >= window_cells(self.high_density) {
            CaptureState {
                complete: true,
                bits: self.bits.take(window_cells(self.high_density)),
                ..self
            }
        } else {
            self
        }
    }

    /// The state after the codes of one byte.
    pub open spec fn codes(self, byte: u8) -> CaptureState {
        if self.high_density {
            self.high_symbol(byte / 64).high_symbol(byte / 16 % 4).high_symbol(
                byte / 4 % 4,
            ).high_symbol(byte % 4)
        } else {
            self.symbol(byte / 32 % 4, byte >= 128).symbol(byte / 8 % 4, false)
        }
    }

    /// The state after a byte.
    pub open spec fn after(self, byte: u8) -> CaptureState {
        CaptureState { received: self.received + 1, ..self.codes(byte).windowed() }
    }
}

/// The error of a stream that does not end in time.
pub open spec fn endless() -> ErrorView {
    ErrorView::TrackTooLarge { bits: MAX_STREAM_BYTES * 8, limit: MAX_STREAM_BYTES * 8 }
}

/// Decoder of a stream as it is received.
#[derive(Debug)]
pub struct StreamDecoder {
    immediate: bool,
    high_density: bool,
    indexed: bool,
    complete: bool,
    received: usize,
    bits: Vec<bool>,
}

impl View for StreamDecoder {
    type V = CaptureState;

    closed spec fn view(&self) -> CaptureState {
        CaptureState {
            immediate: self.immediate,
            high_density: self.high_density,
            indexed: self.indexed,
            complete: self.complete,
            received: self.received as int,
            bits: self.bits@,
        }
    }
}

impl StreamDecoder {
    /// Starts with nothing received.
    pub fn new(immediate: bool, high_density: bool) -> (decoder: StreamDecoder)
        ensures
            decoder@ == CaptureState::start(immediate, high_density),
    {
        StreamDecoder {
            immediate,
            high_density,
            indexed: false,
            complete: false,
            received: 0,
            bits: Vec::new(),
        }
    }

    /// The cells captured so far.
    pub fn bits(&self) -> (bits: &[bool])
        ensures
            bits@ == self@.bits,
    {
        self.bits.as_slice()
    }

    /// Whether an index pulse has passed.
    pub fn indexed(&self) -> (indexed: bool)
        ensures
            indexed == self@.indexed,
    {
        self.indexed
    }

    /// Takes one code.
    fn symbol(&mut self, code: u8, at_index: bool)
        ensures
            final(self)@ == old(self)@.symbol(code, at_index),
            final(self).received == old(self).received,
    {
        if !self.complete {
            if at_index && !self.immediate {
                if self.indexed {
                    self.complete = true;
                    return;
                }
                self.indexed = true;
                self.bits = Vec::new();
            }
            append_sequence(&mut self.bits, code);
        }
        assert(self@ == old(self)@.symbol(code, at_index));
    }

    /// Takes one code of a high-density stream.
    fn high_symbol(&mut self, code: u8)
        requires
            code < 4,
        ensures
            final(self)@ == old(self)@.high_symbol(code),
            final(self).received == old(self).received,
    {
        if code == 3 {
            self.symbol(1, true);
        } else {
            self.symbol(code + 1, false);
        }
    }

    /// Takes one byte; returns whether the capture is complete.
    ///
    /// Once a stream has grown too long, every further byte is refused.
    pub fn push(&mut self, byte: u8) -> (result: Result<bool>)
        ensures
            if old(self)@.received >= MAX_STREAM_BYTES {
                &&& final(self)@ == old(self)@
                &&& result matches Err(error)
                &&& error@ == endless()
            } else {
                &&& final(self)@ == old(self)@.after(byte)
                &&& if final(self)@.complete {
                    result == Ok::<bool, Error>(true)
                } else if final(self)@.received >= MAX_STREAM_BYTES {
                    result matches Err(error) && error@ == endless()
                } else {
                    result == Ok::<bool, Error>(false)
                }
            },
    {
        let ghost before = self@;
        if self.received >= MAX_STREAM_BYTES {
            return Err(
                Error::TrackTooLarge { bits: MAX_STREAM_BYTES * 8, limit: MAX_STREAM_BYTES * 8 },
            );
        }
        if self.high_density {
            self.high_symbol(byte / 64);
            self.high_symbol(byte / 16 % 4);
            self.high_symbol(byte / 4 % 4);
            self.high_symbol(byte % 4);
        } else {
            self.symbol(byte / 32 % 4, byte >= 128);
            self.symbol(byte / 8 % 4, false);
        }
        assert(self@ == before.codes(byte));
        let window: usize = if self.high_density {
            240_000
        } else {
            120_000
        };
        let ghost coded = self@;
        if self.immediate && self.bits.len() >= window {
            self.bits.truncate(window);
            self.complete = true;
        }
        assert(self@ == coded.windowed());
        self.received += 1;
        assert(self@ == before.after(byte));
        if self.complete {
            Ok(true)
        } else if self.received >= MAX_STREAM_BYTES {
            Err(Error::TrackTooLarge { bits: MAX_STREAM_BYTES * 8, limit: MAX_STREAM_BYTES * 8 })
        } else {
            Ok(false)
        }
    }
}

/// Cells appended to a written track: a safe alternating run-out.
pub open spec fn run_out() -> Seq<bool> {
    seq![true, false, true, false, true, false, true, false]
}

/// A number kept between two bounds.
pub open spec fn clamped(value: int, lowest: int, highest: int) -> int {
    if value < lowest {
        lowest
    } else if value > highest {
        highest
    } else {
        value
    }
}

/// The transition counts of a track with its run-out, kept to what can be
/// written.
pub open spec fn counts(bits: Seq<bool>, limit: u8) -> Seq<int> {
    mfm::transition_cells(bits + run_out()).map_values(
        |cells: nat| clamped(cells as int, 2, limit as int),
    )
}

/// Counts as mathematical integers.
pub open spec fn count_values(values: Seq<u8>) -> Seq<int> {
    values.map_values(|value: u8| value as int)
}

/// Why a track cannot be written, if it cannot.
pub open spec fn write_error(words: Seq<u16>, bit_len: int) -> Option<ErrorView> {
    if bit_len == 0 || !packed::fits(words, bit_len) {
        Some(ErrorView::InvalidConfig("DrawBridge write bit length does not fit its words"@))
    } else {
        None
    }
}

/// Takes one cell of a track into its transition counts.
fn count_cell(output: &mut Vec<u8>, cells: u8, bit: bool, limit: u8, Ghost(bits): Ghost<
    Seq<bool>,
>) -> (left: u8)
    requires
        limit >= 2,
        cells == clamped(mfm::trailing_cells(bits) as int, 0, 255),
        count_values(old(output)@) == mfm::transition_cells(bits).map_values(
            |cells: nat| clamped(cells as int, 2, limit as int),
        ),
    ensures
        left == clamped(mfm::trailing_cells(bits.push(bit)) as int, 0, 255),
        count_values(final(output)@) == mfm::transition_cells(bits.push(bit)).map_values(
            |cells: nat| clamped(cells as int, 2, limit as int),
        ),
{
    assert(bits.push(bit).drop_last() == bits);
    let count = cells.saturating_add(1);
    if bit {
        let kept: u8 = if count < 2 {
            2
        } else if count > limit {
            limit
        } else {
            count
        };
        output.push(kept);
        assert(count_values(output@) == count_values(old(output)@).push(kept as int));
        assert(mfm::transition_cells(bits.push(bit)).map_values(
            |cells: nat| clamped(cells as int, 2, limit as int),
        ) == mfm::transition_cells(bits).map_values(
            |cells: nat| clamped(cells as int, 2, limit as int),
        ).push(kept as int));
        0
    } else {
        count
    }
}

/// Counts the cells between the transitions of a track and its run-out.
pub fn transition_counts(words: &[u16], bit_len: usize, limit: u8) -> (result: Result<Vec<u8>>)
    requires
        limit >= 2,
    ensures
        match write_error(words@, bit_len as int) {
            Some(expected) => result matches Err(error) && error@ == expected,
            None => result matches Ok(values) && count_values(values@) == counts(
                packed::unpacked(words@, bit_len as int),
                limit,
            ),
        },
{
    if bit_len == 0 || !bits_fit(words.len(), bit_len) {
        return Err(
            Error::InvalidConfig("DrawBridge write bit length does not fit its words".to_owned()),
        );
    }
    let ghost bits = packed::unpacked(words@, bit_len as int);
    let ghost kept = |cells: nat| clamped(cells as int, 2, limit as int);
    let mut output: Vec<u8> = Vec::with_capacity(bit_len / 2);
    let mut cells: u8 = 0;
    let mut position: usize = 0;
    assert(bits.take(0) == Seq::<bool>::empty());
    assert(count_values(output@) == mfm::transition_cells(bits.take(0)).map_values(kept));
    while position < bit_len
        invariant
            position <= bit_len,
            limit >= 2,
            packed::fits(words@, bit_len as int),
            bits == packed::unpacked(words@, bit_len as int),
            kept == (|cells: nat| clamped(cells as int, 2, limit as int)),
            cells == clamped(mfm::trailing_cells(bits.take(position as int)) as int, 0, 255),
            count_values(output@) == mfm::transition_cells(bits.take(position as int)).map_values(
                kept,
            ),
        decreases bit_len - position,
    {
        let bit = bit_at(words, position);
        let ghost before = bits.take(position as int);
        cells = count_cell(&mut output, cells, bit, limit, Ghost(before));
        position += 1;
        assert(bits.take(position as int) == before.push(bit));
    }
    assert(bits.take(bit_len as int) == bits);
    assert(bits + run_out().take(0) == bits);
    let mut extra: usize = 0;
    while extra < 8
        invariant
            extra <= 8,
            limit >= 2,
            kept == (|cells: nat| clamped(cells as int, 2, limit as int)),
            cells == clamped(
                mfm::trailing_cells(bits + run_out().take(extra as int)) as int,
                0,
                255,
            ),
            count_values(output@) == mfm::transition_cells(
                bits + run_out().take(extra as int),
            ).map_values(kept),
        decreases 8 - extra,
    {
        let bit = extra % 2 == 0;
        let ghost before = bits + run_out().take(extra as int);
        assert(run_out()[extra as int] == bit);
        cells = count_cell(&mut output, cells, bit, limit, Ghost(before));
        extra += 1;
        assert(bits + run_out().take(extra as int) == before.push(bit));
    }
    assert(run_out().take(8) == run_out());
    Ok(output)
}

/// How a transition is shifted away from a close neighbour.
pub open spec fn adjustment(previous: int, count: int, precomp: bool) -> int {
    if precomp && previous == 2 && count >= 4 {
        4
    } else if precomp && previous >= 4 && count == 2 {
        8
    } else {
        0
    }
}

/// Half a byte of a double-density write: the count before `at`, and how the
/// transition between the two is shifted.
pub open spec fn nibble(values: Seq<int>, at: int, precomp: bool) -> int {
    let previous = if at == 0 {
        2
    } else {
        values[at - 1]
    };
    if at >= values.len() {
        0
    } else {
        previous - 2 + adjustment(previous, values[at], precomp)
    }
}

/// The bytes of a double-density write.
pub open spec fn double_bytes(values: Seq<int>, precomp: bool) -> Seq<u8> {
    Seq::new(
        ((values.len() + 1) / 2) as nat,
        |i: int| (nibble(values, 2 * i, precomp) + 16 * nibble(values, 2 * i + 1, precomp)) as u8,
    )
}

/// Two bits of a high-density write.
pub open spec fn crumb(values: Seq<int>, at: int) -> int {
    if at >= values.len() {
        0
    } else {
        values[at] - 1
    }
}

/// The bytes of a high-density write: four counts each, the last one highest,
/// and a zero byte at the end.
pub open spec fn high_bytes(values: Seq<int>) -> Seq<u8> {
    Seq::new(
        ((values.len() + 3) / 4) as nat,
        |i: int|
            (crumb(values, 4 * i) * 16 + crumb(values, 4 * i + 1) * 4 + crumb(values, 4 * i + 2)
                + crumb(values, 4 * i + 3) * 64) as u8,
    ).push(0)
}

/// A track as a double-density write.
pub open spec fn double_track(bits: Seq<bool>, precomp: bool) -> Seq<u8> {
    double_bytes(counts(bits, 5), precomp)
}

/// A track as a high-density write.
pub open spec fn high_track(bits: Seq<bool>) -> Seq<u8> {
    high_bytes(counts(bits, 4))
}

/// Every count is within its bounds.
proof fn lemma_counts_bounded(bits: Seq<bool>, limit: u8)
    requires
        limit >= 2,
    ensures
        forall|i: int| 0 <= i < counts(bits, limit).len() ==> 2 <= #[trigger] counts(bits, limit)[i]
            <= limit,
{
}

/// Half a byte of a double-density write.
fn half(values: &[u8], at: usize, precomp: bool) -> (value: u8)
    requires
        forall|i: int| 0 <= i < values@.len() ==> 2 <= #[trigger] values@[i] <= 5,
    ensures
        value == nibble(count_values(values@), at as int, precomp),
        value <= 11,
{
    if at >= values.len() {
        return 0;
    }
    let previous: u8 = if at == 0 {
        2
    } else {
        values[at - 1]
    };
    let count = values[at];
    let shift: u8 = if precomp && previous == 2 && count >= 4 {
        4
    } else if precomp && previous >= 4 && count == 2 {
        8
    } else {
        0
    };
    previous - 2 + shift
}

/// Encodes a double-density track.
pub fn encode_dd(words: &[u16], bit_len: usize, precomp: bool) -> (result: Result<Vec<u8>>)
    ensures
        match write_error(words@, bit_len as int) {
            Some(expected) => result matches Err(error) && error@ == expected,
            None => result matches Ok(output) && output@ == double_track(
                packed::unpacked(words@, bit_len as int),
                precomp,
            ),
        },
{
    let values = match transition_counts(words, bit_len, 5) {
        Ok(values) => values,
        Err(error) => return Err(error),
    };
    let ghost wanted = count_values(values@);
    proof {
        lemma_counts_bounded(packed::unpacked(words@, bit_len as int), 5);
        assert forall|i: int| 0 <= i < values@.len() implies 2 <= #[trigger] values@[i] <= 5 by {
            assert(wanted[i] == values@[i]);
        }
    }
    let total = values.len();
    let mut output: Vec<u8> = Vec::with_capacity(total / 2 + 1);
    let mut at: usize = 0;
    while at < total
        invariant
            total == values@.len(),
            wanted == count_values(values@),
            forall|i: int| 0 <= i < values@.len() ==> 2 <= #[trigger] values@[i] <= 5,
            at <= total,
            at % 2 == 0 || at == total,
            output@.len() == (at + 1) / 2,
            output@ == double_bytes(wanted, precomp).take(output@.len() as int),
        decreases total - at,
    {
        let low = half(&values, at, precomp);
        let high: u8 = if at + 1 < total {
            half(&values, at + 1, precomp)
        } else {
            0
        };
        output.push(low + 16 * high);
        assert(output@ == double_bytes(wanted, precomp).take(output@.len() as int));
        at = if total - at < 2 {
            total
        } else {
            at + 2
        };
    }
    assert(output@ == double_bytes(wanted, precomp));
    Ok(output)
}

/// Two bits of a high-density write.
fn pair(values: &[u8], start: usize, offset: usize) -> (value: u8)
    requires
        start < values@.len(),
        offset < 4,
        forall|i: int| 0 <= i < values@.len() ==> 2 <= #[trigger] values@[i] <= 4,
    ensures
        value == crumb(count_values(values@), start + offset),
        value <= 3,
{
    if offset < values.len() - start {
        values[start + offset] - 1
    } else {
        0
    }
}

/// Encodes a high-density track.
pub fn encode_hd(words: &[u16], bit_len: usize) -> (result: Result<Vec<u8>>)
    ensures
        match write_error(words@, bit_len as int) {
            Some(expected) => result matches Err(error) && error@ == expected,
            None => result matches Ok(output) && output@ == high_track(
                packed::unpacked(words@, bit_len as int),
            ),
        },
{
    let values = match transition_counts(words, bit_len, 4) {
        Ok(values) => values,
        Err(error) => return Err(error),
    };
    let ghost wanted = count_values(values@);
    proof {
        lemma_counts_bounded(packed::unpacked(words@, bit_len as int), 4);
        assert forall|i: int| 0 <= i < values@.len() implies 2 <= #[trigger] values@[i] <= 4 by {
            assert(wanted[i] == values@[i]);
        }
    }
    let total = values.len();
    let mut output: Vec<u8> = Vec::with_capacity(total / 4 + 2);
    let mut at: usize = 0;
    while at < total
        invariant
            total == values@.len(),
            wanted == count_values(values@),
            forall|i: int| 0 <= i < values@.len() ==> 2 <= #[trigger] values@[i] <= 4,
            at <= total,
            at % 4 == 0 || at == total,
            output@.len() == (at + 3) / 4,
            output@ == high_bytes(wanted).take(output@.len() as int),
        decreases total - at,
    {
        let byte = pair(&values, at, 0) * 16 + pair(&values, at, 1) * 4 + pair(&values, at, 2)
            + pair(&values, at, 3) * 64;
        output.push(byte);
        assert(output@ == high_bytes(wanted).take(output@.len() as int));
        at = if total - at < 4 {
            total
        } else {
            at + 4
        };
    }
    output.push(0);
    assert(output@ == high_bytes(wanted));
    Ok(output)
}

} // verus!
