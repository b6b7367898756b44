//! SuperCard Pro flux streams.

use vstd::prelude::*;

use super::map_response;
use crate::device::bytes;
use crate::device::bytes::append_be16;
use crate::device::MAX_STREAM_BYTES;
use crate::error::{Error, ErrorView, Result};
use crate::flux::{mfm, mfm_to_flux, packed, FluxEvent, MAX_TRACK_BITS};

verus! {

/// Length of an immediate capture, in nanoseconds.
pub const IMMEDIATE_WINDOW: u64 = 260_000_000;

/// What one byte of a stream says.
pub enum Element {
    /// The next byte is an escaped one.
    Escape,
    /// An index pulse.
    Index,
    /// 256 ticks that pass without a transition.
    Extension,
    /// Ticks up to a transition.
    Interval(int),
}

/// What a byte says, depending on whether the byte before it was an escape.
pub open spec fn element(escaped: bool, byte: u8) -> Element {
    if escaped && byte == 0 {
        Element::Index
    } else if escaped {
        Element::Interval(byte as int)
    } else if byte == 0xff {
        Element::Escape
    } else if byte == 0 {
        Element::Extension
    } else {
        Element::Interval(byte as int)
    }
}

/// Whether a stream goes on after a byte.
pub enum Progress {
    /// More bytes are needed.
    More,
    /// The capture is complete.
    Complete,
    /// The capture does not end in time.
    Endless,
}

/// State of a capture in progress.
#[verifier::ext_equal]
pub struct CaptureState {
    /// Whether the capture starts at once instead of at an index pulse.
    pub immediate: bool,
    /// Nanoseconds of one tick.
    pub resolution: int,
    /// Ticks since the last transition.
    pub ticks: int,
    /// Whether an index pulse has passed since the last transition.
    pub index: bool,
    /// Whether the last byte was an escape.
    pub escaped: bool,
    /// Index pulses seen.
    pub indices: int,
    /// Bytes received.
    pub received: int,
    /// Nanoseconds captured.
    pub duration: int,
    /// Transitions captured.
    pub events: Seq<FluxEvent>,
}

/// The smaller of two numbers.
pub open spec fn at_most(value: int, limit: int) -> int {
    if value > limit {
        limit
    } else {
        value
    }
}

impl CaptureState {
    /// A capture of which nothing has been received.
    pub open spec fn start(immediate: bool, high_density: bool) -> CaptureState {
        CaptureState {
            immediate,
            resolution: if high_density {
                100
            } else {
                50
            },
            ticks: 0,
            index: false,
            escaped: false,
            indices: 0,
            received: 0,
            duration: 0,
            events: Seq::empty(),
        }
    }

    /// The length of an interval that ends after some more ticks.
    pub open spec fn nanoseconds(self, more: int) -> int {
        at_most(at_most(self.ticks + more, u32::MAX as int) * self.resolution, u32::MAX as int)
    }

    /// The state after a byte.
    pub open spec fn after(self, byte: u8) -> CaptureState {
        let received = self.received + 1;
        match element(self.escaped, byte) {
            Element::Escape => CaptureState { received, escaped: true, ..self },
            Element::Index => {
                let indices = at_most(self.indices + 1, u8::MAX as int);
                CaptureState {
                    received,
                    escaped: false,
                    indices,
                    index: self.index || self.immediate || indices < 2,
                    ..self
                }
            },
            Element::Extension => CaptureState {
                received,
                ticks: at_most(self.ticks + 256, u32::MAX as int),
                ..self
            },
            Element::Interval(more) => CaptureState {
                received,
                escaped: false,
                ticks: 0,
                index: false,
                duration: at_most(self.duration + self.nanoseconds(more), u64::MAX as int),
                events: self.events.push(
                    FluxEvent { nanoseconds: self.nanoseconds(more) as u32, index: self.index },
                ),
                ..self
            },
        }
    }

    /// Whether a byte completes the capture: the second index pulse of an
    /// index-aligned one, the end of the window of an immediate one.
    pub open spec fn completes(self, byte: u8) -> bool {
        match element(self.escaped, byte) {
            Element::Index => !self.immediate && self.after(byte).indices >= 2,
            Element::Interval(_) => self.immediate && self.after(byte).duration
                >= IMMEDIATE_WINDOW,
            _ => false,
        }
    }

    /// Whether the stream goes on after a byte.
    pub open spec fn progress(self, byte: u8) -> Progress {
        if self.completes(byte) {
            Progress::Complete
        } else if self.received + 1 >= MAX_STREAM_BYTES {
            Progress::Endless
        } else {
            Progress::More
        }
    }
}

/// Decoder of a stream as it is received.
#[derive(Debug)]
pub struct StreamDecoder {
    immediate: bool,
    high_density: bool,
    ticks: u32,
    index: bool,
    escaped: bool,
    indices: u8,
    received: usize,
    duration: u64,
    events: Vec<FluxEvent>,
}

impl View for StreamDecoder {
    type V = CaptureState;

    closed spec fn view(&self) -> CaptureState {
        CaptureState {
            immediate: self.immediate,
            resolution: if self.high_density {
                100
            } else {
                50
            },
            ticks: self.ticks as int,
            index: self.index,
            escaped: self.escaped,
            indices: self.indices as int,
            received: self.received as int,
            duration: self.duration as int,
            events: self.events@,
        }
    }
}

impl StreamDecoder {
    /// Starts with nothing received.
    pub fn new(immediate: bool, high_density: bool) -> (decoder: StreamDecoder)
        ensures
            decoder@ == CaptureState::start(immediate, high_density),
    {
        StreamDecoder {
            immediate,
            high_density,
            ticks: 0,
            index: false,
            escaped: false,
            indices: 0,
            received: 0,
            duration: 0,
            events: Vec::new(),
        }
    }

    /// The transitions captured so far.
    pub fn events(&self) -> (events: &[FluxEvent])
        ensures
            events@ == self@.events,
    {
        self.events.as_slice()
    }

    /// Takes one byte; returns whether the capture is complete.
    ///
    /// Once a stream has grown too long, every further byte is refused.
    pub fn push(&mut self, byte: u8) -> (result: Result<bool>)
        ensures
            if old(self)@.received >= MAX_STREAM_BYTES {
                &&& final(self)@ == old(self)@
                &&& result matches Err(error)
                &&& error@ == super::endless()
            } else {
                &&& final(self)@ == old(self)@.after(byte)
                &&& match old(self)@.progress(byte) {
                    Progress::More => result == Ok::<bool, Error>(false),
                    Progress::Complete => result == Ok::<bool, Error>(true),
                    Progress::Endless => result matches Err(error) && error@ == super::endless(),
                }
            },
    {
        let ghost before = self@;
        if self.received >= MAX_STREAM_BYTES {
            return Err(
                Error::TrackTooLarge { bits: MAX_STREAM_BYTES * 8, limit: MAX_STREAM_BYTES * 8 },
            );
        }
        self.received += 1;
        let mut complete = false;
        if self.escaped && byte == 0 {
            self.escaped = false;
            self.indices = self.indices.saturating_add(1);
            if self.indices >= 2 && !self.immediate {
                complete = true;
            } else {
                self.index = true;
            }
        } else if !self.escaped && byte == 0xff {
            self.escaped = true;
        } else if !self.escaped && byte == 0 {
            self.ticks = self.ticks.saturating_add(256);
        } else {
            self.escaped = false;
            let ticks = self.ticks.saturating_add(byte as u32);
            let resolution: u64 = if self.high_density {
                100
            } else {
                50
            };
            let length = ticks as u64 * resolution;
            let nanoseconds: u32 = if length > u32::MAX as u64 {
                u32::MAX
            } else {
                length as u32
            };
            self.duration = self.duration.saturating_add(nanoseconds as u64);
            self.events.push(FluxEvent { nanoseconds, index: self.index });
            self.index = false;
            self.ticks = 0;
            complete = self.immediate && self.duration >= IMMEDIATE_WINDOW;
        }
        assert(self@ == before.after(byte));
        if complete {
            Ok(true)
        } else if self.received >= MAX_STREAM_BYTES {
            Err(Error::TrackTooLarge { bits: MAX_STREAM_BYTES * 8, limit: MAX_STREAM_BYTES * 8 })
        } else {
            Ok(false)
        }
    }
}

/// Waits for the acknowledgement that ends a stopped stream: `de ad af` and a
/// response.
#[derive(Debug)]
pub struct StopScan {
    first: u8,
    second: u8,
    third: u8,
}

impl View for StopScan {
    type V = Seq<u8>;

    closed spec fn view(&self) -> Seq<u8> {
        seq![self.first, self.second, self.third]
    }
}

impl StopScan {
    /// Starts with nothing received.
    pub fn new() -> (scan: StopScan)
        ensures
            scan@ == seq![0u8, 0u8, 0u8],
    {
        StopScan { first: 0, second: 0, third: 0 }
    }

    /// What a byte after the last three says.
    pub open spec fn answer(window: Seq<u8>, byte: u8) -> core::result::Result<bool, ErrorView> {
        if window != seq![0xdeu8, 0xadu8, 0xafu8] {
            Ok(false)
        } else if byte == 0x4f {
            Ok(true)
        } else if byte == 0x15 {
            Err(ErrorView::Protocol("SuperCard Pro stream buffer overrun"@))
        } else {
            Err(super::response_error(byte)->0)
        }
    }

    /// Takes one byte; returns whether the stream has ended.
    pub fn push(&mut self, byte: u8) -> (result: Result<bool>)
        ensures
            final(self)@ == old(self)@.drop_first().push(byte),
            match StopScan::answer(old(self)@, byte) {
                Ok(ended) => result == Ok::<bool, Error>(ended),
                Err(expected) => result matches Err(error) && error@ == expected,
            },
    {
        let ghost window = self@;
        let marked = self.first == 0xde && self.second == 0xad && self.third == 0xaf;
        proof {
            if marked {
                assert(window == seq![0xdeu8, 0xadu8, 0xafu8]);
            } else {
                assert(window[0] == self.first && window[1] == self.second && window[2]
                    == self.third);
            }
        }
        self.first = self.second;
        self.second = self.third;
        self.third = byte;
        assert(self@ == window.drop_first().push(byte));
        if !marked {
            return Ok(false);
        }
        if byte == 0x15 {
            return Err(Error::Protocol("SuperCard Pro stream buffer overrun".to_owned()));
        }
        match map_response(byte) {
            Ok(()) => Ok(true),
            Err(error) => Err(error),
        }
    }
}

/// The counters that carry an interval: zero stands for 65536 ticks without a
/// transition.
pub open spec fn counters(ticks: int) -> Seq<int>
    decreases ticks,
{
    if ticks > 0xffff {
        seq![0int] + counters(ticks - 0x1_0000)
    } else {
        seq![ticks]
    }
}

/// The counters of a run of intervals.
pub open spec fn all_counters(ticks: Seq<int>) -> Seq<int>
    decreases ticks.len(),
{
    if ticks.len() == 0 {
        Seq::empty()
    } else {
        all_counters(ticks.drop_last()) + counters(ticks.last())
    }
}

/// Counters as bytes, most significant first.
pub open spec fn counter_bytes(values: Seq<int>) -> Seq<u8>
    decreases values.len(),
{
    if values.len() == 0 {
        Seq::empty()
    } else {
        counter_bytes(values.drop_last()) + bytes::be16(values.last())
    }
}

/// Length of one bit cell in nanoseconds.
pub open spec fn cell_nanoseconds(high_density: bool) -> int {
    if high_density {
        1_000
    } else {
        2_000
    }
}

/// Nanoseconds of one tick of a written interval.
pub open spec fn write_resolution(high_density: bool) -> int {
    if high_density {
        50
    } else {
        25
    }
}

/// Nanoseconds in ticks, to the nearest.
pub open spec fn delay_ticks(nanoseconds: int, high_density: bool) -> int {
    let resolution = write_resolution(high_density);
    (nanoseconds + resolution / 2) / resolution
}

/// Every interval of a track in ticks.
pub open spec fn track_ticks(bits: Seq<bool>, high_density: bool) -> Seq<int> {
    mfm::scaled(mfm::interval_cells(bits), cell_nanoseconds(high_density)).map_values(
        |nanoseconds: int| delay_ticks(nanoseconds, high_density),
    )
}

proof fn lemma_bytes_of_more(left: Seq<int>, value: int)
    ensures
        counter_bytes(left.push(value)) == counter_bytes(left) + bytes::be16(value),
        counter_bytes(left).len() == left.len() * 2,
    decreases left.len(),
{
    assert(left.push(value).drop_last() == left);
    if left.len() > 0 {
        assert(left.drop_last().push(left.last()) == left);
        lemma_bytes_of_more(left.drop_last(), left.last());
    }
}

/// Appends the counters of one interval.
fn append_counters(ticks: u32, output: &mut Vec<u8>, Ghost(values): Ghost<Seq<int>>) -> (added: u32)
    requires
        old(output)@ == counter_bytes(values),
        ticks < 0x0200_0000,
    ensures
        final(output)@ == counter_bytes(values + counters(ticks as int)),
        added == counters(ticks as int).len(),
        added <= 0x200,
{
    let mut left: u32 = ticks;
    let mut added: u32 = 0;
    let ghost mut done = Seq::<int>::empty();
    assert(values + done == values);
    assert(done + counters(left as int) == counters(ticks as int));
    while left > 0xffff
        invariant
            left <= ticks < 0x0200_0000,
            added * 0x1_0000 + left == ticks,
            done.len() == added,
            output@ == counter_bytes(values + done),
            done + counters(left as int) == counters(ticks as int),
        decreases left,
    {
        append_be16(output, 0);
        proof {
            lemma_bytes_of_more(values + done, 0);
            assert((values + done).push(0int) == values + done.push(0int));
            assert(done + counters(left as int) == done.push(0int) + counters(left - 0x1_0000));
            done = done.push(0int);
        }
        added += 1;
        left -= 0x1_0000;
    }
    append_be16(output, left as u16);
    proof {
        lemma_bytes_of_more(values + done, left as int);
        assert((values + done).push(left as int) == values + counters(ticks as int));
    }
    added + 1
}

/// Encodes a track as counters; returns their bytes and how many there are.
pub fn encode_track(words: &[u16], bit_len: usize, high_density: bool) -> (result: Result<
    (Vec<u8>, u32),
>)
    ensures
        match mfm::mfm_error(words@, bit_len as int, cell_nanoseconds(high_density)) {
            Some(expected) => result matches Err(error) && error@ == expected,
            None => {
                let values = all_counters(
                    track_ticks(packed::unpacked(words@, bit_len as int), high_density),
                );
                &&& result matches Ok((output, count))
                &&& output@ == counter_bytes(values)
                &&& count == values.len()
                &&& output@.len() == values.len() * 2
                &&& output@.len() <= u32::MAX
            },
        },
{
    let cell: u32 = if high_density {
        1_000
    } else {
        2_000
    };
    let resolution: u32 = if high_density {
        50
    } else {
        25
    };
    let timings = match mfm_to_flux(words, bit_len, cell) {
        Ok(timings) => timings,
        Err(error) => return Err(error),
    };
    let ghost bits = packed::unpacked(words@, bit_len as int);
    let ghost ticks = track_ticks(bits, high_density);
    let mut output: Vec<u8> = Vec::with_capacity(timings.len());
    let mut count: u32 = 0;
    let mut i: usize = 0;
    proof {
        mfm::lemma_intervals_bounded(bits);
        assert(mfm::delays(timings@) == mfm::scaled(mfm::interval_cells(bits), cell as int));
        assert(ticks.len() == timings@.len());
        assert(ticks.take(0) == Seq::<int>::empty());
    }
    while i < timings.len()
        invariant
            i <= timings@.len() <= MAX_TRACK_BITS,
            cell == cell_nanoseconds(high_density),
            resolution == write_resolution(high_density),
            bits.len() <= MAX_TRACK_BITS,
            ticks == track_ticks(bits, high_density),
            ticks.len() == timings@.len(),
            mfm::delays(timings@) == mfm::scaled(mfm::interval_cells(bits), cell as int),
            output@ == counter_bytes(all_counters(ticks.take(i as int))),
            count == all_counters(ticks.take(i as int)).len(),
            count <= i * 0x200,
        decreases timings@.len() - i,
    {
        let delay = timings[i];
        proof {
            assert(delay == mfm::delays(timings@)[i as int]);
            mfm::lemma_intervals_bounded(bits);
            let cells = mfm::interval_cells(bits)[i as int];
            assert(delay == cells * cell);
            assert(delay <= 475_136_000) by (nonlinear_arith)
                requires
                    delay == cells * cell,
                    0 <= cells <= 237_568,
                    0 <= cell <= 2_000,
            ;
        }
        let interval = (delay + resolution / 2) / resolution;
        proof {
            assert(interval == delay_ticks(delay as int, high_density));
            assert(interval < 0x0200_0000);
        }
        let ghost values = all_counters(ticks.take(i as int));
        let added = append_counters(interval, &mut output, Ghost(values));
        assert(ticks[i as int] == interval);
        assert(ticks.take(i + 1).drop_last() == ticks.take(i as int));
        assert(ticks.take(i + 1).last() == interval);
        count += added;
        i += 1;
    }
    proof {
        assert(ticks.take(ticks.len() as int) == ticks);
        lemma_bytes_of_more(all_counters(ticks), 0);
    }
    Ok((output, count))
}

} // verus!
