//! Single-owner controller worker.

use vstd::prelude::*;

pub mod approach;
pub mod cache;
pub mod capturing;
pub mod channel;
pub mod clicking;
pub mod generations;
pub mod rules;
pub mod running;
pub mod wishing;
pub mod worker;
pub mod writing;

use crossbeam_channel::{Receiver, Sender};

use self::cache::CaptureCache;
use self::channel::{channels, offer, queued, take, wake};
use crate::device;
use crate::device::clamp_track;
use crate::error::{Error, ErrorView, Result};
use crate::flux::packed;
use crate::flux::packed::bits_fit;
use crate::flux::MAX_TRACK_BITS;
use crate::text;
use crate::text::append_decimal;
use crate::types::{
    BridgeConfig, BridgeEvent, BridgeEventView, DriveStatus, PortId, ReadMode, Side, TrackAddress,
    TrackCapture, TrackCaptureView, WriteId, WriteRequest,
};

verus! {

/// Commands that can wait for the worker.
pub const COMMAND_CAPACITY: usize = 64;

/// Events that can wait for the caller.
pub const EVENT_CAPACITY: usize = 64;

/// Wake-ups that can wait for the worker; one is enough to be seen.
pub const WAKE_CAPACITY: usize = 1;

/// How far from the index pulse a write may start and still be placed at it.
pub const INDEX_WRITE_SLACK_BITS: usize = 30;

/// How much shorter than its track a write may be and still fill it.
pub const WHOLE_WRITE_SLACK_BITS: usize = 16;

/// A request the worker answers in order.
#[derive(Debug)]
pub enum Command {
    /// Step without clicking, on a side.
    NoClick(Side),
    /// Write a track.
    Write {
        /// Identifier of the write.
        id: WriteId,
        /// What to write.
        request: WriteRequest,
    },
    /// Stop.
    Shutdown,
}

/// A [`Command`] with its words as a sequence.
pub enum CommandView {
    /// See [`Command::NoClick`].
    NoClick(Side),
    /// See [`Command::Write`].
    Write { id: WriteId, track: TrackAddress, words: Seq<u16>, bit_len: int, start_bit: int },
    /// See [`Command::Shutdown`].
    Shutdown,
}

impl View for Command {
    type V = CommandView;

    open spec fn view(&self) -> CommandView {
        match *self {
            Command::NoClick(side) => CommandView::NoClick(side),
            Command::Write { id, request } => CommandView::Write {
                id,
                track: request.track,
                words: request.words@,
                bit_len: request.bit_len as int,
                start_bit: request.start_bit as int,
            },
            Command::Shutdown => CommandView::Shutdown,
        }
    }
}

/// The caller's latest wish for the mechanism, overwritten rather than queued.
///
/// An emulated machine expresses motor and head state thousands of times a
/// second. Only the latest state can matter to a physical mechanism, so that
/// is all this keeps.
#[derive(Debug, Clone, Copy)]
pub struct Desired {
    /// Side and motor state wished for.
    pub motor: Option<(Side, bool)>,
    /// Track wished for.
    pub target: Option<TrackAddress>,
}

/// One open physical drive.
///
/// The transport and every mutable hardware fact are owned by a worker.
/// Methods only enqueue bounded commands or inspect snapshots, so normal reads
/// never block the caller on a rotating disk.
pub struct Bridge {
    commands: Sender<Command>,
    events: Receiver<BridgeEvent>,
    nudge: Sender<()>,
    status: DriveStatus,
    captures: CaptureCache,
    partial: Option<(TrackAddress, TrackCapture)>,
    desired: Desired,
    selected_port: PortId,
    next_write: u64,
    max_cylinders: u8,
    stall_timeout: Option<u64>,
}

/// What a [`Bridge`] holds, what has passed through its channels, and where
/// they lead.
pub struct BridgeView {
    /// Drive state as last observed.
    pub status: DriveStatus,
    /// Captured revolutions by track, oldest first.
    pub captures: Map<TrackAddress, Seq<TrackCaptureView>>,
    /// The capture that is still arriving, and its track.
    pub partial: Option<(TrackAddress, TrackCaptureView)>,
    /// The caller's latest wish.
    pub desired: Desired,
    /// The port selected during open.
    pub selected_port: Seq<char>,
    /// Number of the next write.
    pub next_write: u64,
    /// Cylinders of the mechanism.
    pub max_cylinders: u8,
    /// How long a read may wait, in nanoseconds, if it may.
    pub stall_timeout: Option<u64>,
    /// Commands handed to the worker, oldest first.
    pub sent: Seq<CommandView>,
    /// Events handed to the caller, oldest first.
    pub polled: Seq<BridgeEventView>,
    /// Wake-ups offered to the worker.
    pub wakes: nat,
    /// Commands that can wait for the worker.
    pub command_limit: nat,
    /// Events that can wait for the caller.
    pub event_limit: nat,
    /// Wake-ups that can wait for the worker.
    pub wake_limit: nat,
    /// Where the commands come out.
    pub command_exits: Set<Receiver<Command>>,
    /// Where the events come from.
    pub event_entries: Set<Sender<BridgeEvent>>,
    /// Where the wake-ups come out.
    pub wake_exits: Set<Receiver<()>>,
}

impl View for Bridge {
    type V = BridgeView;

    closed spec fn view(&self) -> BridgeView {
        BridgeView {
            status: self.status,
            captures: self.captures@,
            partial: match self.partial {
                Some((track, capture)) => Some((track, capture@)),
                None => None,
            },
            desired: self.desired,
            selected_port: self.selected_port@,
            next_write: self.next_write,
            max_cylinders: self.max_cylinders,
            stall_timeout: self.stall_timeout,
            sent: channel::sent(self.commands),
            polled: channel::taken(self.events),
            wakes: channel::wakes(self.nudge).len(),
            command_limit: channel::command_limit(self.commands),
            event_limit: channel::event_limit(self.events),
            wake_limit: channel::wake_limit(self.nudge),
            command_exits: channel::command_exits(self.commands),
            event_entries: channel::event_entries(self.events),
            wake_exits: channel::wake_exits(self.nudge),
        }
    }
}

/// The worker's ends of the channels of a [`Bridge`].
pub struct WorkerEnds {
    /// Commands to answer in order.
    pub commands: Receiver<Command>,
    /// Where events are sent.
    pub events: Sender<BridgeEvent>,
    /// Wakes the worker the moment a wish changes.
    pub nudge: Receiver<()>,
}

/// Whether a write is placed at the index pulse of a track.
pub open spec fn starts_at_index(start_bit: int, track_bits: int) -> bool {
    start_bit <= INDEX_WRITE_SLACK_BITS || start_bit + INDEX_WRITE_SLACK_BITS >= track_bits
}

/// Whether a write fills a track.
pub open spec fn fills_track(bit_len: int, track_bits: int) -> bool {
    bit_len + WHOLE_WRITE_SLACK_BITS >= track_bits
}

/// Whether a write can be placed safely on a track.
pub open spec fn placeable(start_bit: int, bit_len: int, track_bits: int) -> bool {
    starts_at_index(start_bit, track_bits) || fills_track(bit_len, track_bits)
}

/// Decides whether a write starts at the index pulse, if it can be placed
/// safely at all.
pub fn place_write(start_bit: usize, bit_len: usize, track_bits: usize) -> (result: Result<bool>)
    ensures
        match result {
            Ok(from_index) => placeable(start_bit as int, bit_len as int, track_bits as int)
                && from_index == starts_at_index(start_bit as int, track_bits as int),
            Err(error) => !placeable(start_bit as int, bit_len as int, track_bits as int) && error@
                == (ErrorView::UnplaceablePartialWrite {
                start_bit: start_bit as int,
                track_bits: track_bits as int,
            }),
        },
{
    let from_index = start_bit <= INDEX_WRITE_SLACK_BITS || start_bit >= track_bits || track_bits
        - start_bit <= INDEX_WRITE_SLACK_BITS;
    let whole_revolution = bit_len >= track_bits || track_bits - bit_len <= WHOLE_WRITE_SLACK_BITS;
    if !from_index && !whole_revolution {
        return Err(Error::UnplaceablePartialWrite { start_bit, track_bits });
    }
    Ok(from_index)
}

/// The number after a write's, never zero.
pub open spec fn following(number: u64) -> u64 {
    if number == u64::MAX {
        1
    } else {
        (number + 1) as u64
    }
}

/// Whether an error says that a command could not be handed to the worker.
pub open spec fn is_undelivered(error: ErrorView) -> bool {
    error == ErrorView::InvalidConfig("bridge command queue is full"@) || error
        == ErrorView::WorkerStopped
}

/// How a read that may wait goes on.
#[derive(Debug)]
pub enum StallStep {
    /// A capture is ready.
    Ready(TrackCapture),
    /// The worker has stopped.
    Stopped,
    /// Look again shortly.
    Wait,
    /// Stop waiting without a capture.
    GiveUp,
}

impl BridgeView {
    /// Why a write is refused, if it is.
    pub open spec fn write_problem(self, request: WriteRequest) -> Option<ErrorView> {
        let track = device::clamped(request.track, self.max_cylinders);
        let bit_len = request.bit_len as int;
        if request.words@.len() == 0 {
            Some(ErrorView::InvalidConfig("cannot submit an empty write"@))
        } else if request.words@.len() * 16 > usize::MAX {
            Some(ErrorView::InvalidConfig("write length overflow"@))
        } else if bit_len == 0 || !packed::fits(request.words@, bit_len) {
            Some(
                ErrorView::InvalidConfig(
                    "write bit length "@ + text::decimal(bit_len as nat) + " does not fit "@
                        + text::decimal(request.words@.len()) + " words"@,
                ),
            )
        } else if bit_len > MAX_TRACK_BITS {
            Some(ErrorView::TrackTooLarge { bits: bit_len, limit: MAX_TRACK_BITS as int })
        } else if self.status.write_protected {
            Some(ErrorView::WriteProtected)
        } else {
            match cache::front_of(self.captures, track) {
                Some(known) => if known.bit_len > 0 && !placeable(
                    request.start_bit as int,
                    bit_len,
                    known.bit_len,
                ) {
                    Some(
                        ErrorView::UnplaceablePartialWrite {
                            start_bit: request.start_bit as int,
                            track_bits: known.bit_len,
                        },
                    )
                } else {
                    None
                },
                None => None,
            }
        }
    }

    /// Whether a worker keeps the other ends of a bridge's channels: it takes the
    /// commands and wake-ups of the bridge, and the bridge its events.
    pub open spec fn joined(self, ends: WorkerEnds) -> bool {
        &&& self.command_exits.contains(ends.commands)
        &&& self.event_entries.contains(ends.events)
        &&& self.wake_exits.contains(ends.nudge)
    }

    /// The same bridge with one more command handed to the worker.
    pub open spec fn having_sent(self, command: CommandView) -> BridgeView {
        BridgeView { sent: self.sent.push(command), ..self }
    }

    /// The same bridge with one more event handed to the caller.
    pub open spec fn having_polled(self, event: BridgeEventView) -> BridgeView {
        BridgeView { polled: self.polled.push(event), ..self }
    }

    /// The command of a write, numbered and on a track of the mechanism.
    pub open spec fn write_command(self, id: WriteId, request: WriteRequest) -> CommandView {
        CommandView::Write {
            id,
            track: device::clamped(request.track, self.max_cylinders),
            words: request.words@,
            bit_len: request.bit_len as int,
            start_bit: request.start_bit as int,
        }
    }

    /// The same bridge with one more wake-up offered to the worker.
    pub open spec fn woken(self) -> BridgeView {
        BridgeView { wakes: self.wakes + 1, ..self }
    }

    /// The same bridge with the oldest reading of a track retired, and the
    /// track asked for.
    pub open spec fn retired(self, track: TrackAddress) -> BridgeView {
        BridgeView {
            captures: cache::retired(
                self.captures,
                device::clamped(track, self.max_cylinders),
            ),
            ..self.aimed(track).woken()
        }
    }

    /// The same bridge, its head where a worker knows it to be.
    pub open spec fn with_head(self, worker: worker::Worker) -> BridgeView {
        BridgeView {
            status: DriveStatus {
                cylinder: worker.physical.cylinder,
                side: worker.physical.side,
                ..self.status
            },
            ..self
        }
    }

    /// The same bridge with another wish for the head.
    pub open spec fn aimed(self, track: TrackAddress) -> BridgeView {
        BridgeView {
            desired: Desired {
                target: Some(device::clamped(track, self.max_cylinders)),
                ..self.desired
            },
            ..self
        }
    }
}

impl Bridge {
    /// Whether the capture cache is within its bounds.
    pub closed spec fn wf(self) -> bool {
        self.captures.wf()
    }

    /// Every bridge keeps at most eight tracks of at most two readings.
    pub proof fn law_captures_are_bounded(self)
        requires
            self.wf(),
        ensures
            cache::bounded(self@.captures),
    {
        cache::law_cache_is_bounded(self.captures);
    }

    /// Connects a bridge to the ends its worker keeps.
    pub fn connect(config: &BridgeConfig, initial_status: DriveStatus, selected_port: PortId) -> (
    result: (Bridge, WorkerEnds))
        ensures
            result.0.wf(),
            result.0@ == (BridgeView {
                status: initial_status,
                captures: Map::empty(),
                partial: None,
                desired: Desired { motor: None, target: None },
                selected_port: selected_port@,
                next_write: 1,
                max_cylinders: initial_status.max_cylinders,
                stall_timeout: if config.mode == ReadMode::Stalling {
                    Some(config.stall_timeout)
                } else {
                    None
                },
                sent: Seq::empty(),
                polled: Seq::empty(),
                wakes: 0,
                command_limit: COMMAND_CAPACITY as nat,
                event_limit: EVENT_CAPACITY as nat,
                wake_limit: WAKE_CAPACITY as nat,
                command_exits: channel::command_exits(result.0.command_channel()),
                event_entries: channel::event_entries(result.0.event_channel()),
                wake_exits: channel::wake_exits(result.0.wake_channel()),
            }),
            result.0@.joined(result.1),
            channel::command_limit(result.0.command_channel()) == COMMAND_CAPACITY,
            channel::commands_joined(result.0.command_channel(), result.1.commands),
            channel::event_limit(result.0.event_channel()) == EVENT_CAPACITY,
            channel::events_joined(result.1.events, result.0.event_channel()),
            channel::wake_limit(result.0.wake_channel()) == WAKE_CAPACITY,
            channel::wakes_joined(result.0.wake_channel(), result.1.nudge),
    {
        let ends = channels(COMMAND_CAPACITY, EVENT_CAPACITY, WAKE_CAPACITY);
        let stall_timeout = if config.mode == ReadMode::Stalling {
            Some(config.stall_timeout)
        } else {
            None
        };
        (
            Bridge {
                commands: ends.commands,
                events: ends.events,
                nudge: ends.nudge,
                status: initial_status,
                captures: CaptureCache::new(),
                partial: None,
                desired: Desired { motor: None, target: None },
                selected_port,
                next_write: 1,
                max_cylinders: initial_status.max_cylinders,
                stall_timeout,
            },
            WorkerEnds {
                commands: ends.command_exit,
                events: ends.event_entry,
                nudge: ends.nudge_exit,
            },
        )
    }

    /// The channel the worker takes commands from.
    pub closed spec fn command_channel(self) -> Sender<Command> {
        self.commands
    }

    /// The channel the worker's events come out of.
    pub closed spec fn event_channel(self) -> Receiver<BridgeEvent> {
        self.events
    }

    /// The channel that wakes the worker.
    pub closed spec fn wake_channel(self) -> Sender<()> {
        self.nudge
    }

    /// Returns the channel the worker takes commands from, on which its owner
    /// asks it to stop.
    pub fn command_sender(&self) -> (sender: &Sender<Command>)
        ensures
            *sender == self.command_channel(),
            channel::command_limit(*sender) == self@.command_limit,
            channel::command_exits(*sender) == self@.command_exits,
    {
        &self.commands
    }

    /// Wakes the worker so a fresh wish is seen now rather than at the end of
    /// its poll interval. A full slot already means a wake-up is on its way.
    fn nudge(&mut self)
        ensures
            final(self)@ == old(self)@.woken(),
            old(self).wf() ==> final(self).wf(),
    {
        wake(&mut self.nudge);
        assert(self@.wake_exits == old(self)@.wake_exits);
    }

    /// Hands a command to the worker.
    fn enqueue(&mut self, command: Command) -> (result: Result<()>)
        ensures
            old(self).wf() ==> final(self).wf(),
            match result {
                Ok(()) => final(self)@ == old(self)@.having_sent(command@),
                Err(error) => is_undelivered(error@) && final(self)@ == old(self)@,
            },
    {
        let delivery = offer(&mut self.commands, command);
        assert(self@.command_exits == old(self)@.command_exits);
        queued(delivery)
    }

    /// Returns the port selected during open.
    pub fn selected_port(&self) -> (port: &PortId)
        ensures
            port@ == self@.selected_port,
    {
        &self.selected_port
    }

    /// Returns the latest nonblocking drive-state snapshot.
    pub fn status(&self) -> (status: DriveStatus)
        ensures
            status == self@.status,
    {
        self.status
    }

    /// Returns the caller's latest wish.
    pub fn desired(&self) -> (desired: Desired)
        ensures
            desired == self@.desired,
    {
        self.desired
    }

    /// Returns how long a read may wait, in nanoseconds, if it may.
    pub fn stall_timeout(&self) -> (timeout: Option<u64>)
        ensures
            timeout == self@.stall_timeout,
    {
        self.stall_timeout
    }

    /// Records the desired motor state, applied by the worker as its next act.
    ///
    /// State rather than a command: an emulated machine toggles the motor as
    /// often as its guest pleases, and only the latest wish can matter to a
    /// physical spindle. Cannot fail and cannot be lost.
    pub fn set_motor(&mut self, side: Side, enabled: bool) -> (result: Result<()>)
        ensures
            result is Ok,
            final(self)@ == (BridgeView {
                desired: Desired { motor: Some((side, enabled)), ..old(self)@.desired },
                ..old(self)@.woken()
            }),
            old(self).wf() ==> final(self).wf(),
    {
        self.desired.motor = Some((side, enabled));
        self.nudge();
        Ok(())
    }

    /// Records where the head should be, clamped to the physical mechanism.
    ///
    /// State rather than a command, so a guest stepping every three
    /// milliseconds steers the head without replaying its whole journey: the
    /// worker moves to wherever the head belongs now, not through every
    /// cylinder it was ever asked for on the way.
    pub fn seek(&mut self, track: TrackAddress) -> (result: Result<()>)
        ensures
            result is Ok,
            final(self)@ == old(self)@.aimed(track).woken(),
            old(self).wf() ==> final(self).wf(),
    {
        self.desired.target = Some(clamp_track(track, self.max_cylinders));
        self.nudge();
        Ok(())
    }

    /// Requests the no-click step used by track-zero disk-change detection.
    ///
    /// Whether the request is queued depends on the worker: the only failures
    /// are a full queue and a worker that has stopped.
    pub fn no_click_step(&mut self, side: Side) -> (result: Result<()>)
        ensures
            old(self).wf() ==> final(self).wf(),
            match result {
                Ok(()) => final(self)@ == old(self)@.having_sent(CommandView::NoClick(side)),
                Err(error) => is_undelivered(error@) && final(self)@ == old(self)@,
            },
    {
        self.enqueue(Command::NoClick(side))
    }

    /// Returns the oldest unretired capture of a track, if one is ready, and
    /// asks for the track.
    pub fn read_track(&mut self, track: TrackAddress) -> (result: Result<Option<TrackCapture>>)
        ensures
            old(self).wf() ==> final(self).wf(),
            match cache::front_of(
                old(self)@.captures,
                device::clamped(track, old(self)@.max_cylinders),
            ) {
                Some(held) => {
                    &&& result matches Ok(Some(capture))
                    &&& capture@ == held
                    &&& final(self)@ == old(self)@.aimed(track)
                },
                None => {
                    &&& result matches Ok(None)
                    &&& final(self)@ == old(self)@.aimed(track).woken()
                },
            },
    {
        let track = clamp_track(track, self.max_cylinders);
        self.desired.target = Some(track);
        match self.captures.front(track) {
            Some(capture) => {
                return Ok(Some(capture.clone()));
            },
            None => {},
        }
        // A miss means someone is actively waiting on this track: worth waking
        // the worker for, where a hit needed nothing from it.
        self.nudge();
        Ok(None)
    }

    /// Decides how a read that may wait goes on.
    pub fn stall_step(&self, track: TrackAddress) -> (step: StallStep)
        ensures
            match cache::front_of(
                self@.captures,
                device::clamped(track, self@.max_cylinders),
            ) {
                Some(held) => step matches StallStep::Ready(capture) && capture@ == held,
                None => if self@.status.working {
                    step == StallStep::Wait
                } else {
                    step == StallStep::Stopped
                },
            },
    {
        match self.captures.front(clamp_track(track, self.max_cylinders)) {
            Some(capture) => StallStep::Ready(capture.clone()),
            None => if self.status.working {
                StallStep::Wait
            } else {
                StallStep::Stopped
            },
        }
    }

    /// Whether a read that has waited for some nanoseconds must give up: it may
    /// wait for less than the timeout, and only on a stalling bridge.
    pub open spec fn exhausted(view: BridgeView, waited: u64) -> bool {
        match view.stall_timeout {
            Some(timeout) => waited >= timeout,
            None => true,
        }
    }

    /// Decides how a read that has waited for some nanoseconds goes on.
    pub fn stall_after(&self, track: TrackAddress, waited: u64) -> (step: StallStep)
        ensures
            if Bridge::exhausted(self@, waited) {
                step == StallStep::GiveUp
            } else {
                match cache::front_of(
                    self@.captures,
                    device::clamped(track, self@.max_cylinders),
                ) {
                    Some(held) => step matches StallStep::Ready(capture) && capture@ == held,
                    None => if self@.status.working {
                        step == StallStep::Wait
                    } else {
                        step == StallStep::Stopped
                    },
                }
            },
    {
        match self.stall_timeout {
            Some(timeout) if waited < timeout => self.stall_step(track),
            _ => StallStep::GiveUp,
        }
    }

    /// Returns the revolution of a track as far as the head has read it, while
    /// its capture is still arriving.
    pub fn partial_track(&self, track: TrackAddress) -> (partial: Option<TrackCapture>)
        ensures
            match self@.partial {
                Some((arriving, held)) => if arriving == device::clamped(
                    track,
                    self@.max_cylinders,
                ) {
                    partial matches Some(capture) && capture@ == held
                } else {
                    partial is None
                },
                None => partial is None,
            },
    {
        match &self.partial {
            Some((arriving, capture)) => if *arriving == clamp_track(track, self.max_cylinders) {
                Some(capture.clone())
            } else {
                None
            },
            None => None,
        }
    }

    /// Retires a consumed capture so a later read can return fresh flux.
    ///
    /// The worker refills any track below its capture depth on its own; naming
    /// the track keeps the head there while it does.
    pub fn advance_revolution(&mut self, track: TrackAddress) -> (result: Result<()>)
        requires
            old(self).wf(),
        ensures
            final(self).wf(),
            result is Ok,
            final(self)@ == old(self)@.retired(track),
    {
        let track = clamp_track(track, self.max_cylinders);
        self.captures.retire(track);
        self.desired.target = Some(track);
        self.nudge();
        Ok(())
    }

    /// Checks and numbers a write.
    ///
    /// A write that is refused is not numbered.
    pub fn prepare_write(&mut self, request: WriteRequest) -> (result: Result<(WriteId, Command)>)
        ensures
            old(self).wf() ==> final(self).wf(),
            match old(self)@.write_problem(request) {
                Some(expected) => {
                    &&& final(self)@ == old(self)@
                    &&& result matches Err(error)
                    &&& error@ == expected
                },
                None => {
                    &&& final(self)@ == BridgeView {
                        next_write: following(old(self)@.next_write),
                        ..old(self)@
                    }
                    &&& result matches Ok((id, Command::Write { id: sent, request: placed }))
                    &&& id.value() == old(self)@.next_write
                    &&& sent == id
                    &&& placed.track == device::clamped(
                        request.track,
                        old(self)@.max_cylinders,
                    )
                    &&& placed.words == request.words
                    &&& placed.bit_len == request.bit_len
                    &&& placed.start_bit == request.start_bit
                },
            },
    {
        let track = clamp_track(request.track, self.max_cylinders);
        let WriteRequest { track: _, words, bit_len, start_bit } = request;
        if words.len() == 0 {
            return Err(Error::InvalidConfig("cannot submit an empty write".to_owned()));
        }
        if words.len() > usize::MAX / 16 {
            return Err(Error::InvalidConfig("write length overflow".to_owned()));
        }
        if bit_len == 0 || !bits_fit(words.len(), bit_len) {
            let mut message = "write bit length ".to_owned();
            append_decimal(&mut message, bit_len as u64);
            message.append(" does not fit ");
            append_decimal(&mut message, words.len() as u64);
            message.append(" words");
            return Err(Error::InvalidConfig(message));
        }
        if bit_len > MAX_TRACK_BITS {
            return Err(Error::TrackTooLarge { bits: bit_len, limit: MAX_TRACK_BITS });
        }
        if self.status.write_protected {
            return Err(Error::WriteProtected);
        }
        let known_track_bits = match self.captures.front(track) {
            Some(capture) => capture.bit_len(),
            None => 0,
        };
        if known_track_bits > 0 {
            match place_write(start_bit, bit_len, known_track_bits) {
                Ok(_) => {},
                Err(error) => return Err(error),
            }
        }
        let id = WriteId::numbered(self.next_write);
        self.next_write = if self.next_write == u64::MAX {
            1
        } else {
            self.next_write + 1
        };
        Ok((id, Command::Write { id, request: WriteRequest { track, words, bit_len, start_bit } }))
    }

    /// Accepts a validated asynchronous write and returns its identifier.
    ///
    /// Completion or failure is delivered by [`Self::poll_event`]. Whether a
    /// valid write is queued depends on the worker.
    pub fn submit_write(&mut self, request: WriteRequest) -> (result: Result<WriteId>)
        ensures
            old(self).wf() ==> final(self).wf(),
            match old(self)@.write_problem(request) {
                Some(expected) => {
                    &&& final(self)@ == old(self)@
                    &&& result matches Err(error)
                    &&& error@ == expected
                },
                None => {
                    let numbered = BridgeView {
                        next_write: following(old(self)@.next_write),
                        ..old(self)@
                    };
                    match result {
                        Ok(id) => {
                            &&& id.value() == old(self)@.next_write
                            &&& final(self)@ == numbered.having_sent(
                                old(self)@.write_command(id, request),
                            )
                        },
                        Err(error) => is_undelivered(error@) && final(self)@ == numbered,
                    }
                },
            },
    {
        match self.prepare_write(request) {
            Ok((id, command)) => match self.enqueue(command) {
                Ok(()) => Ok(id),
                Err(error) => Err(error),
            },
            Err(error) => Err(error),
        }
    }

    /// Takes the caller's latest wish.
    pub fn take_wish(&mut self) -> (wish: Desired)
        ensures
            wish == old(self)@.desired,
            final(self)@ == (BridgeView {
                desired: Desired { motor: None, target: None },
                ..old(self)@
            }),
            old(self).wf() ==> final(self).wf(),
    {
        let wish = self.desired;
        self.desired = Desired { motor: None, target: None };
        wish
    }

    /// Hands back a motor wish that was not acted on; a newer one counts
    /// instead.
    pub fn return_motor_wish(&mut self, motor: Option<(Side, bool)>)
        ensures
            final(self)@ == (BridgeView {
                desired: Desired {
                    motor: if old(self)@.desired.motor is None {
                        motor
                    } else {
                        old(self)@.desired.motor
                    },
                    ..old(self)@.desired
                },
                ..old(self)@
            }),
            old(self).wf() ==> final(self).wf(),
    {
        if self.desired.motor.is_none() {
            self.desired.motor = motor;
        }
    }

    /// Publishes a capture that is still arriving.
    pub fn publish_partial(&mut self, track: TrackAddress, capture: TrackCapture)
        ensures
            final(self)@ == (BridgeView { partial: Some((track, capture@)), ..old(self)@ }),
            old(self).wf() ==> final(self).wf(),
    {
        self.partial = Some((track, capture));
    }

    /// Withdraws the capture that was arriving.
    pub fn withdraw_partial(&mut self)
        ensures
            final(self)@ == (BridgeView { partial: None, ..old(self)@ }),
            old(self).wf() ==> final(self).wf(),
    {
        self.partial = None;
    }

    /// Replaces the drive-state snapshot.
    pub(crate) fn set_status(&mut self, status: DriveStatus)
        ensures
            final(self)@ == (BridgeView { status, ..old(self)@ }),
            old(self).wf() ==> final(self).wf(),
    {
        self.status = status;
    }

    /// The capture cache.
    pub(crate) fn cache(&self) -> (cache: &CaptureCache)
        ensures
            cache@ == self@.captures,
            self.wf() ==> cache.wf(),
    {
        &self.captures
    }

    /// Forgets the captures of a track.
    pub(crate) fn forget_track(&mut self, track: TrackAddress)
        requires
            old(self).wf(),
        ensures
            final(self).wf(),
            final(self)@ == (BridgeView {
                captures: old(self)@.captures.remove(track),
                ..old(self)@
            }),
    {
        self.captures.remove(track);
    }

    /// Forgets every capture.
    pub(crate) fn forget_all(&mut self)
        ensures
            final(self).wf(),
            final(self)@ == (BridgeView { captures: Map::empty(), ..old(self)@ }),
    {
        self.captures.clear();
    }

    /// Keeps a capture of a track.
    pub(crate) fn keep(&mut self, track: TrackAddress, capture: TrackCapture, target: TrackAddress)
        requires
            old(self).wf(),
        ensures
            final(self).wf(),
            cache::stored(
                old(self)@.captures,
                final(self)@.captures,
                track,
                capture@,
                target,
            ),
            final(self)@ == (BridgeView {
                captures: final(self)@.captures,
                ..old(self)@
            }),
    {
        self.captures.store(track, capture, target);
    }

    /// Returns the next pending event without blocking.
    ///
    /// Whether there is one, and what it is, depends on the worker. Every event
    /// taken from the worker is handed to the caller.
    pub fn poll_event(&mut self) -> (event: Option<BridgeEvent>)
        ensures
            old(self).wf() ==> final(self).wf(),
            match event {
                Some(given) => final(self)@ == old(self)@.having_polled(given@),
                None => final(self)@ == old(self)@,
            },
    {
        let event = take(&mut self.events);
        assert(self@.event_entries == old(self)@.event_entries);
        event
    }
}

/// Wishes are state: after any two wishes for the head the latest alone counts,
/// and a wish for the motor leaves the head's alone.
pub proof fn law_latest_wish_counts(
    bridge: BridgeView,
    first: TrackAddress,
    second: TrackAddress,
)
    ensures
        bridge.aimed(first).aimed(second) == bridge.aimed(second),
        bridge.aimed(second).desired.motor == bridge.desired.motor,
{
}

/// Write numbers are never zero and follow one another.
pub proof fn law_write_numbers_advance(number: u64)
    ensures
        following(number) != 0,
        number < u64::MAX ==> following(number) == number + 1,
{
}

} // verus!
