//! DrawBridge/Arduino Reader Writer protocol.

use vstd::prelude::*;

pub mod gaps;
pub mod laws;
pub mod stream;

use self::stream::{encode_dd, encode_hd, StreamDecoder};
use super::bytes;
use super::bytes::{append_be16, flag};
use super::{firmware_before, validate_capture, LineStep, RawCapture};
use crate::device;
use crate::error::{Error, ErrorView, Result};
use crate::flux::{bits_to_unaligned_revolution, overlap, pack_bits, packed, MAX_TRACK_BITS};
use crate::text;
use crate::text::{append_decimal, append_hex_byte};
use crate::types::{BridgeConfig, DensityMode, DriveStatus, DriveType, ReadMode, Side};

verus! {

/// Serial speed of the interface.
pub const BAUD: u32 = 2_000_000;

/// How long the version request and its answer may each take, in
/// milliseconds.
pub const VERSION_TIMEOUT_MS: u64 = 1_000;

/// How long the interface is held in reset, in milliseconds.
pub const RESET_PULSE_MS: u64 = 10;

/// How long the interface takes to start after a reset, in milliseconds.
pub const RESET_SETTLE_MS: u64 = 150;

/// First cylinder written with precompensation.
pub const PRECOMPENSATED_FROM: u8 = 40;

/// A command of the interface that is answered with `1` or `0`.
#[derive(Debug, Clone, Copy, PartialEq, Eq, Structural)]
pub enum Command {
    /// Report features.
    Features,
    /// Step to cylinder zero.
    Rewind,
    /// Detect the media density.
    DetectDensity,
    /// Use high density.
    HighDensity,
    /// Use double density.
    DoubleDensity,
    /// Stream the track under the head.
    StreamTrack,
    /// Write a high-density track.
    WriteHigh,
    /// Write a double-density track.
    WriteDouble,
    /// Switch the motor on without waiting for the spindle.
    MotorQuick,
    /// Switch the motor on.
    MotorOn,
    /// Switch the motor off.
    MotorOff,
    /// Select the lower side.
    LowerSide,
    /// Select the upper side.
    UpperSide,
    /// Step outwards from cylinder zero.
    NoClick,
}

impl Command {
    /// The byte of a command on the wire.
    pub open spec fn opcode(self) -> u8 {
        match self {
            Command::Features => 0x40,
            Command::Rewind => 0x2e,
            Command::DetectDensity => 0x54,
            Command::HighDensity => 0x48,
            Command::DoubleDensity => 0x44,
            Command::StreamTrack => 0x7b,
            Command::WriteHigh => 0x3e,
            Command::WriteDouble => 0x7d,
            Command::MotorQuick => 0x2a,
            Command::MotorOn => 0x2b,
            Command::MotorOff => 0x2d,
            Command::LowerSide => 0x5b,
            Command::UpperSide => 0x5d,
            Command::NoClick => 0x4f,
        }
    }

    /// Returns the byte of this command on the wire.
    pub fn code(self) -> (code: u8)
        ensures
            code == self.opcode(),
    {
        match self {
            Command::Features => 0x40,
            Command::Rewind => 0x2e,
            Command::DetectDensity => 0x54,
            Command::HighDensity => 0x48,
            Command::DoubleDensity => 0x44,
            Command::StreamTrack => 0x7b,
            Command::WriteHigh => 0x3e,
            Command::WriteDouble => 0x7d,
            Command::MotorQuick => 0x2a,
            Command::MotorOn => 0x2b,
            Command::MotorOff => 0x2d,
            Command::LowerSide => 0x5b,
            Command::UpperSide => 0x5d,
            Command::NoClick => 0x4f,
        }
    }

    /// The character of a command in quotation marks.
    pub open spec fn quoted(self) -> Seq<char> {
        match self {
            Command::Features => "'@'"@,
            Command::Rewind => "'.'"@,
            Command::DetectDensity => "'T'"@,
            Command::HighDensity => "'H'"@,
            Command::DoubleDensity => "'D'"@,
            Command::StreamTrack => "'{'"@,
            Command::WriteHigh => "'>'"@,
            Command::WriteDouble => "'}'"@,
            Command::MotorQuick => "'*'"@,
            Command::MotorOn => "'+'"@,
            Command::MotorOff => "'-'"@,
            Command::LowerSide => "'['"@,
            Command::UpperSide => "']'"@,
            Command::NoClick => "'O'"@,
        }
    }

    /// Returns the character of this command in quotation marks.
    pub fn name(self) -> (name: &'static str)
        ensures
            name@ == self.quoted(),
    {
        match self {
            Command::Features => "'@'",
            Command::Rewind => "'.'",
            Command::DetectDensity => "'T'",
            Command::HighDensity => "'H'",
            Command::DoubleDensity => "'D'",
            Command::StreamTrack => "'{'",
            Command::WriteHigh => "'>'",
            Command::WriteDouble => "'}'",
            Command::MotorQuick => "'*'",
            Command::MotorOn => "'+'",
            Command::MotorOff => "'-'",
            Command::LowerSide => "'['",
            Command::UpperSide => "']'",
            Command::NoClick => "'O'",
        }
    }
}

/// A protocol error that names an unexpected byte.
pub open spec fn unexpected(message: Seq<char>, byte: u8) -> ErrorView {
    ErrorView::Protocol(message + text::hex_byte(byte as int))
}

/// Builds a protocol error that names an unexpected byte.
fn unexpected_byte(message: &str, byte: u8) -> (error: Error)
    ensures
        error@ == unexpected(message@, byte),
{
    let mut detail = message.to_owned();
    append_hex_byte(&mut detail, byte);
    Error::Protocol(detail)
}

/// What a response to a command means, if it is not success.
pub open spec fn response_error(command: Command, response: u8) -> Option<ErrorView> {
    if response == 0x31 {
        None
    } else if response == 0x30 {
        Some(ErrorView::Protocol("DrawBridge rejected command "@ + command.quoted()))
    } else {
        Some(unexpected("DrawBridge returned unexpected response "@, response))
    }
}

/// Turns a response to a command into a result.
pub fn check_response(command: Command, response: u8) -> (result: Result<()>)
    ensures
        match response_error(command, response) {
            Some(expected) => result matches Err(error) && error@ == expected,
            None => result is Ok,
        },
{
    if response == 0x31 {
        Ok(())
    } else if response == 0x30 {
        let mut message = "DrawBridge rejected command ".to_owned();
        message.append(command.name());
        Err(Error::Protocol(message))
    } else {
        Err(unexpected_byte("DrawBridge returned unexpected response ", response))
    }
}

/// The request that stops whatever runs and asks for the version: `xR?`.
pub fn version_request() -> (request: Vec<u8>)
    ensures
        request@ == seq![0x78u8, 0x52u8, 0x3fu8],
{
    let request: Vec<u8> = vec![0x78, 0x52, 0x3f];
    request
}

/// The request for the disk state, which [`DrawBridge::disk_report`] takes: `^`.
pub fn disk_request() -> (request: Vec<u8>)
    ensures
        request@ == seq![0x5eu8],
{
    let request: Vec<u8> = vec![0x5e];
    request
}

/// The request that stops a stream, whose end [`StopScan`] finds: `x`.
pub fn stop_request() -> (request: Vec<u8>)
    ensures
        request@ == seq![0x78u8],
{
    let request: Vec<u8> = vec![0x78];
    request
}

/// Scans for the version signature: `1V`, a digit, a full stop or comma, and a
/// digit.
#[derive(Debug)]
pub struct VersionScan {
    first: u8,
    second: u8,
    third: u8,
    fourth: u8,
}

impl View for VersionScan {
    type V = Seq<u8>;

    closed spec fn view(&self) -> Seq<u8> {
        seq![self.first, self.second, self.third, self.fourth]
    }
}

/// Whether a byte is a decimal digit.
pub open spec fn is_digit(byte: u8) -> bool {
    0x30 <= byte <= 0x39
}

/// What a version signature says.
#[derive(Debug, Clone, Copy, PartialEq, Eq, Structural)]
pub struct Version {
    /// Major firmware number.
    pub major: u8,
    /// Minor firmware number.
    pub minor: u8,
    /// Whether the firmware controls every drive line.
    pub full_control: bool,
}

impl VersionScan {
    /// Starts with nothing received.
    pub fn new() -> (scan: VersionScan)
        ensures
            scan@ == seq![0u8, 0u8, 0u8, 0u8],
    {
        VersionScan { first: 0, second: 0, third: 0, fourth: 0 }
    }

    /// The version that a byte after the last four completes.
    pub open spec fn signature(window: Seq<u8>, byte: u8) -> Option<Version> {
        if window[0] == 0x31 && window[1] == 0x56 && is_digit(window[2]) && (window[3] == 0x2e
            || window[3] == 0x2c) && is_digit(byte) {
            Some(
                Version {
                    major: (window[2] - 0x30) as u8,
                    minor: (byte - 0x30) as u8,
                    full_control: window[3] == 0x2c,
                },
            )
        } else {
            None
        }
    }

    /// Takes one byte; returns the version once its signature is complete.
    pub fn push(&mut self, byte: u8) -> (version: Option<Version>)
        ensures
            final(self)@ == old(self)@.drop_first().push(byte),
            version == VersionScan::signature(old(self)@, byte),
    {
        let ghost window = self@;
        let version = if self.first == 0x31 && self.second == 0x56 && 0x30 <= self.third
            && self.third <= 0x39 && (self.fourth == 0x2e || self.fourth == 0x2c) && 0x30 <= byte
            && byte <= 0x39 {
            Some(
                Version {
                    major: self.third - 0x30,
                    minor: byte - 0x30,
                    full_control: self.fourth == 0x2c,
                },
            )
        } else {
            None
        };
        self.first = self.second;
        self.second = self.third;
        self.third = self.fourth;
        self.fourth = byte;
        assert(self@ == window.drop_first().push(byte));
        version
    }
}

/// Scans for the acknowledgement that ends a stopped stream: `XYZx1`.
#[derive(Debug)]
pub struct StopScan {
    first: u8,
    second: u8,
    third: u8,
    fourth: u8,
}

impl View for StopScan {
    type V = Seq<u8>;

    closed spec fn view(&self) -> Seq<u8> {
        seq![self.first, self.second, self.third, self.fourth]
    }
}

impl StopScan {
    /// Starts with nothing received.
    pub fn new() -> (scan: StopScan)
        ensures
            scan@ == seq![0u8, 0u8, 0u8, 0u8],
    {
        StopScan { first: 0, second: 0, third: 0, fourth: 0 }
    }

    /// Takes one byte; returns whether the acknowledgement is complete.
    pub fn push(&mut self, byte: u8) -> (ended: bool)
        ensures
            final(self)@ == old(self)@.drop_first().push(byte),
            ended == (old(self)@.push(byte) == seq![0x58u8, 0x59u8, 0x5au8, 0x78u8, 0x31u8]),
    {
        let ghost window = self@;
        let ended = self.first == 0x58 && self.second == 0x59 && self.third == 0x5a && self.fourth
            == 0x78 && byte == 0x31;
        proof {
            let whole = window.push(byte);
            assert(whole[0] == self.first && whole[1] == self.second && whole[2] == self.third
                && whole[3] == self.fourth && whole[4] == byte);
            if ended {
                assert(whole == seq![0x58u8, 0x59u8, 0x5au8, 0x78u8, 0x31u8]);
            }
        }
        self.first = self.second;
        self.second = self.third;
        self.third = self.fourth;
        self.fourth = byte;
        assert(self@ == window.drop_first().push(byte));
        ended
    }
}

/// What a successful command changes, and what its further replies mean.
#[derive(Debug, Clone, Copy, PartialEq, Eq, Structural)]
pub enum Effect {
    /// Nothing.
    Nothing,
    /// Three replies hold the feature flags and the build number.
    Features,
    /// One reply tells the media density.
    DensityReply,
    /// A density is in use.
    Density(bool),
    /// The motor runs, or not.
    MotorRunning(bool),
    /// A side is selected.
    Surface(Side),
    /// Two replies tell about disk and write protection.
    NoClick,
    /// One reply grants or refuses a write.
    Permission,
}

impl Effect {
    /// Replies that follow the response.
    pub open spec fn replies(self) -> nat {
        match self {
            Effect::Features => 3,
            Effect::NoClick => 2,
            Effect::DensityReply | Effect::Permission => 1,
            _ => 0,
        }
    }

    /// Returns how many replies follow the response.
    pub fn reply_count(self) -> (count: usize)
        ensures
            count == self.replies(),
    {
        match self {
            Effect::Features => 3,
            Effect::NoClick => 2,
            Effect::DensityReply | Effect::Permission => 1,
            _ => 0,
        }
    }

    /// Names the wait for one of the replies.
    pub fn reply_operation(self, at: usize) -> (operation: &'static str)
        ensures
            operation@ == match self {
                Effect::DensityReply => "DrawBridge density response"@,
                Effect::Permission => "DrawBridge write permission"@,
                Effect::NoClick => if at == 0 {
                    "DrawBridge no-click disk status"@
                } else {
                    "DrawBridge no-click write-protect status"@
                },
                _ => "DrawBridge feature flags"@,
            },
    {
        match self {
            Effect::DensityReply => "DrawBridge density response",
            Effect::Permission => "DrawBridge write permission",
            Effect::NoClick => if at == 0 {
                "DrawBridge no-click disk status"
            } else {
                "DrawBridge no-click write-protect status"
            },
            _ => "DrawBridge feature flags",
        }
    }
}

/// One command and what its success changes.
#[derive(Debug, Clone, Copy, PartialEq, Eq, Structural)]
pub struct Step {
    /// Command to send.
    pub command: Command,
    /// What success changes.
    pub effect: Effect,
}

/// State of an open DrawBridge.
#[derive(Debug, Clone, Copy, PartialEq, Eq, Structural)]
pub struct DrawBridge {
    /// Drive state as last observed.
    pub status: DriveStatus,
    /// Major firmware number.
    pub major: u8,
    /// Minor firmware number.
    pub minor: u8,
    /// Firmware build number.
    pub build: u8,
    /// Feature flags.
    pub flags: u8,
    /// Whether the firmware controls every drive line.
    pub full_control: bool,
    /// Whether high density is in use.
    pub high_density: bool,
    /// Whether high density is to be used for the next transfer.
    pub wanted_high: bool,
}

/// The mechanism a density needs.
pub open spec fn mechanism(high_density: bool) -> DriveType {
    if high_density {
        DriveType::Hd35
    } else {
        DriveType::Dd35
    }
}

/// What comes after the first reply to a seek.
#[derive(Debug, Clone, Copy, PartialEq, Eq, Structural)]
pub enum SeekReply {
    /// The head has arrived.
    Arrived,
    /// The head has arrived; disk and write-protect replies follow.
    StatusFollows,
}

impl DrawBridge {
    /// The state of an interface whose firmware is known.
    pub open spec fn fresh(version: Version, density: DensityMode) -> DrawBridge {
        DrawBridge {
            status: DriveStatus { max_cylinders: 84, ..DriveStatus::assumed() },
            major: version.major,
            minor: version.minor,
            build: 0,
            flags: 0,
            full_control: version.full_control,
            high_density: density == DensityMode::High,
            wanted_high: density == DensityMode::High,
        }
    }

    /// Prepares the state of an interface, once its firmware is known to be
    /// usable.
    pub fn new(version: Version, config: &BridgeConfig) -> (result: Result<DrawBridge>)
        ensures
            if device::older((version.major, version.minor), (1, 8)) {
                result matches Err(error) && error@ == ErrorView::UnsupportedFirmware(
                    "DrawBridge firmware "@ + text::decimal(version.major as nat) + "."@
                        + text::decimal(version.minor as nat)
                        + "; version 1.8 or later is required"@,
                )
            } else {
                result == Ok::<DrawBridge, Error>(DrawBridge::fresh(version, config.density))
            },
    {
        if firmware_before((version.major, version.minor), (1, 8)) {
            let mut message = "DrawBridge firmware ".to_owned();
            append_decimal(&mut message, version.major as u64);
            message.append(".");
            append_decimal(&mut message, version.minor as u64);
            message.append("; version 1.8 or later is required");
            return Err(Error::UnsupportedFirmware(message));
        }
        let mut status = DriveStatus::default();
        status.max_cylinders = 84;
        let high_density = config.density == DensityMode::High;
        Ok(
            DrawBridge {
                status,
                major: version.major,
                minor: version.minor,
                build: 0,
                flags: 0,
                full_control: version.full_control,
                high_density,
                wanted_high: high_density,
            },
        )
    }

    /// Plans a reset of an interface that did not answer: both lines low, then
    /// high again, and time to start.
    pub fn recovery_plan() -> (plan: Vec<LineStep>)
        ensures
            plan@ == seq![
                LineStep::Dtr(false),
                LineStep::Rts(false),
                LineStep::Pause(RESET_PULSE_MS),
                LineStep::Dtr(true),
                LineStep::Rts(true),
                LineStep::Pause(RESET_SETTLE_MS),
                LineStep::Purge,
            ],
    {
        let plan: Vec<LineStep> = vec![
            LineStep::Dtr(false),
            LineStep::Rts(false),
            LineStep::Pause(RESET_PULSE_MS),
            LineStep::Dtr(true),
            LineStep::Rts(true),
            LineStep::Pause(RESET_SETTLE_MS),
            LineStep::Purge,
        ];
        plan
    }

    /// Steps of opening: features, where the firmware reports them, and a
    /// rewind.
    pub open spec fn setup_steps(self) -> Seq<Step> {
        if device::older((self.major, self.minor), (1, 9)) {
            seq![Step { command: Command::Rewind, effect: Effect::Nothing }]
        } else {
            seq![
                Step { command: Command::Features, effect: Effect::Features },
                Step { command: Command::Rewind, effect: Effect::Nothing },
            ]
        }
    }

    /// Plans the rest of opening.
    pub fn setup_plan(&self) -> (plan: Vec<Step>)
        ensures
            plan@ == self.setup_steps(),
    {
        let mut plan: Vec<Step> = Vec::new();
        if !firmware_before((self.major, self.minor), (1, 9)) {
            plan.push(Step { command: Command::Features, effect: Effect::Features });
        }
        plan.push(Step { command: Command::Rewind, effect: Effect::Nothing });
        assert(plan@ == self.setup_steps());
        plan
    }

    /// Takes note that opening has succeeded.
    pub fn opened(&mut self)
        ensures
            *final(self) == (DrawBridge {
                status: DriveStatus {
                    cylinder: 0,
                    working: true,
                    drive_type: mechanism(old(self).high_density),
                    ..old(self).status
                },
                ..*old(self)
            }),
    {
        self.status.cylinder = 0;
        self.status.working = true;
        self.status.drive_type = if self.high_density {
            DriveType::Hd35
        } else {
            DriveType::Dd35
        };
    }

    /// Why the replies to a successful command are not acceptable, if they are
    /// not.
    pub open spec fn reply_problem(effect: Effect, replies: Seq<u8>) -> Option<ErrorView> {
        match effect {
            Effect::DensityReply => if replies[0] == 0x48 || replies[0] == 0x44 || replies[0]
                == 0x78 {
                None
            } else {
                Some(unexpected("DrawBridge returned invalid density "@, replies[0]))
            },
            Effect::Permission => if replies[0] == 0x59 {
                None
            } else if replies[0] == 0x4e {
                Some(ErrorView::WriteProtected)
            } else {
                Some(unexpected("DrawBridge returned invalid write permission "@, replies[0]))
            },
            _ => None,
        }
    }

    /// The status after disk and write-protect replies; an `x` leaves the disk
    /// state as it was.
    pub open spec fn with_disk_replies(self, disk: u8, protected: u8) -> DrawBridge {
        DrawBridge {
            status: DriveStatus {
                disk_present: if disk == 0x78 {
                    self.status.disk_present
                } else {
                    disk == 0x31
                },
                write_protected: protected == 0x31,
                ..self.status
            },
            ..self
        }
    }

    /// The state after a successful command and its replies.
    pub open spec fn after(self, effect: Effect, replies: Seq<u8>) -> DrawBridge {
        match effect {
            Effect::Nothing => self,
            Effect::Features => DrawBridge {
                flags: replies[0],
                build: replies[2],
                ..self
            },
            Effect::DensityReply => if replies[0] == 0x48 {
                DrawBridge { wanted_high: true, ..self }
            } else if replies[0] == 0x44 {
                DrawBridge { wanted_high: false, ..self }
            } else if replies[0] == 0x78 {
                DrawBridge {
                    wanted_high: false,
                    status: DriveStatus { disk_present: false, ..self.status },
                    ..self
                }
            } else {
                self
            },
            Effect::Density(high_density) => DrawBridge {
                high_density,
                status: DriveStatus { drive_type: mechanism(high_density), ..self.status },
                ..self
            },
            Effect::MotorRunning(motor_running) => DrawBridge {
                status: DriveStatus {
                    motor_running,
                    ready: motor_running && self.status.disk_present,
                    ..self.status
                },
                ..self
            },
            Effect::Surface(side) => DrawBridge {
                status: DriveStatus { side, ..self.status },
                ..self
            },
            Effect::NoClick => self.with_disk_replies(replies[0], replies[1]),
            Effect::Permission => if replies[0] == 0x4e {
                DrawBridge { status: DriveStatus { write_protected: true, ..self.status }, ..self }
            } else {
                self
            },
        }
    }

    /// Takes note of disk and write-protect replies.
    fn note_disk_replies(&mut self, disk: u8, protected: u8)
        ensures
            *final(self) == old(self).with_disk_replies(disk, protected),
    {
        if disk != 0x78 {
            self.status.disk_present = disk == 0x31;
        }
        self.status.write_protected = protected == 0x31;
    }

    /// Takes note of a successful command and its replies.
    pub fn complete(&mut self, effect: Effect, replies: &[u8]) -> (result: Result<()>)
        requires
            replies@.len() == effect.replies(),
        ensures
            *final(self) == old(self).after(effect, replies@),
            match DrawBridge::reply_problem(effect, replies@) {
                Some(expected) => result matches Err(error) && error@ == expected,
                None => result is Ok,
            },
    {
        match effect {
            Effect::Nothing => {},
            Effect::Features => {
                self.flags = replies[0];
                self.build = replies[2];
            },
            Effect::DensityReply => {
                if replies[0] == 0x48 {
                    self.wanted_high = true;
                } else if replies[0] == 0x44 {
                    self.wanted_high = false;
                } else if replies[0] == 0x78 {
                    self.status.disk_present = false;
                    self.wanted_high = false;
                } else {
                    return Err(
                        unexpected_byte("DrawBridge returned invalid density ", replies[0]),
                    );
                }
            },
            Effect::Density(high) => {
                self.high_density = high;
                self.status.drive_type = if high {
                    DriveType::Hd35
                } else {
                    DriveType::Dd35
                };
            },
            Effect::MotorRunning(running) => {
                self.status.motor_running = running;
                self.status.ready = running && self.status.disk_present;
            },
            Effect::Surface(side) => {
                self.status.side = side;
            },
            Effect::NoClick => {
                self.note_disk_replies(replies[0], replies[1]);
            },
            Effect::Permission => {
                if replies[0] == 0x4e {
                    self.status.write_protected = true;
                    return Err(Error::WriteProtected);
                }
                if replies[0] != 0x59 {
                    return Err(
                        unexpected_byte(
                            "DrawBridge returned invalid write permission ",
                            replies[0],
                        ),
                    );
                }
            },
        }
        Ok(())
    }

    /// Whether the firmware can report the disk state.
    pub fn reports_disk(&self) -> (reports: bool)
        ensures
            reports == !device::older((self.major, self.minor), (1, 8)),
    {
        !firmware_before((self.major, self.minor), (1, 8))
    }

    /// The state after a disk report.
    pub open spec fn after_disk_report(self, disk: u8, protected: u8) -> DrawBridge {
        if disk != 0x31 && disk != 0x23 {
            self
        } else {
            DrawBridge {
                status: DriveStatus {
                    disk_present: disk == 0x31,
                    write_protected: if protected == 0x31 {
                        true
                    } else if protected == 0x23 || protected == 0x30 {
                        false
                    } else {
                        self.status.write_protected
                    },
                    ..self.status
                },
                ..self
            }
        }
    }

    /// Takes note of a disk report.
    pub fn disk_report(&mut self, disk: u8, protected: u8) -> (result: Result<()>)
        ensures
            *final(self) == old(self).after_disk_report(disk, protected),
            if disk != 0x31 && disk != 0x23 {
                result matches Err(error) && error@ == unexpected(
                    "DrawBridge returned invalid disk status "@,
                    disk,
                )
            } else {
                result is Ok
            },
    {
        if disk == 0x31 {
            self.status.disk_present = true;
        } else if disk == 0x23 {
            self.status.disk_present = false;
        } else {
            return Err(unexpected_byte("DrawBridge returned invalid disk status ", disk));
        }
        if protected == 0x31 {
            self.status.write_protected = true;
        } else if protected == 0x23 || protected == 0x30 {
            self.status.write_protected = false;
        }
        Ok(())
    }

    /// The drive state to report once the disk state is known.
    pub open spec fn reported(self) -> DriveStatus {
        DriveStatus {
            working: true,
            ready: self.status.motor_running && self.status.disk_present,
            ..self.status
        }
    }

    /// Reports the drive state once the disk state is known.
    pub fn report(&mut self) -> (status: DriveStatus)
        ensures
            status == old(self).reported(),
            *final(self) == (DrawBridge { status: old(self).reported(), ..*old(self) }),
    {
        self.status.working = true;
        self.status.ready = self.status.motor_running && self.status.disk_present;
        self.status
    }

    /// Whether the firmware can detect the media density.
    pub open spec fn detects_density(self) -> bool {
        self.flags / 8 % 2 == 1
    }

    /// Whether a density mode is settled by asking the interface.
    pub open spec fn asks_density(self, density: DensityMode) -> bool {
        density == DensityMode::Auto && self.detects_density()
    }

    /// Plans settling the density of the next transfer.
    pub fn density_plan(&mut self, density: DensityMode) -> (plan: Vec<Step>)
        ensures
            if old(self).asks_density(density) {
                &&& plan@ == seq![
                    Step { command: Command::DetectDensity, effect: Effect::DensityReply },
                ]
                &&& *final(self) == *old(self)
            } else {
                &&& plan@ == Seq::<Step>::empty()
                &&& *final(self) == (DrawBridge {
                    wanted_high: density == DensityMode::High,
                    ..*old(self)
                })
            },
    {
        let mut plan: Vec<Step> = Vec::new();
        if density == DensityMode::Auto && self.flags / 8 % 2 == 1 {
            plan.push(Step { command: Command::DetectDensity, effect: Effect::DensityReply });
            assert(plan@ == seq![
                Step { command: Command::DetectDensity, effect: Effect::DensityReply },
            ]);
        } else {
            self.wanted_high = density == DensityMode::High;
        }
        plan
    }

    /// Steps that bring the settled density into use, if it is not already.
    pub open spec fn density_steps(self) -> Seq<Step> {
        if self.wanted_high == self.high_density {
            Seq::empty()
        } else {
            seq![
                Step {
                    command: if self.wanted_high {
                        Command::HighDensity
                    } else {
                        Command::DoubleDensity
                    },
                    effect: Effect::Density(self.wanted_high),
                },
            ]
        }
    }

    /// Plans bringing the settled density into use.
    pub fn density_change_plan(&self) -> (plan: Vec<Step>)
        ensures
            plan@ == self.density_steps(),
    {
        let mut plan: Vec<Step> = Vec::new();
        if self.wanted_high != self.high_density {
            plan.push(
                Step {
                    command: if self.wanted_high {
                        Command::HighDensity
                    } else {
                        Command::DoubleDensity
                    },
                    effect: Effect::Density(self.wanted_high),
                },
            );
        }
        assert(plan@ == self.density_steps());
        plan
    }

    /// Plans switching the motor; a quick switch does not wait for the spindle.
    pub fn set_motor_plan(enabled: bool, quick: bool) -> (plan: Vec<Step>)
        ensures
            plan@ == seq![
                Step {
                    command: if !enabled {
                        Command::MotorOff
                    } else if quick {
                        Command::MotorQuick
                    } else {
                        Command::MotorOn
                    },
                    effect: Effect::MotorRunning(enabled),
                },
            ],
    {
        let command = if enabled {
            if quick {
                Command::MotorQuick
            } else {
                Command::MotorOn
            }
        } else {
            Command::MotorOff
        };
        let plan: Vec<Step> = vec![Step { command, effect: Effect::MotorRunning(enabled) }];
        assert(plan@ == seq![Step { command, effect: Effect::MotorRunning(enabled) }]);
        plan
    }

    /// Plans selecting a side.
    pub fn select_side_plan(side: Side) -> (plan: Vec<Step>)
        ensures
            plan@ == seq![
                Step {
                    command: if side == Side::Lower {
                        Command::LowerSide
                    } else {
                        Command::UpperSide
                    },
                    effect: Effect::Surface(side),
                },
            ],
    {
        let command = if side == Side::Lower {
            Command::LowerSide
        } else {
            Command::UpperSide
        };
        let plan: Vec<Step> = vec![Step { command, effect: Effect::Surface(side) }];
        assert(plan@ == seq![Step { command, effect: Effect::Surface(side) }]);
        plan
    }

    /// Plans streaming the track under the head.
    pub fn stream_plan() -> (plan: Vec<Step>)
        ensures
            plan@ == seq![Step { command: Command::StreamTrack, effect: Effect::Nothing }],
    {
        let plan: Vec<Step> = vec![
            Step { command: Command::StreamTrack, effect: Effect::Nothing },
        ];
        assert(plan@ == seq![Step { command: Command::StreamTrack, effect: Effect::Nothing }]);
        plan
    }

    /// Plans the step used by track-zero disk-change detection; firmware
    /// without full control has none.
    pub fn no_click_step_plan(&self) -> (plan: Vec<Step>)
        ensures
            plan@ == (if self.full_control {
                seq![Step { command: Command::NoClick, effect: Effect::NoClick }]
            } else {
                Seq::empty()
            }),
    {
        let mut plan: Vec<Step> = Vec::new();
        if self.full_control {
            plan.push(Step { command: Command::NoClick, effect: Effect::NoClick });
            assert(plan@ == seq![Step { command: Command::NoClick, effect: Effect::NoClick }]);
        }
        plan
    }

    /// The bytes of a seek: an equals sign, at least two digits, and a bell.
    pub open spec fn seek_bytes(cylinder: u8) -> Seq<u8> {
        seq![0x3du8] + (if cylinder < 100 {
            Seq::empty()
        } else {
            seq![(0x30 + cylinder / 100) as u8]
        }) + seq![(0x30 + cylinder / 10 % 10) as u8, (0x30 + cylinder % 10) as u8, 7u8]
    }

    /// Frames a seek.
    pub fn seek_request(&self, cylinder: u8) -> (result: Result<Vec<u8>>)
        ensures
            match result {
                Ok(request) => cylinder < self.status.max_cylinders && request@
                    == DrawBridge::seek_bytes(cylinder),
                Err(error) => cylinder >= self.status.max_cylinders && error@
                    == ErrorView::InvalidConfig(
                    "DrawBridge cylinder "@ + text::decimal(cylinder as nat)
                        + " is out of range"@,
                ),
            },
    {
        if cylinder >= self.status.max_cylinders {
            let mut message = "DrawBridge cylinder ".to_owned();
            append_decimal(&mut message, cylinder as u64);
            message.append(" is out of range");
            return Err(Error::InvalidConfig(message));
        }
        let mut request: Vec<u8> = vec![0x3d];
        if cylinder >= 100 {
            request.push(0x30 + cylinder / 100);
        }
        request.push(0x30 + cylinder / 10 % 10);
        request.push(0x30 + cylinder % 10);
        request.push(7);
        assert(request@ == DrawBridge::seek_bytes(cylinder));
        Ok(request)
    }

    /// What the first reply to a seek means.
    pub open spec fn seek_answer(response: u8) -> core::result::Result<SeekReply, ErrorView> {
        if response == 0x32 {
            Ok(SeekReply::Arrived)
        } else if response == 0x31 {
            Ok(SeekReply::StatusFollows)
        } else if response == 0x30 {
            Err(ErrorView::Protocol("DrawBridge seek failed"@))
        } else {
            Err(unexpected("DrawBridge returned invalid seek status "@, response))
        }
    }

    /// Takes the first reply to a seek.
    pub fn seek_reply(&mut self, cylinder: u8, response: u8) -> (result: Result<SeekReply>)
        ensures
            match DrawBridge::seek_answer(response) {
                Ok(reply) => result == Ok::<SeekReply, Error>(reply),
                Err(expected) => result matches Err(error) && error@ == expected,
            },
            *final(self) == (if response == 0x32 {
                DrawBridge { status: DriveStatus { cylinder, ..old(self).status }, ..*old(self) }
            } else {
                *old(self)
            }),
    {
        if response == 0x32 {
            self.status.cylinder = cylinder;
            Ok(SeekReply::Arrived)
        } else if response == 0x31 {
            Ok(SeekReply::StatusFollows)
        } else if response == 0x30 {
            Err(Error::Protocol("DrawBridge seek failed".to_owned()))
        } else {
            Err(unexpected_byte("DrawBridge returned invalid seek status ", response))
        }
    }

    /// Takes the disk and write-protect replies that end a seek.
    pub fn seek_status(&mut self, cylinder: u8, disk: u8, protected: u8)
        ensures
            *final(self) == (DrawBridge {
                status: DriveStatus {
                    cylinder,
                    ..old(self).with_disk_replies(disk, protected).status
                },
                ..*old(self)
            }),
    {
        self.note_disk_replies(disk, protected);
        self.status.cylinder = cylinder;
    }

    /// The cells of the revolution a stream holds, and whether it runs from one
    /// index pulse to the next.
    pub open spec fn received_revolution(
        bits: Seq<bool>,
        indexed: bool,
        mode: ReadMode,
        high_density: bool,
    ) -> core::result::Result<(Seq<bool>, bool), ErrorView> {
        if bits.len() < 64 {
            Err(ErrorView::Protocol("DrawBridge stream did not contain a complete revolution"@))
        } else if mode == ReadMode::Fast {
            match overlap::unaligned_outcome(bits, high_density) {
                Ok(cells) => DrawBridge::within_track(cells, false),
                Err(problem) => Err(problem),
            }
        } else {
            DrawBridge::within_track(bits, indexed)
        }
    }

    /// A revolution that is not longer than a track can be.
    pub open spec fn within_track(
        cells: Seq<bool>,
        index_aligned: bool,
    ) -> core::result::Result<(Seq<bool>, bool), ErrorView> {
        if cells.len() > MAX_TRACK_BITS {
            Err(
                ErrorView::TrackTooLarge {
                    bits: cells.len() as int,
                    limit: MAX_TRACK_BITS as int,
                },
            )
        } else {
            Ok((cells, index_aligned))
        }
    }

    /// Cuts a revolution out of a received stream.
    pub fn extract(&mut self, decoder: &StreamDecoder, mode: ReadMode) -> (result: Result<
        RawCapture,
    >)
        ensures
            match DrawBridge::received_revolution(
                decoder@.bits,
                decoder@.indexed,
                mode,
                old(self).high_density,
            ) {
                Ok(cut) => {
                    &&& result matches Ok(capture)
                    &&& device::holds(capture, cut.0, cut.1)
                    &&& *final(self) == (DrawBridge {
                        status: DriveStatus { disk_present: true, ready: true, ..old(self).status },
                        ..*old(self)
                    })
                },
                Err(expected) => {
                    &&& result matches Err(error)
                    &&& error@ == expected
                    &&& *final(self) == *old(self)
                },
            },
    {
        let bits = decoder.bits();
        if bits.len() < 64 {
            return Err(
                Error::Protocol(
                    "DrawBridge stream did not contain a complete revolution".to_owned(),
                ),
            );
        }
        let capture = if mode == ReadMode::Fast {
            match bits_to_unaligned_revolution(bits, self.high_density) {
                Ok(cells) => {
                    proof {
                        device::lemma_join_in_capture(bits@, self.high_density);
                    }
                    RawCapture {
                        words: pack_bits(&cells),
                        bit_len: cells.len(),
                        index_aligned: false,
                    }
                },
                Err(error) => return Err(error),
            }
        } else {
            RawCapture {
                words: pack_bits(bits),
                bit_len: bits.len(),
                index_aligned: decoder.indexed(),
            }
        };
        match validate_capture(&capture) {
            Ok(()) => {
                self.status.disk_present = true;
                self.status.ready = true;
                Ok(capture)
            },
            Err(error) => Err(error),
        }
    }
}

/// How far a granted write has come.
#[derive(Debug, Clone, Copy, PartialEq, Eq, Structural)]
pub enum WriteStage {
    /// The length of the track is to be sent, where one is.
    Length,
    /// The byte that tells where writing starts is to be sent.
    Alignment,
    /// The interface has to become ready.
    Ready,
    /// The track is to be sent.
    Track,
    /// The interface has to report the result.
    Outcome,
    /// The track is written.
    Written,
}

/// What to do next for a granted write.
#[derive(Debug)]
pub enum WriteAction {
    /// Send the length of the track.
    SendLength(Vec<u8>),
    /// Send the byte that tells where writing starts.
    SendAlignment(u8),
    /// Receive the byte that tells whether the interface is ready.
    ReceiveReady,
    /// Send the track.
    SendTrack,
    /// Receive the byte that tells the result.
    ReceiveOutcome,
    /// Nothing: the track is written.
    Finish,
}

/// A track encoded for writing, and how far it has come.
#[derive(Debug)]
pub struct WriteJob {
    encoded: Vec<u8>,
    high_density: bool,
    bit_len: usize,
    from_index: bool,
    stage: WriteStage,
}

/// A [`WriteJob`] with its bytes as a sequence.
pub struct WriteJobView {
    /// The encoded track.
    pub encoded: Seq<u8>,
    /// Whether it is a high-density one.
    pub high_density: bool,
    /// Meaningful bits of the track.
    pub bit_len: int,
    /// Whether writing starts at the index pulse.
    pub from_index: bool,
    /// How far the write has come.
    pub stage: WriteStage,
}

impl View for WriteJob {
    type V = WriteJobView;

    closed spec fn view(&self) -> WriteJobView {
        WriteJobView {
            encoded: self.encoded@,
            high_density: self.high_density,
            bit_len: self.bit_len as int,
            from_index: self.from_index,
            stage: self.stage,
        }
    }
}

impl WriteJobView {
    /// The same write at another stage.
    pub open spec fn at(self, stage: WriteStage) -> WriteJobView {
        WriteJobView { stage, ..self }
    }

    /// The stage of the next action: a high-density track has no length.
    pub open spec fn acting(self) -> WriteStage {
        if self.stage == WriteStage::Length && self.high_density {
            WriteStage::Alignment
        } else {
            self.stage
        }
    }

    /// Whether the length of the track is to be sent and does not fit two
    /// bytes.
    pub open spec fn oversized(self) -> bool {
        self.acting() == WriteStage::Length && self.encoded.len() > 0xffff
    }

    /// The write once its next action is under way; an answer is still waited
    /// for.
    pub open spec fn advanced(self) -> WriteJobView {
        match self.acting() {
            WriteStage::Length => self.at(WriteStage::Alignment),
            WriteStage::Alignment => self.at(WriteStage::Ready),
            WriteStage::Track => self.at(WriteStage::Outcome),
            other => self.at(other),
        }
    }

    /// Whether an action is the next one.
    pub open spec fn acts(self, action: WriteAction) -> bool {
        match self.acting() {
            WriteStage::Length => action matches WriteAction::SendLength(sent) && sent@
                == bytes::be16(self.encoded.len() as int),
            WriteStage::Alignment => action == WriteAction::SendAlignment(
                bytes::flag_number(self.from_index),
            ),
            WriteStage::Ready => action == WriteAction::ReceiveReady,
            WriteStage::Track => action == WriteAction::SendTrack,
            WriteStage::Outcome => action == WriteAction::ReceiveOutcome,
            WriteStage::Written => action == WriteAction::Finish,
        }
    }

    /// What an answer of the interface means, if it is not success.
    pub open spec fn refusal(self, response: u8) -> Option<ErrorView> {
        if self.stage == WriteStage::Ready {
            if response == 0x21 {
                None
            } else {
                Some(ErrorView::Protocol("DrawBridge did not become ready for write data"@))
            }
        } else if response == 0x31 {
            None
        } else if response == 0x58 {
            Some(ErrorView::Timeout("DrawBridge track write"@))
        } else if response == 0x59 {
            Some(ErrorView::Protocol("DrawBridge write framing error"@))
        } else if response == 0x5a {
            Some(ErrorView::Protocol("DrawBridge serial write overrun"@))
        } else {
            Some(unexpected("DrawBridge returned invalid write result "@, response))
        }
    }

    /// The write after an answer of the interface.
    pub open spec fn answered(self, response: u8) -> WriteJobView {
        if self.refusal(response) is Some {
            self
        } else if self.stage == WriteStage::Ready {
            self.at(WriteStage::Track)
        } else {
            self.at(WriteStage::Written)
        }
    }
}

impl WriteJob {
    /// The encoded track.
    pub fn data(&self) -> (data: &[u8])
        ensures
            data@ == self@.encoded,
    {
        self.encoded.as_slice()
    }

    /// Returns the next action of a granted write.
    pub fn next(&mut self) -> (result: Result<WriteAction>)
        ensures
            if old(self)@.oversized() {
                &&& result matches Err(error)
                &&& error@ == (ErrorView::TrackTooLarge {
                    bits: old(self)@.bit_len,
                    limit: MAX_TRACK_BITS as int,
                })
                &&& final(self)@ == old(self)@
            } else {
                &&& result matches Ok(action)
                &&& old(self)@.acts(action)
                &&& final(self)@ == old(self)@.advanced()
            },
    {
        match self.stage {
            WriteStage::Length if !self.high_density => {
                if self.encoded.len() > 0xffff {
                    return Err(
                        Error::TrackTooLarge { bits: self.bit_len, limit: MAX_TRACK_BITS },
                    );
                }
                let mut sent: Vec<u8> = Vec::new();
                append_be16(&mut sent, self.encoded.len() as u16);
                assert(sent@ == bytes::be16(self.encoded@.len() as int));
                self.stage = WriteStage::Alignment;
                Ok(WriteAction::SendLength(sent))
            },
            WriteStage::Length | WriteStage::Alignment => {
                self.stage = WriteStage::Ready;
                Ok(WriteAction::SendAlignment(flag(self.from_index)))
            },
            WriteStage::Ready => Ok(WriteAction::ReceiveReady),
            WriteStage::Track => {
                self.stage = WriteStage::Outcome;
                Ok(WriteAction::SendTrack)
            },
            WriteStage::Outcome => Ok(WriteAction::ReceiveOutcome),
            WriteStage::Written => Ok(WriteAction::Finish),
        }
    }

    /// Takes an answer of the interface.
    pub fn answer(&mut self, response: u8) -> (result: Result<()>)
        requires
            old(self)@.stage == WriteStage::Ready || old(self)@.stage == WriteStage::Outcome,
        ensures
            final(self)@ == old(self)@.answered(response),
            match old(self)@.refusal(response) {
                Some(expected) => result matches Err(error) && error@ == expected,
                None => result is Ok,
            },
    {
        if self.stage == WriteStage::Ready {
            if response != 0x21 {
                return Err(
                    Error::Protocol("DrawBridge did not become ready for write data".to_owned()),
                );
            }
            self.stage = WriteStage::Track;
            return Ok(());
        }
        if response == 0x31 {
            self.stage = WriteStage::Written;
            Ok(())
        } else if response == 0x58 {
            Err(Error::Timeout("DrawBridge track write"))
        } else if response == 0x59 {
            Err(Error::Protocol("DrawBridge write framing error".to_owned()))
        } else if response == 0x5a {
            Err(Error::Protocol("DrawBridge serial write overrun".to_owned()))
        } else {
            Err(unexpected_byte("DrawBridge returned invalid write result ", response))
        }
    }
}

impl DrawBridge {
    /// The bytes of a track, precompensated on inner double-density cylinders.
    pub open spec fn track_bytes(self, bits: Seq<bool>) -> Seq<u8> {
        if self.high_density {
            stream::high_track(bits)
        } else {
            stream::double_track(bits, self.status.cylinder >= PRECOMPENSATED_FROM)
        }
    }

    /// Plans a write: the command that asks for permission, and the write that
    /// follows once it is granted.
    pub fn write_plan(&self, words: &[u16], bit_len: usize, from_index: bool) -> (result: Result<
        (Vec<Step>, WriteJob),
    >)
        ensures
            match stream::write_error(words@, bit_len as int) {
                Some(expected) => result matches Err(error) && error@ == expected,
                None => {
                    &&& result matches Ok((plan, job))
                    &&& plan@ == seq![
                        Step {
                            command: if self.high_density {
                                Command::WriteHigh
                            } else {
                                Command::WriteDouble
                            },
                            effect: Effect::Permission,
                        },
                    ]
                    &&& job@ == WriteJobView {
                        encoded: self.track_bytes(packed::unpacked(words@, bit_len as int)),
                        high_density: self.high_density,
                        bit_len: bit_len as int,
                        from_index,
                        stage: WriteStage::Length,
                    }
                },
            },
    {
        let encoded = if self.high_density {
            encode_hd(words, bit_len)
        } else {
            encode_dd(words, bit_len, self.status.cylinder >= PRECOMPENSATED_FROM)
        };
        let encoded = match encoded {
            Ok(encoded) => encoded,
            Err(error) => return Err(error),
        };
        let command = if self.high_density {
            Command::WriteHigh
        } else {
            Command::WriteDouble
        };
        let plan: Vec<Step> = vec![Step { command, effect: Effect::Permission }];
        assert(plan@ == seq![Step { command, effect: Effect::Permission }]);
        let job = WriteJob {
            encoded,
            high_density: self.high_density,
            bit_len,
            from_index,
            stage: WriteStage::Length,
        };
        Ok((plan, job))
    }
}

} // verus!
