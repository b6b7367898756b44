//! Greaseweazle serial protocol.

use vstd::prelude::*;

pub mod conduct;
pub mod laws;
pub mod stream;
pub mod timing;
pub mod wire;

use self::stream::{decode_available, decode_stream, encode_track, measure_density};
use super::bytes;
use super::bytes::{append_le16, append_le32, flag, read_le16, read_le32};
use super::{
    cut_revolution, drive_selection, firmware_before, track_so_far, LineStep, RawCapture,
    MAX_STREAM_BYTES,
};
use crate::device;
use crate::error::{Error, ErrorView, Result};
use crate::flux::{mfm, packed};
use crate::text;
use crate::text::{append_decimal, append_hex_byte};
use crate::types::{
    BridgeConfig, DensityMode, DriveSelect, DriveStatus, DriveType, ReadMode, Side,
};

verus! {

/// Serial speed of the interface.
pub const BAUD: u32 = 9_600;

/// Head-step interval set on opening, in microseconds.
pub const STEP_MICROSECONDS: u16 = 3_000;

/// Length of an immediate capture, in milliseconds.
pub const IMMEDIATE_WINDOW_MS: u64 = 232;

/// Longest index-aligned capture, in milliseconds.
pub const INDEXED_CEILING_MS: u64 = 1_000;

/// Time kept after the last index pulse of a capture, in milliseconds.
pub const INDEX_LINGER_MS: u64 = 20;

/// A command of the interface.
#[derive(Debug, Clone, Copy, PartialEq, Eq, Structural)]
pub enum Command {
    /// Read the firmware record.
    GetInfo,
    /// Step to a cylinder.
    Seek,
    /// Select a head.
    Head,
    /// Write the drive delays.
    SetParams,
    /// Read the drive delays.
    GetParams,
    /// Switch a motor.
    Motor,
    /// Start a flux capture.
    ReadFlux,
    /// Start a flux write.
    WriteFlux,
    /// Ask how the last flux transfer ended.
    GetFluxStatus,
    /// Select a drive.
    Select,
    /// Deselect every drive.
    Deselect,
    /// Choose the bus wiring.
    SetBusType,
    /// Restore the power-on state.
    Reset,
    /// Sample an interface pin.
    GetPin,
    /// Step outwards from cylinder zero.
    NoClickStep,
}

impl Command {
    /// The number of a command on the wire.
    pub open spec fn opcode(self) -> u8 {
        match self {
            Command::GetInfo => 0,
            Command::Seek => 2,
            Command::Head => 3,
            Command::SetParams => 4,
            Command::GetParams => 5,
            Command::Motor => 6,
            Command::ReadFlux => 7,
            Command::WriteFlux => 8,
            Command::GetFluxStatus => 9,
            Command::Select => 12,
            Command::Deselect => 13,
            Command::SetBusType => 14,
            Command::Reset => 16,
            Command::GetPin => 20,
            Command::NoClickStep => 22,
        }
    }

    /// Returns the number of this command on the wire.
    pub fn code(self) -> (code: u8)
        ensures
            code == self.opcode(),
    {
        match self {
            Command::GetInfo => 0,
            Command::Seek => 2,
            Command::Head => 3,
            Command::SetParams => 4,
            Command::GetParams => 5,
            Command::Motor => 6,
            Command::ReadFlux => 7,
            Command::WriteFlux => 8,
            Command::GetFluxStatus => 9,
            Command::Select => 12,
            Command::Deselect => 13,
            Command::SetBusType => 14,
            Command::Reset => 16,
            Command::GetPin => 20,
            Command::NoClickStep => 22,
        }
    }

    /// The name of a command.
    pub open spec fn label(self) -> Seq<char> {
        match self {
            Command::GetInfo => "GetInfo"@,
            Command::Seek => "Seek"@,
            Command::Head => "Head"@,
            Command::SetParams => "SetParams"@,
            Command::GetParams => "GetParams"@,
            Command::Motor => "Motor"@,
            Command::ReadFlux => "ReadFlux"@,
            Command::WriteFlux => "WriteFlux"@,
            Command::GetFluxStatus => "GetFluxStatus"@,
            Command::Select => "Select"@,
            Command::Deselect => "Deselect"@,
            Command::SetBusType => "SetBusType"@,
            Command::Reset => "Reset"@,
            Command::GetPin => "GetPin"@,
            Command::NoClickStep => "NoClickStep"@,
        }
    }

    /// Returns the name of this command.
    pub fn name(self) -> (name: &'static str)
        ensures
            name@ == self.label(),
    {
        match self {
            Command::GetInfo => "GetInfo",
            Command::Seek => "Seek",
            Command::Head => "Head",
            Command::SetParams => "SetParams",
            Command::GetParams => "GetParams",
            Command::Motor => "Motor",
            Command::ReadFlux => "ReadFlux",
            Command::WriteFlux => "WriteFlux",
            Command::GetFluxStatus => "GetFluxStatus",
            Command::Select => "Select",
            Command::Deselect => "Deselect",
            Command::SetBusType => "SetBusType",
            Command::Reset => "Reset",
            Command::GetPin => "GetPin",
            Command::NoClickStep => "NoClickStep",
        }
    }

    /// What waiting for the acknowledgement of a command is called.
    pub open spec fn acknowledgement(self) -> Seq<char> {
        match self {
            Command::GetInfo => "Greaseweazle GetInfo acknowledgement"@,
            Command::Seek => "Greaseweazle Seek acknowledgement"@,
            Command::Head => "Greaseweazle Head acknowledgement"@,
            Command::SetParams => "Greaseweazle SetParams acknowledgement"@,
            Command::GetParams => "Greaseweazle GetParams acknowledgement"@,
            Command::Motor => "Greaseweazle Motor acknowledgement"@,
            Command::ReadFlux => "Greaseweazle ReadFlux acknowledgement"@,
            Command::WriteFlux => "Greaseweazle WriteFlux acknowledgement"@,
            Command::GetFluxStatus => "Greaseweazle GetFluxStatus acknowledgement"@,
            Command::Select => "Greaseweazle Select acknowledgement"@,
            Command::Deselect => "Greaseweazle Deselect acknowledgement"@,
            Command::SetBusType => "Greaseweazle SetBusType acknowledgement"@,
            Command::Reset => "Greaseweazle Reset acknowledgement"@,
            Command::GetPin => "Greaseweazle GetPin acknowledgement"@,
            Command::NoClickStep => "Greaseweazle NoClickStep acknowledgement"@,
        }
    }

    /// Names the wait for the acknowledgement of this command.
    pub fn acknowledgement_operation(self) -> (operation: &'static str)
        ensures
            operation@ == self.acknowledgement(),
    {
        match self {
            Command::GetInfo => "Greaseweazle GetInfo acknowledgement",
            Command::Seek => "Greaseweazle Seek acknowledgement",
            Command::Head => "Greaseweazle Head acknowledgement",
            Command::SetParams => "Greaseweazle SetParams acknowledgement",
            Command::GetParams => "Greaseweazle GetParams acknowledgement",
            Command::Motor => "Greaseweazle Motor acknowledgement",
            Command::ReadFlux => "Greaseweazle ReadFlux acknowledgement",
            Command::WriteFlux => "Greaseweazle WriteFlux acknowledgement",
            Command::GetFluxStatus => "Greaseweazle GetFluxStatus acknowledgement",
            Command::Select => "Greaseweazle Select acknowledgement",
            Command::Deselect => "Greaseweazle Deselect acknowledgement",
            Command::SetBusType => "Greaseweazle SetBusType acknowledgement",
            Command::Reset => "Greaseweazle Reset acknowledgement",
            Command::GetPin => "Greaseweazle GetPin acknowledgement",
            Command::NoClickStep => "Greaseweazle NoClickStep acknowledgement",
        }
    }
}

const ACK_OK: u8 = 0;

const ACK_BAD_COMMAND: u8 = 1;

const ACK_NO_INDEX: u8 = 2;

const ACK_FLUX_OVERFLOW: u8 = 4;

const ACK_FLUX_UNDERFLOW: u8 = 5;

const ACK_WRITE_PROTECTED: u8 = 6;

/// What an acknowledgement other than success means.
pub open spec fn ack_error(command: Command, ack: u8) -> Option<ErrorView> {
    if ack == 0 {
        None
    } else if ack == 1 {
        Some(
            ErrorView::Protocol(
                "Greaseweazle rejected unsupported or malformed "@ + command.label() + " command"@,
            ),
        )
    } else if ack == 2 {
        Some(ErrorView::Timeout("Greaseweazle index pulse"@))
    } else if ack == 4 {
        Some(ErrorView::Protocol("Greaseweazle flux overflow"@))
    } else if ack == 5 {
        Some(ErrorView::Protocol("Greaseweazle flux underflow"@))
    } else if ack == 6 {
        Some(ErrorView::WriteProtected)
    } else {
        Some(
            ErrorView::Protocol(
                "Greaseweazle returned acknowledgement "@ + text::decimal(ack as nat),
            ),
        )
    }
}

/// Turns an acknowledgement into a result.
pub fn map_ack(command: Command, ack: u8) -> (result: Result<()>)
    ensures
        match ack_error(command, ack) {
            Some(expected) => result matches Err(error) && error@ == expected,
            None => result is Ok,
        },
{
    if ack == ACK_OK {
        Ok(())
    } else if ack == ACK_BAD_COMMAND {
        let mut message = "Greaseweazle rejected unsupported or malformed ".to_owned();
        message.append(command.name());
        message.append(" command");
        Err(Error::Protocol(message))
    } else if ack == ACK_NO_INDEX {
        Err(Error::Timeout("Greaseweazle index pulse"))
    } else if ack == ACK_WRITE_PROTECTED {
        Err(Error::WriteProtected)
    } else if ack == ACK_FLUX_OVERFLOW {
        Err(Error::Protocol("Greaseweazle flux overflow".to_owned()))
    } else if ack == ACK_FLUX_UNDERFLOW {
        Err(Error::Protocol("Greaseweazle flux underflow".to_owned()))
    } else {
        let mut message = "Greaseweazle returned acknowledgement ".to_owned();
        append_decimal(&mut message, ack as u64);
        Err(Error::Protocol(message))
    }
}

/// The bytes of a command: its number, the length of the whole request, and
/// its parameters.
pub open spec fn packet(command: Command, parameters: Seq<u8>) -> Seq<u8> {
    seq![command.opcode(), (parameters.len() + 2) as u8] + parameters
}

/// Frames a command.
pub fn command_packet(command: Command, parameters: &[u8]) -> (result: Result<Vec<u8>>)
    ensures
        match result {
            Ok(bytes) => parameters@.len() <= 253 && bytes@ == packet(command, parameters@),
            Err(error) => parameters@.len() > 253 && error@ == ErrorView::InvalidConfig(
                "Greaseweazle command too long"@,
            ),
        },
{
    if parameters.len() > 253 {
        return Err(Error::InvalidConfig("Greaseweazle command too long".to_owned()));
    }
    let mut bytes: Vec<u8> = Vec::with_capacity(parameters.len() + 2);
    bytes.push(command.code());
    bytes.push((parameters.len() + 2) as u8);
    bytes.extend_from_slice(parameters);
    assert(bytes@ == packet(command, parameters@));
    Ok(bytes)
}

/// Checks that a reply belongs to the pending command and reports success.
pub fn check_reply(command: Command, echo: u8, ack: u8) -> (result: Result<()>)
    ensures
        if echo != command.opcode() {
            result matches Err(error) && error@ == ErrorView::Protocol(
                "Greaseweazle replied to command "@ + text::hex_byte(echo as int) + " while "@
                    + text::hex_byte(command.opcode() as int) + " was pending"@,
            )
        } else {
            match ack_error(command, ack) {
                Some(expected) => result matches Err(error) && error@ == expected,
                None => result is Ok,
            }
        },
{
    if echo != command.code() {
        let mut message = "Greaseweazle replied to command ".to_owned();
        append_hex_byte(&mut message, echo);
        message.append(" while ");
        append_hex_byte(&mut message, command.code());
        message.append(" was pending");
        return Err(Error::Protocol(message));
    }
    map_ack(command, ack)
}

/// Checks that a reply belongs to the pending command and hands out its
/// acknowledgement.
pub fn raw_command_ack(command: Command, echo: u8, ack: u8) -> (result: Result<u8>)
    ensures
        match result {
            Ok(value) => echo == command.opcode() && value == ack,
            Err(error) => echo != command.opcode() && error@ == ErrorView::Protocol(
                "Greaseweazle command acknowledgement was out of sequence"@,
            ),
        },
{
    if echo != command.code() {
        return Err(
            Error::Protocol("Greaseweazle command acknowledgement was out of sequence".to_owned()),
        );
    }
    Ok(ack)
}

/// Delays the interface keeps.
#[derive(Debug, Clone, Copy, PartialEq, Eq, Structural)]
pub struct Delays {
    /// After selecting a drive, in microseconds.
    pub select: u16,
    /// Between head steps, in microseconds.
    pub step: u16,
    /// After a seek, in milliseconds.
    pub settle: u16,
    /// After switching a motor on, in milliseconds.
    pub motor: u16,
    /// Before the interface deselects on its own, in milliseconds.
    pub watchdog: u16,
}

impl Delays {
    /// The parameters that write these delays.
    pub open spec fn parameters(self) -> Seq<u8> {
        seq![0u8] + bytes::le16(self.select as int) + bytes::le16(self.step as int) + bytes::le16(
            self.settle as int,
        ) + bytes::le16(self.motor as int) + bytes::le16(self.watchdog as int)
    }

    /// The delays a ten-byte record holds.
    pub open spec fn recorded(record: Seq<u8>) -> Delays {
        Delays {
            select: bytes::from_le16(record, 0) as u16,
            step: bytes::from_le16(record, 2) as u16,
            settle: bytes::from_le16(record, 4) as u16,
            motor: bytes::from_le16(record, 6) as u16,
            watchdog: bytes::from_le16(record, 8) as u16,
        }
    }

    /// Encodes the parameters that write these delays.
    fn encode(self) -> (parameters: Vec<u8>)
        ensures
            parameters@ == self.parameters(),
    {
        let mut parameters: Vec<u8> = Vec::with_capacity(11);
        parameters.push(0);
        append_le16(&mut parameters, self.select);
        append_le16(&mut parameters, self.step);
        append_le16(&mut parameters, self.settle);
        append_le16(&mut parameters, self.motor);
        append_le16(&mut parameters, self.watchdog);
        assert(parameters@ == self.parameters());
        parameters
    }

    /// Reads a ten-byte record.
    fn decode(record: &[u8]) -> (delays: Delays)
        requires
            record@.len() >= 10,
        ensures
            delays == Delays::recorded(record@),
    {
        Delays {
            select: read_le16(record, 0),
            step: read_le16(record, 2),
            settle: read_le16(record, 4),
            motor: read_le16(record, 6),
            watchdog: read_le16(record, 8),
        }
    }
}

/// What a successful exchange changes.
#[derive(Debug, Clone, Copy, PartialEq, Eq, Structural)]
pub enum Effect {
    /// Nothing.
    Nothing,
    /// The drive is selected, or not.
    Selected(bool),
    /// The motor runs, or not.
    MotorRunning(bool),
    /// The head is at a cylinder.
    Cylinder(u8),
    /// A head is selected.
    Surface(Side),
    /// The payload is the write-protect pin; where the bus has no disk-change
    /// pin, media is presumed.
    ProtectPin {
        /// Whether media is presumed.
        presume_media: bool,
    },
    /// The payload is the disk-change pin.
    DiskPin,
    /// The payload is the delay record.
    DelayRecord,
}

impl Effect {
    /// Bytes of payload an effect reads.
    pub open spec fn payload(self) -> nat {
        match self {
            Effect::ProtectPin { .. } | Effect::DiskPin => 1,
            Effect::DelayRecord => 10,
            _ => 0,
        }
    }
}

/// How the acknowledgement of a flux command is judged.
#[derive(Debug, Clone, Copy, PartialEq, Eq, Structural)]
pub enum Judgement {
    /// The end of a capture.
    ReadEnd,
    /// The start of a write.
    WriteStart,
    /// The end of a write.
    WriteEnd,
}

/// One exchange with the interface.
#[derive(Debug)]
pub enum Step {
    /// Send a command, expect success, and read a payload.
    Exchange {
        /// Command to send.
        command: Command,
        /// Its parameters.
        parameters: Vec<u8>,
        /// Bytes of payload that follow the acknowledgement.
        extra: u8,
        /// What success changes.
        effect: Effect,
    },
    /// Send a command and judge its acknowledgement.
    Ask {
        /// Command to send.
        command: Command,
        /// Its parameters.
        parameters: Vec<u8>,
        /// How the acknowledgement is judged.
        judgement: Judgement,
    },
    /// Receive a flux stream up to its end marker.
    Receive,
    /// Send a flux stream and wait for one byte.
    Transmit {
        /// The stream with its end marker.
        bytes: Vec<u8>,
    },
}

/// A [`Step`] with its bytes as sequences.
pub enum StepView {
    /// See [`Step::Exchange`].
    Exchange { command: Command, parameters: Seq<u8>, extra: u8, effect: Effect },
    /// See [`Step::Ask`].
    Ask { command: Command, parameters: Seq<u8>, judgement: Judgement },
    /// See [`Step::Receive`].
    Receive,
    /// See [`Step::Transmit`].
    Transmit { bytes: Seq<u8> },
}

impl View for Step {
    type V = StepView;

    open spec fn view(&self) -> StepView {
        match *self {
            Step::Exchange { command, parameters, extra, effect } => StepView::Exchange {
                command,
                parameters: parameters@,
                extra,
                effect,
            },
            Step::Ask { command, parameters, judgement } => StepView::Ask {
                command,
                parameters: parameters@,
                judgement,
            },
            Step::Receive => StepView::Receive,
            Step::Transmit { bytes } => StepView::Transmit { bytes: bytes@ },
        }
    }
}

/// A plan with its bytes as sequences.
pub open spec fn plan_view(steps: Seq<Step>) -> Seq<StepView> {
    steps.map_values(|step: Step| step@)
}

/// Adds an exchange without payload to a plan.
fn add_exchange(plan: &mut Vec<Step>, command: Command, parameters: Vec<u8>, effect: Effect)
    ensures
        plan_view(final(plan)@) == plan_view(old(plan)@).push(
            StepView::Exchange { command, parameters: parameters@, extra: 0, effect },
        ),
{
    add_step(plan, Step::Exchange { command, parameters, extra: 0, effect });
}

/// Adds a step to a plan.
fn add_step(plan: &mut Vec<Step>, step: Step)
    ensures
        plan_view(final(plan)@) == plan_view(old(plan)@).push(step@),
{
    plan.push(step);
    assert(plan_view(plan@) == plan_view(old(plan)@).push(step@));
}

/// An exchange without payload.
pub open spec fn exchange(command: Command, parameters: Seq<u8>, effect: Effect) -> StepView {
    StepView::Exchange { command, parameters, extra: 0, effect }
}

/// State of an open Greaseweazle.
#[derive(Debug, Clone, Copy, PartialEq, Eq, Structural)]
pub struct Greaseweazle {
    /// Drive state as last observed.
    pub status: DriveStatus,
    /// Sample clock in hertz.
    pub sample_frequency: u32,
    /// Delays of the interface.
    pub delays: Delays,
    /// Bus wiring.
    pub bus: u8,
    /// Unit number on the bus.
    pub drive: u8,
    /// Whether the drive is selected.
    pub selected: bool,
    /// Whether the media is high density.
    pub high_density: bool,
}

/// The density a mode asks for; `Auto` keeps the latest verdict.
pub open spec fn asked_density(density: DensityMode, latest: bool) -> bool {
    match density {
        DensityMode::Double => false,
        DensityMode::High => true,
        DensityMode::Auto => latest,
    }
}

impl Greaseweazle {
    /// The state of an interface before it has been spoken to.
    pub open spec fn fresh(drive: DriveSelect, density: DensityMode) -> Greaseweazle {
        Greaseweazle {
            status: DriveStatus { max_cylinders: 82, ..DriveStatus::assumed() },
            sample_frequency: 0,
            delays: Delays { select: 0, step: 0, settle: 0, motor: 0, watchdog: 0 },
            bus: device::bus_and_unit(drive).0,
            drive: device::bus_and_unit(drive).1,
            selected: false,
            high_density: density == DensityMode::High,
        }
    }

    /// Prepares the state of an interface that is about to be opened.
    pub fn new(config: &BridgeConfig) -> (device: Greaseweazle)
        ensures
            device == Greaseweazle::fresh(config.drive, config.density),
    {
        let (bus, drive) = drive_selection(config.drive);
        let mut status = DriveStatus::default();
        status.max_cylinders = 82;
        Greaseweazle {
            status,
            sample_frequency: 0,
            delays: Delays { select: 0, step: 0, settle: 0, motor: 0, watchdog: 0 },
            bus,
            drive,
            selected: false,
            high_density: config.density == DensityMode::High,
        }
    }

    /// The state after a successful exchange.
    pub open spec fn after(self, effect: Effect, payload: Seq<u8>) -> Greaseweazle {
        match effect {
            Effect::Nothing => self,
            Effect::Selected(selected) => Greaseweazle { selected, ..self },
            Effect::MotorRunning(motor_running) => Greaseweazle {
                status: DriveStatus { motor_running, ..self.status },
                ..self
            },
            Effect::Cylinder(cylinder) => Greaseweazle {
                status: DriveStatus { cylinder, ..self.status },
                ..self
            },
            Effect::Surface(side) => Greaseweazle {
                status: DriveStatus { side, ..self.status },
                ..self
            },
            Effect::ProtectPin { presume_media } => Greaseweazle {
                status: DriveStatus {
                    write_protected: payload[0] == 0,
                    disk_present: presume_media || self.status.disk_present,
                    ..self.status
                },
                ..self
            },
            Effect::DiskPin => Greaseweazle {
                status: DriveStatus { disk_present: payload[0] == 1, ..self.status },
                ..self
            },
            Effect::DelayRecord => Greaseweazle { delays: Delays::recorded(payload), ..self },
        }
    }

    /// Takes note of a successful exchange.
    pub fn complete(&mut self, effect: Effect, payload: &[u8])
        requires
            payload@.len() >= effect.payload(),
        ensures
            *final(self) == old(self).after(effect, payload@),
    {
        match effect {
            Effect::Nothing => {},
            Effect::Selected(selected) => {
                self.selected = selected;
            },
            Effect::MotorRunning(running) => {
                self.status.motor_running = running;
            },
            Effect::Cylinder(cylinder) => {
                self.status.cylinder = cylinder;
            },
            Effect::Surface(side) => {
                self.status.side = side;
            },
            Effect::ProtectPin { presume_media } => {
                self.status.write_protected = payload[0] == 0;
                if presume_media {
                    self.status.disk_present = true;
                }
            },
            Effect::DiskPin => {
                self.status.disk_present = payload[0] == 1;
            },
            Effect::DelayRecord => {
                self.delays = Delays::decode(payload);
            },
        }
    }

    /// Steps that select or deselect the drive, if it is not already.
    pub open spec fn select_steps(self, selected: bool) -> Seq<StepView> {
        if self.selected == selected {
            Seq::empty()
        } else if selected {
            seq![exchange(Command::Select, seq![self.drive], Effect::Selected(true))]
        } else {
            seq![exchange(Command::Deselect, Seq::empty(), Effect::Selected(false))]
        }
    }

    /// Steps that release a selected drive whose motor is off.
    pub open spec fn release_steps(self) -> Seq<StepView> {
        if self.status.motor_running {
            Seq::empty()
        } else {
            seq![exchange(Command::Deselect, Seq::empty(), Effect::Selected(false))]
        }
    }

    /// Steps that sample the drive pins.
    pub open spec fn pin_steps(self) -> Seq<StepView> {
        self.select_steps(true) + seq![
            StepView::Exchange {
                command: Command::GetPin,
                parameters: seq![28u8],
                extra: 1,
                effect: Effect::ProtectPin { presume_media: self.bus != 1 },
            },
        ] + (if self.bus == 1 {
            seq![
                StepView::Exchange {
                    command: Command::GetPin,
                    parameters: seq![34u8],
                    extra: 1,
                    effect: Effect::DiskPin,
                },
            ]
        } else {
            Seq::empty()
        }) + self.release_steps()
    }

    /// Adds the steps that select or deselect the drive.
    fn plan_select(&self, plan: &mut Vec<Step>, selected: bool)
        ensures
            plan_view(final(plan)@) == plan_view(old(plan)@) + self.select_steps(selected),
    {
        if selected != self.selected {
            if selected {
                let parameters: Vec<u8> = vec![self.drive];
                assert(parameters@ == seq![self.drive]);
                add_exchange(plan, Command::Select, parameters, Effect::Selected(true));
            } else {
                add_exchange(plan, Command::Deselect, Vec::new(), Effect::Selected(false));
            }
        }
        assert(plan_view(plan@) == plan_view(old(plan)@) + self.select_steps(selected));
    }

    /// Adds the steps that release a drive whose motor is off.
    fn plan_release(&self, plan: &mut Vec<Step>)
        ensures
            plan_view(final(plan)@) == plan_view(old(plan)@) + self.release_steps(),
    {
        if !self.status.motor_running {
            add_exchange(plan, Command::Deselect, Vec::new(), Effect::Selected(false));
        }
        assert(plan_view(plan@) == plan_view(old(plan)@) + self.release_steps());
    }

    /// Adds the steps that sample the drive pins.
    ///
    /// Shugart pin 2 cannot be sampled. Media is presumed present there, so a
    /// read can determine whether flux and index pulses actually exist.
    fn plan_pins(&self, plan: &mut Vec<Step>)
        ensures
            plan_view(final(plan)@) == plan_view(old(plan)@) + self.pin_steps(),
    {
        self.plan_select(plan, true);
        let protect: Vec<u8> = vec![28u8];
        assert(protect@ == seq![28u8]);
        add_step(
            plan,
            Step::Exchange {
                command: Command::GetPin,
                parameters: protect,
                extra: 1,
                effect: Effect::ProtectPin { presume_media: self.bus != 1 },
            },
        );
        if self.bus == 1 {
            let change: Vec<u8> = vec![34u8];
            assert(change@ == seq![34u8]);
            add_step(
                plan,
                Step::Exchange {
                    command: Command::GetPin,
                    parameters: change,
                    extra: 1,
                    effect: Effect::DiskPin,
                },
            );
        }
        self.plan_release(plan);
        assert(plan_view(plan@) == plan_view(old(plan)@) + self.pin_steps());
    }

    /// Plans sampling the drive pins.
    pub fn status_plan(&self) -> (plan: Vec<Step>)
        ensures
            plan_view(plan@) == self.pin_steps(),
    {
        let mut plan: Vec<Step> = Vec::new();
        self.plan_pins(&mut plan);
        assert(plan_view(plan@) == self.pin_steps());
        plan
    }

    /// The drive state to report once the pins have been sampled.
    pub open spec fn reported(self) -> DriveStatus {
        DriveStatus {
            working: true,
            ready: self.status.motor_running && self.status.disk_present,
            ..self.status
        }
    }

    /// Reports the drive state once the pins have been sampled.
    pub fn report(&mut self) -> (status: DriveStatus)
        ensures
            status == old(self).reported(),
            *final(self) == (Greaseweazle { status: old(self).reported(), ..*old(self) }),
    {
        self.status.working = true;
        self.status.ready = self.status.motor_running && self.status.disk_present;
        self.status
    }

    /// Motor delay in milliseconds.
    pub open spec fn motor_delay(quick: bool) -> u16 {
        if quick {
            10
        } else {
            750
        }
    }

    /// Steps that switch the motor.
    pub open spec fn motor_steps(self, enabled: bool, quick: bool) -> Seq<StepView> {
        let delays = Delays { motor: Greaseweazle::motor_delay(quick), ..self.delays };
        (if delays == self.delays {
            Seq::empty()
        } else {
            seq![exchange(Command::SetParams, delays.parameters(), Effect::Nothing)]
        }) + seq![
            exchange(
                Command::Motor,
                seq![self.drive, bytes::flag_number(enabled)],
                Effect::MotorRunning(enabled),
            ),
        ] + self.select_steps(enabled)
    }

    /// Plans switching the motor; a quick switch does not wait for the spindle.
    pub fn set_motor_plan(&mut self, enabled: bool, quick: bool) -> (plan: Vec<Step>)
        ensures
            plan_view(plan@) == old(self).motor_steps(enabled, quick),
            *final(self) == (Greaseweazle {
                delays: Delays {
                    motor: Greaseweazle::motor_delay(quick),
                    ..old(self).delays
                },
                ..*old(self)
            }),
    {
        let mut plan: Vec<Step> = Vec::new();
        let desired: u16 = if quick {
            10
        } else {
            750
        };
        if self.delays.motor != desired {
            self.delays.motor = desired;
            add_exchange(&mut plan, Command::SetParams, self.delays.encode(), Effect::Nothing);
        }
        let parameters: Vec<u8> = vec![self.drive, flag(enabled)];
        assert(parameters@ == seq![self.drive, bytes::flag_number(enabled)]);
        add_exchange(&mut plan, Command::Motor, parameters, Effect::MotorRunning(enabled));
        self.plan_select(&mut plan, enabled);
        assert(plan_view(plan@) == old(self).motor_steps(enabled, quick));
        plan
    }

    /// Steps that move the head to a cylinder.
    pub open spec fn seek_steps(self, cylinder: u8) -> Seq<StepView> {
        self.select_steps(true) + seq![
            exchange(Command::Seek, seq![cylinder], Effect::Cylinder(cylinder)),
        ] + self.release_steps()
    }

    /// Plans moving the head to a cylinder.
    pub fn seek_plan(&self, cylinder: u8) -> (result: Result<Vec<Step>>)
        ensures
            match result {
                Ok(plan) => cylinder < self.status.max_cylinders && plan_view(plan@)
                    == self.seek_steps(cylinder),
                Err(error) => cylinder >= self.status.max_cylinders && error@
                    == ErrorView::InvalidConfig(
                    "Greaseweazle cylinder "@ + text::decimal(cylinder as nat)
                        + " is out of range"@,
                ),
            },
    {
        if cylinder >= self.status.max_cylinders {
            let mut message = "Greaseweazle cylinder ".to_owned();
            append_decimal(&mut message, cylinder as u64);
            message.append(" is out of range");
            return Err(Error::InvalidConfig(message));
        }
        let mut plan: Vec<Step> = Vec::new();
        self.plan_select(&mut plan, true);
        let parameters: Vec<u8> = vec![cylinder];
        assert(parameters@ == seq![cylinder]);
        add_exchange(&mut plan, Command::Seek, parameters, Effect::Cylinder(cylinder));
        self.plan_release(&mut plan);
        assert(plan_view(plan@) == self.seek_steps(cylinder));
        Ok(plan)
    }

    /// Plans selecting a head.
    pub fn select_side_plan(&self, side: Side) -> (plan: Vec<Step>)
        ensures
            plan_view(plan@) == seq![
                exchange(Command::Head, seq![side_number(side)], Effect::Surface(side)),
            ],
    {
        let mut plan: Vec<Step> = Vec::new();
        let parameters: Vec<u8> = vec![side.number()];
        assert(parameters@ == seq![side_number(side)]);
        add_exchange(&mut plan, Command::Head, parameters, Effect::Surface(side));
        assert(plan_view(plan@) == seq![
            exchange(Command::Head, seq![side_number(side)], Effect::Surface(side)),
        ]);
        plan
    }

    /// Steps of the no-click step.
    pub open spec fn no_click_steps(self) -> Seq<StepView> {
        self.select_steps(true) + seq![
            exchange(Command::NoClickStep, Seq::empty(), Effect::Nothing),
        ] + (Greaseweazle { selected: true, ..self }).pin_steps()
    }

    /// Plans the step used by track-zero disk-change detection.
    pub fn no_click_step_plan(&self) -> (plan: Vec<Step>)
        ensures
            plan_view(plan@) == self.no_click_steps(),
    {
        let mut plan: Vec<Step> = Vec::new();
        self.plan_select(&mut plan, true);
        add_exchange(&mut plan, Command::NoClickStep, Vec::new(), Effect::Nothing);
        let mut selected: Greaseweazle = *self;
        selected.selected = true;
        selected.plan_pins(&mut plan);
        assert(plan_view(plan@) == self.no_click_steps());
        plan
    }
}

/// Number of a side on the wire.
pub open spec fn side_number(side: Side) -> u8 {
    if side == Side::Lower {
        0
    } else {
        1
    }
}

/// Attempts made again after the interface lost flux of a capture.
pub const OVERFLOW_RETRIES: u8 = 1;

/// What to do after a judged acknowledgement.
#[derive(Debug, Clone, Copy, PartialEq, Eq, Structural)]
pub enum Verdict {
    /// Go on with the plan.
    Proceed,
    /// Purge the transport and start the capture again.
    Retry,
}

/// What an acknowledgement means for a flux transfer that has been tried
/// `attempts` times before.
pub open spec fn judged(
    judgement: Judgement,
    ack: u8,
    attempts: u8,
) -> core::result::Result<Verdict, ErrorView> {
    if ack == 0 {
        Ok(Verdict::Proceed)
    } else if judgement == Judgement::ReadEnd && ack == 4 {
        if attempts < OVERFLOW_RETRIES {
            Ok(Verdict::Retry)
        } else {
            Err(ErrorView::Protocol("Greaseweazle flux receive buffer overflowed"@))
        }
    } else if judgement == Judgement::WriteEnd && ack == 5 {
        Err(ErrorView::Protocol("Greaseweazle flux transmit buffer underflowed"@))
    } else if judgement == Judgement::WriteStart {
        Err(ack_error(Command::WriteFlux, ack)->0)
    } else {
        Err(ack_error(Command::GetFluxStatus, ack)->0)
    }
}

impl Greaseweazle {
    /// The state after a judged acknowledgement: a complete capture shows a
    /// ready disk, a missing index pulse that there is none.
    pub open spec fn after_judgement(self, judgement: Judgement, ack: u8) -> Greaseweazle {
        if judgement != Judgement::ReadEnd {
            self
        } else if ack == 0 {
            Greaseweazle {
                status: DriveStatus { disk_present: true, ready: true, ..self.status },
                ..self
            }
        } else if ack == 2 {
            Greaseweazle { status: DriveStatus { disk_present: false, ..self.status }, ..self }
        } else {
            self
        }
    }

    /// Judges the acknowledgement of a flux command.
    pub fn judge(&mut self, judgement: Judgement, ack: u8, attempts: u8) -> (result: Result<
        Verdict,
    >)
        ensures
            match judged(judgement, ack, attempts) {
                Ok(verdict) => result matches Ok(given) && given == verdict,
                Err(expected) => result matches Err(error) && error@ == expected,
            },
            *final(self) == old(self).after_judgement(judgement, ack),
    {
        let command = match judgement {
            Judgement::ReadEnd => {
                if ack == ACK_OK {
                    self.status.disk_present = true;
                    self.status.ready = true;
                } else if ack == ACK_NO_INDEX {
                    self.status.disk_present = false;
                } else if ack == ACK_FLUX_OVERFLOW {
                    if attempts < OVERFLOW_RETRIES {
                        return Ok(Verdict::Retry);
                    }
                    return Err(
                        Error::Protocol("Greaseweazle flux receive buffer overflowed".to_owned()),
                    );
                }
                Command::GetFluxStatus
            },
            Judgement::WriteStart => Command::WriteFlux,
            Judgement::WriteEnd => {
                if ack == ACK_FLUX_UNDERFLOW {
                    return Err(
                        Error::Protocol("Greaseweazle flux transmit buffer underflowed".to_owned()),
                    );
                }
                Command::GetFluxStatus
            },
        };
        match map_ack(command, ack) {
            Ok(()) => Ok(Verdict::Proceed),
            Err(error) => Err(error),
        }
    }

    /// Why a firmware record is not acceptable, if it is not.
    pub open spec fn firmware_problem(record: Seq<u8>) -> Option<ErrorView> {
        if device::older((record[0], record[1]), (0, 27)) {
            Some(
                ErrorView::UnsupportedFirmware(
                    "Greaseweazle "@ + text::decimal(record[0] as nat) + "."@ + text::decimal(
                        record[1] as nat,
                    ) + "; version 0.27 or later is required"@,
                ),
            )
        } else if record[2] == 0 {
            Some(ErrorView::UnsupportedFirmware("Greaseweazle is running update firmware"@))
        } else if bytes::from_le32(record, 4) == 0 {
            Some(ErrorView::Protocol("Greaseweazle reported a zero sample frequency"@))
        } else {
            None
        }
    }

    /// Takes the sample clock from a firmware record, once the firmware is
    /// known to be usable.
    pub fn identify(&mut self, record: &[u8]) -> (result: Result<()>)
        requires
            record@.len() == 32,
        ensures
            match Greaseweazle::firmware_problem(record@) {
                Some(expected) => {
                    &&& result matches Err(error)
                    &&& error@ == expected
                    &&& *final(self) == *old(self)
                },
                None => {
                    &&& result is Ok
                    &&& *final(self) == (Greaseweazle {
                        sample_frequency: bytes::from_le32(record@, 4) as u32,
                        ..*old(self)
                    })
                    &&& final(self).sample_frequency > 0
                },
            },
    {
        if firmware_before((record[0], record[1]), (0, 27)) {
            let mut message = "Greaseweazle ".to_owned();
            append_decimal(&mut message, record[0] as u64);
            message.append(".");
            append_decimal(&mut message, record[1] as u64);
            message.append("; version 0.27 or later is required");
            return Err(Error::UnsupportedFirmware(message));
        }
        if record[2] == 0 {
            return Err(
                Error::UnsupportedFirmware("Greaseweazle is running update firmware".to_owned()),
            );
        }
        let frequency = read_le32(record, 4);
        if frequency == 0 {
            return Err(
                Error::Protocol("Greaseweazle reported a zero sample frequency".to_owned()),
            );
        }
        self.sample_frequency = frequency;
        Ok(())
    }

    /// Plans making the lines ready before anything is said.
    pub fn line_plan() -> (plan: Vec<LineStep>)
        ensures
            plan@ == seq![LineStep::Dtr(true), LineStep::Rts(true), LineStep::Purge],
    {
        let plan: Vec<LineStep> = vec![LineStep::Dtr(true), LineStep::Rts(true), LineStep::Purge];
        plan
    }

    /// Plans the recovery of an interface that did not answer.
    pub fn recovery_plan() -> (plan: Vec<LineStep>)
        ensures
            plan@ == seq![LineStep::Purge],
    {
        let plan: Vec<LineStep> = vec![LineStep::Purge];
        plan
    }

    /// Plans reading the firmware record, whose payload [`Self::identify`]
    /// takes.
    pub fn firmware_plan() -> (plan: Vec<Step>)
        ensures
            plan_view(plan@) == seq![
                StepView::Exchange {
                    command: Command::GetInfo,
                    parameters: seq![0u8],
                    extra: 32,
                    effect: Effect::Nothing,
                },
            ],
    {
        let mut plan: Vec<Step> = Vec::new();
        let parameters: Vec<u8> = vec![0u8];
        assert(parameters@ == seq![0u8]);
        add_step(
            &mut plan,
            Step::Exchange {
                command: Command::GetInfo,
                parameters,
                extra: 32,
                effect: Effect::Nothing,
            },
        );
        assert(plan_view(plan@) == seq![
            StepView::Exchange {
                command: Command::GetInfo,
                parameters: seq![0u8],
                extra: 32,
                effect: Effect::Nothing,
            },
        ]);
        plan
    }

    /// Steps that reset the interface and read its delays.
    pub open spec fn reset_steps() -> Seq<StepView> {
        seq![
            exchange(Command::Reset, Seq::empty(), Effect::Nothing),
            StepView::Exchange {
                command: Command::GetParams,
                parameters: seq![0u8, 10u8],
                extra: 10,
                effect: Effect::DelayRecord,
            },
        ]
    }

    /// Plans resetting the interface and reading its delays.
    pub fn reset_plan() -> (plan: Vec<Step>)
        ensures
            plan_view(plan@) == Greaseweazle::reset_steps(),
    {
        let mut plan: Vec<Step> = Vec::new();
        add_exchange(&mut plan, Command::Reset, Vec::new(), Effect::Nothing);
        let parameters: Vec<u8> = vec![0u8, 10u8];
        assert(parameters@ == seq![0u8, 10u8]);
        add_step(
            &mut plan,
            Step::Exchange {
                command: Command::GetParams,
                parameters,
                extra: 10,
                effect: Effect::DelayRecord,
            },
        );
        assert(plan_view(plan@) == Greaseweazle::reset_steps());
        plan
    }

    /// Steps that set the head-step interval, the bus wiring, and sample the
    /// pins.
    pub open spec fn setup_steps(self) -> Seq<StepView> {
        let delays = Delays { step: STEP_MICROSECONDS, ..self.delays };
        (if delays == self.delays {
            Seq::empty()
        } else {
            seq![exchange(Command::SetParams, delays.parameters(), Effect::Nothing)]
        }) + seq![exchange(Command::SetBusType, seq![self.bus], Effect::Nothing)]
            + self.pin_steps()
    }

    /// Plans the rest of opening, once the delays are known.
    pub fn setup_plan(&mut self) -> (plan: Vec<Step>)
        ensures
            plan_view(plan@) == old(self).setup_steps(),
            *final(self) == (Greaseweazle {
                delays: Delays { step: STEP_MICROSECONDS, ..old(self).delays },
                ..*old(self)
            }),
    {
        let mut plan: Vec<Step> = Vec::new();
        if self.delays.step != STEP_MICROSECONDS {
            self.delays.step = STEP_MICROSECONDS;
            add_exchange(&mut plan, Command::SetParams, self.delays.encode(), Effect::Nothing);
        }
        let parameters: Vec<u8> = vec![self.bus];
        assert(parameters@ == seq![self.bus]);
        add_exchange(&mut plan, Command::SetBusType, parameters, Effect::Nothing);
        self.plan_pins(&mut plan);
        assert(plan_view(plan@) == old(self).setup_steps());
        plan
    }

    /// Takes note that opening has succeeded.
    pub fn opened(&mut self)
        ensures
            *final(self) == (Greaseweazle {
                status: DriveStatus {
                    working: true,
                    drive_type: DriveType::Hd35,
                    ..old(self).status
                },
                ..*old(self)
            }),
    {
        self.status.working = true;
        self.status.drive_type = DriveType::Hd35;
    }

    /// Ticks in a number of milliseconds.
    pub open spec fn ticks_in(self, milliseconds: int) -> int {
        self.sample_frequency * milliseconds / 1_000
    }

    /// The parameters of a capture: its longest length, the index pulses that
    /// end it, and the time kept after the last of them.
    pub open spec fn capture_parameters(self, mode: ReadMode) -> Seq<u8> {
        if mode == ReadMode::Fast {
            bytes::le32(self.ticks_in(IMMEDIATE_WINDOW_MS as int)) + bytes::le16(0) + bytes::le32(0)
        } else {
            bytes::le32(self.ticks_in(INDEXED_CEILING_MS as int)) + bytes::le16(2) + bytes::le32(
                self.ticks_in(INDEX_LINGER_MS as int),
            )
        }
    }

    /// Steps of a capture.
    pub open spec fn read_steps(self, mode: ReadMode) -> Seq<StepView> {
        self.select_steps(true) + seq![
            exchange(Command::ReadFlux, self.capture_parameters(mode), Effect::Nothing),
            StepView::Receive,
            StepView::Ask {
                command: Command::GetFluxStatus,
                parameters: Seq::empty(),
                judgement: Judgement::ReadEnd,
            },
        ] + self.release_steps()
    }

    /// Plans a capture.
    ///
    /// An immediate capture lasts a fixed window with no index bound. An
    /// index-aligned one is bounded by index count and by a tick ceiling, so a
    /// platter that stops ends the capture instead of hanging it.
    pub fn read_plan(&mut self, mode: ReadMode, density: DensityMode) -> (plan: Vec<Step>)
        ensures
            plan_view(plan@) == old(self).read_steps(mode),
            *final(self) == (Greaseweazle {
                high_density: asked_density(density, old(self).high_density),
                ..*old(self)
            }),
    {
        self.high_density = match density {
            DensityMode::Double => false,
            DensityMode::High => true,
            DensityMode::Auto => self.high_density,
        };
        let mut plan: Vec<Step> = Vec::new();
        self.plan_select(&mut plan, true);
        let frequency = self.sample_frequency as u64;
        let mut parameters: Vec<u8> = Vec::with_capacity(10);
        if mode == ReadMode::Fast {
            append_le32(&mut parameters, (frequency * IMMEDIATE_WINDOW_MS / 1_000) as u32);
            append_le16(&mut parameters, 0);
            append_le32(&mut parameters, 0);
        } else {
            append_le32(&mut parameters, (frequency * INDEXED_CEILING_MS / 1_000) as u32);
            append_le16(&mut parameters, 2);
            append_le32(&mut parameters, (frequency * INDEX_LINGER_MS / 1_000) as u32);
        }
        assert(parameters@ == self.capture_parameters(mode));
        add_exchange(&mut plan, Command::ReadFlux, parameters, Effect::Nothing);
        add_step(&mut plan, Step::Receive);
        add_step(
            &mut plan,
            Step::Ask {
                command: Command::GetFluxStatus,
                parameters: Vec::new(),
                judgement: Judgement::ReadEnd,
            },
        );
        self.plan_release(&mut plan);
        assert(plan_view(plan@) == old(self).read_steps(mode));
        plan
    }

    /// The density of a received stream: measured when it is not given.
    pub open spec fn stream_density(self, received: Seq<u8>, density: DensityMode) -> bool {
        match density {
            DensityMode::Auto => stream::measured(
                stream::parsed(received, self.sample_frequency, false).events,
                self.high_density,
            ),
            _ => asked_density(density, self.high_density),
        }
    }

    /// The revolution a received stream holds.
    pub open spec fn received_revolution(
        self,
        received: Seq<u8>,
        mode: ReadMode,
        density: DensityMode,
    ) -> core::result::Result<(Seq<bool>, bool), ErrorView> {
        let high_density = self.stream_density(received, density);
        let parsed = stream::parsed(received, self.sample_frequency, high_density);
        match parsed.problem {
            Some(problem) => Err(problem),
            None => device::revolution_of(parsed.events, mode, high_density),
        }
    }

    /// Settles the density of a received stream.
    fn settle_density(&self, received: &[u8], density: DensityMode) -> (high_density: bool)
        requires
            self.sample_frequency > 0,
        ensures
            high_density == self.stream_density(received@, density),
    {
        match density {
            DensityMode::Double => false,
            DensityMode::High => true,
            DensityMode::Auto => measure_density(
                &decode_available(received, self.sample_frequency, false),
                self.high_density,
            ),
        }
    }

    /// Cuts a revolution out of a received stream.
    ///
    /// Automatic density is measured from the raw intervals, and the verdict
    /// sticks.
    pub fn extract(&mut self, received: &[u8], mode: ReadMode, density: DensityMode) -> (result:
        Result<RawCapture>)
        requires
            old(self).sample_frequency > 0,
        ensures
            match old(self).received_revolution(received@, mode, density) {
                Ok(cut) => result matches Ok(capture) && device::holds(capture, cut.0, cut.1),
                Err(expected) => result matches Err(error) && error@ == expected,
            },
            *final(self) == (Greaseweazle {
                high_density: old(self).stream_density(received@, density),
                ..*old(self)
            }),
    {
        let high_density = self.settle_density(received, density);
        let events = decode_stream(received, self.sample_frequency, high_density);
        self.high_density = high_density;
        match events {
            Ok(events) => cut_revolution(&events, mode, high_density),
            Err(error) => Err(error),
        }
    }

    /// Decodes a stream that is still arriving.
    pub fn partial(&self, received: &[u8], density: DensityMode) -> (result: Option<RawCapture>)
        requires
            self.sample_frequency > 0,
        ensures
            match device::cells_so_far(
                stream::parsed(
                    received@,
                    self.sample_frequency,
                    self.stream_density(received@, density),
                ).events,
            ) {
                Some(cells) => result matches Some(capture) && device::holds(capture, cells, false),
                None => result is None,
            },
    {
        let high_density = self.settle_density(received, density);
        track_so_far(&decode_available(received, self.sample_frequency, high_density))
    }

    /// Steps that write a track.
    pub open spec fn write_steps(self, encoded: Seq<u8>, from_index: bool) -> Seq<StepView> {
        self.select_steps(true) + seq![
            StepView::Ask {
                command: Command::WriteFlux,
                parameters: seq![bytes::flag_number(from_index), 0u8],
                judgement: Judgement::WriteStart,
            },
            StepView::Transmit { bytes: encoded },
            StepView::Ask {
                command: Command::GetFluxStatus,
                parameters: Seq::empty(),
                judgement: Judgement::WriteEnd,
            },
        ]
    }

    /// Plans writing a track.
    pub fn write_plan(
        &mut self,
        words: &[u16],
        bit_len: usize,
        from_index: bool,
        density: DensityMode,
    ) -> (result: Result<Vec<Step>>)
        ensures
            ({
                let high_density = asked_density(density, old(self).high_density);
                let bits = packed::unpacked(words@, bit_len as int);
                &&& *final(self) == (Greaseweazle { high_density, ..*old(self) })
                &&& match mfm::mfm_error(
                    words@,
                    bit_len as int,
                    stream::cell_nanoseconds(high_density),
                ) {
                    Some(expected) => result matches Err(error) && error@ == expected,
                    None => result matches Ok(plan) && plan_view(plan@) == old(self).write_steps(
                        stream::track_bytes(
                            bits,
                            old(self).sample_frequency as int,
                            high_density,
                        ),
                        from_index,
                    ),
                }
            }),
    {
        self.high_density = density == DensityMode::High || (density == DensityMode::Auto
            && self.high_density);
        let encoded = match encode_track(
            words,
            bit_len,
            self.sample_frequency,
            self.high_density,
        ) {
            Ok(encoded) => encoded,
            Err(error) => return Err(error),
        };
        let mut plan: Vec<Step> = Vec::new();
        self.plan_select(&mut plan, true);
        let parameters: Vec<u8> = vec![flag(from_index), 0u8];
        assert(parameters@ == seq![bytes::flag_number(from_index), 0u8]);
        add_step(
            &mut plan,
            Step::Ask {
                command: Command::WriteFlux,
                parameters,
                judgement: Judgement::WriteStart,
            },
        );
        let ghost sent = encoded@;
        add_step(&mut plan, Step::Transmit { bytes: encoded });
        add_step(
            &mut plan,
            Step::Ask {
                command: Command::GetFluxStatus,
                parameters: Vec::new(),
                judgement: Judgement::WriteEnd,
            },
        );
        assert(plan_view(plan@) == old(self).write_steps(sent, from_index));
        Ok(plan)
    }
}

/// A flux stream as it is received.
#[derive(Debug)]
pub struct Collector {
    bytes: Vec<u8>,
}

impl View for Collector {
    type V = Seq<u8>;

    closed spec fn view(&self) -> Seq<u8> {
        self.bytes@
    }
}

/// The error of a stream that does not end in time.
pub open spec fn endless() -> ErrorView {
    ErrorView::TrackTooLarge { bits: MAX_STREAM_BYTES * 8, limit: MAX_STREAM_BYTES * 8 }
}

impl Collector {
    /// Starts with nothing received.
    pub fn new() -> (collector: Collector)
        ensures
            collector@ == Seq::<u8>::empty(),
    {
        Collector { bytes: Vec::new() }
    }

    /// The bytes received so far.
    pub fn bytes(&self) -> (bytes: &[u8])
        ensures
            bytes@ == self@,
    {
        self.bytes.as_slice()
    }

    /// Takes one byte; returns whether it was the end marker, which is not
    /// kept.
    pub fn push(&mut self, byte: u8) -> (result: Result<bool>)
        ensures
            if old(self)@.len() >= MAX_STREAM_BYTES {
                &&& final(self)@ == old(self)@
                &&& result matches Err(error)
                &&& error@ == endless()
            } else if byte == 0 {
                final(self)@ == old(self)@ && result == Ok::<bool, Error>(true)
            } else {
                &&& final(self)@ == old(self)@.push(byte)
                &&& if final(self)@.len() >= MAX_STREAM_BYTES {
                    result matches Err(error) && error@ == endless()
                } else {
                    result == Ok::<bool, Error>(false)
                }
            },
    {
        if self.bytes.len() < MAX_STREAM_BYTES {
            if byte == 0 {
                return Ok(true);
            }
            self.bytes.push(byte);
            if self.bytes.len() < MAX_STREAM_BYTES {
                return Ok(false);
            }
        }
        Err(Error::TrackTooLarge { bits: MAX_STREAM_BYTES * 8, limit: MAX_STREAM_BYTES * 8 })
    }
}

} // verus!
