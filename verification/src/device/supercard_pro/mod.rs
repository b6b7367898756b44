//! SuperCard Pro serial protocol.

use vstd::prelude::*;

pub mod laws;
pub mod stream;
pub mod timing;

use self::stream::encode_track;
use super::bytes;
use super::bytes::{append_be16, append_be32, flag};
use super::{cut_revolution, firmware_before, RawCapture, MAX_STREAM_BYTES};
use crate::device;
use crate::error::{Error, ErrorView, Result};
use crate::flux::{mfm, packed, FluxEvent};
use crate::text;
use crate::text::{append_decimal, append_hex_byte};
use crate::types::{
    BridgeConfig, DensityMode, DriveSelect, DriveStatus, DriveType, ReadMode, Side,
};

verus! {

/// Serial speed of the interface.
pub const BAUD: u32 = 9_600;

/// A command of the interface.
#[derive(Debug, Clone, Copy, PartialEq, Eq, Structural)]
pub enum Command {
    /// Select drive A.
    SelectA,
    /// Select drive B.
    SelectB,
    /// Deselect drive A.
    DeselectA,
    /// Deselect drive B.
    DeselectB,
    /// Switch motor A on.
    MotorAOn,
    /// Switch motor B on.
    MotorBOn,
    /// Switch motor A off.
    MotorAOff,
    /// Switch motor B off.
    MotorBOff,
    /// Step to cylinder zero.
    SeekZero,
    /// Step to a cylinder.
    StepTo,
    /// Step outwards.
    StepOut,
    /// Select a side.
    Side,
    /// Read the drive status.
    Status,
    /// Write the drive delays.
    SetParams,
    /// Write flux from memory.
    WriteFlux,
    /// Load memory.
    LoadRamUsb,
    /// Start a flux stream.
    StartStream,
    /// Stop a flux stream.
    StopStream,
    /// Read hardware and firmware versions.
    Info,
}

impl Command {
    /// The number of a command on the wire.
    pub open spec fn opcode(self) -> u8 {
        match self {
            Command::SelectA => 0x80,
            Command::SelectB => 0x81,
            Command::DeselectA => 0x82,
            Command::DeselectB => 0x83,
            Command::MotorAOn => 0x84,
            Command::MotorBOn => 0x85,
            Command::MotorAOff => 0x86,
            Command::MotorBOff => 0x87,
            Command::SeekZero => 0x88,
            Command::StepTo => 0x89,
            Command::StepOut => 0x8b,
            Command::Side => 0x8d,
            Command::Status => 0x8e,
            Command::SetParams => 0x91,
            Command::WriteFlux => 0xa2,
            Command::LoadRamUsb => 0xaa,
            Command::StartStream => 0xae,
            Command::StopStream => 0xaf,
            Command::Info => 0xd0,
        }
    }

    /// Returns the number of this command on the wire.
    pub fn code(self) -> (code: u8)
        ensures
            code == self.opcode(),
    {
        match self {
            Command::SelectA => 0x80,
            Command::SelectB => 0x81,
            Command::DeselectA => 0x82,
            Command::DeselectB => 0x83,
            Command::MotorAOn => 0x84,
            Command::MotorBOn => 0x85,
            Command::MotorAOff => 0x86,
            Command::MotorBOff => 0x87,
            Command::SeekZero => 0x88,
            Command::StepTo => 0x89,
            Command::StepOut => 0x8b,
            Command::Side => 0x8d,
            Command::Status => 0x8e,
            Command::SetParams => 0x91,
            Command::WriteFlux => 0xa2,
            Command::LoadRamUsb => 0xaa,
            Command::StartStream => 0xae,
            Command::StopStream => 0xaf,
            Command::Info => 0xd0,
        }
    }
}

const RESPONSE_OK: u8 = 0x4f;

const RESPONSE_WRITE_PROTECTED: u8 = 0x0f;

const RESPONSE_NO_DISK: u8 = 0x11;

const RESPONSE_NOT_READY: u8 = 0x08;

const RESPONSE_OVERRUN: u8 = 0x15;

/// The error of a stream that does not end in time.
pub open spec fn endless() -> ErrorView {
    ErrorView::TrackTooLarge { bits: MAX_STREAM_BYTES * 8, limit: MAX_STREAM_BYTES * 8 }
}

/// What a response other than success means.
pub open spec fn response_error(response: u8) -> Option<ErrorView> {
    if response == 0x4f {
        None
    } else if response == 0x0f {
        Some(ErrorView::WriteProtected)
    } else if response == 0x11 || response == 0x08 {
        Some(ErrorView::Timeout("SuperCard Pro disk ready"@))
    } else if response == 0x15 {
        Some(ErrorView::Protocol("SuperCard Pro buffer overrun"@))
    } else {
        Some(
            ErrorView::Protocol(
                "SuperCard Pro returned response "@ + text::hex_byte(response as int),
            ),
        )
    }
}

/// Turns a response into a result.
pub fn map_response(response: u8) -> (result: Result<()>)
    ensures
        match response_error(response) {
            Some(expected) => result matches Err(error) && error@ == expected,
            None => result is Ok,
        },
{
    if response == RESPONSE_OK {
        Ok(())
    } else if response == RESPONSE_WRITE_PROTECTED {
        Err(Error::WriteProtected)
    } else if response == RESPONSE_NO_DISK || response == RESPONSE_NOT_READY {
        Err(Error::Timeout("SuperCard Pro disk ready"))
    } else if response == RESPONSE_OVERRUN {
        Err(Error::Protocol("SuperCard Pro buffer overrun".to_owned()))
    } else {
        let mut message = "SuperCard Pro returned response ".to_owned();
        append_hex_byte(&mut message, response);
        Err(Error::Protocol(message))
    }
}

/// The sum of some bytes.
pub open spec fn byte_sum(values: Seq<u8>) -> int
    decreases values.len(),
{
    if values.len() == 0 {
        0
    } else {
        byte_sum(values.drop_last()) + values.last()
    }
}

/// The bytes of a command before its checksum: number, length, and payload.
pub open spec fn unsigned_packet(command: Command, payload: Seq<u8>) -> Seq<u8> {
    seq![command.opcode(), payload.len() as u8] + payload
}

/// The bytes of a command; the last is the sum of the others and 0x4a, modulo
/// 256.
pub open spec fn framed(command: Command, payload: Seq<u8>) -> Seq<u8> {
    let head = unsigned_packet(command, payload);
    head.push(((0x4a + byte_sum(head)) % 256) as u8)
}

/// What a successful exchange changes.
#[derive(Debug, Clone, Copy, PartialEq, Eq, Structural)]
pub enum Effect {
    /// Nothing.
    Nothing,
    /// The drive is selected, or not.
    Selected(bool),
    /// The motor runs, or not.
    MotorRunning(bool),
    /// The head is at a cylinder.
    Cylinder(u8),
    /// A side is selected.
    Surface(Side),
    /// The payload is the drive status.
    StatusWord,
}

impl Effect {
    /// Bytes of payload an effect reads.
    pub open spec fn payload(self) -> nat {
        match self {
            Effect::StatusWord => 2,
            _ => 0,
        }
    }
}

/// How the response to a flux command is judged.
#[derive(Debug, Clone, Copy, PartialEq, Eq, Structural)]
pub enum Judgement {
    /// The start of a stream.
    StreamStart,
    /// A write.
    Write,
}

/// One exchange with the interface.
#[derive(Debug)]
pub enum Step {
    /// Send a command, expect success, and read a payload.
    Exchange {
        /// Command to send.
        command: Command,
        /// Its payload.
        payload: Vec<u8>,
        /// Bytes that follow the response.
        extra: u8,
        /// What success changes.
        effect: Effect,
    },
    /// Send a command and judge its response.
    Ask {
        /// Command to send.
        command: Command,
        /// Its payload.
        payload: Vec<u8>,
        /// How the response is judged.
        judgement: Judgement,
    },
    /// Receive a flux stream until its capture is complete.
    Receive,
    /// Stop the stream, wait for the end that [`stream::StopScan`] finds, and
    /// purge the transport.
    Stop {
        /// Command to send, without payload.
        command: Command,
    },
    /// Load memory.
    Load {
        /// Payload of the load command.
        header: Vec<u8>,
        /// What is loaded.
        data: Vec<u8>,
    },
}

/// A [`Step`] with its bytes as sequences.
pub enum StepView {
    /// See [`Step::Exchange`].
    Exchange { command: Command, payload: Seq<u8>, extra: u8, effect: Effect },
    /// See [`Step::Ask`].
    Ask { command: Command, payload: Seq<u8>, judgement: Judgement },
    /// See [`Step::Receive`].
    Receive,
    /// See [`Step::Stop`].
    Stop { command: Command },
    /// See [`Step::Load`].
    Load { header: Seq<u8>, data: Seq<u8> },
}

impl View for Step {
    type V = StepView;

    open spec fn view(&self) -> StepView {
        match *self {
            Step::Exchange { command, payload, extra, effect } => StepView::Exchange {
                command,
                payload: payload@,
                extra,
                effect,
            },
            Step::Ask { command, payload, judgement } => StepView::Ask {
                command,
                payload: payload@,
                judgement,
            },
            Step::Receive => StepView::Receive,
            Step::Stop { command } => StepView::Stop { command },
            Step::Load { header, data } => StepView::Load { header: header@, data: data@ },
        }
    }
}

/// A plan with its bytes as sequences.
pub open spec fn plan_view(steps: Seq<Step>) -> Seq<StepView> {
    steps.map_values(|step: Step| step@)
}

/// An exchange without payload in reply.
pub open spec fn exchange(command: Command, payload: Seq<u8>, effect: Effect) -> StepView {
    StepView::Exchange { command, payload, extra: 0, effect }
}

/// Adds a step to a plan.
fn add_step(plan: &mut Vec<Step>, step: Step)
    ensures
        plan_view(final(plan)@) == plan_view(old(plan)@).push(step@),
{
    plan.push(step);
    assert(plan_view(plan@) == plan_view(old(plan)@).push(step@));
}

/// Adds an exchange without payload in reply to a plan.
fn add_exchange(plan: &mut Vec<Step>, command: Command, payload: Vec<u8>, effect: Effect)
    ensures
        plan_view(final(plan)@) == plan_view(old(plan)@).push(
            exchange(command, payload@, effect),
        ),
{
    add_step(plan, Step::Exchange { command, payload, extra: 0, effect });
}

/// State of an open SuperCard Pro.
#[derive(Debug, Clone, Copy, PartialEq, Eq, Structural)]
pub struct SuperCardPro {
    /// Drive state as last observed.
    pub status: DriveStatus,
    /// Whether drive A is used instead of drive B.
    pub drive_a: bool,
    /// Whether the drive is selected.
    pub selected: bool,
    /// Whether the media is high density.
    pub high_density: bool,
}

/// Checks that a response belongs to the pending command and hands it out.
pub fn raw_response(command: Command, echo: u8, response: u8) -> (result: Result<u8>)
    ensures
        match result {
            Ok(value) => echo == command.opcode() && value == response,
            Err(error) => echo != command.opcode() && error@ == ErrorView::Protocol(
                "SuperCard Pro replied to command "@ + text::hex_byte(echo as int) + " while "@
                    + text::hex_byte(command.opcode() as int) + " was pending"@,
            ),
        },
{
    if echo != command.code() {
        let mut message = "SuperCard Pro replied to command ".to_owned();
        append_hex_byte(&mut message, echo);
        message.append(" while ");
        append_hex_byte(&mut message, command.code());
        message.append(" was pending");
        return Err(Error::Protocol(message));
    }
    Ok(response)
}

/// Checks the response to a memory load.
pub fn check_load(echo: u8, response: u8) -> (result: Result<()>)
    ensures
        match result {
            Ok(()) => echo == Command::LoadRamUsb.opcode() && response == 0x4f,
            Err(error) => !(echo == Command::LoadRamUsb.opcode() && response == 0x4f) && error@
                == ErrorView::Protocol("SuperCard Pro rejected the flux RAM load"@),
        },
{
    if echo != Command::LoadRamUsb.code() || response != RESPONSE_OK {
        return Err(Error::Protocol("SuperCard Pro rejected the flux RAM load".to_owned()));
    }
    Ok(())
}

/// The density a mode asks for; `Auto` keeps the latest verdict.
pub open spec fn asked_density(density: DensityMode, latest: bool) -> bool {
    density == DensityMode::High || (density == DensityMode::Auto && latest)
}

impl SuperCardPro {
    /// Frames a command.
    pub fn packet(command: Command, payload: &[u8]) -> (result: Result<Vec<u8>>)
        ensures
            match result {
                Ok(bytes) => payload@.len() <= 255 && bytes@ == framed(command, payload@),
                Err(error) => payload@.len() > 255 && error@ == ErrorView::InvalidConfig(
                    "SuperCard Pro command payload too long"@,
                ),
            },
    {
        if payload.len() > 255 {
            return Err(
                Error::InvalidConfig("SuperCard Pro command payload too long".to_owned()),
            );
        }
        let mut bytes: Vec<u8> = Vec::with_capacity(payload.len() + 3);
        bytes.push(command.code());
        bytes.push(payload.len() as u8);
        bytes.extend_from_slice(payload);
        assert(bytes@ == unsigned_packet(command, payload@));
        let mut sum: u8 = 0x4a;
        let mut i: usize = 0;
        assert(bytes@.take(0) == Seq::<u8>::empty());
        while i < bytes.len()
            invariant
                i <= bytes@.len(),
                sum == (0x4a + byte_sum(bytes@.take(i as int))) % 256,
            decreases bytes@.len() - i,
        {
            assert(bytes@.take(i + 1).drop_last() == bytes@.take(i as int));
            assert(bytes@.take(i + 1).last() == bytes@[i as int]);
            sum = sum.wrapping_add(bytes[i]);
            i += 1;
        }
        assert(bytes@.take(bytes@.len() as int) == bytes@);
        bytes.push(sum);
        Ok(bytes)
    }

    /// The state of an interface before it has been spoken to.
    pub open spec fn fresh(drive_a: bool, density: DensityMode) -> SuperCardPro {
        SuperCardPro {
            status: DriveStatus {
                max_cylinders: 84,
                drive_type: DriveType::Hd35,
                ..DriveStatus::assumed()
            },
            drive_a,
            selected: false,
            high_density: density == DensityMode::High,
        }
    }

    /// Prepares the state of an interface that is about to be opened.
    pub fn new(config: &BridgeConfig) -> (result: Result<SuperCardPro>)
        ensures
            match config.drive {
                DriveSelect::PcA => result == Ok::<SuperCardPro, Error>(
                    SuperCardPro::fresh(true, config.density),
                ),
                DriveSelect::PcB => result == Ok::<SuperCardPro, Error>(
                    SuperCardPro::fresh(false, config.density),
                ),
                _ => result matches Err(error) && error@ == ErrorView::InvalidConfig(
                    "SuperCard Pro supports only PC Drive A or Drive B"@,
                ),
            },
    {
        let drive_a = match config.drive {
            DriveSelect::PcA => true,
            DriveSelect::PcB => false,
            _ => {
                return Err(
                    Error::InvalidConfig(
                        "SuperCard Pro supports only PC Drive A or Drive B".to_owned(),
                    ),
                );
            },
        };
        let mut status = DriveStatus::default();
        status.max_cylinders = 84;
        status.drive_type = DriveType::Hd35;
        Ok(
            SuperCardPro {
                status,
                drive_a,
                selected: false,
                high_density: config.density == DensityMode::High,
            },
        )
    }

    /// Hardware and firmware versions are pairs of nibbles.
    pub open spec fn nibbles(value: u8) -> (u8, u8) {
        (value / 16, value % 16)
    }

    /// Why a version record is not acceptable, if it is not.
    pub open spec fn firmware_problem(record: Seq<u8>) -> Option<ErrorView> {
        let hardware = SuperCardPro::nibbles(record[0]);
        let firmware = SuperCardPro::nibbles(record[1]);
        if device::older(firmware, (1, 3)) {
            Some(
                ErrorView::UnsupportedFirmware(
                    "SuperCard Pro firmware "@ + text::decimal(firmware.0 as nat) + "."@
                        + text::decimal(firmware.1 as nat) + " on hardware "@ + text::decimal(
                        hardware.0 as nat,
                    ) + "."@ + text::decimal(hardware.1 as nat)
                        + "; firmware 1.3 or later is required"@,
                ),
            )
        } else {
            None
        }
    }

    /// Checks a version record.
    pub fn identify(record: &[u8]) -> (result: Result<()>)
        requires
            record@.len() == 2,
        ensures
            match SuperCardPro::firmware_problem(record@) {
                Some(expected) => result matches Err(error) && error@ == expected,
                None => result is Ok,
            },
    {
        let firmware = (record[1] / 16, record[1] % 16);
        if firmware_before(firmware, (1, 3)) {
            let mut message = "SuperCard Pro firmware ".to_owned();
            append_decimal(&mut message, firmware.0 as u64);
            message.append(".");
            append_decimal(&mut message, firmware.1 as u64);
            message.append(" on hardware ");
            append_decimal(&mut message, (record[0] / 16) as u64);
            message.append(".");
            append_decimal(&mut message, (record[0] % 16) as u64);
            message.append("; firmware 1.3 or later is required");
            return Err(Error::UnsupportedFirmware(message));
        }
        Ok(())
    }

    /// Plans reading the version record, whose payload [`Self::identify`]
    /// takes.
    pub fn firmware_plan() -> (plan: Vec<Step>)
        ensures
            plan_view(plan@) == seq![
                StepView::Exchange {
                    command: Command::Info,
                    payload: Seq::empty(),
                    extra: 2,
                    effect: Effect::Nothing,
                },
            ],
    {
        let mut plan: Vec<Step> = Vec::new();
        add_step(
            &mut plan,
            Step::Exchange {
                command: Command::Info,
                payload: Vec::new(),
                extra: 2,
                effect: Effect::Nothing,
            },
        );
        assert(plan_view(plan@) == seq![
            StepView::Exchange {
                command: Command::Info,
                payload: Seq::empty(),
                extra: 2,
                effect: Effect::Nothing,
            },
        ]);
        plan
    }

    /// Steps that bring both drives to rest at cylinder zero.
    pub open spec fn setup_steps() -> Seq<StepView> {
        seq![
            exchange(Command::MotorAOff, Seq::empty(), Effect::Nothing),
            exchange(Command::MotorBOff, Seq::empty(), Effect::Nothing),
            exchange(Command::DeselectA, Seq::empty(), Effect::Nothing),
            exchange(Command::DeselectB, Seq::empty(), Effect::Nothing),
            exchange(Command::SeekZero, Seq::empty(), Effect::Nothing),
        ]
    }

    /// Plans bringing both drives to rest at cylinder zero.
    pub fn setup_plan() -> (plan: Vec<Step>)
        ensures
            plan_view(plan@) == SuperCardPro::setup_steps(),
    {
        let mut plan: Vec<Step> = Vec::new();
        add_exchange(&mut plan, Command::MotorAOff, Vec::new(), Effect::Nothing);
        add_exchange(&mut plan, Command::MotorBOff, Vec::new(), Effect::Nothing);
        add_exchange(&mut plan, Command::DeselectA, Vec::new(), Effect::Nothing);
        add_exchange(&mut plan, Command::DeselectB, Vec::new(), Effect::Nothing);
        add_exchange(&mut plan, Command::SeekZero, Vec::new(), Effect::Nothing);
        assert(plan_view(plan@) == SuperCardPro::setup_steps());
        plan
    }

    /// Takes note that opening has succeeded.
    pub fn opened(&mut self)
        ensures
            *final(self) == (SuperCardPro {
                status: DriveStatus { working: true, cylinder: 0, ..old(self).status },
                ..*old(self)
            }),
    {
        self.status.working = true;
        self.status.cylinder = 0;
    }

    /// The state after a successful exchange.
    pub open spec fn after(self, effect: Effect, payload: Seq<u8>) -> SuperCardPro {
        match effect {
            Effect::Nothing => self,
            Effect::Selected(selected) => SuperCardPro { selected, ..self },
            Effect::MotorRunning(motor_running) => SuperCardPro {
                status: DriveStatus { motor_running, ..self.status },
                ..self
            },
            Effect::Cylinder(cylinder) => SuperCardPro {
                status: DriveStatus { cylinder, ..self.status },
                ..self
            },
            Effect::Surface(side) => SuperCardPro {
                status: DriveStatus { side, ..self.status },
                ..self
            },
            Effect::StatusWord => SuperCardPro {
                status: DriveStatus {
                    write_protected: payload[1] / 128 == 0,
                    disk_present: payload[1] / 64 % 2 == 1,
                    ..self.status
                },
                ..self
            },
        }
    }

    /// Takes note of a successful exchange.
    pub fn complete(&mut self, effect: Effect, payload: &[u8])
        requires
            payload@.len() >= effect.payload(),
        ensures
            *final(self) == old(self).after(effect, payload@),
    {
        match effect {
            Effect::Nothing => {},
            Effect::Selected(selected) => {
                self.selected = selected;
            },
            Effect::MotorRunning(running) => {
                self.status.motor_running = running;
            },
            Effect::Cylinder(cylinder) => {
                self.status.cylinder = cylinder;
            },
            Effect::Surface(side) => {
                self.status.side = side;
            },
            Effect::StatusWord => {
                self.status.write_protected = payload[1] / 128 == 0;
                self.status.disk_present = payload[1] / 64 % 2 == 1;
            },
        }
    }

    /// The command that selects or deselects the drive.
    pub open spec fn select_command(self, selected: bool) -> Command {
        if self.drive_a {
            if selected {
                Command::SelectA
            } else {
                Command::DeselectA
            }
        } else {
            if selected {
                Command::SelectB
            } else {
                Command::DeselectB
            }
        }
    }

    /// A step that selects or deselects the drive.
    pub open spec fn select_step(self, selected: bool) -> StepView {
        exchange(self.select_command(selected), Seq::empty(), Effect::Selected(selected))
    }

    /// Steps that select or deselect the drive, if it is not already.
    pub open spec fn select_steps(self, selected: bool) -> Seq<StepView> {
        if self.selected == selected {
            Seq::empty()
        } else {
            seq![self.select_step(selected)]
        }
    }

    /// Steps that release a selected drive whose motor is off.
    pub open spec fn release_steps(self) -> Seq<StepView> {
        if self.status.motor_running {
            Seq::empty()
        } else {
            seq![self.select_step(false)]
        }
    }

    /// A command that selects the drive and releases it again afterwards.
    pub open spec fn selected_steps(self, step: StepView) -> Seq<StepView> {
        self.select_steps(true) + seq![step] + self.release_steps()
    }

    /// The step that reads the drive status.
    pub open spec fn status_step() -> StepView {
        StepView::Exchange {
            command: Command::Status,
            payload: Seq::empty(),
            extra: 2,
            effect: Effect::StatusWord,
        }
    }

    /// Adds a step that selects or deselects the drive.
    fn add_select(&self, plan: &mut Vec<Step>, selected: bool)
        ensures
            plan_view(final(plan)@) == plan_view(old(plan)@).push(self.select_step(selected)),
    {
        let command = match (self.drive_a, selected) {
            (true, true) => Command::SelectA,
            (false, true) => Command::SelectB,
            (true, false) => Command::DeselectA,
            (false, false) => Command::DeselectB,
        };
        let payload: Vec<u8> = Vec::new();
        assert(payload@ == Seq::<u8>::empty());
        add_exchange(plan, command, payload, Effect::Selected(selected));
    }

    /// Adds the steps that select or deselect the drive.
    fn plan_select(&self, plan: &mut Vec<Step>, selected: bool)
        ensures
            plan_view(final(plan)@) == plan_view(old(plan)@) + self.select_steps(selected),
    {
        if selected != self.selected {
            self.add_select(plan, selected);
        }
        assert(plan_view(plan@) == plan_view(old(plan)@) + self.select_steps(selected));
    }

    /// Adds the steps that release a drive whose motor is off.
    fn plan_release(&self, plan: &mut Vec<Step>)
        ensures
            plan_view(final(plan)@) == plan_view(old(plan)@) + self.release_steps(),
    {
        if !self.status.motor_running {
            self.add_select(plan, false);
        }
        assert(plan_view(plan@) == plan_view(old(plan)@) + self.release_steps());
    }

    /// Adds a step around which the drive is selected.
    fn plan_selected(&self, plan: &mut Vec<Step>, step: Step)
        ensures
            plan_view(final(plan)@) == plan_view(old(plan)@) + self.selected_steps(step@),
    {
        self.plan_select(plan, true);
        add_step(plan, step);
        self.plan_release(plan);
        assert(plan_view(plan@) == plan_view(old(plan)@) + self.selected_steps(step@));
    }

    /// Plans reading the drive status.
    pub fn status_plan(&self) -> (plan: Vec<Step>)
        ensures
            plan_view(plan@) == self.selected_steps(SuperCardPro::status_step()),
    {
        let mut plan: Vec<Step> = Vec::new();
        let step = Step::Exchange {
            command: Command::Status,
            payload: Vec::new(),
            extra: 2,
            effect: Effect::StatusWord,
        };
        assert(step@ == SuperCardPro::status_step());
        self.plan_selected(&mut plan, step);
        assert(plan_view(plan@) == self.selected_steps(SuperCardPro::status_step()));
        plan
    }

    /// The drive state to report once the status has been read.
    pub open spec fn reported(self) -> DriveStatus {
        DriveStatus {
            working: true,
            ready: self.status.motor_running && self.status.disk_present,
            ..self.status
        }
    }

    /// Reports the drive state once the status has been read.
    pub fn report(&mut self) -> (status: DriveStatus)
        ensures
            status == old(self).reported(),
            *final(self) == (SuperCardPro { status: old(self).reported(), ..*old(self) }),
    {
        self.status.working = true;
        self.status.ready = self.status.motor_running && self.status.disk_present;
        self.status
    }

    /// The delays set before the motor is switched on.
    pub open spec fn motor_delays(quick: bool) -> Seq<u8> {
        bytes::be16(1_000) + bytes::be16(5_000) + bytes::be16(
            if quick {
                150
            } else {
                750
            },
        ) + bytes::be16(
            if quick {
                5
            } else {
                15
            },
        ) + bytes::be16(
            if quick {
                10_000
            } else {
                20_000
            },
        )
    }

    /// The command that switches the motor.
    pub open spec fn motor_command(self, enabled: bool) -> Command {
        if self.drive_a {
            if enabled {
                Command::MotorAOn
            } else {
                Command::MotorAOff
            }
        } else {
            if enabled {
                Command::MotorBOn
            } else {
                Command::MotorBOff
            }
        }
    }

    /// Steps that switch the motor.
    pub open spec fn motor_steps(self, enabled: bool, quick: bool) -> Seq<StepView> {
        (if enabled {
            seq![
                exchange(Command::SetParams, SuperCardPro::motor_delays(quick), Effect::Nothing),
            ]
        } else {
            Seq::empty()
        }) + seq![
            exchange(self.motor_command(enabled), Seq::empty(), Effect::MotorRunning(enabled)),
        ] + self.select_steps(enabled)
    }

    /// Plans switching the motor; a quick switch waits less for the spindle.
    pub fn set_motor_plan(&self, enabled: bool, quick: bool) -> (plan: Vec<Step>)
        ensures
            plan_view(plan@) == self.motor_steps(enabled, quick),
    {
        let mut plan: Vec<Step> = Vec::new();
        if enabled {
            let mut payload: Vec<u8> = Vec::with_capacity(10);
            append_be16(&mut payload, 1_000);
            append_be16(&mut payload, 5_000);
            append_be16(
                &mut payload,
                if quick {
                    150
                } else {
                    750
                },
            );
            append_be16(
                &mut payload,
                if quick {
                    5
                } else {
                    15
                },
            );
            append_be16(
                &mut payload,
                if quick {
                    10_000
                } else {
                    20_000
                },
            );
            assert(payload@ == SuperCardPro::motor_delays(quick));
            add_exchange(&mut plan, Command::SetParams, payload, Effect::Nothing);
        }
        let command = match (self.drive_a, enabled) {
            (true, true) => Command::MotorAOn,
            (false, true) => Command::MotorBOn,
            (true, false) => Command::MotorAOff,
            (false, false) => Command::MotorBOff,
        };
        let payload: Vec<u8> = Vec::new();
        assert(payload@ == Seq::<u8>::empty());
        add_exchange(&mut plan, command, payload, Effect::MotorRunning(enabled));
        self.plan_select(&mut plan, enabled);
        assert(plan_view(plan@) == self.motor_steps(enabled, quick));
        plan
    }

    /// The step that moves the head to a cylinder.
    pub open spec fn seek_step(cylinder: u8) -> StepView {
        exchange(Command::StepTo, seq![cylinder], Effect::Cylinder(cylinder))
    }

    /// Plans moving the head to a cylinder.
    pub fn seek_plan(&self, cylinder: u8) -> (result: Result<Vec<Step>>)
        ensures
            match result {
                Ok(plan) => cylinder < self.status.max_cylinders && plan_view(plan@)
                    == self.selected_steps(SuperCardPro::seek_step(cylinder)),
                Err(error) => cylinder >= self.status.max_cylinders && error@
                    == ErrorView::InvalidConfig(
                    "SuperCard Pro cylinder "@ + text::decimal(cylinder as nat)
                        + " is out of range"@,
                ),
            },
    {
        if cylinder >= self.status.max_cylinders {
            let mut message = "SuperCard Pro cylinder ".to_owned();
            append_decimal(&mut message, cylinder as u64);
            message.append(" is out of range");
            return Err(Error::InvalidConfig(message));
        }
        let mut plan: Vec<Step> = Vec::new();
        let payload: Vec<u8> = vec![cylinder];
        assert(payload@ == seq![cylinder]);
        let step = Step::Exchange {
            command: Command::StepTo,
            payload,
            extra: 0,
            effect: Effect::Cylinder(cylinder),
        };
        self.plan_selected(&mut plan, step);
        assert(plan_view(plan@) == self.selected_steps(SuperCardPro::seek_step(cylinder)));
        Ok(plan)
    }

    /// The step that selects a side.
    pub open spec fn side_step(side: Side) -> StepView {
        exchange(
            Command::Side,
            seq![bytes::flag_number(side == Side::Upper)],
            Effect::Surface(side),
        )
    }

    /// Plans selecting a side.
    pub fn select_side_plan(&self, side: Side) -> (plan: Vec<Step>)
        ensures
            plan_view(plan@) == self.selected_steps(SuperCardPro::side_step(side)),
    {
        let mut plan: Vec<Step> = Vec::new();
        let payload: Vec<u8> = vec![side.number()];
        assert(payload@ == seq![bytes::flag_number(side == Side::Upper)]);
        let step = Step::Exchange {
            command: Command::Side,
            payload,
            extra: 0,
            effect: Effect::Surface(side),
        };
        self.plan_selected(&mut plan, step);
        assert(plan_view(plan@) == self.selected_steps(SuperCardPro::side_step(side)));
        plan
    }

    /// Steps of the no-click step.
    pub open spec fn no_click_steps(self) -> Seq<StepView> {
        self.select_steps(true) + seq![exchange(Command::StepOut, Seq::empty(), Effect::Nothing)]
            + (SuperCardPro { selected: true, ..self }).selected_steps(SuperCardPro::status_step())
    }

    /// Plans the step used by track-zero disk-change detection.
    pub fn no_click_step_plan(&self) -> (result: Result<Vec<Step>>)
        ensures
            match result {
                Ok(plan) => self.status.cylinder == 0 && plan_view(plan@)
                    == self.no_click_steps(),
                Err(error) => self.status.cylinder != 0 && error@ == ErrorView::InvalidConfig(
                    "no-click step is only valid at cylinder zero"@,
                ),
            },
    {
        if self.status.cylinder != 0 {
            return Err(
                Error::InvalidConfig("no-click step is only valid at cylinder zero".to_owned()),
            );
        }
        let mut plan: Vec<Step> = Vec::new();
        self.plan_select(&mut plan, true);
        add_exchange(&mut plan, Command::StepOut, Vec::new(), Effect::Nothing);
        let mut selected: SuperCardPro = *self;
        selected.selected = true;
        let step = Step::Exchange {
            command: Command::Status,
            payload: Vec::new(),
            extra: 2,
            effect: Effect::StatusWord,
        };
        assert(step@ == SuperCardPro::status_step());
        selected.plan_selected(&mut plan, step);
        assert(plan_view(plan@) == self.no_click_steps());
        Ok(plan)
    }

    /// Flags of a stream: raw flux in 8-bit counters of 50 nanoseconds, from
    /// the index pulse on unless the capture is immediate.
    pub open spec fn stream_flags(mode: ReadMode) -> u8 {
        if mode == ReadMode::Fast {
            6
        } else {
            7
        }
    }

    /// Steps of a capture.
    pub open spec fn read_steps(self, mode: ReadMode) -> Seq<StepView> {
        self.select_steps(true) + seq![
            StepView::Ask {
                command: Command::StartStream,
                payload: seq![SuperCardPro::stream_flags(mode)],
                judgement: Judgement::StreamStart,
            },
            StepView::Receive,
            StepView::Stop { command: Command::StopStream },
        ] + self.release_steps()
    }

    /// Plans a capture.
    pub fn read_plan(&mut self, mode: ReadMode, density: DensityMode) -> (plan: Vec<Step>)
        ensures
            plan_view(plan@) == old(self).read_steps(mode),
            *final(self) == (SuperCardPro {
                high_density: asked_density(density, old(self).high_density),
                ..*old(self)
            }),
    {
        self.high_density = density == DensityMode::High || (density == DensityMode::Auto
            && self.high_density);
        let mut plan: Vec<Step> = Vec::new();
        self.plan_select(&mut plan, true);
        let flags: u8 = if mode == ReadMode::Fast {
            6
        } else {
            7
        };
        let payload: Vec<u8> = vec![flags];
        assert(payload@ == seq![SuperCardPro::stream_flags(mode)]);
        add_step(
            &mut plan,
            Step::Ask {
                command: Command::StartStream,
                payload,
                judgement: Judgement::StreamStart,
            },
        );
        add_step(&mut plan, Step::Receive);
        add_step(&mut plan, Step::Stop { command: Command::StopStream });
        self.plan_release(&mut plan);
        assert(plan_view(plan@) == old(self).read_steps(mode));
        plan
    }

    /// The state after a judged response.
    pub open spec fn after_judgement(self, judgement: Judgement, response: u8) -> SuperCardPro {
        if judgement == Judgement::StreamStart && (response == 0x11 || response == 0x08) {
            SuperCardPro { status: DriveStatus { disk_present: false, ..self.status }, ..self }
        } else if judgement == Judgement::Write && response == 0x0f {
            SuperCardPro { status: DriveStatus { write_protected: true, ..self.status }, ..self }
        } else {
            self
        }
    }

    /// Judges the response to a flux command: a stream that cannot start shows
    /// that there is no disk, a refused write that it is protected.
    pub fn judge(&mut self, judgement: Judgement, response: u8) -> (result: Result<()>)
        ensures
            match response_error(response) {
                Some(expected) => result matches Err(error) && error@ == expected,
                None => result is Ok,
            },
            *final(self) == old(self).after_judgement(judgement, response),
    {
        match judgement {
            Judgement::StreamStart => {
                if response == RESPONSE_NO_DISK || response == RESPONSE_NOT_READY {
                    self.status.disk_present = false;
                }
            },
            Judgement::Write => {
                if response == RESPONSE_WRITE_PROTECTED {
                    self.status.write_protected = true;
                }
            },
        }
        map_response(response)
    }

    /// Takes note that a stream was received and stopped.
    pub fn received(&mut self)
        ensures
            *final(self) == (SuperCardPro {
                status: DriveStatus { disk_present: true, ready: true, ..old(self).status },
                ..*old(self)
            }),
    {
        self.status.disk_present = true;
        self.status.ready = true;
    }

    /// Cuts a revolution out of received transitions.
    pub fn extract(&self, events: &[FluxEvent], mode: ReadMode) -> (result: Result<RawCapture>)
        ensures
            match device::revolution_of(events@, mode, self.high_density) {
                Ok(cut) => result matches Ok(capture) && device::holds(capture, cut.0, cut.1),
                Err(expected) => result matches Err(error) && error@ == expected,
            },
    {
        cut_revolution(events, mode, self.high_density)
    }

    /// Steps that write a track of some counters.
    pub open spec fn write_steps(self, counters: Seq<int>, from_index: bool) -> Seq<StepView> {
        let data = stream::counter_bytes(counters);
        seq![StepView::Load { header: bytes::be32(0) + bytes::be32(data.len() as int), data }]
            + self.select_steps(true) + seq![
            StepView::Ask {
                command: Command::WriteFlux,
                payload: bytes::be32(counters.len() as int).push(bytes::flag_number(from_index)),
                judgement: Judgement::Write,
            },
        ]
    }

    /// Plans writing a track.
    pub fn write_plan(
        &mut self,
        words: &[u16],
        bit_len: usize,
        from_index: bool,
        density: DensityMode,
    ) -> (result: Result<Vec<Step>>)
        ensures
            ({
                let high_density = asked_density(density, old(self).high_density);
                let bits = packed::unpacked(words@, bit_len as int);
                &&& *final(self) == (SuperCardPro { high_density, ..*old(self) })
                &&& match mfm::mfm_error(
                    words@,
                    bit_len as int,
                    stream::cell_nanoseconds(high_density),
                ) {
                    Some(expected) => result matches Err(error) && error@ == expected,
                    None => result matches Ok(plan) && plan_view(plan@) == old(self).write_steps(
                        stream::all_counters(stream::track_ticks(bits, high_density)),
                        from_index,
                    ),
                }
            }),
    {
        self.high_density = density == DensityMode::High || (density == DensityMode::Auto
            && self.high_density);
        let (data, count) = match encode_track(words, bit_len, self.high_density) {
            Ok(encoded) => encoded,
            Err(error) => return Err(error),
        };
        let ghost counters = stream::all_counters(
            stream::track_ticks(packed::unpacked(words@, bit_len as int), self.high_density),
        );
        let mut header: Vec<u8> = Vec::with_capacity(8);
        append_be32(&mut header, 0);
        append_be32(&mut header, data.len() as u32);
        assert(header@ == bytes::be32(0) + bytes::be32(data@.len() as int));
        let mut plan: Vec<Step> = Vec::new();
        add_step(&mut plan, Step::Load { header, data });
        self.plan_select(&mut plan, true);
        let mut payload: Vec<u8> = Vec::with_capacity(5);
        append_be32(&mut payload, count);
        payload.push(flag(from_index));
        assert(payload@ == bytes::be32(counters.len() as int).push(
            bytes::flag_number(from_index),
        ));
        add_step(
            &mut plan,
            Step::Ask { command: Command::WriteFlux, payload, judgement: Judgement::Write },
        );
        assert(plan_view(plan@) == old(self).write_steps(counters, from_index));
        Ok(plan)
    }
}

} // verus!
