//! What a Greaseweazle plan puts on the wire.

use vstd::prelude::*;

use super::{Command, Delays, Effect, Greaseweazle, StepView};
use crate::device::bytes;
use crate::types::{DriveStatus, ReadMode, Side};

verus! {

/// The bytes of one step, if it sends a command.
pub open spec fn sent_by(step: StepView) -> Seq<Seq<u8>> {
    match step {
        StepView::Exchange { command, parameters, .. } => seq![
            super::packet(command, parameters),
        ],
        StepView::Ask { command, parameters, .. } => seq![super::packet(command, parameters)],
        StepView::Receive => Seq::empty(),
        StepView::Transmit { bytes } => seq![bytes],
    }
}

/// What a plan sends, in order.
pub open spec fn sent(steps: Seq<StepView>) -> Seq<Seq<u8>>
    decreases steps.len(),
{
    if steps.len() == 0 {
        Seq::empty()
    } else {
        sent(steps.drop_last()) + sent_by(steps.last())
    }
}

proof fn lemma_sent_on(left: Seq<StepView>, right: Seq<StepView>)
    ensures
        sent(left + right) == sent(left) + sent(right),
    decreases right.len(),
{
    if right.len() == 0 {
        assert(left + right == left);
    } else {
        lemma_sent_on(left, right.drop_last());
        assert((left + right).drop_last() == left + right.drop_last());
    }
}

proof fn lemma_sent_one(step: StepView)
    ensures
        sent(seq![step]) == sent_by(step),
{
    reveal_with_fuel(sent, 2);
    assert(seq![step].drop_last() == Seq::<StepView>::empty());
}

/// The command that selects a unit, where it is not selected.
pub open spec fn selecting(device: Greaseweazle) -> Seq<Seq<u8>> {
    if device.selected {
        Seq::empty()
    } else {
        seq![seq![12u8, 3u8, device.drive]]
    }
}

/// The command that deselects a unit, where its motor stands still.
pub open spec fn releasing(device: Greaseweazle) -> Seq<Seq<u8>> {
    if device.status.motor_running {
        Seq::empty()
    } else {
        seq![seq![13u8, 2u8]]
    }
}

proof fn lemma_selecting(device: Greaseweazle)
    ensures
        sent(device.select_steps(true)) == selecting(device),
        sent(device.release_steps()) == releasing(device),
{
    let select = super::exchange(Command::Select, seq![device.drive], Effect::Selected(true));
    let release = super::exchange(Command::Deselect, Seq::empty(), Effect::Selected(false));
    lemma_sent_one(select);
    lemma_sent_one(release);
    assert(super::packet(Command::Select, seq![device.drive]) == seq![12u8, 3u8, device.drive]);
    assert(super::packet(Command::Deselect, Seq::empty()) == seq![13u8, 2u8]);
}

/// A seek sends the wanted cylinder between selecting and releasing the drive.
pub proof fn law_seek_sends_its_cylinder(device: Greaseweazle, cylinder: u8)
    ensures
        sent(device.seek_steps(cylinder)) == selecting(device) + seq![seq![2u8, 3u8, cylinder]]
            + releasing(device),
{
    let step = super::exchange(Command::Seek, seq![cylinder], Effect::Cylinder(cylinder));
    lemma_selecting(device);
    lemma_sent_one(step);
    lemma_sent_on(device.select_steps(true), seq![step]);
    lemma_sent_on(device.select_steps(true) + seq![step], device.release_steps());
    assert(super::packet(Command::Seek, seq![cylinder]) == seq![2u8, 3u8, cylinder]);
}

/// The head of the lower side is number zero, that of the upper side number one.
pub proof fn law_side_names_its_head(side: Side)
    ensures
        super::packet(Command::Head, seq![super::side_number(side)]) == (if side == Side::Lower {
            seq![3u8, 3u8, 0u8]
        } else {
            seq![3u8, 3u8, 1u8]
        }),
{
    assert(super::packet(Command::Head, seq![super::side_number(side)]) =~= (if side == Side::Lower {
        seq![3u8, 3u8, 0u8]
    } else {
        seq![3u8, 3u8, 1u8]
    }));
}

/// Switching the motor names the unit and whether it is to run, and leaves the
/// unit selected exactly while it does. A slow start waits 750 ms for the
/// spindle, a quick one 10; the interface is told where it does not know yet.
pub proof fn law_motor_switch_names_its_unit(device: Greaseweazle, enabled: bool, quick: bool)
    ensures
        ({
            let wait = if quick {
                10u16
            } else {
                750u16
            };
            let told = if device.delays.motor == wait {
                Seq::empty()
            } else {
                seq![
                    seq![4u8, 13u8] + (Delays { motor: wait, ..device.delays }).parameters(),
                ]
            };
            let switched = if enabled {
                seq![seq![6u8, 4u8, device.drive, 1u8]]
            } else {
                seq![seq![6u8, 4u8, device.drive, 0u8]]
            };
            let chosen = if device.selected == enabled {
                Seq::empty()
            } else if enabled {
                seq![seq![12u8, 3u8, device.drive]]
            } else {
                seq![seq![13u8, 2u8]]
            };
            sent(device.motor_steps(enabled, quick)) == told + switched + chosen
        }),
{
    let wait = if quick {
        10u16
    } else {
        750u16
    };
    let delays = Delays { motor: wait, ..device.delays };
    let first = if delays == device.delays {
        Seq::empty()
    } else {
        seq![super::exchange(Command::SetParams, delays.parameters(), Effect::Nothing)]
    };
    let step = super::exchange(
        Command::Motor,
        seq![device.drive, bytes::flag_number(enabled)],
        Effect::MotorRunning(enabled),
    );
    let last = device.select_steps(enabled);
    if first.len() > 0 {
        lemma_sent_one(first[0]);
    }
    if last.len() > 0 {
        lemma_sent_one(last[0]);
        assert(last == seq![last[0]]);
    }
    lemma_sent_one(step);
    lemma_sent_on(first, seq![step]);
    lemma_sent_on(first + seq![step], last);
    assert(delays.parameters().len() == 11);
    assert(super::packet(Command::SetParams, delays.parameters()) == seq![4u8, 13u8]
        + delays.parameters());
    assert(super::packet(Command::Motor, seq![device.drive, bytes::flag_number(enabled)])
        == seq![6u8, 4u8, device.drive, bytes::flag_number(enabled)]);
    assert(super::packet(Command::Select, seq![device.drive]) == seq![12u8, 3u8, device.drive]);
    assert(super::packet(Command::Deselect, Seq::empty()) == seq![13u8, 2u8]);
    assert(device.motor_steps(enabled, quick) == first + seq![step] + last);
}

/// The delays of an interface are read back as they were written.
pub proof fn law_delays_read_back(delays: Delays)
    ensures
        delays.parameters().len() == 11,
        delays.parameters()[0] == 0,
        Delays::recorded(delays.parameters().skip(1)) == delays,
{
    let record = delays.parameters().skip(1);
    let select = bytes::le16(delays.select as int);
    let step = bytes::le16(delays.step as int);
    let settle = bytes::le16(delays.settle as int);
    let motor = bytes::le16(delays.motor as int);
    let watchdog = bytes::le16(delays.watchdog as int);
    assert(record == select + step + settle + motor + watchdog);
    assert(record[0] == select[0] && record[1] == select[1]);
    assert(record[2] == step[0] && record[3] == step[1]);
    assert(record[4] == settle[0] && record[5] == settle[1]);
    assert(record[6] == motor[0] && record[7] == motor[1]);
    assert(record[8] == watchdog[0] && record[9] == watchdog[1]);
}

/// The number in four bytes of a command, the first counting least.
pub open spec fn four_bytes(bytes: Seq<u8>, at: int) -> int {
    bytes[at] + 256 * (bytes[at + 1] + 256 * (bytes[at + 2] + 256 * bytes[at + 3]))
}

/// A fast capture lasts 232 ms, whatever the index. Another ends with the second
/// index pulse and 20 ms after it, or after a second. Times are in ticks of the
/// sample clock.
pub proof fn law_capture_is_bounded_in_time(device: Greaseweazle, mode: ReadMode)
    ensures
        ({
            let parameters = device.capture_parameters(mode);
            let frequency = device.sample_frequency as int;
            let longest = four_bytes(parameters, 0);
            let pulses = parameters[4] + 256 * parameters[5];
            let linger = four_bytes(parameters, 6);
            &&& parameters.len() == 10
            &&& mode == ReadMode::Fast ==> longest == frequency * 232 / 1_000 && pulses == 0
                && linger == 0
            &&& mode != ReadMode::Fast ==> longest == frequency && pulses == 2 && linger == frequency
                / 50
        }),
{
    let parameters = device.capture_parameters(mode);
    let frequency = device.sample_frequency as int;
    let (longest, pulses, linger) = if mode == ReadMode::Fast {
        (frequency * 232 / 1_000, 0int, 0int)
    } else {
        (frequency, 2int, frequency / 50)
    };
    assert(frequency * 1_000 / 1_000 == frequency);
    assert(frequency * 20 / 1_000 == frequency / 50);
    bytes::law_le32_weighs_its_bytes(longest);
    bytes::law_le32_weighs_its_bytes(linger);
    let a = bytes::le32(longest);
    let b = bytes::le16(pulses);
    let c = bytes::le32(linger);
    assert(parameters == a + b + c);
    assert(parameters[0] == a[0] && parameters[1] == a[1] && parameters[2] == a[2] && parameters[3]
        == a[3]);
    assert(parameters[4] == b[0] && parameters[5] == b[1]);
    assert(parameters[6] == c[0] && parameters[7] == c[1] && parameters[8] == c[2] && parameters[9]
        == c[3]);
}

/// A capture sends its bounds and then asks how it went, between selecting and
/// releasing the drive.
pub proof fn law_capture_is_asked_for(device: Greaseweazle, mode: ReadMode)
    ensures
        sent(device.read_steps(mode)) == selecting(device) + seq![
            seq![7u8, 12u8] + device.capture_parameters(mode),
            seq![9u8, 2u8],
        ] + releasing(device),
{
    let parameters = device.capture_parameters(mode);
    law_capture_is_bounded_in_time(device, mode);
    let start = super::exchange(Command::ReadFlux, parameters, Effect::Nothing);
    let end = StepView::Ask {
        command: Command::GetFluxStatus,
        parameters: Seq::empty(),
        judgement: super::Judgement::ReadEnd,
    };
    let first = device.select_steps(true);
    lemma_selecting(device);
    lemma_sent_one(start);
    lemma_sent_one(StepView::Receive);
    lemma_sent_one(end);
    lemma_sent_on(first, seq![start]);
    lemma_sent_on(first + seq![start], seq![StepView::Receive]);
    lemma_sent_on(first + seq![start] + seq![StepView::Receive], seq![end]);
    lemma_sent_on(
        first + seq![start] + seq![StepView::Receive] + seq![end],
        device.release_steps(),
    );
    assert(device.read_steps(mode) == first + seq![start] + seq![StepView::Receive] + seq![end]
        + device.release_steps());
    assert(super::packet(Command::GetFluxStatus, Seq::empty()) == seq![9u8, 2u8]);
    assert(sent(device.read_steps(mode)) == selecting(device) + seq![
        seq![7u8, 12u8] + parameters,
        seq![9u8, 2u8],
    ] + releasing(device));
}

/// A write says whether it starts at the index pulse, sends the track as it was
/// encoded, and then asks how it went.
pub proof fn law_write_sends_its_track(device: Greaseweazle, encoded: Seq<u8>, from_index: bool)
    ensures
        sent(device.write_steps(encoded, from_index)) == selecting(device) + seq![
            if from_index {
                seq![8u8, 4u8, 1u8, 0u8]
            } else {
                seq![8u8, 4u8, 0u8, 0u8]
            },
            encoded,
            seq![9u8, 2u8],
        ],
{
    let start = StepView::Ask {
        command: Command::WriteFlux,
        parameters: seq![bytes::flag_number(from_index), 0u8],
        judgement: super::Judgement::WriteStart,
    };
    let track = StepView::Transmit { bytes: encoded };
    let end = StepView::Ask {
        command: Command::GetFluxStatus,
        parameters: Seq::empty(),
        judgement: super::Judgement::WriteEnd,
    };
    let first = device.select_steps(true);
    lemma_selecting(device);
    lemma_sent_one(start);
    lemma_sent_one(track);
    lemma_sent_one(end);
    lemma_sent_on(first, seq![start]);
    lemma_sent_on(first + seq![start], seq![track]);
    lemma_sent_on(first + seq![start] + seq![track], seq![end]);
    assert(device.write_steps(encoded, from_index) == first + seq![start] + seq![track]
        + seq![end]);
    assert(super::packet(Command::GetFluxStatus, Seq::empty()) == seq![9u8, 2u8]);
    assert(super::packet(Command::WriteFlux, seq![bytes::flag_number(from_index), 0u8])
        == seq![8u8, 4u8, bytes::flag_number(from_index), 0u8]);
    assert(sent(device.write_steps(encoded, from_index)) == selecting(device) + seq![
        seq![8u8, 4u8, bytes::flag_number(from_index), 0u8],
        encoded,
        seq![9u8, 2u8],
    ]);
}

/// A drive is ready exactly while its motor runs and there is a disk in it.
pub proof fn law_ready_drive_turns_a_disk(device: Greaseweazle)
    ensures
        device.reported() == (DriveStatus {
            working: true,
            ready: device.status.disk_present && device.status.motor_running,
            ..device.status
        }),
{
}

/// An interface is usable from firmware 0.27 on, unless it runs its update
/// firmware or reports no sample clock.
pub proof fn law_firmware_is_usable(record: Seq<u8>)
    requires
        record.len() == 32,
    ensures
        Greaseweazle::firmware_problem(record) is None <==> (record[0] > 0 || record[1] >= 27)
            && record[2] != 0 && four_bytes(record, 4) != 0,
{
}

} // verus!
