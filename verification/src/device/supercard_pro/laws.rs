//! What holds of every SuperCard Pro packet, stream, and plan.

use vstd::prelude::*;

use super::stream;
use super::stream::CaptureState;
use super::{Command, StepView, SuperCardPro};
use crate::device::bytes;
use crate::flux::FluxEvent;
use crate::types::DriveStatus;

verus! {

/// The firmware accepts every packet: its bytes before the last, added to
/// 0x4a, are congruent to the last.
pub proof fn law_packet_checksum(command: Command, payload: Seq<u8>)
    requires
        payload.len() <= 255,
    ensures
        ({
            let bytes = super::framed(command, payload);
            &&& bytes.len() == payload.len() + 3
            &&& bytes[1] == payload.len()
            &&& bytes.subrange(2, 2 + payload.len() as int) == payload
            &&& (0x4a + super::byte_sum(bytes.drop_last())) % 256 == bytes.last()
        }),
{
    let head = super::unsigned_packet(command, payload);
    let bytes = super::framed(command, payload);
    assert(bytes.drop_last() == head);
    assert(bytes.subrange(2, 2 + payload.len() as int) == payload);
}

/// State of a capture after some bytes.
pub open spec fn fed(state: CaptureState, bytes: Seq<u8>) -> CaptureState
    decreases bytes.len(),
{
    if bytes.len() == 0 {
        state
    } else {
        fed(state, bytes.drop_last()).after(bytes.last())
    }
}

/// A run of zero bytes.
pub open spec fn zeros(count: nat) -> Seq<u8> {
    Seq::new(count, |i: int| 0u8)
}

/// Every zero byte delays the next transition by 256 ticks.
pub proof fn law_extensions_add_ticks(state: CaptureState, count: nat)
    requires
        !state.escaped,
        0 <= state.ticks,
        state.ticks + 256 * count <= u32::MAX,
    ensures
        fed(state, zeros(count)) == (CaptureState {
            ticks: state.ticks + 256 * count,
            received: state.received + count,
            ..state
        }),
    decreases count,
{
    if count > 0 {
        assert(zeros(count).drop_last() == zeros((count - 1) as nat));
        law_extensions_add_ticks(state, (count - 1) as nat);
    }
}

/// An interval of any length is one transition: its 256-tick extensions and
/// its last byte add up.
pub proof fn law_extended_interval_decodes(state: CaptureState, count: nat, byte: u8)
    requires
        !state.escaped,
        state.ticks == 0,
        0 < byte < 0xff,
        256 * count + byte <= u32::MAX,
    ensures
        fed(state, zeros(count).push(byte)).events == state.events.push(
            FluxEvent {
                nanoseconds: stream::at_most(
                    (256 * count + byte) * state.resolution,
                    u32::MAX as int,
                ) as u32,
                index: state.index,
            },
        ),
{
    law_extensions_add_ticks(state, count);
    assert(zeros(count).push(byte).drop_last() == zeros(count));
}

/// An index marker flags the next transition and no other.
pub proof fn law_index_marks_next_transition(state: CaptureState, byte: u8)
    requires
        !state.escaped,
        state.immediate || state.indices == 0,
        0 < byte < 0xff,
    ensures
        ({
            let marked = fed(state, seq![0xffu8, 0u8, byte]);
            &&& marked.events.len() == state.events.len() + 1
            &&& marked.events.last().index
            &&& !marked.index
        }),
{
    reveal_with_fuel(fed, 4);
    let bytes = seq![0xffu8, 0u8, byte];
    assert(bytes.drop_last() == seq![0xffu8, 0u8]);
    assert(bytes.drop_last().drop_last() == seq![0xffu8]);
    assert(bytes.drop_last().drop_last().drop_last() == Seq::<u8>::empty());
}

/// A written interval is carried whole: every counter but the last is an empty
/// one of 65536 ticks, and the last holds what is left. An interval that is a
/// multiple of 65536 ticks leaves nothing for its last counter.
pub proof fn law_counters_carry_ticks(ticks: int)
    requires
        ticks > 0,
        ticks % 0x1_0000 != 0,
    ensures
        ({
            let values = stream::counters(ticks);
            &&& values.len() == ticks / 0x1_0000 + 1
            &&& forall|i: int| 0 <= i < values.len() - 1 ==> #[trigger] values[i] == 0
            &&& 0 < values.last() <= 0xffff
            &&& (values.len() - 1) * 0x1_0000 + values.last() == ticks
        }),
    decreases ticks,
{
    if ticks > 0xffff {
        law_counters_carry_ticks(ticks - 0x1_0000);
        let rest = stream::counters(ticks - 0x1_0000);
        let values = stream::counters(ticks);
        assert(values == seq![0int] + rest);
        assert(values.last() == rest.last());
        assert forall|i: int| 0 <= i < values.len() - 1 implies #[trigger] values[i] == 0 by {
            if i > 0 {
                assert(values[i] == rest[i - 1]);
            }
        }
    }
}

/// The state of an interface after the exchanges of a plan have succeeded, each
/// with its payload.
pub open spec fn carried_out(
    device: SuperCardPro,
    steps: Seq<StepView>,
    payloads: Seq<Seq<u8>>,
) -> SuperCardPro
    decreases steps.len(),
{
    if steps.len() == 0 {
        device
    } else {
        let before = carried_out(device, steps.drop_last(), payloads.drop_last());
        match steps.last() {
            StepView::Exchange { effect, .. } => before.after(effect, payloads.last()),
            _ => before,
        }
    }
}

/// Carrying out a step around which the drive is selected.
proof fn lemma_selected(device: SuperCardPro, step: StepView, payloads: Seq<Seq<u8>>)
    requires
        payloads.len() == device.selected_steps(step).len(),
        step is Exchange,
        !(step->effect is Selected),
        !(step->effect is MotorRunning),
    ensures
        ({
            let at = device.select_steps(true).len() as int;
            carried_out(device, device.selected_steps(step), payloads) == SuperCardPro {
                selected: device.status.motor_running,
                ..device.after(step->effect, payloads[at])
            }
        }),
{
    reveal_with_fuel(carried_out, 4);
    let steps = device.selected_steps(step);
    let at = device.select_steps(true).len() as int;
    assert(steps[at] == step);
    let shorter = steps.drop_last();
    assert(steps.len() == 1 || shorter.len() == steps.len() - 1);
    if device.status.motor_running {
        assert(steps.last() == step);
        assert(payloads.last() == payloads[at]);
    } else {
        assert(steps.last() == device.select_step(false));
        assert(shorter.last() == step);
        assert(payloads.drop_last().last() == payloads[at]);
    }
    if !device.selected {
        assert(steps[0] == device.select_step(true));
    }
}

/// A seek that succeeds has the head at the wanted cylinder, leaves the drive
/// selected exactly while its motor runs, and changes nothing else.
pub proof fn law_seek_reaches_cylinder(
    device: SuperCardPro,
    cylinder: u8,
    payloads: Seq<Seq<u8>>,
)
    requires
        payloads.len() == device.selected_steps(SuperCardPro::seek_step(cylinder)).len(),
    ensures
        carried_out(
            device,
            device.selected_steps(SuperCardPro::seek_step(cylinder)),
            payloads,
        ) == (SuperCardPro {
            status: DriveStatus { cylinder, ..device.status },
            selected: device.status.motor_running,
            ..device
        }),
{
    lemma_selected(device, SuperCardPro::seek_step(cylinder), payloads);
}

/// Selecting a side that succeeds leaves that side selected and the drive
/// selected exactly while its motor runs, and changes nothing else.
pub proof fn law_side_is_selected(
    device: SuperCardPro,
    side: crate::types::Side,
    payloads: Seq<Seq<u8>>,
)
    requires
        payloads.len() == device.selected_steps(SuperCardPro::side_step(side)).len(),
    ensures
        carried_out(
            device,
            device.selected_steps(SuperCardPro::side_step(side)),
            payloads,
        ) == (SuperCardPro {
            status: DriveStatus { side, ..device.status },
            selected: device.status.motor_running,
            ..device
        }),
{
    lemma_selected(device, SuperCardPro::side_step(side), payloads);
}

/// Switching the motor leaves the drive selected exactly while it runs.
pub proof fn law_motor_decides_selection(
    device: SuperCardPro,
    enabled: bool,
    quick: bool,
    payloads: Seq<Seq<u8>>,
)
    requires
        payloads.len() == device.motor_steps(enabled, quick).len(),
    ensures
        carried_out(device, device.motor_steps(enabled, quick), payloads) == (SuperCardPro {
            status: DriveStatus { motor_running: enabled, ..device.status },
            selected: enabled,
            ..device
        }),
{
    reveal_with_fuel(carried_out, 4);
    let steps = device.motor_steps(enabled, quick);
    let switch = super::exchange(
        device.motor_command(enabled),
        Seq::empty(),
        super::Effect::MotorRunning(enabled),
    );
    let shorter = steps.drop_last();
    if device.selected == enabled {
        assert(steps.last() == switch);
        if enabled {
            assert(shorter.last() == steps[0]);
        }
    } else {
        assert(steps.last() == device.select_step(enabled));
        assert(shorter.last() == switch);
        if enabled {
            assert(shorter.drop_last().last() == steps[0]);
        }
    }
}

proof fn lemma_sum_changes(values: Seq<u8>, at: int, byte: u8)
    requires
        0 <= at < values.len(),
    ensures
        super::byte_sum(values.update(at, byte)) == super::byte_sum(values) - values[at] + byte,
    decreases values.len(),
{
    let changed = values.update(at, byte);
    if at == values.len() - 1 {
        assert(changed.drop_last() == values.drop_last());
    } else {
        lemma_sum_changes(values.drop_last(), at, byte);
        assert(changed.drop_last() == values.drop_last().update(at, byte));
    }
}

/// The checksum of an empty command is its number and 0x4a. Every byte of a
/// payload counts in full: changing one changes the checksum by as much.
pub proof fn law_every_byte_counts(command: Command, payload: Seq<u8>, at: int, byte: u8)
    requires
        payload.len() <= 255,
        0 <= at < payload.len(),
    ensures
        super::framed(command, Seq::empty()).last() == (command.opcode() + 0x4a) % 256,
        ({
            let before = super::framed(command, payload).last();
            let after = super::framed(command, payload.update(at, byte)).last();
            (after - before) % 256 == (byte - payload[at]) % 256
        }),
{
    lemma_empty_checksum(command);
    let head = super::unsigned_packet(command, payload);
    let changed = super::unsigned_packet(command, payload.update(at, byte));
    assert(changed == head.update(at + 2, byte));
    lemma_sum_changes(head, at + 2, byte);
    vstd::arithmetic::div_mod::lemma_sub_mod_noop(
        0x4a + super::byte_sum(changed),
        0x4a + super::byte_sum(head),
        256,
    );
}

proof fn lemma_empty_checksum(command: Command)
    ensures
        super::framed(command, Seq::empty()).last() == (command.opcode() + 0x4a) % 256,
{
    let empty = super::unsigned_packet(command, Seq::empty());
    assert(empty == seq![command.opcode(), 0u8]);
    reveal_with_fuel(super::byte_sum, 3);
    assert(empty.drop_last() == seq![command.opcode()]);
    assert(empty.drop_last().drop_last() == Seq::<u8>::empty());
}

/// A seek sends its cylinder, and a side its number.
pub proof fn law_position_is_sent(cylinder: u8)
    ensures
        SuperCardPro::seek_step(cylinder) matches StepView::Exchange { command, payload, .. }
            && super::framed(command, payload).drop_last() == seq![0x89u8, 1u8, cylinder],
        SuperCardPro::side_step(crate::types::Side::Lower) matches StepView::Exchange {
            command,
            payload,
            ..
        } && super::framed(command, payload).drop_last() == seq![0x8du8, 1u8, 0u8],
        SuperCardPro::side_step(crate::types::Side::Upper) matches StepView::Exchange {
            command,
            payload,
            ..
        } && super::framed(command, payload).drop_last() == seq![0x8du8, 1u8, 1u8],
{
    assert(super::framed(Command::StepTo, seq![cylinder]).drop_last() == seq![
        0x89u8,
        1u8,
        cylinder,
    ]);
    assert(super::framed(Command::Side, seq![0u8]).drop_last() == seq![0x8du8, 1u8, 0u8]);
    assert(super::framed(Command::Side, seq![1u8]).drop_last() == seq![0x8du8, 1u8, 1u8]);
}

/// The second byte of the drive status shows the media: its highest bit is clear
/// for a protected disk, the next one set where there is a disk.
pub proof fn law_status_shows_media(device: SuperCardPro, word: Seq<u8>)
    requires
        word.len() == 2,
    ensures
        device.after(super::Effect::StatusWord, word) == (SuperCardPro {
            status: DriveStatus {
                write_protected: word[1] < 128,
                disk_present: word[1] % 128 >= 64,
                ..device.status
            },
            ..device
        }),
{
}

/// A drive is ready exactly while its motor runs and there is a disk in it.
pub proof fn law_ready_drive_turns_a_disk(device: SuperCardPro)
    ensures
        device.reported() == (DriveStatus {
            working: true,
            ready: device.status.disk_present && device.status.motor_running,
            ..device.status
        }),
{
}

/// A write loads its counters at the beginning of the memory with their length
/// in bytes, and then says how many counters there are and whether it starts at
/// the index pulse.
pub proof fn law_write_says_its_length(
    device: SuperCardPro,
    counters: Seq<int>,
    from_index: bool,
)
    requires
        counters.len() <= 0x7fff_ffff,
    ensures
        ({
            let steps = device.write_steps(counters, from_index);
            &&& steps[0] matches StepView::Load { header, data } && data == stream::counter_bytes(
                counters,
            ) && header.len() == 8 && header.take(4) == seq![0u8, 0u8, 0u8, 0u8] && ((header[4]
                * 256 + header[5]) * 256 + header[6]) * 256 + header[7] == 2 * counters.len()
            &&& steps.last() matches StepView::Ask { command, payload, .. } && command
                == Command::WriteFlux && payload.len() == 5 && ((payload[0] * 256 + payload[1])
                * 256 + payload[2]) * 256 + payload[3] == counters.len() && payload[4] == (
            if from_index {
                1int
            } else {
                0int
            })
        }),
{
    let data = stream::counter_bytes(counters);
    lemma_two_bytes_each(counters);
    bytes::law_be32_weighs_its_bytes(data.len() as int);
    bytes::law_be32_weighs_its_bytes(counters.len() as int);
    let header = bytes::be32(0) + bytes::be32(data.len() as int);
    assert(header.take(4) == seq![0u8, 0u8, 0u8, 0u8]);
    let length = bytes::be32(data.len() as int);
    assert(header[4] == length[0] && header[5] == length[1] && header[6] == length[2] && header[7]
        == length[3]);
}

proof fn lemma_two_bytes_each(values: Seq<int>)
    ensures
        stream::counter_bytes(values).len() == 2 * values.len(),
    decreases values.len(),
{
    if values.len() > 0 {
        lemma_two_bytes_each(values.drop_last());
    }
}

/// An interface is usable from firmware 1.3 on, its version being two nibbles of
/// one byte.
pub proof fn law_firmware_is_usable(record: Seq<u8>)
    requires
        record.len() == 2,
    ensures
        SuperCardPro::firmware_problem(record) is None <==> record[1] >= 0x13,
{
}

} // verus!
