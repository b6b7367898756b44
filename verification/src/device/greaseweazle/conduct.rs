//! What holds of every Greaseweazle plan.

use vstd::prelude::*;

use super::stream;
use super::{Effect, Greaseweazle, StepView};
use crate::flux::FluxEvent;
use crate::types::{DensityMode, ReadMode};

verus! {

/// The state of an interface after the exchanges of a plan have succeeded, each
/// with its payload.
pub open spec fn carried_out(
    device: Greaseweazle,
    steps: Seq<StepView>,
    payloads: Seq<Seq<u8>>,
) -> Greaseweazle
    decreases steps.len(),
{
    if steps.len() == 0 {
        device
    } else {
        let before = carried_out(device, steps.drop_last(), payloads.drop_last());
        match steps.last() {
            StepView::Exchange { effect, .. } => before.after(effect, payloads.last()),
            _ => before,
        }
    }
}

/// Carrying out a plan step by step.
proof fn lemma_carried_out_append(
    device: Greaseweazle,
    left: Seq<StepView>,
    right: Seq<StepView>,
    payloads: Seq<Seq<u8>>,
)
    requires
        payloads.len() == left.len() + right.len(),
    ensures
        carried_out(device, left + right, payloads) == carried_out(
            carried_out(device, left, payloads.take(left.len() as int)),
            right,
            payloads.skip(left.len() as int),
        ),
    decreases right.len(),
{
    if right.len() == 0 {
        assert(left + right == left);
        assert(payloads.take(left.len() as int) == payloads);
    } else {
        let shorter = right.drop_last();
        assert((left + right).drop_last() == left + shorter);
        assert((left + right).last() == right.last());
        lemma_carried_out_append(device, left, shorter, payloads.drop_last());
        assert(payloads.drop_last().take(left.len() as int) == payloads.take(left.len() as int));
        assert(payloads.drop_last().skip(left.len() as int) == payloads.skip(
            left.len() as int,
        ).drop_last());
        assert(payloads.skip(left.len() as int).last() == payloads.last());
    }
}

/// One step of a plan.
proof fn lemma_single(device: Greaseweazle, step: StepView, payloads: Seq<Seq<u8>>)
    requires
        payloads.len() == 1,
    ensures
        carried_out(device, seq![step], payloads) == match step {
            StepView::Exchange { effect, .. } => device.after(effect, payloads[0]),
            _ => device,
        },
{
    reveal_with_fuel(carried_out, 2);
    assert(seq![step].drop_last() == Seq::<StepView>::empty());
}

/// Selecting changes nothing else.
proof fn lemma_select(device: Greaseweazle, selected: bool, payloads: Seq<Seq<u8>>)
    requires
        payloads.len() == device.select_steps(selected).len(),
    ensures
        carried_out(device, device.select_steps(selected), payloads) == (Greaseweazle {
            selected,
            ..device
        }),
{
    if device.selected != selected {
        let step = device.select_steps(selected)[0];
        assert(device.select_steps(selected) == seq![step]);
        lemma_single(device, step, payloads);
    }
}

/// Releasing leaves a drive selected exactly while its motor runs.
proof fn lemma_release(device: Greaseweazle, planned: Greaseweazle, payloads: Seq<Seq<u8>>)
    requires
        device.selected,
        device.status.motor_running == planned.status.motor_running,
        payloads.len() == planned.release_steps().len(),
    ensures
        carried_out(device, planned.release_steps(), payloads) == (Greaseweazle {
            selected: device.status.motor_running,
            ..device
        }),
{
    if !planned.status.motor_running {
        let step = planned.release_steps()[0];
        assert(planned.release_steps() == seq![step]);
        lemma_single(device, step, payloads);
    }
}

/// A seek that succeeds has the head at the wanted cylinder, leaves the drive
/// selected exactly while its motor runs, and changes nothing else.
pub proof fn law_seek_reaches_cylinder(
    device: Greaseweazle,
    cylinder: u8,
    payloads: Seq<Seq<u8>>,
)
    requires
        payloads.len() == device.seek_steps(cylinder).len(),
    ensures
        carried_out(device, device.seek_steps(cylinder), payloads) == (Greaseweazle {
            status: crate::types::DriveStatus { cylinder, ..device.status },
            selected: device.status.motor_running,
            ..device
        }),
{
    let first = device.select_steps(true);
    let middle = seq![
        super::exchange(super::Command::Seek, seq![cylinder], Effect::Cylinder(cylinder)),
    ];
    let last = device.release_steps();
    let split = (first.len() + 1) as int;
    assert(device.seek_steps(cylinder) == first + middle + last);
    lemma_carried_out_append(device, first + middle, last, payloads);
    let head = payloads.take(split);
    lemma_carried_out_append(device, first, middle, head);
    lemma_select(device, true, head.take(first.len() as int));
    let selected = Greaseweazle { selected: true, ..device };
    lemma_single(selected, middle[0], head.skip(first.len() as int));
    lemma_release(
        selected.after(Effect::Cylinder(cylinder), head.skip(first.len() as int)[0]),
        device,
        payloads.skip(split),
    );
}

/// Switching the motor leaves the drive selected exactly while it runs.
pub proof fn law_motor_decides_selection(
    device: Greaseweazle,
    enabled: bool,
    quick: bool,
    payloads: Seq<Seq<u8>>,
)
    requires
        payloads.len() == device.motor_steps(enabled, quick).len(),
    ensures
        ({
            let after = carried_out(device, device.motor_steps(enabled, quick), payloads);
            &&& after.status.motor_running == enabled
            &&& after.selected == enabled
        }),
{
    let delays = super::Delays { motor: Greaseweazle::motor_delay(quick), ..device.delays };
    let first = if delays == device.delays {
        Seq::empty()
    } else {
        seq![super::exchange(super::Command::SetParams, delays.parameters(), Effect::Nothing)]
    };
    let middle = seq![
        super::exchange(
            super::Command::Motor,
            seq![device.drive, crate::device::bytes::flag_number(enabled)],
            Effect::MotorRunning(enabled),
        ),
    ];
    let last = device.select_steps(enabled);
    let split = (first.len() + 1) as int;
    assert(device.motor_steps(enabled, quick) == first + middle + last);
    lemma_carried_out_append(device, first + middle, last, payloads);
    let head = payloads.take(split);
    lemma_carried_out_append(device, first, middle, head);
    if first.len() == 1 {
        lemma_single(device, first[0], head.take(1));
        assert(first == seq![first[0]]);
    }
    lemma_single(device, middle[0], head.skip(first.len() as int));
    let running = device.after(
        Effect::MotorRunning(enabled),
        head.skip(first.len() as int)[0],
    );
    assert(running.select_steps(enabled) == last);
    lemma_select(running, enabled, payloads.skip(split));
}

/// The part of a pin sample between selecting and releasing the drive.
spec fn samples(device: Greaseweazle) -> Seq<StepView> {
    let protect = StepView::Exchange {
        command: super::Command::GetPin,
        parameters: seq![28u8],
        extra: 1,
        effect: Effect::ProtectPin { presume_media: device.bus != 1 },
    };
    if device.bus == 1 {
        seq![
            protect,
            StepView::Exchange {
                command: super::Command::GetPin,
                parameters: seq![34u8],
                extra: 1,
                effect: Effect::DiskPin,
            },
        ]
    } else {
        seq![protect]
    }
}

/// Sampling changes the media and write-protect state alone.
proof fn lemma_samples(device: Greaseweazle, payloads: Seq<Seq<u8>>)
    requires
        payloads.len() == samples(device).len(),
    ensures
        ({
            let after = carried_out(device, samples(device), payloads);
            &&& after.status.write_protected == (payloads[0][0] == 0)
            &&& device.bus == 1 ==> after.status.disk_present == (payloads[1][0] == 1)
            &&& device.bus != 1 ==> after.status.disk_present
            &&& after == Greaseweazle {
                status: crate::types::DriveStatus {
                    disk_present: after.status.disk_present,
                    write_protected: after.status.write_protected,
                    ..device.status
                },
                ..device
            }
        }),
{
    let steps = samples(device);
    if device.bus == 1 {
        assert(steps == seq![steps[0]] + seq![steps[1]]);
        lemma_carried_out_append(device, seq![steps[0]], seq![steps[1]], payloads);
        lemma_single(device, steps[0], payloads.take(1));
        lemma_single(
            device.after(Effect::ProtectPin { presume_media: false }, payloads.take(1)[0]),
            steps[1],
            payloads.skip(1),
        );
    } else {
        assert(steps == seq![steps[0]]);
        lemma_single(device, steps[0], payloads);
    }
}

/// Sampling the pins leaves the drive selected exactly while its motor runs;
/// only the media and write-protect state can differ: a low write-protect pin
/// shows a protected disk, a high disk-change pin shows media, and a bus without
/// such a pin always shows it.
pub proof fn law_pins_show_media(device: Greaseweazle, payloads: Seq<Seq<u8>>)
    requires
        payloads.len() == device.pin_steps().len(),
    ensures
        ({
            let after = carried_out(device, device.pin_steps(), payloads);
            let at = if device.selected {
                0int
            } else {
                1int
            };
            &&& after.selected == device.status.motor_running
            &&& after.status.write_protected == (payloads[at][0] == 0)
            &&& device.bus == 1 ==> after.status.disk_present == (payloads[at + 1][0] == 1)
            &&& device.bus != 1 ==> after.status.disk_present
            &&& after == Greaseweazle {
                selected: after.selected,
                status: crate::types::DriveStatus {
                    disk_present: after.status.disk_present,
                    write_protected: after.status.write_protected,
                    ..device.status
                },
                ..device
            }
        }),
{
    let first = device.select_steps(true);
    let middle = samples(device);
    let last = device.release_steps();
    let split = (first.len() + middle.len()) as int;
    assert(device.pin_steps() == first + middle + last);
    lemma_carried_out_append(device, first + middle, last, payloads);
    let head = payloads.take(split);
    lemma_carried_out_append(device, first, middle, head);
    lemma_select(device, true, head.take(first.len() as int));
    let selected = Greaseweazle { selected: true, ..device };
    let inner = head.skip(first.len() as int);
    lemma_samples(selected, inner);
    assert(samples(selected) == middle);
    lemma_release(carried_out(selected, middle, inner), device, payloads.skip(split));
}

/// Intervals that a double-density track can hold are not counted as short.
proof fn lemma_none_short(events: Seq<FluxEvent>)
    requires
        forall|i: int|
            0 <= i < events.len() ==> (#[trigger] events[i]).nanoseconds >= stream::SHORT_INTERVAL,
    ensures
        stream::short_intervals(events) == 0,
    decreases events.len(),
{
    if events.len() > 0 {
        let shorter = events.drop_last();
        assert forall|i: int| 0 <= i < shorter.len() implies (#[trigger] shorter[i]).nanoseconds
            >= stream::SHORT_INTERVAL by {
            assert(shorter[i] == events[i]);
        }
        lemma_none_short(shorter);
        assert(events[events.len() - 1].nanoseconds >= stream::SHORT_INTERVAL);
    }
}

/// Flux without an interval under four microseconds is double density, whatever
/// the disk before it was: it is decoded as such, and an automatic write after
/// it uses cells of two microseconds.
pub proof fn law_double_density_is_recognised(
    device: Greaseweazle,
    received: Seq<u8>,
    mode: ReadMode,
    after: Greaseweazle,
)
    requires
        stream::parsed(received, device.sample_frequency, false).events.len() > 0,
        forall|i: int|
            0 <= i < stream::parsed(received, device.sample_frequency, false).events.len() ==> (
            #[trigger] stream::parsed(
                received,
                device.sample_frequency,
                false,
            ).events[i]).nanoseconds >= 4_000,
        after == (Greaseweazle {
            high_density: device.stream_density(received, DensityMode::Auto),
            ..device
        }),
    ensures
        !after.high_density,
        device.received_revolution(received, mode, DensityMode::Auto)
            == device.received_revolution(received, mode, DensityMode::Double),
        !super::asked_density(DensityMode::Auto, after.high_density),
        stream::cell_nanoseconds(
            super::asked_density(DensityMode::Auto, after.high_density),
        ) == 2_000,
{
    lemma_none_short(stream::parsed(received, device.sample_frequency, false).events);
}

/// A short interval is counted.
proof fn lemma_some_short(events: Seq<FluxEvent>, at: int)
    requires
        0 <= at < events.len(),
        events[at].nanoseconds < stream::SHORT_INTERVAL,
    ensures
        stream::short_intervals(events) > 0,
    decreases events.len(),
{
    if at < events.len() - 1 {
        assert(events.drop_last()[at] == events[at]);
        lemma_some_short(events.drop_last(), at);
    }
}

/// Flux that a high-density track can hold and a double-density track cannot is
/// high density, whatever the disk before it was: it has an interval under three
/// and a half microseconds and none of five or more. It is decoded as such, and
/// an automatic write after it uses cells of one microsecond.
pub proof fn law_high_density_is_recognised(
    device: Greaseweazle,
    received: Seq<u8>,
    mode: ReadMode,
    at: int,
    after: Greaseweazle,
)
    requires
        0 <= at < stream::parsed(received, device.sample_frequency, false).events.len(),
        stream::parsed(received, device.sample_frequency, false).events[at].nanoseconds
            < stream::SHORT_INTERVAL,
        stream::fits_high_density(
            stream::parsed(received, device.sample_frequency, false).events,
        ),
        after == (Greaseweazle {
            high_density: device.stream_density(received, DensityMode::Auto),
            ..device
        }),
    ensures
        after.high_density,
        device.received_revolution(received, mode, DensityMode::Auto)
            == device.received_revolution(received, mode, DensityMode::High),
        super::asked_density(DensityMode::Auto, after.high_density),
        stream::cell_nanoseconds(
            super::asked_density(DensityMode::Auto, after.high_density),
        ) == 1_000,
{
    lemma_some_short(stream::parsed(received, device.sample_frequency, false).events, at);
}

/// A few short intervals among long ones are noise: flux in which both stand is
/// high density exactly if at least one interval in sixteen is short.
pub proof fn law_noise_is_outvoted(events: Seq<FluxEvent>, previous: bool)
    requires
        !stream::fits_high_density(events),
    ensures
        stream::measured(events, previous) <==> stream::short_intervals(events) * 16
            >= events.len(),
{
}

/// Whether some transitions are spaced by numbers of cells of one length.
pub open spec fn spaced(events: Seq<FluxEvent>, cells: Seq<int>, nanoseconds: int) -> bool {
    &&& events.len() == cells.len()
    &&& forall|i: int|
        0 <= i < events.len() ==> (#[trigger] events[i]).nanoseconds == cells[i] * nanoseconds
}

/// Whether some intervals are legal MFM: two to four cells.
pub open spec fn legal(cells: Seq<int>) -> bool {
    forall|i: int| 0 <= i < cells.len() ==> 2 <= #[trigger] cells[i] <= 4
}

/// The two densities cannot be confused: legal MFM of double density never
/// measures high, and legal MFM of high density with an interval shorter than
/// four cells never measures double, whatever was measured before.
pub proof fn law_densities_are_not_confused(
    cells: Seq<int>,
    at: int,
    double: Seq<FluxEvent>,
    high: Seq<FluxEvent>,
    previous: bool,
)
    requires
        legal(cells),
        0 <= at < cells.len(),
        cells[at] < 4,
        spaced(double, cells, 2_000),
        spaced(high, cells, 1_000),
    ensures
        !stream::measured(double, previous),
        stream::measured(high, previous),
{
    assert forall|i: int| 0 <= i < double.len() implies (#[trigger] double[i]).nanoseconds
        >= stream::SHORT_INTERVAL by {
        assert(2 <= cells[i] <= 4);
    }
    lemma_none_short(double);
    assert forall|i: int| 0 <= i < high.len() implies (#[trigger] high[i]).nanoseconds
        < stream::LONG_INTERVAL by {
        assert(2 <= cells[i] <= 4);
    }
    assert(high[at].nanoseconds == cells[at] * 1_000);
    lemma_some_short(high, at);
}

/// Legal MFM of high density that has no interval shorter than four cells holds
/// nothing but four-microsecond intervals, as a double-density track of two-cell
/// intervals does, and measures double like that track.
pub proof fn law_uniform_flux_is_double_density(
    cells: Seq<int>,
    events: Seq<FluxEvent>,
    previous: bool,
)
    requires
        cells.len() > 0,
        forall|i: int| 0 <= i < cells.len() ==> #[trigger] cells[i] == 4,
        spaced(events, cells, 1_000),
    ensures
        spaced(events, cells.map_values(|count: int| 2int), 2_000),
        !stream::measured(events, previous),
{
    assert forall|i: int| 0 <= i < events.len() implies (#[trigger] events[i]).nanoseconds
        >= stream::SHORT_INTERVAL by {
        assert(cells[i] == 4);
    }
    lemma_none_short(events);
    assert forall|i: int| 0 <= i < events.len() implies (#[trigger] events[i]).nanoseconds
        == cells.map_values(|count: int| 2int)[i] * 2_000 by {
        assert(cells[i] == 4);
    }
}

} // verus!
