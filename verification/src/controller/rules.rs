//! What a caller can count on, whatever the device does.

use vstd::prelude::*;

use super::cache;
use super::cache::CaptureCache;
use super::running;
use super::wishing;
use super::worker::{self, Worker};
use super::writing;
use super::{Bridge, BridgeView};
use crate::device::RawCapture;
use crate::error::{ErrorView, Result};
use crate::flux::{packed, scan, RevolutionScan};
use crate::types::{
    CaptureQuality, DriveStatus, Side, TrackAddress, TrackCaptureView, WriteId, WriteRequest,
};

verus! {

/// How far a bit of a track is from the index pulse, either way round.
pub open spec fn from_pulse(start_bit: int, track_bits: int) -> int {
    if start_bit <= track_bits - start_bit {
        start_bit
    } else {
        track_bits - start_bit
    }
}

/// A write starts at the index pulse where its first bit is no more than 30 bits
/// from it, on either side. Another write is placed only where it leaves no more
/// than 16 bits of the track as they were.
pub proof fn law_writes_are_placed_safely(start_bit: int, bit_len: int, track_bits: int)
    requires
        0 <= start_bit <= track_bits,
        0 <= bit_len,
    ensures
        super::starts_at_index(start_bit, track_bits) <==> from_pulse(start_bit, track_bits) <= 30,
        super::placeable(start_bit, bit_len, track_bits) <==> from_pulse(start_bit, track_bits)
            <= 30 || track_bits - bit_len <= 16,
{
}

/// A write-protected disk is not written, nor an empty track, nor one that is
/// longer than its words or than any track.
pub proof fn law_impossible_writes_are_refused(bridge: BridgeView, request: WriteRequest)
    requires
        bridge.status.write_protected || request.words@.len() == 0 || request.bit_len == 0
            || request.bit_len > 16 * request.words@.len() || request.bit_len > 237_568,
    ensures
        bridge.write_problem(request) is Some,
{
}

/// Any other write is accepted where nothing is known of its track, or where it
/// can be placed on what is known.
pub proof fn law_possible_writes_are_accepted(bridge: BridgeView, request: WriteRequest)
    requires
        !bridge.status.write_protected,
        0 < request.bit_len <= 16 * request.words@.len() <= usize::MAX,
        request.bit_len <= 237_568,
        ({
            let track = crate::device::clamped(request.track, bridge.max_cylinders);
            ||| !bridge.captures.dom().contains(track)
            ||| bridge.captures[track].len() == 0
            ||| ({
                let known = bridge.captures[track][0].bit_len;
                &&& 0 <= request.start_bit <= known
                &&& from_pulse(request.start_bit as int, known) <= 30 || known - request.bit_len
                    <= 16
            })
        }),
    ensures
        bridge.write_problem(request) is None,
{
}

/// A cache holds at most eight tracks and at most two readings of each.
pub proof fn law_cache_holds_little(store: CaptureCache, track: TrackAddress)
    requires
        store.wf(),
    ensures
        store@.dom().len() <= 8,
        store@.dom().contains(track) ==> store@[track].len() <= 2,
{
    cache::law_cache_is_bounded(store);
}

/// A track has enough readings once it has one that can be replayed on top, or
/// two.
pub proof fn law_track_is_full(
    captures: Map<TrackAddress, Seq<TrackCaptureView>>,
    track: TrackAddress,
)
    ensures
        cache::full_of(captures, track) <==> captures.dom().contains(track)
            && captures[track].len() > 0 && (captures[track].len() >= 2
            || captures[track].last().quality != CaptureQuality::Unverified),
{
}

/// A reading stored for a track that has none is the one served.
pub proof fn law_first_reading_is_served(
    before: Map<TrackAddress, Seq<TrackCaptureView>>,
    after: Map<TrackAddress, Seq<TrackCaptureView>>,
    track: TrackAddress,
    capture: TrackCaptureView,
    target: TrackAddress,
)
    requires
        cache::stored(before, after, track, capture, target),
        !before.dom().contains(track) || before[track].len() == 0,
    ensures
        cache::front_of(after, track) == Some(capture),
{
}

/// A second reading waits behind the first, and is served once the first is
/// retired; then there is none.
pub proof fn law_readings_are_served_in_order(
    before: Map<TrackAddress, Seq<TrackCaptureView>>,
    after: Map<TrackAddress, Seq<TrackCaptureView>>,
    track: TrackAddress,
    held: TrackCaptureView,
    capture: TrackCaptureView,
    target: TrackAddress,
)
    requires
        cache::stored(before, after, track, capture, target),
        before.dom().contains(track),
        before[track] == seq![held],
    ensures
        cache::front_of(after, track) == Some(held),
        cache::front_of(cache::retired(after, track), track) == Some(capture),
        cache::front_of(cache::retired(cache::retired(after, track), track), track) is None,
{
    let once = cache::retired(after, track);
    assert(after[track] == seq![held].push(capture));
    assert(once[track] == after[track].drop_first());
    assert(once[track] == seq![capture]);
    assert(seq![capture].drop_first() == Seq::<TrackCaptureView>::empty());
}

/// A third reading takes the place of the oldest.
pub proof fn law_oldest_reading_makes_room(
    before: Map<TrackAddress, Seq<TrackCaptureView>>,
    after: Map<TrackAddress, Seq<TrackCaptureView>>,
    track: TrackAddress,
    capture: TrackCaptureView,
    target: TrackAddress,
)
    requires
        cache::stored(before, after, track, capture, target),
        before.dom().contains(track),
        before[track].len() == 2,
    ensures
        after[track] == seq![before[track][1], capture],
{
    assert(before[track].drop_first() == seq![before[track][1]]);
    assert(after[track] == seq![before[track][1]].push(capture));
    assert(seq![before[track][1]].push(capture) == seq![before[track][1], capture]);
}

/// Storing a reading changes no other track but the one that is forgotten to make
/// room, and forgets none while fewer than eight are held.
pub proof fn law_other_tracks_are_kept(
    before: Map<TrackAddress, Seq<TrackCaptureView>>,
    after: Map<TrackAddress, Seq<TrackCaptureView>>,
    track: TrackAddress,
    capture: TrackCaptureView,
    target: TrackAddress,
    other: TrackAddress,
)
    requires
        cache::stored(before, after, track, capture, target),
        other != track,
        before.dom().contains(other),
    ensures
        after.dom().contains(other) ==> after[other] == before[other],
        before.dom().len() < 8 ==> after.dom().contains(other),
        before.dom().contains(track) ==> after.dom().contains(other),
{
}

/// A valid capture of a track that has no reading is served as it was read.
pub proof fn law_capture_is_served_as_read(
    before: Worker,
    bridge: BridgeView,
    track: TrackAddress,
    raw: RawCapture,
    after: Worker,
    after_bridge: BridgeView,
    step: worker::CaptureStep,
)
    requires
        worker::took_capture(before, bridge, track, Ok(raw), after, after_bridge, step),
        64 <= raw.bit_len <= 237_568,
        raw.bit_len <= raw.words@.len() * 16,
        !bridge.captures.dom().contains(track) || bridge.captures[track].len() == 0,
    ensures
        cache::front_of(after_bridge.captures, track) matches Some(served) && served.words
            == raw.words@ && served.bit_len == raw.bit_len && (raw.index_aligned
            ==> served.quality == CaptureQuality::IndexAligned),
{
}

/// Nothing is captured of a drive that is lost, stands still, or is empty.
pub proof fn law_still_drive_is_not_read(reader: Worker, bridge: BridgeView)
    requires
        !bridge.status.working || !bridge.status.motor_running || !bridge.status.disk_present,
    ensures
        reader.wanted(bridge) is None,
        reader.chosen(bridge) == reader,
{
}

/// The cylinder captured ahead after some more choices.
pub open spec fn cursor_after(reader: Worker, max_cylinders: u8, choices: nat) -> Worker
    decreases choices,
{
    if choices == 0 {
        reader
    } else {
        let before = cursor_after(reader, max_cylinders, (choices - 1) as nat);
        Worker { cache_cursor: before.next_cursor(max_cylinders), ..before }
    }
}

proof fn lemma_cursor_runs(reader: Worker, max_cylinders: u8, choices: nat)
    requires
        0 < max_cylinders,
        reader.cache_cursor < max_cylinders,
        choices < 2 * max_cylinders,
    ensures
        ({
            let cursor = cursor_after(reader, max_cylinders, choices).cache_cursor;
            let ahead = reader.cache_cursor + choices;
            cursor == if ahead < max_cylinders {
                ahead
            } else if ahead < 2 * max_cylinders {
                ahead - max_cylinders
            } else {
                ahead - 2 * max_cylinders
            }
        }),
    decreases choices,
{
    if choices > 0 {
        lemma_cursor_runs(reader, max_cylinders, (choices - 1) as nat);
        let before = cursor_after(reader, max_cylinders, (choices - 1) as nat);
        let stepped = before.cache_cursor + 1;
        if stepped < max_cylinders {
            vstd::arithmetic::div_mod::lemma_small_mod(stepped as nat, max_cylinders as nat);
        } else {
            assert(stepped == max_cylinders);
            vstd::arithmetic::div_mod::lemma_mod_self_0(max_cylinders as int);
        }
    }
}

/// Automatic caching goes from one cylinder to the next, and comes to every
/// cylinder of the mechanism within one round.
pub proof fn law_caching_comes_to_every_cylinder(reader: Worker, max_cylinders: u8, cylinder: u8)
    requires
        reader.cache_cursor < max_cylinders,
        cylinder < max_cylinders,
    ensures
        reader.cache_cursor + 1 < max_cylinders ==> reader.next_cursor(max_cylinders)
            == reader.cache_cursor + 1,
        exists|choices: nat|
            0 < choices <= max_cylinders && #[trigger] cursor_after(
                reader,
                max_cylinders,
                choices,
            ).cache_cursor == cylinder,
{
    lemma_cursor_runs(reader, max_cylinders, 1);
    reveal_with_fuel(cursor_after, 2);
    let choices: nat = if cylinder > reader.cache_cursor {
        (cylinder - reader.cache_cursor) as nat
    } else {
        (cylinder + max_cylinders - reader.cache_cursor) as nat
    };
    if choices < 2 * max_cylinders {
        lemma_cursor_runs(reader, max_cylinders, choices);
    }
    assert(cursor_after(reader, max_cylinders, choices).cache_cursor == cylinder);
}

/// The drive is lost with the twentieth error in a row, or with the first that
/// says the device is gone; not before.
pub proof fn law_drive_is_lost_for_cause(reader: Worker, error: ErrorView)
    requires
        reader.consecutive_errors < 1_000,
    ensures
        reader.loses_drive(error) <==> error is Disconnected || error is WorkerStopped
            || reader.consecutive_errors + 1 >= 20,
        reader.after_error(error).consecutive_errors == reader.consecutive_errors + 1,
        reader.after_capture().consecutive_errors == 0,
{
}

/// A disk that came or went takes every capture with it, and nothing else does.
pub proof fn law_disk_change_takes_captures(
    before: Worker,
    bridge: BridgeView,
    status: DriveStatus,
    after: Worker,
    after_bridge: BridgeView,
    event: Option<crate::types::BridgeEvent>,
    track: TrackAddress,
)
    requires
        worker::refreshed_status(before, bridge, status, after, after_bridge, event),
    ensures
        event is Some <==> bridge.status.disk_present != status.disk_present,
        event is Some ==> cache::front_of(after_bridge.captures, track) is None,
        event is None ==> after_bridge.captures == bridge.captures,
        after_bridge.status.disk_present == status.disk_present,
        after_bridge.status.write_protected == status.write_protected,
        after_bridge.status.motor_running == status.motor_running,
        after_bridge.status.cylinder == before.physical.cylinder,
        after_bridge.status.side == before.physical.side,
{
}

/// The drive state is refreshed every quarter of a second.
pub proof fn law_refresh_comes_every_quarter(now_ms: u64, due_ms: u64)
    requires
        now_ms <= 0xffff_ffff_ffff,
    ensures
        running::next_refresh(now_ms, due_ms) == if now_ms >= due_ms {
            Some((now_ms + 250) as u64)
        } else {
            None
        },
{
}

/// A read waits for less than its timeout, and not at all without one.
pub proof fn law_read_waits_for_its_timeout(bridge: BridgeView, waited: u64)
    ensures
        Bridge::exhausted(bridge, waited) <==> !(bridge.stall_timeout is Some && waited
            < bridge.stall_timeout->0),
{
}

/// A capture is judged by how it was made and what it holds: between index
/// pulses, as a whole clean track, or as neither.
pub proof fn law_captures_are_judged(words: Seq<u16>, bit_len: int, sectors: u8)
    ensures
        worker::quality_of(words, bit_len, true) == CaptureQuality::IndexAligned,
        scan::scan_outcome(packed::unpacked(words, bit_len)) == (RevolutionScan::CleanAmigaDos {
            sectors,
        }) ==> worker::quality_of(words, bit_len, false) == (CaptureQuality::VerifiedAmigaDos {
            sectors,
        }),
        !(scan::scan_outcome(packed::unpacked(words, bit_len)) is CleanAmigaDos)
            ==> worker::quality_of(words, bit_len, false) == CaptureQuality::Unverified,
{
}

/// A read that timed out is no fault: nothing changes, and nothing is reported.
pub proof fn law_missing_index_is_no_fault(
    before: Worker,
    bridge: BridgeView,
    track: TrackAddress,
    result: Result<RawCapture>,
    after: Worker,
    after_bridge: BridgeView,
    step: worker::CaptureStep,
)
    requires
        worker::took_capture(before, bridge, track, result, after, after_bridge, step),
        result matches Err(error) && error@ is Timeout,
    ensures
        after == before,
        after_bridge == bridge,
        step == worker::CaptureStep::Nothing,
{
}

/// A write in a bridge's queue is the caller's, on a cylinder of the mechanism
/// and on the side that was asked for.
pub proof fn law_write_is_handed_on(bridge: BridgeView, id: WriteId, request: WriteRequest)
    requires
        request.track.cylinder < bridge.max_cylinders,
    ensures
        bridge.write_command(id, request) == (super::CommandView::Write {
            id,
            track: request.track,
            words: request.words@,
            bit_len: request.bit_len as int,
            start_bit: request.start_bit as int,
        }),
{
}

/// However a write ends, no capture of its track is served any more, every other
/// track is as it was, and the event says so of that write and that track.
pub proof fn law_ended_write_forgets_its_track(
    bridge: BridgeView,
    task: writing::WriteTaskView,
    outcome: core::result::Result<(), ErrorView>,
    after_bridge: BridgeView,
    after_task: writing::WriteTaskView,
    step: writing::WriteStep,
    other: TrackAddress,
)
    requires
        writing::finishes(bridge, task, outcome, after_bridge, after_task, step),
    ensures
        cache::front_of(after_bridge.captures, task.way.track) is None,
        other != task.way.track ==> cache::front_of(after_bridge.captures, other)
            == cache::front_of(bridge.captures, other),
        step matches writing::WriteStep::Report(event) && (outcome is Ok <==> event@
            is WriteCompleted) && (outcome is Err <==> event@ is WriteFailed),
{
}

/// A write is made only with the head on its track, and only where it can be
/// placed: no more than 30 bits from the index pulse, which it then starts at, or
/// with no more than 16 bits of the track left over.
pub proof fn law_write_is_made_in_place(
    before: Worker,
    bridge: BridgeView,
    task: writing::WriteTaskView,
    after: Worker,
    after_bridge: BridgeView,
    after_task: writing::WriteTaskView,
    step: writing::WriteStep,
)
    requires
        writing::advances(before, bridge, task, after, after_bridge, after_task, step),
        task.way.leads(before),
        0 <= task.start_bit <= task.track_bits(bridge),
        0 <= task.bit_len,
    ensures
        step matches writing::WriteStep::Write { from_index } ==> {
            let away = from_pulse(task.start_bit, task.track_bits(bridge));
            &&& before.physical == task.way.track
            &&& from_index <==> away <= 30
            &&& away <= 30 || task.track_bits(bridge) - task.bit_len <= 16
        },
{
}

/// Once the head is on the side of a motor wish, the motor is switched as it was
/// wished, and waits for the spindle.
pub proof fn law_motor_is_switched_as_wished(
    before: Worker,
    bridge: BridgeView,
    task: wishing::WishTaskView,
    side: Side,
    enabled: bool,
)
    requires
        task.motor == Some((side, enabled)),
        task.way.remaining.len() == 0,
    ensures
        wishing::toward_motor(before, bridge, task).call == Some(
            worker::DeviceCall::SetMotor { enabled, quick: false },
        ),
{
}

} // verus!
