//! What holds of every DrawBridge stream and plan.

use vstd::prelude::*;

use super::stream;
use super::stream::CaptureState;
use super::{DrawBridge, WriteJobView, WriteStage};
use crate::types::{DriveStatus, ReadMode};

verus! {

/// State of a capture after some bytes.
pub open spec fn fed(state: CaptureState, bytes: Seq<u8>) -> CaptureState
    decreases bytes.len(),
{
    if bytes.len() == 0 {
        state
    } else {
        fed(state, bytes.drop_last()).after(bytes.last())
    }
}

/// A capture that is complete stays as it is but for the bytes counted.
pub proof fn law_complete_capture_is_kept(state: CaptureState, byte: u8)
    requires
        state.complete,
        !state.immediate,
    ensures
        state.after(byte) == (CaptureState { received: state.received + 1, ..state }),
{
}

/// An index-aligned capture is complete only once a first index pulse has
/// started it.
pub proof fn law_aligned_capture_has_index(high_density: bool, bytes: Seq<u8>)
    ensures
        ({
            let state = fed(CaptureState::start(false, high_density), bytes);
            state.complete ==> state.indexed
        }),
    decreases bytes.len(),
{
    lemma_settings_kept(CaptureState::start(false, high_density), bytes);
    if bytes.len() > 0 {
        law_aligned_capture_has_index(high_density, bytes.drop_last());
        lemma_settings_kept(CaptureState::start(false, high_density), bytes.drop_last());
    }
}

pub proof fn lemma_settings_kept(state: CaptureState, bytes: Seq<u8>)
    ensures
        fed(state, bytes).immediate == state.immediate,
        fed(state, bytes).high_density == state.high_density,
    decreases bytes.len(),
{
    if bytes.len() > 0 {
        lemma_settings_kept(state, bytes.drop_last());
    }
}

/// An immediate capture never holds more cells than its window, and is complete
/// exactly once the window is full.
pub proof fn law_immediate_capture_is_bounded(high_density: bool, bytes: Seq<u8>)
    ensures
        ({
            let state = fed(CaptureState::start(true, high_density), bytes);
            let window = stream::window_cells(high_density);
            &&& state.bits.len() <= window
            &&& state.complete == (state.bits.len() == window)
        }),
    decreases bytes.len(),
{
    let start = CaptureState::start(true, high_density);
    if bytes.len() > 0 {
        law_immediate_capture_is_bounded(high_density, bytes.drop_last());
        lemma_settings_kept(start, bytes.drop_last());
        let before = fed(start, bytes.drop_last());
        assert(before.codes(bytes.last()).bits.len() >= before.bits.len());
        assert(before.codes(bytes.last()).complete == before.complete);
    }
}

/// A written track is bounded by its cells: half a byte for every
/// double-density transition, two bits for every high-density one and a zero
/// byte at the end.
pub proof fn law_write_encodings_are_bounded(bits: Seq<bool>, precomp: bool)
    ensures
        stream::double_bytes(stream::counts(bits, 5), precomp).len() <= (bits.len() + 9) / 2,
        stream::double_bytes(stream::counts(bits, 5), precomp).len() > 0,
        stream::high_bytes(stream::counts(bits, 4)).len() <= (bits.len() + 11) / 4 + 1,
        stream::high_bytes(stream::counts(bits, 4)).last() == 0,
{
    let whole = bits + stream::run_out();
    crate::flux::mfm::lemma_intervals_bounded(whole);
    assert(stream::run_out()[6]);
    assert(whole[bits.len() as int + 6]);
    let cut = whole.drop_last();
    assert(cut.last());
    assert(crate::flux::mfm::transition_cells(cut).len() > 0);
}

/// A track is sent only after the interface has said that it is ready, and
/// counts as written only after the interface has said so.
pub proof fn law_write_waits_for_interface(job: WriteJobView, response: u8)
    requires
        job.stage == WriteStage::Ready || job.stage == WriteStage::Outcome,
    ensures
        forall|other: WriteJobView|
            other.stage != WriteStage::Track && other.stage != WriteStage::Written
                ==> #[trigger] other.advanced().stage != WriteStage::Track
                && other.advanced().stage != WriteStage::Written,
        job.answered(response).stage == WriteStage::Track <==> job.stage == WriteStage::Ready
            && response == 0x21,
        job.answered(response).stage == WriteStage::Written <==> job.stage == WriteStage::Outcome
            && response == 0x31,
{
}

/// A seek request names its cylinder in two decimal digits.
pub proof fn law_seek_names_cylinder(cylinder: u8)
    requires
        cylinder < 100,
    ensures
        ({
            let request = DrawBridge::seek_bytes(cylinder);
            (request[1] - 0x30) * 10 + (request[2] - 0x30) == cylinder
        }),
{
}

/// Once its density command has succeeded, the interface uses the density that
/// was settled for the transfer.
pub proof fn law_settled_density_is_used(device: DrawBridge)
    ensures
        ({
            let steps = device.density_steps();
            let after = if steps.len() == 0 {
                device
            } else {
                device.after(steps[0].effect, Seq::empty())
            };
            &&& steps.len() <= 1
            &&& after.high_density == device.wanted_high
        }),
{
}

/// A seek request is an equals sign, the digits of its cylinder, and a bell.
pub proof fn law_seek_is_framed(cylinder: u8)
    ensures
        ({
            let request = DrawBridge::seek_bytes(cylinder);
            let digits = request.subrange(1, request.len() - 1);
            &&& request[0] == 0x3d
            &&& request.last() == 7
            &&& digits.len() == (if cylinder < 100 {
                2int
            } else {
                3int
            })
            &&& forall|i: int| 0 <= i < digits.len() ==> 0x30 <= #[trigger] digits[i] <= 0x39
            &&& cylinder == (if cylinder < 100 {
                (digits[0] - 0x30) * 10 + (digits[1] - 0x30)
            } else {
                (digits[0] - 0x30) * 100 + (digits[1] - 0x30) * 10 + (digits[2] - 0x30)
            })
        }),
{
}

/// A double-density track is precompensated from cylinder 40 on, and no other.
pub proof fn law_inner_cylinders_are_precompensated(device: DrawBridge, bits: Seq<bool>)
    ensures
        device.high_density ==> device.track_bytes(bits) == stream::high_track(bits),
        !device.high_density && device.status.cylinder < 40 ==> device.track_bytes(bits)
            == stream::double_track(bits, false),
        !device.high_density && device.status.cylinder >= 40 ==> device.track_bytes(bits)
            == stream::double_track(bits, true),
{
}

/// What a capture has between its index pulses is the revolution, as long as it
/// is one: 64 cells to the longest track.
pub proof fn law_aligned_capture_is_the_revolution(
    bits: Seq<bool>,
    indexed: bool,
    mode: ReadMode,
    high_density: bool,
)
    requires
        mode != ReadMode::Fast,
    ensures
        ({
            let revolution = DrawBridge::received_revolution(bits, indexed, mode, high_density);
            &&& revolution is Ok <==> 64 <= bits.len() <= 237_568
            &&& revolution is Ok ==> revolution->Ok_0 == (bits, indexed)
        }),
{
}

/// A disk report says whether there is a disk, and whether it can be written;
/// one that says something else changes nothing.
pub proof fn law_disk_report_shows_media(device: DrawBridge, disk: u8, protected: u8)
    ensures
        ({
            let after = device.after_disk_report(disk, protected).status;
            let before = device.status;
            &&& disk == 0x31 ==> after.disk_present
            &&& disk == 0x23 ==> !after.disk_present
            &&& disk != 0x31 && disk != 0x23 ==> after == before
            &&& (disk == 0x31 || disk == 0x23) && protected == 0x31 ==> after.write_protected
            &&& (disk == 0x31 || disk == 0x23) && (protected == 0x30 || protected == 0x23)
                ==> !after.write_protected
            &&& after.cylinder == before.cylinder && after.motor_running == before.motor_running
        }),
{
}

/// A drive is ready exactly while its motor runs and there is a disk in it.
pub proof fn law_ready_drive_turns_a_disk(device: DrawBridge)
    ensures
        device.reported() == (DriveStatus {
            working: true,
            ready: device.status.disk_present && device.status.motor_running,
            ..device.status
        }),
{
}

/// A length is sent most significant byte first, and only where the track is a
/// double-density one.
pub proof fn law_length_is_sent(job: WriteJobView, action: super::WriteAction)
    requires
        job.stage == WriteStage::Length,
        job.encoded.len() <= 0xffff,
        job.acts(action),
    ensures
        job.high_density ==> action == super::WriteAction::SendAlignment(
            if job.from_index {
                1
            } else {
                0
            },
        ),
        !job.high_density ==> (action matches super::WriteAction::SendLength(sent) && sent@.len()
            == 2 && sent@[0] * 256 + sent@[1] == job.encoded.len()),
{
}

} // verus!
