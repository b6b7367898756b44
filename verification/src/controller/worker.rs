//! Decisions of the worker that owns a device.

use vstd::prelude::*;

use super::{cache, place_write, Bridge, BridgeView};
use crate::controller;
use crate::device::{validate_capture, RawCapture};
use crate::error::{Error, ErrorView, Result};
use crate::flux::{packed, scan, scan_revolution, RevolutionScan};
use crate::types::{
    BridgeConfig, BridgeEvent, BridgeEventView, CaptureQuality, DensityMode, DriveStatus, ReadMode,
    Side, TrackAddress, TrackCapture, TrackCaptureView, WriteId,
};

verus! {

/// Consecutive device errors after which the drive is declared lost.
///
/// A spinning mechanism has weather -- an overflowed capture, a read racing a
/// motor toggle -- and a single failure says nothing. A cable that has been
/// pulled fails every time, which is what this distinguishes.
pub const MAX_CONSECUTIVE_ERRORS: u32 = 20;

/// How often the drive state is refreshed, in milliseconds.
pub const STATUS_INTERVAL_MS: u64 = 250;

/// How long the worker sleeps with nothing to do, in milliseconds.
pub const IDLE_INTERVAL_MS: u64 = 5;

/// One call into the device.
#[derive(Debug, Clone, Copy, PartialEq, Eq, Structural)]
pub enum DeviceCall {
    /// Move the head to a cylinder.
    Seek(u8),
    /// Select a side.
    SelectSide(Side),
    /// Step without clicking.
    NoClickStep,
    /// Switch the motor.
    SetMotor {
        /// Whether it runs.
        enabled: bool,
        /// Whether the spindle is waited for less.
        quick: bool,
    },
}

/// What the worker knows.
#[derive(Debug, Clone, Copy, PartialEq, Eq, Structural)]
pub struct Worker {
    /// Capture strategy.
    pub mode: ReadMode,
    /// Density selection.
    pub density: DensityMode,
    /// Whether idle time is spent capturing other tracks.
    pub auto_cache: bool,
    /// Track the consumer is on.
    pub target: TrackAddress,
    /// Last confirmed physical position.
    pub physical: TrackAddress,
    /// Whether both coordinates have been confirmed.
    pub positioned: bool,
    /// Whether the drive is lost.
    pub failed: bool,
    /// Device errors since the last success.
    pub consecutive_errors: u32,
    /// Number of the latest capture.
    pub generation: u64,
    /// Cylinder last captured ahead of need.
    pub cache_cursor: u8,
}

/// What to do about a device error.
#[derive(Debug)]
pub enum ErrorStep {
    /// Go on.
    Continue,
    /// Report that the drive is lost, and stop.
    Lost(BridgeEvent),
}

/// How a read of a track went on.
#[derive(Debug)]
pub enum CaptureStep {
    /// A capture was kept.
    Kept,
    /// There was nothing to keep, and no fault.
    Nothing,
    /// Go on after an error.
    Continue,
    /// Report that the drive is lost, and stop.
    Lost(BridgeEvent),
}

/// Whether an error says that the device is positively gone.
pub open spec fn is_fatal(error: ErrorView) -> bool {
    error is Disconnected || error is WorkerStopped
}

/// The state of a wish to be on a track, as calls into the device.
pub open spec fn moves(
    physical: TrackAddress,
    positioned: bool,
    track: TrackAddress,
) -> Seq<DeviceCall> {
    (if !positioned || physical.cylinder != track.cylinder {
        seq![DeviceCall::Seek(track.cylinder)]
    } else {
        Seq::empty()
    }) + (if !positioned || physical.side != track.side {
        seq![DeviceCall::SelectSide(track.side)]
    } else {
        Seq::empty()
    })
}

/// The quality of a capture: an index-aligned one is a ring by construction,
/// another only if it decodes as a whole track.
pub open spec fn quality_of(
    words: Seq<u16>,
    bit_len: int,
    index_aligned: bool,
) -> CaptureQuality {
    if index_aligned {
        CaptureQuality::IndexAligned
    } else {
        match scan::scan_outcome(packed::unpacked(words, bit_len)) {
            RevolutionScan::CleanAmigaDos { sectors } => CaptureQuality::VerifiedAmigaDos {
                sectors,
            },
            _ => CaptureQuality::Unverified,
        }
    }
}

/// The number after a capture's.
pub open spec fn next_generation(generation: u64) -> u64 {
    if generation == u64::MAX {
        0
    } else {
        (generation + 1) as u64
    }
}

/// Whether an error of a read is answered as it should be.
pub open spec fn answered_error(
    worker: Worker,
    bridge: BridgeView,
    error: ErrorView,
    after_worker: Worker,
    after_bridge: BridgeView,
    step: CaptureStep,
) -> bool {
    &&& after_worker == worker.after_error(error)
    &&& after_bridge == worker.bridge_after_error(bridge, error)
    &&& if worker.loses_drive(error) {
        step matches CaptureStep::Lost(event) && event@ == BridgeEventView::Disconnected(error)
    } else {
        step == CaptureStep::Continue
    }
}

/// Whether what a read of a track has given is taken as it should be: a timeout
/// changes nothing, another error and an invalid capture count as errors, and a
/// valid capture is numbered, judged and kept.
pub open spec fn took_capture(
    worker: Worker,
    bridge: BridgeView,
    track: TrackAddress,
    result: Result<RawCapture>,
    after_worker: Worker,
    after_bridge: BridgeView,
    step: CaptureStep,
) -> bool {
    match result {
        Err(error) => if error@ is Timeout {
            &&& after_worker == worker
            &&& after_bridge == bridge
            &&& step == CaptureStep::Nothing
        } else {
            answered_error(worker, bridge, error@, after_worker, after_bridge, step)
        },
        Ok(raw) => match crate::device::capture_problem(raw.words@, raw.bit_len as int) {
            Some(problem) => answered_error(
                worker,
                bridge,
                problem,
                after_worker,
                after_bridge,
                step,
            ),
            None => {
                &&& after_worker == worker.after_capture()
                &&& after_bridge == BridgeView { captures: after_bridge.captures, ..bridge }
                &&& cache::stored(
                    bridge.captures,
                    after_bridge.captures,
                    track,
                    worker.numbered_capture(raw),
                    worker.target,
                )
                &&& step == CaptureStep::Kept
            },
        },
    }
}

/// Whether a fresh drive state is taken as it should be: a disk that came or
/// went takes every capture with it and is reported.
pub open spec fn refreshed_status(
    worker: Worker,
    bridge: BridgeView,
    status: DriveStatus,
    after_worker: Worker,
    after_bridge: BridgeView,
    event: Option<BridgeEvent>,
) -> bool {
    &&& after_worker == (Worker { consecutive_errors: 0, ..worker })
    &&& if bridge.status.disk_present != status.disk_present {
        &&& after_bridge == (BridgeView {
            status: worker.refreshed(status),
            captures: Map::empty(),
            ..bridge
        })
        &&& event matches Some(changed)
        &&& changed@ == (BridgeEventView::DiskChanged { present: status.disk_present })
    } else {
        &&& after_bridge == (BridgeView { status: worker.refreshed(status), ..bridge })
        &&& event is None
    }
}

impl Worker {
    /// What a worker knows before it has called its device.
    pub open spec fn fresh(mode: ReadMode, density: DensityMode, auto_cache: bool) -> Worker {
        let origin = TrackAddress { cylinder: 0, side: Side::Lower };
        Worker {
            mode,
            density,
            auto_cache,
            target: origin,
            physical: origin,
            positioned: false,
            failed: false,
            consecutive_errors: 0,
            generation: 0,
            cache_cursor: 0,
        }
    }

    /// Starts a worker.
    pub fn new(config: &BridgeConfig) -> (worker: Worker)
        ensures
            worker == Worker::fresh(config.mode, config.density, config.auto_cache),
    {
        let origin = TrackAddress { cylinder: 0, side: Side::Lower };
        Worker {
            mode: config.mode,
            density: config.density,
            auto_cache: config.auto_cache,
            target: origin,
            physical: origin,
            positioned: false,
            failed: false,
            consecutive_errors: 0,
            generation: 0,
            cache_cursor: 0,
        }
    }

    /// Plans moving the head to a track: every coordinate that is not confirmed
    /// to be right already.
    pub fn position_plan(&self, track: TrackAddress) -> (calls: Vec<DeviceCall>)
        ensures
            calls@ == moves(self.physical, self.positioned, track),
    {
        let mut calls: Vec<DeviceCall> = Vec::new();
        if !self.positioned || self.physical.cylinder != track.cylinder {
            calls.push(DeviceCall::Seek(track.cylinder));
        }
        if !self.positioned || self.physical.side != track.side {
            calls.push(DeviceCall::SelectSide(track.side));
        }
        assert(calls@ == moves(self.physical, self.positioned, track));
        calls
    }

    /// What a worker knows after a call has succeeded.
    pub open spec fn confirmed(self, call: DeviceCall) -> Worker {
        match call {
            DeviceCall::Seek(cylinder) => Worker {
                physical: TrackAddress { cylinder, ..self.physical },
                ..self
            },
            DeviceCall::SelectSide(side) => Worker {
                physical: TrackAddress { side, ..self.physical },
                ..self
            },
            _ => self,
        }
    }

    /// Takes note that a call has succeeded.
    pub fn confirm(&mut self, call: DeviceCall)
        ensures
            *final(self) == old(self).confirmed(call),
    {
        match call {
            DeviceCall::Seek(cylinder) => {
                self.physical.cylinder = cylinder;
            },
            DeviceCall::SelectSide(side) => {
                self.physical.side = side;
            },
            _ => {},
        }
    }

    /// Takes note that the head is in position.
    pub fn arrived(&mut self, bridge: &mut Bridge)
        ensures
            *final(self) == (Worker { positioned: true, ..*old(self) }),
            final(bridge)@ == old(bridge)@.with_head(*old(self)),
            old(bridge).wf() ==> final(bridge).wf(),
    {
        self.positioned = true;
        let mut status = bridge.status();
        status.cylinder = self.physical.cylinder;
        status.side = self.physical.side;
        bridge.set_status(status);
    }

    /// Takes note of the track the consumer is on.
    pub fn aim(&mut self, track: TrackAddress)
        ensures
            *final(self) == (Worker { target: track, ..*old(self) }),
    {
        self.target = track;
    }

    /// The track a motor wish is answered on: the consumer's cylinder, on the
    /// side named by the wish.
    pub fn motor_track(&self, side: Side) -> (track: TrackAddress)
        ensures
            track == (TrackAddress { cylinder: self.target.cylinder, side }),
    {
        TrackAddress { cylinder: self.target.cylinder, side }
    }

    /// The call that answers a motor wish; the spindle is waited for.
    pub fn motor_call(enabled: bool) -> (call: DeviceCall)
        ensures
            call == (DeviceCall::SetMotor { enabled, quick: false }),
    {
        DeviceCall::SetMotor { enabled, quick: false }
    }

    /// Takes note that the motor was switched.
    pub fn motor_switched(&mut self, bridge: &mut Bridge, enabled: bool)
        ensures
            *final(self) == (Worker { consecutive_errors: 0, ..*old(self) }),
            final(bridge)@ == (BridgeView {
                status: DriveStatus { motor_running: enabled, ..old(bridge)@.status },
                ..old(bridge)@
            }),
            old(bridge).wf() ==> final(bridge).wf(),
    {
        self.consecutive_errors = 0;
        let mut status = bridge.status();
        status.motor_running = enabled;
        bridge.set_status(status);
    }

    /// Takes note that the device answered.
    pub fn succeeded(&mut self)
        ensures
            *final(self) == (Worker { consecutive_errors: 0, ..*old(self) }),
    {
        self.consecutive_errors = 0;
    }

    /// Errors in a row, one more than before.
    pub open spec fn more_errors(self) -> u32 {
        if self.consecutive_errors == u32::MAX {
            u32::MAX
        } else {
            (self.consecutive_errors + 1) as u32
        }
    }

    /// Whether an error means that the drive is lost.
    pub open spec fn loses_drive(self, error: ErrorView) -> bool {
        is_fatal(error) || self.more_errors() >= MAX_CONSECUTIVE_ERRORS
    }

    /// What a worker knows after a device error.
    pub open spec fn after_error(self, error: ErrorView) -> Worker {
        Worker {
            consecutive_errors: self.more_errors(),
            failed: self.failed || self.loses_drive(error),
            ..self
        }
    }

    /// A bridge after a device error.
    pub open spec fn bridge_after_error(self, bridge: BridgeView, error: ErrorView) -> BridgeView {
        if self.loses_drive(error) {
            BridgeView { status: DriveStatus { working: false, ..bridge.status }, ..bridge }
        } else {
            bridge
        }
    }

    /// Counts a device error, declaring the drive lost only when errors run
    /// unbroken or the device is positively gone.
    pub fn note_error(&mut self, bridge: &mut Bridge, error: Error) -> (step: ErrorStep)
        ensures
            *final(self) == old(self).after_error(error@),
            final(bridge)@ == old(self).bridge_after_error(old(bridge)@, error@),
            old(bridge).wf() ==> final(bridge).wf(),
            if old(self).loses_drive(error@) {
                step matches ErrorStep::Lost(event) && event@ == BridgeEventView::Disconnected(
                    error@,
                )
            } else {
                step == ErrorStep::Continue
            },
    {
        self.consecutive_errors = self.consecutive_errors.saturating_add(1);
        let fatal = match &error {
            Error::Disconnected | Error::WorkerStopped => true,
            _ => false,
        };
        if fatal || self.consecutive_errors >= MAX_CONSECUTIVE_ERRORS {
            self.failed = true;
            let mut status = bridge.status();
            status.working = false;
            bridge.set_status(status);
            return ErrorStep::Lost(BridgeEvent::Disconnected(error));
        }
        ErrorStep::Continue
    }

    /// Bits of a track as far as they are known: those of its capture, or those
    /// of the write itself.
    pub open spec fn known_bits(bridge: BridgeView, track: TrackAddress, bit_len: int) -> int {
        match cache::front_of(bridge.captures, track) {
            Some(capture) => capture.bit_len,
            None => bit_len,
        }
    }

    /// Decides, once the head is in position, whether a write starts at the
    /// index pulse.
    pub fn plan_write(
        &self,
        bridge: &Bridge,
        track: TrackAddress,
        start_bit: usize,
        bit_len: usize,
    ) -> (result: Result<bool>)
        ensures
            ({
                let track_bits = Worker::known_bits(bridge@, track, bit_len as int);
                match result {
                    Ok(from_index) => controller::placeable(
                        start_bit as int,
                        bit_len as int,
                        track_bits,
                    ) && from_index == controller::starts_at_index(start_bit as int, track_bits),
                    Err(error) => !controller::placeable(
                        start_bit as int,
                        bit_len as int,
                        track_bits,
                    ) && error@ == (ErrorView::UnplaceablePartialWrite {
                        start_bit: start_bit as int,
                        track_bits,
                    }),
                }
            }),
    {
        let track_bits = match bridge.cache().front(track) {
            Some(capture) => capture.bit_len(),
            None => bit_len,
        };
        place_write(start_bit, bit_len, track_bits)
    }

    /// Ends a write: whatever became of it, the captures of its track are no
    /// longer what the disk holds.
    pub fn finish_write(
        bridge: &mut Bridge,
        id: WriteId,
        track: TrackAddress,
        bit_len: usize,
        result: Result<()>,
    ) -> (event: BridgeEvent)
        requires
            old(bridge).wf(),
        ensures
            final(bridge).wf(),
            final(bridge)@ == (BridgeView {
                captures: old(bridge)@.captures.remove(track),
                ..old(bridge)@
            }),
            event@ == match result {
                Ok(()) => BridgeEventView::WriteCompleted { id, track, bit_len: bit_len as int },
                Err(error) => BridgeEventView::WriteFailed { id, track, error: error@ },
            },
    {
        bridge.forget_track(track);
        match result {
            Ok(()) => BridgeEvent::WriteCompleted { id, track, bit_len },
            Err(error) => BridgeEvent::WriteFailed { id, track, error },
        }
    }

    /// Whether the drive can be read at all.
    pub open spec fn readable(status: DriveStatus) -> bool {
        status.working && status.motor_running && status.disk_present
    }

    /// The cylinder captured ahead of need after the last one.
    pub open spec fn next_cursor(self, max_cylinders: u8) -> u8 {
        let stepped = if self.cache_cursor == u8::MAX {
            0
        } else {
            self.cache_cursor + 1
        };
        if max_cylinders == 0 {
            0
        } else {
            (stepped % (max_cylinders as int)) as u8
        }
    }

    /// The track whose capture is most wanted, if one is.
    pub open spec fn wanted(self, bridge: BridgeView) -> Option<TrackAddress> {
        if !Worker::readable(bridge.status) {
            None
        } else if !cache::full_of(bridge.captures, self.target) {
            Some(self.target)
        } else if self.auto_cache {
            let ahead = TrackAddress {
                cylinder: self.next_cursor(bridge.status.max_cylinders),
                side: self.target.side,
            };
            if cache::readings(bridge.captures, ahead) > 0 {
                None
            } else {
                Some(ahead)
            }
        } else {
            None
        }
    }

    /// What a worker knows after it has chosen a track.
    pub open spec fn chosen(self, bridge: BridgeView) -> Worker {
        if Worker::readable(bridge.status) && cache::full_of(bridge.captures, self.target)
            && self.auto_cache {
            Worker { cache_cursor: self.next_cursor(bridge.status.max_cylinders), ..self }
        } else {
            self
        }
    }

    /// Chooses the track to capture: the consumer's, as long as it is short of
    /// readings; after it, with automatic caching, one cylinder after another.
    pub fn choose_capture(&mut self, bridge: &Bridge) -> (wanted: Option<TrackAddress>)
        ensures
            wanted == old(self).wanted(bridge@),
            *final(self) == old(self).chosen(bridge@),
    {
        let status = bridge.status();
        if !status.working || !status.motor_running || !status.disk_present {
            return None;
        }
        if !bridge.cache().is_full(self.target) {
            return Some(self.target);
        }
        if !self.auto_cache {
            return None;
        }
        let max: u8 = if status.max_cylinders == 0 {
            1
        } else {
            status.max_cylinders
        };
        self.cache_cursor = self.cache_cursor.wrapping_add(1) % max;
        let ahead = TrackAddress { cylinder: self.cache_cursor, side: self.target.side };
        if bridge.cache().has_reading(ahead) {
            None
        } else {
            Some(ahead)
        }
    }

    /// What a worker knows after a capture was kept.
    pub open spec fn after_capture(self) -> Worker {
        Worker {
            consecutive_errors: 0,
            generation: next_generation(self.generation),
            ..self
        }
    }

    /// A capture as it is kept.
    pub open spec fn numbered_capture(self, raw: RawCapture) -> TrackCaptureView {
        TrackCaptureView {
            words: raw.words@,
            bit_len: raw.bit_len as int,
            quality: quality_of(raw.words@, raw.bit_len as int, raw.index_aligned),
            generation: next_generation(self.generation) as int,
        }
    }

    /// Takes what a read of a track has given.
    ///
    /// A timeout means that no index came round: the platter is stopping,
    /// spinning up, or holds no disk. That is a state of the world, not a
    /// fault.
    pub fn take_capture(
        &mut self,
        bridge: &mut Bridge,
        track: TrackAddress,
        result: Result<RawCapture>,
    ) -> (step: CaptureStep)
        requires
            old(bridge).wf(),
        ensures
            final(bridge).wf(),
            took_capture(
                *old(self),
                old(bridge)@,
                track,
                result,
                *final(self),
                final(bridge)@,
                step,
            ),
    {
        let raw = match result {
            Ok(raw) => raw,
            Err(error) => {
                let timeout = match &error {
                    Error::Timeout(_) => true,
                    _ => false,
                };
                if timeout {
                    return CaptureStep::Nothing;
                }
                return match self.note_error(bridge, error) {
                    ErrorStep::Continue => CaptureStep::Continue,
                    ErrorStep::Lost(event) => CaptureStep::Lost(event),
                };
            },
        };
        match validate_capture(&raw) {
            Ok(()) => {},
            Err(error) => {
                return match self.note_error(bridge, error) {
                    ErrorStep::Continue => CaptureStep::Continue,
                    ErrorStep::Lost(event) => CaptureStep::Lost(event),
                };
            },
        }
        let ghost shown = self.numbered_capture(raw);
        self.consecutive_errors = 0;
        self.generation = self.generation.wrapping_add(1);
        let quality = if raw.index_aligned {
            CaptureQuality::IndexAligned
        } else {
            match scan_revolution(&raw.words, raw.bit_len) {
                RevolutionScan::CleanAmigaDos { sectors } => CaptureQuality::VerifiedAmigaDos {
                    sectors,
                },
                _ => CaptureQuality::Unverified,
            }
        };
        let capture = TrackCapture::new(raw.words, raw.bit_len, quality, self.generation);
        assert(capture@ == shown);
        bridge.keep(track, capture, self.target);
        CaptureStep::Kept
    }

    /// Publishes a capture that is still arriving.
    pub fn publish(&self, bridge: &mut Bridge, track: TrackAddress, raw: RawCapture)
        ensures
            final(bridge)@ == (BridgeView {
                partial: Some(
                    (
                        track,
                        TrackCaptureView {
                            words: raw.words@,
                            bit_len: raw.bit_len as int,
                            quality: CaptureQuality::Unverified,
                            generation: next_generation(self.generation) as int,
                        },
                    ),
                ),
                ..old(bridge)@
            }),
            old(bridge).wf() ==> final(bridge).wf(),
    {
        let capture = TrackCapture::new(
            raw.words,
            raw.bit_len,
            CaptureQuality::Unverified,
            self.generation.wrapping_add(1),
        );
        bridge.publish_partial(track, capture);
    }

    /// The drive state to show after a refresh: where the head is, the worker
    /// knows best.
    pub open spec fn refreshed(self, status: DriveStatus) -> DriveStatus {
        DriveStatus { cylinder: self.physical.cylinder, side: self.physical.side, ..status }
    }

    /// Takes a fresh drive state; a disk that came or went takes every capture
    /// with it.
    pub fn take_status(&mut self, bridge: &mut Bridge, status: DriveStatus) -> (event: Option<
        BridgeEvent,
    >)
        ensures
            old(bridge).wf() ==> final(bridge).wf(),
            refreshed_status(
                *old(self),
                old(bridge)@,
                status,
                *final(self),
                final(bridge)@,
                event,
            ),
    {
        let old_present = bridge.status().disk_present;
        let mut shown = status;
        shown.cylinder = self.physical.cylinder;
        shown.side = self.physical.side;
        let event = if old_present != status.disk_present {
            bridge.forget_all();
            Some(BridgeEvent::DiskChanged { present: status.disk_present })
        } else {
            None
        };
        bridge.set_status(shown);
        self.consecutive_errors = 0;
        event
    }

    /// Takes the answer to a request for the drive state.
    pub fn answered_status(&mut self, bridge: &mut Bridge, answer: Result<DriveStatus>) -> (event:
        Option<BridgeEvent>)
        ensures
            old(bridge).wf() ==> final(bridge).wf(),
            match answer {
                Ok(status) => refreshed_status(
                    *old(self),
                    old(bridge)@,
                    status,
                    *final(self),
                    final(bridge)@,
                    event,
                ),
                Err(error) => {
                    &&& *final(self) == old(self).after_error(error@)
                    &&& final(bridge)@ == old(self).bridge_after_error(old(bridge)@, error@)
                    &&& if old(self).loses_drive(error@) {
                        event matches Some(lost) && lost@ == BridgeEventView::Disconnected(error@)
                    } else {
                        event is None
                    }
                },
            },
    {
        match answer {
            Ok(status) => self.take_status(bridge, status),
            Err(error) => match self.note_error(bridge, error) {
                ErrorStep::Continue => None,
                ErrorStep::Lost(event) => Some(event),
            },
        }
    }

    /// Takes note that the worker has stopped.
    pub fn stopped(bridge: &mut Bridge)
        ensures
            final(bridge)@ == (BridgeView {
                status: DriveStatus { working: false, ..old(bridge)@.status },
                ..old(bridge)@
            }),
            old(bridge).wf() ==> final(bridge).wf(),
    {
        let mut status = bridge.status();
        status.working = false;
        bridge.set_status(status);
    }
}

/// Where the head of a mechanism is after a call that succeeds.
pub open spec fn moved(head: TrackAddress, call: DeviceCall) -> TrackAddress {
    match call {
        DeviceCall::Seek(cylinder) => TrackAddress { cylinder, ..head },
        DeviceCall::SelectSide(side) => TrackAddress { side, ..head },
        _ => head,
    }
}

/// Where the head is after a run of calls that succeed.
pub open spec fn moved_by(head: TrackAddress, calls: Seq<DeviceCall>) -> TrackAddress
    decreases calls.len(),
{
    if calls.len() == 0 {
        head
    } else {
        moved_by(moved(head, calls[0]), calls.drop_first())
    }
}

/// What a worker knows after a run of calls that succeed.
pub open spec fn confirmed_by(worker: Worker, calls: Seq<DeviceCall>) -> Worker
    decreases calls.len(),
{
    if calls.len() == 0 {
        worker
    } else {
        confirmed_by(worker.confirmed(calls[0]), calls.drop_first())
    }
}

/// Whether a worker knows where the head is, if it takes it for positioned.
pub open spec fn knows(worker: Worker, head: TrackAddress) -> bool {
    worker.positioned ==> worker.physical == head
}

/// The position invariant: wherever capturing other tracks has left the head,
/// the calls planned for a track bring it to both coordinates of that track,
/// and the worker then knows it is there. A write follows such calls, so it
/// cannot land on another track.
pub proof fn law_position_reaches_track(
    worker: Worker,
    head: TrackAddress,
    track: TrackAddress,
)
    requires
        knows(worker, head),
    ensures
        ({
            let calls = moves(worker.physical, worker.positioned, track);
            &&& moved_by(head, calls) == track
            &&& confirmed_by(worker, calls).physical == track
            &&& knows(Worker { positioned: true, ..confirmed_by(worker, calls) }, track)
        }),
{
    let calls = moves(worker.physical, worker.positioned, track);
    reveal_with_fuel(moved_by, 3);
    reveal_with_fuel(confirmed_by, 3);
    if calls.len() == 2 {
        assert(calls.drop_first() == seq![calls[1]]);
        assert(calls.drop_first().drop_first() == Seq::<DeviceCall>::empty());
    } else if calls.len() == 1 {
        assert(calls.drop_first() == Seq::<DeviceCall>::empty());
    }
}

/// A worker keeps knowing where the head is through every call that succeeds,
/// so also through a plan that is cut short by a call that fails and leaves the
/// head where it was.
pub proof fn law_calls_keep_knowledge(worker: Worker, head: TrackAddress, call: DeviceCall)
    requires
        knows(worker, head),
    ensures
        knows(worker.confirmed(call), moved(head, call)),
{
}

/// A new worker moves both coordinates before it relies on either.
pub proof fn law_first_position_moves_both(
    mode: ReadMode,
    density: DensityMode,
    auto_cache: bool,
    track: TrackAddress,
)
    ensures
        ({
            let worker = Worker::fresh(mode, density, auto_cache);
            moves(worker.physical, worker.positioned, track) == seq![
                DeviceCall::Seek(track.cylinder),
                DeviceCall::SelectSide(track.side),
            ]
        }),
{
    let worker = Worker::fresh(mode, density, auto_cache);
    assert(moves(worker.physical, worker.positioned, track) == seq![
        DeviceCall::Seek(track.cylinder),
        DeviceCall::SelectSide(track.side),
    ]);
}

/// Captures are numbered one after another.
pub proof fn law_generations_advance(worker: Worker, raw: RawCapture)
    requires
        worker.generation < u64::MAX,
    ensures
        worker.numbered_capture(raw).generation == worker.generation + 1,
{
}

/// Only a capture that is a proven ring can be replayed: one between index
/// pulses, or one that decodes as a whole track.
pub proof fn law_reusable_captures_are_proven(words: Seq<u16>, bit_len: int, index_aligned: bool)
    requires
        quality_of(words, bit_len, index_aligned) != CaptureQuality::Unverified,
    ensures
        index_aligned || scan::scan_outcome(
            packed::unpacked(words, bit_len),
        ) is CleanAmigaDos,
{
}

/// An automatic capture never displaces the consumer's own track: it is chosen
/// only once that track has all the readings worth holding.
pub proof fn law_target_comes_first(worker: Worker, bridge: BridgeView)
    requires
        Worker::readable(bridge.status),
        !cache::full_of(bridge.captures, worker.target),
    ensures
        worker.wanted(bridge) == Some(worker.target),
{
}

/// Whether a run of device errors is only weather: none of them is fatal, and
/// they are fewer than the limit.
pub open spec fn weather(worker: Worker, errors: Seq<ErrorView>) -> bool {
    &&& forall|i: int| 0 <= i < errors.len() ==> !is_fatal(#[trigger] errors[i])
    &&& worker.consecutive_errors + errors.len() < MAX_CONSECUTIVE_ERRORS
}

/// What a worker knows after a run of device errors.
pub open spec fn after_errors(worker: Worker, errors: Seq<ErrorView>) -> Worker
    decreases errors.len(),
{
    if errors.len() == 0 {
        worker
    } else {
        after_errors(worker, errors.drop_last()).after_error(errors.last())
    }
}

/// A few device errors in a row are weather: the drive is lost only when they
/// run unbroken.
pub proof fn law_weather_is_survived(worker: Worker, errors: Seq<ErrorView>)
    requires
        !worker.failed,
        weather(worker, errors),
    ensures
        !after_errors(worker, errors).failed,
        after_errors(worker, errors).consecutive_errors == worker.consecutive_errors
            + errors.len(),
    decreases errors.len(),
{
    if errors.len() > 0 {
        let shorter = errors.drop_last();
        assert(weather(worker, shorter)) by {
            assert forall|i: int| 0 <= i < shorter.len() implies !is_fatal(
                #[trigger] shorter[i],
            ) by {
                assert(shorter[i] == errors[i]);
            }
        }
        law_weather_is_survived(worker, shorter);
        assert(!is_fatal(errors[errors.len() - 1]));
    }
}

} // verus!
