//! The bridge and the decisions of its worker.

use fluxbridge::controller::cache::{CaptureCache, MAX_CACHED_TRACKS};
use fluxbridge::controller::channel::{queued, Delivery};
use fluxbridge::controller::capturing::{CaptureAction, CaptureTask};
use fluxbridge::controller::clicking::{ClickStep, ClickTask};
use fluxbridge::controller::running::{refresh_due, RunEvent, RunStep, RunTask};
use fluxbridge::controller::wishing::{WishStep, WishTask};
use fluxbridge::controller::worker::{
    CaptureStep, DeviceCall, ErrorStep, Worker, MAX_CONSECUTIVE_ERRORS,
};
use fluxbridge::controller::writing::{WriteStep, WriteTask};
use fluxbridge::controller::{place_write, Bridge, Command, StallStep, WorkerEnds};
use fluxbridge::device::RawCapture;
use fluxbridge::flux::MAX_TRACK_BITS;
use fluxbridge::{
    BridgeConfig, BridgeEvent, CaptureQuality, DriveStatus, DriveType, DriverKind, Error, ErrorKind,
    PortId, PortSelection, ReadMode, Side, TrackAddress, TrackCapture, WriteRequest,
};

/// A device that does as it is told and remembers it.
struct FakeDevice {
    physical: TrackAddress,
    writes: Vec<TrackAddress>,
    calls: Vec<DeviceCall>,
}

impl FakeDevice {
    fn call(&mut self, call: DeviceCall) {
        self.calls.push(call);
        match call {
            DeviceCall::Seek(cylinder) => self.physical.cylinder = cylinder,
            DeviceCall::SelectSide(side) => self.physical.side = side,
            DeviceCall::NoClickStep | DeviceCall::SetMotor { .. } => {}
        }
    }

    fn read(&self) -> RawCapture {
        RawCapture {
            words: vec![0xaaaa; 6_250],
            bit_len: 100_000,
            index_aligned: true,
        }
    }
}

struct Setup {
    bridge: Bridge,
    ends: WorkerEnds,
    worker: Worker,
    device: FakeDevice,
}

fn fake_bridge(auto_cache: bool) -> Setup {
    let status = DriveStatus {
        ready: true,
        disk_present: true,
        write_protected: false,
        motor_running: true,
        drive_type: DriveType::Dd35,
        ..DriveStatus::default()
    };
    let config = BridgeConfig {
        driver: DriverKind::DrawBridge,
        auto_cache,
        port: PortSelection::Auto,
        ..BridgeConfig::default()
    };
    let (bridge, ends) = Bridge::connect(&config, status, PortId::new("fake").unwrap());
    Setup {
        bridge,
        ends,
        worker: Worker::new(&config),
        device: FakeDevice {
            physical: TrackAddress::default(),
            writes: Vec::new(),
            calls: Vec::new(),
        },
    }
}

impl Setup {
    fn position(&mut self, track: TrackAddress) {
        for call in self.worker.position_plan(track) {
            self.device.call(call);
            self.worker.confirm(call);
        }
        self.worker.arrived(&mut self.bridge);
    }

    fn write(&mut self, command: Command) {
        let Command::Write { id, request } = command else {
            panic!("a write was expected");
        };
        let (mut task, mut step) = WriteTask::begin(&mut self.worker, &mut self.bridge, id, request);
        loop {
            match step {
                WriteStep::Call(call) => self.device.call(call),
                WriteStep::Write { .. } => self.device.writes.push(self.device.physical),
                WriteStep::Report(event) => {
                    self.ends.events.try_send(event).unwrap();
                    return;
                }
            }
            step = task.answered(&mut self.worker, &mut self.bridge, Ok(()));
        }
    }

    /// One pass of the worker.
    fn pass(&mut self) {
        while let Ok(command) = self.ends.commands.try_recv() {
            self.write(command);
        }
        self.apply_wish();
        self.capture();
    }

    fn apply_wish(&mut self) {
        let (mut task, mut step) = WishTask::begin(&mut self.worker, &mut self.bridge);
        while let WishStep::Call(call) = step {
            self.device.call(call);
            step = task.answered(&mut self.worker, &mut self.bridge, Ok(()));
        }
        assert!(matches!(step, WishStep::Rest));
    }

    fn no_click(&mut self, side: Side) {
        let (mut task, mut step) = ClickTask::begin(side);
        while let ClickStep::Call(call) = step {
            self.device.call(call);
            step = task.answered(&mut self.worker, &mut self.bridge, Ok(()));
        }
        assert!(matches!(step, ClickStep::Rest));
    }

    fn capture(&mut self) {
        let begun = CaptureTask::begin(&mut self.worker, &mut self.bridge);
        let Some((mut task, mut action)) = begun else {
            return;
        };
        while let CaptureAction::Call(call) = action {
            self.device.call(call);
            action = task.answered(&mut self.worker, &mut self.bridge, Ok(()));
        }
        assert!(matches!(action, CaptureAction::Read));
        assert_eq!(self.device.physical, task.track());
        let raw = self.device.read();
        let step = task.finish(&mut self.worker, &mut self.bridge, Ok(raw));
        assert!(matches!(step, CaptureStep::Kept));
    }
}

#[test]
fn capture_is_nonblocking_and_eventually_available() {
    let mut setup = fake_bridge(false);
    let track = TrackAddress::default();
    assert!(setup.bridge.read_track(track).unwrap().is_none());
    setup.pass();
    let capture = setup.bridge.read_track(track).unwrap().unwrap();
    assert_eq!(capture.bit_len(), 100_000);
    assert_eq!(capture.quality(), CaptureQuality::IndexAligned);
    assert_eq!(capture.generation(), 1);
}

#[test]
fn write_restores_target_after_auto_cache_move() {
    let mut setup = fake_bridge(true);
    for _ in 0..5 {
        setup.pass();
    }
    let target = TrackAddress {
        cylinder: 40,
        side: Side::Upper,
    };
    let id = setup
        .bridge
        .submit_write(WriteRequest {
            track: target,
            words: vec![0xaaaa; 6_250],
            bit_len: 100_000,
            start_bit: 0,
        })
        .unwrap();
    assert_ne!(setup.device.physical, target);
    setup.pass();
    assert_eq!(setup.device.writes[0], target);
    match setup.bridge.poll_event() {
        Some(BridgeEvent::WriteCompleted { id: done, track, bit_len }) => {
            assert_eq!((done, track, bit_len), (id, target, 100_000));
        }
        other => panic!("unexpected {other:?}"),
    }
    assert!(setup.bridge.poll_event().is_none());
}

#[test]
fn first_position_selects_both_coordinates_and_motor_uses_spin_up_delay() {
    let mut setup = fake_bridge(false);
    setup.bridge.set_motor(Side::Lower, true).unwrap();
    setup.pass();
    let calls = &setup.device.calls;
    assert!(calls.contains(&DeviceCall::Seek(0)));
    assert!(calls.contains(&DeviceCall::SelectSide(Side::Lower)));
    assert!(calls.contains(&DeviceCall::SetMotor {
        enabled: true,
        quick: false,
    }));
}

#[test]
fn motor_and_seek_are_state_and_survive_any_flood() {
    let status = DriveStatus { max_cylinders: 80, ..DriveStatus::default() };
    let (mut bridge, _ends) =
        Bridge::connect(&BridgeConfig::default(), status, PortId::new("fake").unwrap());

    // A guest expresses these thousands of times a second; none may fail
    // and only the latest matters.
    for cylinder in 0..80 {
        assert!(
            bridge
                .seek(TrackAddress {
                    cylinder,
                    side: Side::Upper,
                })
                .is_ok()
        );
        assert!(bridge.set_motor(Side::Lower, cylinder % 2 == 0).is_ok());
    }
    let wish = bridge.desired();
    assert_eq!(
        wish.target,
        Some(TrackAddress {
            cylinder: 79,
            side: Side::Upper,
        })
    );
    assert_eq!(wish.motor, Some((Side::Lower, false)));
}

#[test]
fn a_full_queue_refuses_commands_and_a_stopped_worker_all() {
    let mut setup = fake_bridge(false);
    for _ in 0..64 {
        setup.bridge.no_click_step(Side::Lower).unwrap();
    }
    assert_eq!(
        setup.bridge.no_click_step(Side::Lower).unwrap_err().message(),
        "invalid bridge configuration: bridge command queue is full"
    );
    let mut count = 0;
    while setup.ends.commands.try_recv().is_ok() {
        count += 1;
    }
    assert_eq!(count, 64);
    assert!(setup.bridge.no_click_step(Side::Upper).is_ok());
    assert!(matches!(
        setup.ends.commands.try_recv(),
        Ok(Command::NoClick(Side::Upper))
    ));
    let Setup { mut bridge, ends, .. } = setup;
    drop(ends);
    assert_eq!(
        bridge.no_click_step(Side::Lower).unwrap_err().kind(),
        ErrorKind::WorkerStopped
    );
    assert!(bridge.command_sender().is_empty());
    assert!(queued(Delivery::<Command>::Accepted).is_ok());
    assert_eq!(queued(Delivery::Full(1)).unwrap_err().kind(), ErrorKind::InvalidConfig);
}

#[test]
fn the_channels_lead_to_the_worker_and_back() {
    let mut setup = fake_bridge(false);
    assert_eq!(setup.ends.commands.capacity(), Some(64));
    assert_eq!(setup.ends.events.capacity(), Some(64));
    assert_eq!(setup.ends.nudge.capacity(), Some(1));
    setup.bridge.no_click_step(Side::Lower).unwrap();
    assert!(matches!(setup.ends.commands.try_recv(), Ok(Command::NoClick(Side::Lower))));
    setup.ends.events.try_send(BridgeEvent::DiskChanged { present: true }).unwrap();
    assert!(matches!(
        setup.bridge.poll_event(),
        Some(BridgeEvent::DiskChanged { present: true })
    ));
    assert!(setup.bridge.poll_event().is_none());
}

#[test]
fn a_wish_wakes_the_worker_once() {
    let mut setup = fake_bridge(false);
    setup.bridge.seek(TrackAddress::default()).unwrap();
    setup.bridge.seek(TrackAddress::default()).unwrap();
    assert!(setup.ends.nudge.try_recv().is_ok());
    assert!(setup.ends.nudge.try_recv().is_err());
    setup.bridge.set_motor(Side::Lower, true).unwrap();
    assert!(setup.ends.nudge.try_recv().is_ok());
    setup.bridge.read_track(TrackAddress::default()).unwrap();
    assert!(setup.ends.nudge.try_recv().is_ok());
    setup.pass();
    setup.bridge.read_track(TrackAddress::default()).unwrap();
    assert!(setup.ends.nudge.try_recv().is_err());
    setup.bridge.advance_revolution(TrackAddress::default()).unwrap();
    assert!(setup.ends.nudge.try_recv().is_ok());
}

fn request(bit_len: usize, start_bit: usize) -> WriteRequest {
    WriteRequest {
        track: TrackAddress::default(),
        words: vec![0xaaaa; bit_len.div_ceil(16)],
        bit_len,
        start_bit,
    }
}

#[test]
fn writes_are_checked_before_they_are_queued() {
    let mut setup = fake_bridge(false);
    assert_eq!(
        setup.bridge.submit_write(request(0, 0)).unwrap_err().message(),
        "invalid bridge configuration: cannot submit an empty write"
    );
    let mut short = request(32, 0);
    short.bit_len = 33;
    assert_eq!(
        setup.bridge.submit_write(short).unwrap_err().message(),
        "invalid bridge configuration: write bit length 33 does not fit 2 words"
    );
    assert_eq!(
        setup.bridge.submit_write(request(MAX_TRACK_BITS + 1, 0)).unwrap_err().kind(),
        ErrorKind::TrackTooLarge
    );
    assert_eq!(setup.bridge.submit_write(request(64, 50_000)).unwrap().get(), 1);
    setup.pass();
    setup.pass();
    assert_eq!(
        setup.bridge.submit_write(request(64, 50_000)).unwrap_err().message(),
        "partial write at bit 50000 cannot be safely placed on a 100000-bit track"
    );
    assert_eq!(setup.bridge.submit_write(request(64, 99_970)).unwrap().get(), 2);
    assert_eq!(setup.bridge.submit_write(request(99_984, 50_000)).unwrap().get(), 3);
    let protected = DriveStatus { write_protected: true, ..setup.bridge.status() };
    setup.worker.take_status(&mut setup.bridge, protected);
    assert_eq!(
        setup.bridge.submit_write(request(64, 0)).unwrap_err().kind(),
        ErrorKind::WriteProtected
    );
}

#[test]
fn writes_are_placed_at_the_index_or_fill_the_track() {
    assert!(place_write(30, 1, 1_000).unwrap());
    assert!(place_write(970, 1, 1_000).unwrap());
    assert!(!place_write(31, 984, 1_000).unwrap());
    assert_eq!(
        place_write(31, 983, 1_000).unwrap_err().kind(),
        ErrorKind::UnplaceablePartialWrite
    );
    assert!(place_write(usize::MAX, 1, 1_000).unwrap());
}

#[test]
fn a_failed_move_fails_the_write_and_forgets_the_track() {
    let mut setup = fake_bridge(false);
    setup.pass();
    let track = TrackAddress::default();
    let (_, command) = setup.bridge.prepare_write(request(100_000, 0)).unwrap();
    let Command::Write { id, request } = command else {
        panic!("a write was expected");
    };
    let mut lost = Worker::new(&BridgeConfig::default());
    let (mut task, step) = WriteTask::begin(&mut lost, &mut setup.bridge, id, request);
    assert!(matches!(step, WriteStep::Call(DeviceCall::Seek(0))));
    assert_eq!(task.bit_len(), 100_000);
    assert_eq!(task.words().len(), 6_250);
    match task.answered(&mut lost, &mut setup.bridge, Err(Error::Timeout("seek"))) {
        WriteStep::Report(BridgeEvent::WriteFailed { id: failed, error, .. }) => {
            assert_eq!(failed, id);
            assert_eq!(error.kind(), ErrorKind::Timeout);
        }
        other => panic!("unexpected {other:?}"),
    }
    assert!(!lost.positioned);
    assert!(setup.bridge.read_track(track).unwrap().is_none());
}

#[test]
fn retired_captures_make_room_for_fresh_ones() {
    let mut setup = fake_bridge(false);
    let track = TrackAddress::default();
    setup.pass();
    setup.pass();
    assert_eq!(setup.bridge.read_track(track).unwrap().unwrap().generation(), 1);
    setup.bridge.advance_revolution(track).unwrap();
    assert!(setup.bridge.read_track(track).unwrap().is_none());
    setup.pass();
    assert_eq!(setup.bridge.read_track(track).unwrap().unwrap().generation(), 2);
}

#[test]
fn unproven_captures_are_stocked_twice() {
    let mut setup = fake_bridge(false);
    let track = TrackAddress::default();
    for generation in 1..=2 {
        assert_eq!(setup.worker.choose_capture(&setup.bridge), Some(track));
        let raw = RawCapture { words: vec![0xaaaa; 6_250], bit_len: 100_000, index_aligned: false };
        assert!(matches!(
            setup.worker.take_capture(&mut setup.bridge, track, Ok(raw)),
            CaptureStep::Kept
        ));
        assert_eq!(setup.worker.generation, generation);
    }
    assert_eq!(setup.worker.choose_capture(&setup.bridge), None);
    let capture = setup.bridge.read_track(track).unwrap().unwrap();
    assert_eq!(capture.quality(), CaptureQuality::Unverified);
    assert_eq!(capture.generation(), 1);
}

#[test]
fn automatic_caching_walks_the_cylinders() {
    let mut setup = fake_bridge(true);
    for _ in 0..4 {
        setup.pass();
    }
    for cylinder in 0..4 {
        let track = TrackAddress { cylinder, side: Side::Lower };
        assert!(matches!(setup.bridge.stall_step(track), StallStep::Ready(_)));
    }
    let far = TrackAddress { cylinder: 70, side: Side::Lower };
    assert!(matches!(setup.bridge.stall_step(far), StallStep::Wait));
    Worker::stopped(&mut setup.bridge);
    assert!(matches!(setup.bridge.stall_step(far), StallStep::Stopped));
    assert_eq!(setup.worker.choose_capture(&setup.bridge), None);
}

#[test]
fn the_cache_is_bounded_and_keeps_the_target() {
    let mut cache = CaptureCache::new();
    let target = TrackAddress::default();
    for cylinder in 0..40 {
        let track = TrackAddress { cylinder, side: Side::Lower };
        for generation in 1..=3 {
            let capture = TrackCapture::new(vec![0; 4], 64, CaptureQuality::Unverified, generation);
            cache.store(track, capture, target);
        }
        assert_eq!(cache.front(track).unwrap().generation(), 2);
    }
    assert!(cache.has_reading(target));
    let held = (0..40)
        .filter(|cylinder| cache.has_reading(TrackAddress { cylinder: *cylinder, side: Side::Lower }))
        .count();
    assert_eq!(held, MAX_CACHED_TRACKS);
    cache.remove(target);
    assert!(cache.front(target).is_none());
    assert!(!cache.is_full(target));
    cache.clear();
    assert!(!cache.has_reading(TrackAddress { cylinder: 39, side: Side::Lower }));
}

#[test]
fn only_unbroken_errors_lose_the_drive() {
    let mut setup = fake_bridge(false);
    for _ in 1..MAX_CONSECUTIVE_ERRORS {
        let step = setup.worker.note_error(&mut setup.bridge, Error::Protocol("x".to_owned()));
        assert!(matches!(step, ErrorStep::Continue));
    }
    setup.worker.succeeded();
    for _ in 1..MAX_CONSECUTIVE_ERRORS {
        setup.worker.note_error(&mut setup.bridge, Error::Protocol("x".to_owned()));
    }
    assert!(!setup.worker.failed && setup.bridge.status().working);
    let step = setup.worker.note_error(&mut setup.bridge, Error::Protocol("last".to_owned()));
    assert!(matches!(
        step,
        ErrorStep::Lost(BridgeEvent::Disconnected(Error::Protocol(text))) if text == "last"
    ));
    assert!(setup.worker.failed && !setup.bridge.status().working);
    let mut other = fake_bridge(false);
    let step = other.worker.note_error(&mut other.bridge, Error::Disconnected);
    assert!(matches!(step, ErrorStep::Lost(_)));
}

#[test]
fn a_missing_index_is_no_fault() {
    let mut setup = fake_bridge(false);
    let track = TrackAddress::default();
    let step = setup.worker.take_capture(&mut setup.bridge, track, Err(Error::Timeout("index")));
    assert!(matches!(step, CaptureStep::Nothing));
    assert_eq!(setup.worker.consecutive_errors, 0);
    let bad = RawCapture { words: vec![0; 4], bit_len: 65, index_aligned: true };
    let step = setup.worker.take_capture(&mut setup.bridge, track, Ok(bad));
    assert!(matches!(step, CaptureStep::Continue));
    assert_eq!(setup.worker.consecutive_errors, 1);
}

#[test]
fn a_changed_disk_takes_every_capture() {
    let mut setup = fake_bridge(false);
    setup.pass();
    let track = TrackAddress { cylinder: 7, side: Side::Upper };
    setup.position(track);
    let gone = DriveStatus { disk_present: false, ..setup.bridge.status() };
    match setup.worker.take_status(&mut setup.bridge, gone) {
        Some(BridgeEvent::DiskChanged { present }) => assert!(!present),
        other => panic!("unexpected {other:?}"),
    }
    assert_eq!(setup.bridge.status().cylinder, 7);
    assert_eq!(setup.bridge.status().side, Side::Upper);
    assert!(setup.bridge.read_track(TrackAddress::default()).unwrap().is_none());
    assert!(setup.worker.take_status(&mut setup.bridge, gone).is_none());
}

#[test]
fn a_motor_wish_is_not_lost_behind_a_failed_move() {
    let mut setup = fake_bridge(false);
    let track = TrackAddress { cylinder: 9, side: Side::Lower };
    setup.bridge.seek(track).unwrap();
    setup.bridge.set_motor(Side::Upper, true).unwrap();
    let (mut task, step) = WishTask::begin(&mut setup.worker, &mut setup.bridge);
    assert!(matches!(step, WishStep::Call(DeviceCall::Seek(9))));
    assert_eq!(setup.bridge.desired().motor, None);
    let step =
        task.answered(&mut setup.worker, &mut setup.bridge, Err(Error::Timeout("seek")));
    assert!(matches!(step, WishStep::Rest));
    assert_eq!(setup.worker.consecutive_errors, 1);
    assert_eq!(setup.worker.target, track);
    assert_eq!(setup.bridge.desired().motor, Some((Side::Upper, true)));
    assert_eq!(setup.bridge.desired().target, None);

    setup.bridge.seek(track).unwrap();
    let (mut task, _) = WishTask::begin(&mut setup.worker, &mut setup.bridge);
    setup.bridge.set_motor(Side::Lower, false).unwrap();
    let step = task.answered(&mut setup.worker, &mut setup.bridge, Err(Error::Disconnected));
    assert!(matches!(
        step,
        WishStep::Lost(BridgeEvent::Disconnected(Error::Disconnected))
    ));
    assert_eq!(setup.bridge.desired().motor, Some((Side::Lower, false)));
}

#[test]
fn a_wish_moves_the_head_and_then_switches_the_motor() {
    let mut setup = fake_bridge(false);
    setup.bridge.seek(TrackAddress { cylinder: 5, side: Side::Lower }).unwrap();
    setup.bridge.set_motor(Side::Upper, false).unwrap();
    setup.apply_wish();
    assert_eq!(
        setup.device.calls,
        [
            DeviceCall::Seek(5),
            DeviceCall::SelectSide(Side::Lower),
            DeviceCall::SelectSide(Side::Upper),
            DeviceCall::SetMotor { enabled: false, quick: false },
        ]
    );
    let status = setup.bridge.status();
    assert_eq!((status.cylinder, status.side), (5, Side::Upper));
    assert!(!status.motor_running);
    setup.apply_wish();
    assert_eq!(setup.device.calls.len(), 4);
}

#[test]
fn a_failed_switch_leaves_the_motor_as_it_was() {
    let mut setup = fake_bridge(false);
    setup.position(TrackAddress::default());
    setup.bridge.set_motor(Side::Lower, false).unwrap();
    let (mut task, step) = WishTask::begin(&mut setup.worker, &mut setup.bridge);
    assert!(matches!(
        step,
        WishStep::Call(DeviceCall::SetMotor { enabled: false, quick: false })
    ));
    let step =
        task.answered(&mut setup.worker, &mut setup.bridge, Err(Error::Timeout("motor")));
    assert!(matches!(step, WishStep::Rest));
    assert!(setup.bridge.status().motor_running);
    assert_eq!(setup.bridge.desired().motor, None);
}

#[test]
fn a_capture_gives_up_when_the_head_cannot_be_moved() {
    let mut setup = fake_bridge(false);
    let (mut task, action) =
        CaptureTask::begin(&mut setup.worker, &mut setup.bridge).unwrap();
    assert!(matches!(action, CaptureAction::Call(DeviceCall::Seek(0))));
    let action =
        task.answered(&mut setup.worker, &mut setup.bridge, Err(Error::Timeout("seek")));
    assert!(matches!(action, CaptureAction::Rest));
    assert_eq!(setup.worker.consecutive_errors, 1);
    let (mut task, _) = CaptureTask::begin(&mut setup.worker, &mut setup.bridge).unwrap();
    let action = task.answered(&mut setup.worker, &mut setup.bridge, Err(Error::Disconnected));
    assert!(matches!(
        action,
        CaptureAction::Lost(BridgeEvent::Disconnected(Error::Disconnected))
    ));
    assert!(setup.worker.failed);
    assert!(CaptureTask::begin(&mut setup.worker, &mut setup.bridge).is_none());
}

#[test]
fn a_finished_capture_withdraws_what_was_watched() {
    let mut setup = fake_bridge(false);
    setup.position(TrackAddress::default());
    let (task, action) = CaptureTask::begin(&mut setup.worker, &mut setup.bridge).unwrap();
    assert!(matches!(action, CaptureAction::Read));
    let raw = RawCapture { words: vec![0x4000], bit_len: 2, index_aligned: false };
    setup.worker.publish(&mut setup.bridge, task.track(), raw);
    assert!(setup.bridge.partial_track(task.track()).is_some());
    let track = task.track();
    let step =
        task.finish(&mut setup.worker, &mut setup.bridge, Err(Error::Timeout("index")));
    assert!(matches!(step, CaptureStep::Nothing));
    assert!(setup.bridge.partial_track(track).is_none());
}

#[test]
fn a_no_click_step_is_confirmed_on_its_side() {
    let mut setup = fake_bridge(false);
    setup.position(TrackAddress::default());
    setup.no_click(Side::Upper);
    assert_eq!(
        setup.device.calls[2..],
        [DeviceCall::SelectSide(Side::Upper), DeviceCall::NoClickStep]
    );
    assert_eq!(
        setup.worker.position_plan(TrackAddress::default()),
        [DeviceCall::SelectSide(Side::Lower)]
    );
    let (mut task, _) = ClickTask::begin(Side::Lower);
    let step = task.answered(&mut setup.worker, &mut setup.bridge, Err(Error::Timeout("side")));
    assert!(matches!(step, ClickStep::Rest));
    assert_eq!((setup.worker.consecutive_errors, setup.worker.physical.side), (1, Side::Upper));
    let (mut task, _) = ClickTask::begin(Side::Lower);
    let step = task.answered(&mut setup.worker, &mut setup.bridge, Err(Error::Disconnected));
    assert!(matches!(step, ClickStep::Lost(BridgeEvent::Disconnected(Error::Disconnected))));
}

/// Runs a worker until it stops; returns the names of the steps.
fn run(setup: &mut Setup, passes: usize, lose_at: Option<usize>) -> Vec<&'static str> {
    let (mut task, mut step) = RunTask::begin();
    let mut steps = Vec::new();
    let mut waits = 0;
    loop {
        let event = match step {
            RunStep::Wait => {
                steps.push("wait");
                waits += 1;
                if waits > passes { RunEvent::Closed } else { RunEvent::Woken }
            }
            RunStep::TakeCommand => {
                steps.push("take");
                match setup.ends.commands.try_recv() {
                    Ok(command) => RunEvent::Command(command),
                    Err(_) => RunEvent::NoCommand,
                }
            }
            RunStep::Write { id, request } => {
                steps.push("write");
                setup.write(Command::Write { id, request });
                RunEvent::StageDone
            }
            RunStep::NoClick(side) => {
                steps.push("click");
                setup.no_click(side);
                RunEvent::StageDone
            }
            RunStep::Wish => {
                steps.push("wish");
                setup.apply_wish();
                RunEvent::StageDone
            }
            RunStep::Status => {
                steps.push("status");
                if lose_at == Some(waits) {
                    let event = setup
                        .worker
                        .answered_status(&mut setup.bridge, Err(Error::Disconnected));
                    assert!(matches!(event, Some(BridgeEvent::Disconnected(_))));
                }
                RunEvent::StageDone
            }
            RunStep::Capture => {
                steps.push("capture");
                let before = setup.worker.generation;
                setup.capture();
                RunEvent::Captured { taken: setup.worker.generation != before }
            }
            RunStep::MotorOff { call } => {
                steps.push("motor off");
                assert!(setup.worker.failed || setup.bridge.status().working);
                setup.device.call(call);
                RunEvent::MotorAnswered
            }
            RunStep::Stopped => {
                assert!(!setup.bridge.status().working);
                assert_eq!(
                    setup.device.calls.last(),
                    Some(&DeviceCall::SetMotor { enabled: false, quick: true })
                );
                return steps;
            }
        };
        step = task.next(&setup.worker, &mut setup.bridge, event);
    }
}

#[test]
fn a_closed_channel_turns_the_motor_off_last() {
    let mut setup = fake_bridge(false);
    assert_eq!(
        run(&mut setup, 1, None),
        [
            "wait", "take", "wish", "status", "capture", // a reading was taken: no sleep
            "take", "wish", "status", "capture", "wait", "motor off",
        ]
    );
}

#[test]
fn a_lost_drive_turns_the_motor_off_last() {
    let mut setup = fake_bridge(false);
    assert_eq!(
        run(&mut setup, 5, Some(1)),
        ["wait", "take", "wish", "status", "motor off"]
    );
    assert!(setup.worker.failed);
}

#[test]
fn commands_are_answered_in_order_until_shutdown() {
    let mut setup = fake_bridge(false);
    setup.bridge.no_click_step(Side::Upper).unwrap();
    setup.bridge.submit_write(request(100_000, 0)).unwrap();
    setup.bridge.command_sender().try_send(Command::Shutdown).unwrap();
    setup.bridge.no_click_step(Side::Lower).unwrap();
    assert_eq!(
        run(&mut setup, 5, None),
        ["wait", "take", "click", "take", "write", "take", "motor off"]
    );
    assert_eq!(setup.device.writes, [TrackAddress::default()]);
}

#[test]
fn the_drive_state_is_refreshed_at_its_cadence() {
    assert_eq!(refresh_due(0, 0), Some(250));
    assert_eq!(refresh_due(249, 250), None);
    assert_eq!(refresh_due(250, 250), Some(500));
    assert_eq!(refresh_due(1_001, 250), Some(1_251));
    assert_eq!(refresh_due(u64::MAX, 0), Some(u64::MAX));
}

#[test]
fn a_stalling_read_gives_up_at_its_timeout() {
    let config = BridgeConfig { mode: ReadMode::Stalling, ..BridgeConfig::default() };
    let status = DriveStatus { working: true, ..DriveStatus::default() };
    let (mut bridge, _ends) = Bridge::connect(&config, status, PortId::new("fake").unwrap());
    let track = TrackAddress::default();
    assert!(matches!(bridge.stall_after(track, 0), StallStep::Wait));
    assert!(matches!(bridge.stall_after(track, 449_999_999), StallStep::Wait));
    assert!(matches!(bridge.stall_after(track, 450_000_000), StallStep::GiveUp));
    let mut worker = Worker::new(&config);
    let raw = RawCapture { words: vec![0xaaaa; 6_250], bit_len: 100_000, index_aligned: true };
    worker.take_capture(&mut bridge, track, Ok(raw));
    assert!(matches!(bridge.stall_after(track, 449_999_999), StallStep::Ready(_)));
    assert!(matches!(bridge.stall_after(track, 450_000_000), StallStep::GiveUp));
    Worker::stopped(&mut bridge);
    let other = TrackAddress { cylinder: 1, side: Side::Lower };
    assert!(matches!(bridge.stall_after(other, 1), StallStep::Stopped));
    assert!(matches!(fake_bridge(false).bridge.stall_after(track, 0), StallStep::GiveUp));
}

#[test]
fn a_retired_capture_is_never_served_again() {
    let mut setup = fake_bridge(true);
    let track = TrackAddress::default();
    let other = TrackAddress { cylinder: 1, side: Side::Lower };
    for _ in 0..3 {
        setup.pass();
    }
    let mut retired = 0;
    for _ in 0..4 {
        let capture = setup.bridge.read_track(track).unwrap().unwrap();
        assert!(capture.generation() > retired);
        retired = capture.generation();
        setup.bridge.advance_revolution(track).unwrap();
        assert!(setup.bridge.read_track(track).unwrap().is_none());
        setup.bridge.advance_revolution(track).unwrap();
        assert!(matches!(setup.bridge.stall_step(other), StallStep::Ready(_)));
        setup.pass();
    }
}

#[test]
fn a_motor_wish_survives_a_failed_move_to_its_side() {
    let mut setup = fake_bridge(false);
    setup.bridge.set_motor(Side::Upper, true).unwrap();
    let (mut task, step) = WishTask::begin(&mut setup.worker, &mut setup.bridge);
    assert!(matches!(step, WishStep::Call(DeviceCall::Seek(0))));
    let step =
        task.answered(&mut setup.worker, &mut setup.bridge, Err(Error::Timeout("seek")));
    assert!(matches!(step, WishStep::Rest));
    assert_eq!(setup.bridge.desired().motor, Some((Side::Upper, true)));
    setup.apply_wish();
    assert_eq!(setup.bridge.desired().motor, None);
    assert!(setup.bridge.status().motor_running);
}

#[test]
fn arriving_captures_can_be_watched() {
    let mut setup = fake_bridge(false);
    let track = TrackAddress { cylinder: 3, side: Side::Upper };
    assert!(setup.bridge.partial_track(track).is_none());
    let raw = RawCapture { words: vec![0x4000], bit_len: 2, index_aligned: false };
    setup.worker.publish(&mut setup.bridge, track, raw);
    let partial = setup.bridge.partial_track(track).unwrap();
    assert_eq!((partial.bit_len(), partial.generation()), (2, 1));
    assert!(setup.bridge.partial_track(TrackAddress::default()).is_none());
    setup.bridge.withdraw_partial();
    assert!(setup.bridge.partial_track(track).is_none());
}

#[test]
fn only_stalling_reads_may_wait() {
    let setup = fake_bridge(false);
    assert_eq!(setup.bridge.stall_timeout(), None);
    assert_eq!(setup.bridge.selected_port().as_str(), "fake");
    let config = BridgeConfig { mode: ReadMode::Stalling, ..BridgeConfig::default() };
    let (bridge, _ends) =
        Bridge::connect(&config, DriveStatus::default(), PortId::new("fake").unwrap());
    assert_eq!(bridge.stall_timeout(), Some(450_000_000));
}
