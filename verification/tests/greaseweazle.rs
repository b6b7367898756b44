//! Greaseweazle protocol.

use fluxbridge::device::greaseweazle::stream::{
    decode_available, decode_stream, encode_28bit, encode_ticks, encode_track, measure_density,
    read_28bit,
};
use fluxbridge::device::greaseweazle::{
    check_reply, command_packet, map_ack, raw_command_ack, Collector, Command, Delays, Effect,
    Greaseweazle, Judgement, Step, Verdict,
};
use fluxbridge::device::{greeted, Greeting, LineStep, MAX_STREAM_BYTES};
use fluxbridge::flux::FluxEvent;
use fluxbridge::{BridgeConfig, DensityMode, DriveSelect, DriveType, Error, ErrorKind, ReadMode, Side};

#[test]
fn command_length_covers_only_request_bytes() {
    assert_eq!(
        command_packet(Command::GetInfo, &[0]).unwrap(),
        [Command::GetInfo.code(), 3, 0]
    );
    assert_eq!(
        command_packet(Command::GetParams, &[0]).unwrap(),
        [Command::GetParams.code(), 3, 0]
    );
}

#[test]
fn overlong_commands_are_refused() {
    assert_eq!(command_packet(Command::SetParams, &[7; 253]).unwrap()[1], 255);
    assert_eq!(
        command_packet(Command::SetParams, &[7; 254]).unwrap_err().message(),
        "invalid bridge configuration: Greaseweazle command too long"
    );
}

#[test]
fn command_numbers_and_names() {
    assert_eq!(Command::GetInfo.code(), 0);
    assert_eq!(Command::Seek.code(), 2);
    assert_eq!(Command::NoClickStep.code(), 22);
    assert_eq!(Command::GetFluxStatus.name(), "GetFluxStatus");
    assert_eq!(
        Command::Motor.acknowledgement_operation(),
        "Greaseweazle Motor acknowledgement"
    );
}

#[test]
fn flux_tick_forms_decode() {
    let bytes = [80, 250, 6, 255, 2, 21, 1, 1, 1, 40];
    let events = decode_stream(&bytes, 40_000_000, false).unwrap();
    assert_eq!(events.len(), 3);
    assert_eq!(events[0].nanoseconds, 2_000);
    assert!(events.iter().all(|event| event.nanoseconds > 0));
    assert_eq!(events[1].nanoseconds, 255 * 25);
    assert_eq!(events[2].nanoseconds, 50 * 25);
}

#[test]
fn tick_encoding_round_trips_common_values() {
    for ticks in [80, 160, 240, 250, 700, 2_000] {
        let mut bytes = Vec::new();
        encode_ticks(ticks, &mut bytes);
        let events = decode_stream(&bytes, 40_000_000, false).unwrap();
        assert_eq!(events.len(), 1);
        let decoded = events[0].nanoseconds / 25;
        assert_eq!(decoded, ticks);
    }
}

#[test]
fn tick_encoding_round_trips_every_form() {
    for ticks in [1, 249, 504, 505, 1_524, 1_525, 1_000_000] {
        let mut bytes = Vec::new();
        encode_ticks(ticks, &mut bytes);
        assert!(bytes.iter().all(|byte| *byte != 0));
        let events = decode_stream(&bytes, 40_000_000, false).unwrap();
        assert_eq!(events.len(), 1);
        assert_eq!(events[0].nanoseconds, ticks * 25);
    }
}

#[test]
fn long_numbers_keep_28_bits() {
    for value in [0, 1, 0x80, 0x0fff_ffff] {
        let mut bytes = Vec::new();
        encode_28bit(value, &mut bytes);
        assert_eq!(bytes.len(), 4);
        assert!(bytes.iter().all(|byte| byte % 2 == 1));
        assert_eq!(read_28bit(&bytes, 0).unwrap(), value);
    }
    let mut bytes = Vec::new();
    encode_28bit(0x1000_0005, &mut bytes);
    assert_eq!(read_28bit(&bytes, 0).unwrap(), 5);
    assert_eq!(
        read_28bit(&bytes, 1).unwrap_err().message(),
        "device protocol error: truncated Greaseweazle 28-bit value"
    );
}

#[test]
fn index_and_high_density_are_carried() {
    let bytes = [255, 1, 1, 1, 1, 1, 80, 255, 3, 9, 80];
    let events = decode_stream(&bytes, 40_000_000, true).unwrap();
    assert_eq!(events.len(), 2);
    assert!(events[0].index);
    assert!(!events[1].index);
    assert_eq!(events[0].nanoseconds, 4_000);
}

#[test]
fn broken_streams_are_refused() {
    let message = |bytes: &[u8]| decode_stream(bytes, 40_000_000, false).unwrap_err().message();
    assert_eq!(message(&[255]), "device protocol error: truncated Greaseweazle opcode");
    assert_eq!(
        message(&[255, 2, 1, 1, 1]),
        "device protocol error: truncated Greaseweazle 28-bit value"
    );
    assert_eq!(
        message(&[255, 3]),
        "device protocol error: truncated Greaseweazle astable opcode"
    );
    assert_eq!(
        message(&[250]),
        "device protocol error: truncated Greaseweazle flux interval"
    );
    assert_eq!(
        message(&[80, 255, 9]),
        "device protocol error: unknown Greaseweazle flux opcode 9"
    );
    let long = [255, 2, 255, 255, 255, 255, 1];
    assert_eq!(
        decode_stream(&long, 1_000, false).unwrap_err().message(),
        "device protocol error: Greaseweazle flux interval is too large"
    );
}

#[test]
fn arriving_streams_decode_as_far_as_they_go() {
    let events = decode_available(&[80, 80, 255, 2, 1], 40_000_000, false);
    assert_eq!(events.len(), 2);
    assert_eq!(events[1], FluxEvent { nanoseconds: 2_000, index: false });
}

#[test]
fn track_encoding_is_terminated_and_decodes() {
    let bytes = encode_track(&[0x9224; 8], 128, 72_000_000, false).unwrap();
    assert_eq!(bytes.last(), Some(&0));
    let events = decode_stream(&bytes[..bytes.len() - 1], 72_000_000, false).unwrap();
    assert_eq!(events[0].nanoseconds, 2_000);
    assert_eq!(events[1].nanoseconds, 6_000);
    assert_eq!(
        encode_track(&[], 0, 72_000_000, false).unwrap_err().kind(),
        ErrorKind::InvalidConfig
    );
}

#[test]
fn density_is_measured_by_what_only_one_can_hold() {
    let short = FluxEvent { nanoseconds: 3_499, index: false };
    let both = FluxEvent { nanoseconds: 4_000, index: false };
    let long = FluxEvent { nanoseconds: 5_000, index: false };
    // A single short interval shows high density where no long one speaks
    // against it.
    let mut events = vec![both; 1_000];
    assert!(!measure_density(&events, true));
    events.push(short);
    assert!(measure_density(&events, false));
    events.push(long);
    assert!(!measure_density(&events, true));
    // Among long ones it takes one in sixteen.
    let mut events = vec![long; 15];
    events.push(short);
    assert!(measure_density(&events, false));
    events.push(long);
    assert!(!measure_density(&events, true));
    assert!(measure_density(&[], true));
    assert!(!measure_density(&[], false));
}

#[test]
fn acknowledgements_are_told_apart() {
    assert!(map_ack(Command::Seek, 0).is_ok());
    assert_eq!(
        map_ack(Command::Seek, 1).unwrap_err().message(),
        "device protocol error: Greaseweazle rejected unsupported or malformed Seek command"
    );
    assert_eq!(
        map_ack(Command::Seek, 2).unwrap_err().message(),
        "operation timed out: Greaseweazle index pulse"
    );
    assert_eq!(
        map_ack(Command::Seek, 4).unwrap_err().message(),
        "device protocol error: Greaseweazle flux overflow"
    );
    assert_eq!(
        map_ack(Command::Seek, 5).unwrap_err().message(),
        "device protocol error: Greaseweazle flux underflow"
    );
    assert_eq!(map_ack(Command::Seek, 6).unwrap_err().kind(), ErrorKind::WriteProtected);
    assert_eq!(
        map_ack(Command::Seek, 77).unwrap_err().message(),
        "device protocol error: Greaseweazle returned acknowledgement 77"
    );
    assert_eq!(
        check_reply(Command::Motor, 2, 0).unwrap_err().message(),
        "device protocol error: Greaseweazle replied to command 0x02 while 0x06 was pending"
    );
    assert!(check_reply(Command::Motor, 6, 0).is_ok());
    assert_eq!(raw_command_ack(Command::GetFluxStatus, 9, 4).unwrap(), 4);
    assert_eq!(
        raw_command_ack(Command::GetFluxStatus, 8, 0).unwrap_err().message(),
        "device protocol error: Greaseweazle command acknowledgement was out of sequence"
    );
}

fn device(drive: DriveSelect) -> Greaseweazle {
    let config = BridgeConfig { drive, ..BridgeConfig::default() };
    Greaseweazle::new(&config)
}

fn record(major: u8, minor: u8, main: u8, frequency: u32) -> Vec<u8> {
    let mut bytes = vec![major, minor, main, 0];
    bytes.extend_from_slice(&frequency.to_le_bytes());
    bytes.resize(32, 0);
    bytes
}

#[test]
fn firmware_records_are_checked() {
    let mut unit = device(DriveSelect::PcA);
    assert_eq!(
        unit.identify(&record(0, 26, 1, 72_000_000)).unwrap_err().message(),
        "unsupported firmware: Greaseweazle 0.26; version 0.27 or later is required"
    );
    assert_eq!(
        unit.identify(&record(1, 0, 0, 72_000_000)).unwrap_err().message(),
        "unsupported firmware: Greaseweazle is running update firmware"
    );
    assert_eq!(
        unit.identify(&record(0, 27, 1, 0)).unwrap_err().message(),
        "device protocol error: Greaseweazle reported a zero sample frequency"
    );
    unit.identify(&record(0, 27, 1, 72_000_000)).unwrap();
    assert_eq!(unit.sample_frequency, 72_000_000);
}

/// Carries out a plan on a device that answers every pin with `pin`.
fn carry_out(unit: &mut Greaseweazle, plan: &[Step], pin: u8) -> Vec<Vec<u8>> {
    let mut sent = Vec::new();
    for step in plan {
        match step {
            Step::Exchange { command, parameters, extra, effect } => {
                sent.push(command_packet(*command, parameters).unwrap());
                unit.complete(*effect, &vec![pin; usize::from(*extra)]);
            }
            Step::Ask { command, parameters, .. } => {
                sent.push(command_packet(*command, parameters).unwrap());
            }
            Step::Receive => sent.push(Vec::new()),
            Step::Transmit { bytes } => sent.push(bytes.clone()),
        }
    }
    sent
}

#[test]
fn opening_sets_the_step_rate() {
    let mut unit = device(DriveSelect::Shugart0);
    assert_eq!(unit.bus, 2);
    let reset = Greaseweazle::reset_plan();
    match &reset[1] {
        Step::Exchange { command, parameters, extra, effect } => {
            assert_eq!(*command, Command::GetParams);
            assert_eq!(parameters, &[0, 10]);
            assert_eq!(*extra, 10);
            assert_eq!(*effect, Effect::DelayRecord);
            unit.complete(*effect, &[10, 0, 0x10, 0x27, 15, 0, 0xee, 2, 0x10, 0x27]);
        }
        other => panic!("unexpected {other:?}"),
    }
    assert_eq!(unit.delays.step, 10_000);
    let plan = unit.setup_plan();
    let sent = carry_out(&mut unit, &plan, 1);
    assert_eq!(sent[0], [4, 13, 0, 10, 0, 0xb8, 0x0b, 15, 0, 0xee, 2, 0x10, 0x27]);
    assert_eq!(sent[1], [14, 3, 2]);
    assert_eq!(sent[2], [12, 3, 0]);
    assert_eq!(sent[3], [20, 3, 28]);
    assert_eq!(sent[4], [13, 2]);
    assert_eq!(sent.len(), 5);
    unit.opened();
    assert!(unit.status.disk_present);
    assert!(!unit.status.write_protected);
    assert_eq!(unit.status.drive_type, DriveType::Hd35);
    assert!(!unit.selected);
}

#[test]
fn seek_selects_and_releases_the_drive() {
    let mut unit = device(DriveSelect::PcB);
    let plan = unit.seek_plan(40).unwrap();
    let sent = carry_out(&mut unit, &plan, 0);
    assert_eq!(sent, [vec![12, 3, 1], vec![2, 3, 40], vec![13, 2]]);
    assert_eq!(unit.status.cylinder, 40);
    assert!(!unit.selected);
    assert_eq!(
        unit.seek_plan(82).unwrap_err().message(),
        "invalid bridge configuration: Greaseweazle cylinder 82 is out of range"
    );
}

#[test]
fn motor_decides_selection() {
    let mut unit = device(DriveSelect::PcA);
    let plan = unit.set_motor_plan(true, false);
    assert_eq!(unit.delays, Delays { select: 0, step: 0, settle: 0, motor: 750, watchdog: 0 });
    let sent = carry_out(&mut unit, &plan, 0);
    assert_eq!(
        sent,
        [
            vec![4, 13, 0, 0, 0, 0, 0, 0, 0, 0xee, 2, 0, 0],
            vec![6, 4, 0, 1],
            vec![12, 3, 0]
        ]
    );
    assert!(unit.selected && unit.status.motor_running);
    let again = unit.set_motor_plan(true, false);
    assert_eq!(carry_out(&mut unit, &again, 0), [vec![6, 4, 0, 1]]);
    let off = unit.set_motor_plan(false, true);
    assert_eq!(carry_out(&mut unit, &off, 0).len(), 3);
    assert!(!unit.selected && !unit.status.motor_running);
}

#[test]
fn pins_and_status() {
    let mut unit = device(DriveSelect::PcA);
    let plan = unit.status_plan();
    let sent = carry_out(&mut unit, &plan, 1);
    assert_eq!(
        sent,
        [vec![12, 3, 0], vec![20, 3, 28], vec![20, 3, 34], vec![13, 2]]
    );
    let status = unit.report();
    assert!(status.disk_present && !status.write_protected && !status.ready);
    let plan = unit.status_plan();
    carry_out(&mut unit, &plan, 0);
    assert!(!unit.report().disk_present);
    assert!(unit.report().write_protected);
}

#[test]
fn side_and_no_click_plans() {
    let mut unit = device(DriveSelect::Shugart3);
    let plan = unit.select_side_plan(Side::Upper);
    assert_eq!(carry_out(&mut unit, &plan, 0), [vec![3, 3, 1]]);
    assert_eq!(unit.status.side, Side::Upper);
    let plan = unit.no_click_step_plan();
    assert_eq!(
        carry_out(&mut unit, &plan, 0),
        [vec![12, 3, 3], vec![22, 2], vec![20, 3, 28], vec![13, 2]]
    );
}

#[test]
fn capture_windows_are_bounded() {
    let mut unit = device(DriveSelect::PcA);
    unit.identify(&record(1, 0, 1, 72_000_000)).unwrap();
    let plan = unit.read_plan(ReadMode::Fast, DensityMode::Double);
    let sent = carry_out(&mut unit, &plan, 0);
    let mut expected = vec![7, 12];
    expected.extend_from_slice(&16_704_000_u32.to_le_bytes());
    expected.extend_from_slice(&[0; 6]);
    assert_eq!(sent[1], expected);
    let plan = unit.read_plan(ReadMode::Compatible, DensityMode::High);
    assert!(unit.high_density);
    let sent = carry_out(&mut unit, &plan, 0);
    let mut expected = vec![7, 12];
    expected.extend_from_slice(&72_000_000_u32.to_le_bytes());
    expected.extend_from_slice(&[2, 0]);
    expected.extend_from_slice(&1_440_000_u32.to_le_bytes());
    assert_eq!(sent[1], expected);
    assert_eq!(sent.len(), 5);
}

#[test]
fn flux_transfers_are_judged() {
    let mut unit = device(DriveSelect::PcA);
    assert_eq!(unit.judge(Judgement::ReadEnd, 0, 0).unwrap(), Verdict::Proceed);
    assert!(unit.status.ready && unit.status.disk_present);
    assert_eq!(unit.judge(Judgement::ReadEnd, 4, 0).unwrap(), Verdict::Retry);
    assert_eq!(
        unit.judge(Judgement::ReadEnd, 4, 1).unwrap_err().message(),
        "device protocol error: Greaseweazle flux receive buffer overflowed"
    );
    assert_eq!(unit.judge(Judgement::ReadEnd, 2, 0).unwrap_err().kind(), ErrorKind::Timeout);
    assert!(!unit.status.disk_present);
    assert_eq!(
        unit.judge(Judgement::WriteStart, 6, 0).unwrap_err().kind(),
        ErrorKind::WriteProtected
    );
    assert_eq!(
        unit.judge(Judgement::WriteEnd, 5, 0).unwrap_err().message(),
        "device protocol error: Greaseweazle flux transmit buffer underflowed"
    );
    assert_eq!(
        unit.judge(Judgement::WriteEnd, 4, 0).unwrap_err().message(),
        "device protocol error: Greaseweazle flux overflow"
    );
    assert_eq!(unit.judge(Judgement::WriteEnd, 0, 0).unwrap(), Verdict::Proceed);
}

#[test]
fn index_aligned_captures_are_cut_and_density_sticks() {
    let mut unit = device(DriveSelect::PcA);
    unit.identify(&record(1, 0, 1, 40_000_000)).unwrap();
    let mut received = vec![80; 10];
    received.extend_from_slice(&[255, 1, 1, 1, 1, 1]);
    received.extend_from_slice(&[80; 100]);
    received.extend_from_slice(&[255, 1, 1, 1, 1, 1]);
    received.extend_from_slice(&[80; 3]);
    let capture = unit.extract(&received, ReadMode::Compatible, DensityMode::Auto).unwrap();
    assert!(unit.high_density);
    assert!(capture.index_aligned);
    assert_eq!(capture.bit_len, 200);
    assert_eq!(capture.words[0], 0x5555);
    let partial = unit.partial(&received[..10], DensityMode::Auto).unwrap();
    assert_eq!(partial.bit_len, 20);
    assert!(unit.partial(&[], DensityMode::Auto).is_none());
    assert_eq!(
        unit.extract(&received, ReadMode::Fast, DensityMode::Double).unwrap_err().kind(),
        ErrorKind::Protocol
    );
    assert!(!unit.high_density);
}

#[test]
fn an_automatic_write_uses_the_density_last_read() {
    let mut unit = device(DriveSelect::PcA);
    unit.identify(&record(1, 0, 1, 40_000_000)).unwrap();
    // Legal MFM of two to four cells: 2, 3 and 4 us, then 4, 6 and 8 us.
    for (ticks, high, second) in [([80_u8, 120, 160], true, 80), ([160, 240, 249], false, 160)] {
        let mut received = vec![255, 1, 1, 1, 1, 1];
        for _ in 0..40 {
            received.extend_from_slice(&ticks);
        }
        received.extend_from_slice(&[255, 1, 1, 1, 1, 1, ticks[0]]);
        let mut told = unit;
        let density = if high { DensityMode::High } else { DensityMode::Double };
        let expected = told.extract(&received, ReadMode::Compatible, density).unwrap();
        let capture = unit.extract(&received, ReadMode::Compatible, DensityMode::Auto).unwrap();
        assert_eq!(unit.high_density, high);
        assert_eq!((capture.words, capture.bit_len), (expected.words, expected.bit_len));
        let plan = unit.write_plan(&[0xaaaa; 4], 64, true, DensityMode::Auto).unwrap();
        let sent = carry_out(&mut unit, &plan, 0);
        assert!(sent.iter().any(|bytes| bytes.get(1) == Some(&second)));
        assert_eq!(unit.high_density, high);
    }
}

#[test]
fn a_silent_interface_is_greeted_twice() {
    assert!(matches!(greeted(0, Ok(7)), Greeting::Proceed(7)));
    assert!(matches!(greeted(1, Ok(7)), Greeting::Proceed(7)));
    assert!(matches!(greeted::<u8>(0, Err(Error::Timeout("x"))), Greeting::Again));
    match greeted::<u8>(1, Err(Error::Disconnected)) {
        Greeting::Fail(error) => assert_eq!(error.kind(), ErrorKind::Disconnected),
        other => panic!("unexpected {other:?}"),
    }
    assert_eq!(Greaseweazle::recovery_plan(), [LineStep::Purge]);
    assert_eq!(
        Greaseweazle::line_plan(),
        [LineStep::Dtr(true), LineStep::Rts(true), LineStep::Purge]
    );
}

#[test]
fn write_plans_send_the_encoded_track() {
    let mut unit = device(DriveSelect::PcA);
    unit.identify(&record(1, 0, 1, 40_000_000)).unwrap();
    let plan = unit.write_plan(&[0xaaaa; 4], 64, true, DensityMode::Double).unwrap();
    let sent = carry_out(&mut unit, &plan, 0);
    assert_eq!(sent[1], [8, 4, 1, 0]);
    assert_eq!(sent[2].last(), Some(&0));
    assert_eq!(sent[2][0], 80);
    assert_eq!(sent[2][1], 160);
    assert_eq!(sent[3], [9, 2]);
    assert_eq!(
        unit.write_plan(&[0xaaaa; 4], 65, true, DensityMode::Double).unwrap_err().kind(),
        ErrorKind::InvalidConfig
    );
}

#[test]
fn collectors_stop_at_the_end_marker() {
    let mut collector = Collector::new();
    assert!(!collector.push(5).unwrap());
    assert!(collector.push(0).unwrap());
    assert_eq!(collector.bytes(), &[5]);
    for _ in 1..MAX_STREAM_BYTES - 1 {
        assert!(!collector.push(1).unwrap());
    }
    match collector.push(1) {
        Err(Error::TrackTooLarge { bits, limit }) => {
            assert_eq!(bits, MAX_STREAM_BYTES * 8);
            assert_eq!(limit, MAX_STREAM_BYTES * 8);
        }
        other => panic!("unexpected {other:?}"),
    }
    assert!(collector.push(0).is_err());
}
