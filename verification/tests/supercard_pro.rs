//! SuperCard Pro protocol.

use fluxbridge::device::firmware_before;
use fluxbridge::device::supercard_pro::stream::{encode_track, StopScan, StreamDecoder};
use fluxbridge::device::supercard_pro::{
    check_load, map_response, raw_response, Command, Judgement, Step, SuperCardPro,
};
use fluxbridge::device::MAX_STREAM_BYTES;
use fluxbridge::{BridgeConfig, DensityMode, DriveSelect, ErrorKind, ReadMode, Side};

#[test]
fn packet_checksum_wraps_like_firmware() {
    let packet = SuperCardPro::packet(Command::StepTo, &[80]).unwrap();
    assert_eq!(
        packet,
        [
            0x89,
            1,
            80,
            0x4a_u8.wrapping_add(0x89).wrapping_add(1).wrapping_add(80)
        ]
    );
}

#[test]
fn firmware_nibbles_compare_lexicographically() {
    assert!(!firmware_before((2, 0), (1, 3)));
    assert!(firmware_before((0, 9), (1, 3)));
}

#[test]
fn overlong_payloads_are_refused() {
    assert_eq!(SuperCardPro::packet(Command::SetParams, &[0; 255]).unwrap().len(), 258);
    assert_eq!(
        SuperCardPro::packet(Command::SetParams, &[0; 256]).unwrap_err().message(),
        "invalid bridge configuration: SuperCard Pro command payload too long"
    );
}

#[test]
fn card_responses_are_told_apart() {
    assert!(map_response(0x4f).is_ok());
    assert_eq!(map_response(0x0f).unwrap_err().kind(), ErrorKind::WriteProtected);
    for response in [0x11, 0x08] {
        assert_eq!(
            map_response(response).unwrap_err().message(),
            "operation timed out: SuperCard Pro disk ready"
        );
    }
    assert_eq!(
        map_response(0x15).unwrap_err().message(),
        "device protocol error: SuperCard Pro buffer overrun"
    );
    assert_eq!(
        map_response(0x02).unwrap_err().message(),
        "device protocol error: SuperCard Pro returned response 0x02"
    );
    assert_eq!(raw_response(Command::Info, 0xd0, 0x15).unwrap(), 0x15);
    assert_eq!(
        raw_response(Command::Info, 0x80, 0x4f).unwrap_err().message(),
        "device protocol error: SuperCard Pro replied to command 0x80 while 0xd0 was pending"
    );
    assert!(check_load(0xaa, 0x4f).is_ok());
    assert_eq!(
        check_load(0xaa, 0x15).unwrap_err().message(),
        "device protocol error: SuperCard Pro rejected the flux RAM load"
    );
}

#[test]
fn only_pc_drives_are_supported() {
    let config = BridgeConfig { drive: DriveSelect::Shugart1, ..BridgeConfig::default() };
    assert_eq!(
        SuperCardPro::new(&config).unwrap_err().message(),
        "invalid bridge configuration: SuperCard Pro supports only PC Drive A or Drive B"
    );
    assert!(SuperCardPro::identify(&[0x11, 0x13]).is_ok());
    assert_eq!(
        SuperCardPro::identify(&[0x21, 0x12]).unwrap_err().message(),
        "unsupported firmware: SuperCard Pro firmware 1.2 on hardware 2.1; firmware 1.3 or later is required"
    );
}

fn device(drive: DriveSelect) -> SuperCardPro {
    let config = BridgeConfig { drive, ..BridgeConfig::default() };
    SuperCardPro::new(&config).unwrap()
}

fn carry_out(unit: &mut SuperCardPro, plan: &[Step], reply: u8) -> Vec<Vec<u8>> {
    let mut sent = Vec::new();
    for step in plan {
        match step {
            Step::Exchange { command, payload, extra, effect } => {
                let mut bytes = vec![command.code()];
                bytes.extend_from_slice(payload);
                sent.push(bytes);
                unit.complete(*effect, &vec![reply; usize::from(*extra)]);
            }
            Step::Ask { command, payload, .. } => {
                let mut bytes = vec![command.code()];
                bytes.extend_from_slice(payload);
                sent.push(bytes);
            }
            Step::Receive => sent.push(Vec::new()),
            Step::Stop { command } => sent.push(vec![command.code()]),
            Step::Load { header, data } => {
                let mut bytes = header.clone();
                bytes.extend_from_slice(data);
                sent.push(bytes);
            }
        }
    }
    sent
}

#[test]
fn plans_select_and_release_the_drive() {
    let mut unit = device(DriveSelect::PcB);
    let setup = SuperCardPro::setup_plan();
    assert_eq!(
        carry_out(&mut unit, &setup, 0),
        [vec![0x86], vec![0x87], vec![0x82], vec![0x83], vec![0x88]]
    );
    unit.opened();
    let plan = unit.seek_plan(12).unwrap();
    assert_eq!(carry_out(&mut unit, &plan, 0), [vec![0x81], vec![0x89, 12], vec![0x83]]);
    assert_eq!(unit.status.cylinder, 12);
    assert_eq!(
        unit.seek_plan(84).unwrap_err().message(),
        "invalid bridge configuration: SuperCard Pro cylinder 84 is out of range"
    );
    assert_eq!(
        unit.no_click_step_plan().unwrap_err().message(),
        "invalid bridge configuration: no-click step is only valid at cylinder zero"
    );
    let plan = unit.select_side_plan(Side::Upper);
    assert_eq!(carry_out(&mut unit, &plan, 0), [vec![0x81], vec![0x8d, 1], vec![0x83]]);
    assert_eq!(unit.status.side, Side::Upper);
}

#[test]
fn motor_sets_delays_and_selects() {
    let mut unit = device(DriveSelect::PcA);
    let plan = unit.set_motor_plan(true, false);
    let sent = carry_out(&mut unit, &plan, 0);
    assert_eq!(
        sent,
        [
            vec![0x91, 3, 0xe8, 0x13, 0x88, 2, 0xee, 0, 15, 0x4e, 0x20],
            vec![0x84],
            vec![0x80]
        ]
    );
    assert!(unit.selected && unit.status.motor_running);
    let plan = unit.set_motor_plan(false, true);
    assert_eq!(carry_out(&mut unit, &plan, 0), [vec![0x86], vec![0x82]]);
    let quick = unit.set_motor_plan(true, true);
    assert_eq!(
        carry_out(&mut unit, &quick, 0)[0],
        [0x91, 3, 0xe8, 0x13, 0x88, 0, 150, 0, 5, 0x27, 0x10]
    );
}

#[test]
fn status_bits_are_read() {
    let mut unit = device(DriveSelect::PcA);
    let plan = unit.status_plan();
    assert_eq!(carry_out(&mut unit, &plan, 0xc0), [vec![0x80], vec![0x8e], vec![0x82]]);
    let status = unit.report();
    assert!(status.disk_present && !status.write_protected);
    let plan = unit.no_click_step_plan().unwrap();
    assert_eq!(
        carry_out(&mut unit, &plan, 0x00),
        [vec![0x80], vec![0x8b], vec![0x8e], vec![0x82]]
    );
    assert!(!unit.report().disk_present);
    assert!(unit.report().write_protected);
}

#[test]
fn streams_decode_extensions_and_index_marks() {
    let mut decoder = StreamDecoder::new(false, false);
    for byte in [0, 0, 8, 0xff, 0, 80, 0xff, 40] {
        assert!(!decoder.push(byte).unwrap());
    }
    assert!(!decoder.push(0xff).unwrap());
    assert!(decoder.push(0).unwrap());
    let events = decoder.events();
    assert_eq!(events.len(), 3);
    assert_eq!(events[0].nanoseconds, 520 * 50);
    assert!(!events[0].index);
    assert_eq!(events[1].nanoseconds, 4_000);
    assert!(events[1].index);
    assert_eq!(events[2].nanoseconds, 2_000);
}

#[test]
fn immediate_streams_end_with_their_window() {
    let mut decoder = StreamDecoder::new(true, true);
    for _ in 0..12_999 {
        assert!(!decoder.push(200).unwrap());
    }
    assert!(decoder.push(200).unwrap());
    assert_eq!(decoder.events()[0].nanoseconds, 20_000);
}

#[test]
fn endless_streams_are_refused() {
    let mut decoder = StreamDecoder::new(false, false);
    for _ in 1..MAX_STREAM_BYTES {
        assert!(!decoder.push(0).unwrap());
    }
    assert_eq!(decoder.push(0).unwrap_err().kind(), ErrorKind::TrackTooLarge);
    assert_eq!(decoder.push(1).unwrap_err().kind(), ErrorKind::TrackTooLarge);
}

#[test]
fn stop_acknowledgement_is_found_in_the_stream() {
    let mut scan = StopScan::new();
    for byte in [0xde, 0xde, 0xad, 0xaf] {
        assert!(!scan.push(byte).unwrap());
    }
    assert!(scan.push(0x4f).unwrap());
    for (response, message) in [
        (0x15, "device protocol error: SuperCard Pro stream buffer overrun"),
        (0x30, "device protocol error: SuperCard Pro returned response 0x30"),
    ] {
        let mut scan = StopScan::new();
        for byte in [0xde, 0xad, 0xaf] {
            assert!(!scan.push(byte).unwrap());
        }
        assert_eq!(scan.push(response).unwrap_err().message(), message);
    }
}

#[test]
fn tracks_are_encoded_as_counters() {
    let (bytes, count) = encode_track(&[0x9000], 4, false).unwrap();
    assert_eq!(bytes, [0, 80, 0, 240]);
    assert_eq!(count, 2);
    let mut words = vec![0_u16; 60];
    words[59] = 1;
    let (bytes, count) = encode_track(&words, 960, false).unwrap();
    assert_eq!(count, 2);
    assert_eq!(bytes, [0, 0, 0x2c, 0]);
}

#[test]
fn captures_and_writes_are_planned_and_judged() {
    let mut unit = device(DriveSelect::PcA);
    let plan = unit.read_plan(ReadMode::Fast, DensityMode::High);
    assert!(unit.high_density);
    assert_eq!(
        carry_out(&mut unit, &plan, 0),
        [vec![0x80], vec![0xae, 6], vec![], vec![0xaf], vec![0x82]]
    );
    let plan = unit.read_plan(ReadMode::Stalling, DensityMode::Double);
    assert_eq!(carry_out(&mut unit, &plan, 0)[1], [0xae, 7]);
    unit.received();
    assert!(unit.status.ready && unit.status.disk_present);
    assert_eq!(
        unit.judge(Judgement::StreamStart, 0x11).unwrap_err().kind(),
        ErrorKind::Timeout
    );
    assert!(!unit.status.disk_present);
    assert!(unit.judge(Judgement::StreamStart, 0x4f).is_ok());
    let plan = unit.write_plan(&[0x9000], 4, true, DensityMode::Double).unwrap();
    assert_eq!(
        carry_out(&mut unit, &plan, 0),
        [
            vec![0, 0, 0, 0, 0, 0, 0, 4, 0, 80, 0, 240],
            vec![0x80],
            vec![0xa2, 0, 0, 0, 2, 1]
        ]
    );
    unit.status.write_protected = false;
    assert_eq!(
        unit.judge(Judgement::Write, 0x0f).unwrap_err().kind(),
        ErrorKind::WriteProtected
    );
    assert!(unit.status.write_protected);
}

#[test]
fn index_aligned_streams_give_captures() {
    let unit = device(DriveSelect::PcA);
    let mut decoder = StreamDecoder::new(false, false);
    for byte in [80, 0xff, 0] {
        decoder.push(byte).unwrap();
    }
    for _ in 0..40 {
        decoder.push(80).unwrap();
    }
    decoder.push(0xff).unwrap();
    assert!(decoder.push(0).unwrap());
    let capture = unit.extract(decoder.events(), ReadMode::Compatible).unwrap();
    assert!(capture.index_aligned);
    assert_eq!(capture.bit_len, 80);
    assert_eq!(
        unit.extract(decoder.events(), ReadMode::Fast).unwrap_err().kind(),
        ErrorKind::Protocol
    );
}
