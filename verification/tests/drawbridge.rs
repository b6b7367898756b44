//! DrawBridge protocol.

use fluxbridge::device::drawbridge::stream::{
    append_sequence, encode_dd, encode_hd, transition_counts, StreamDecoder,
};
use fluxbridge::device::drawbridge::{
    check_response, disk_request, stop_request, version_request, Command, DrawBridge, Effect, SeekReply, StopScan, Version, VersionScan,
    WriteAction, BAUD,
};
use fluxbridge::device::{LineStep, MAX_STREAM_BYTES};
use fluxbridge::{BridgeConfig, DensityMode, DriveType, ErrorKind, ReadMode, Side};

#[test]
fn low_precision_sequences_expand() {
    let mut bits = Vec::new();
    for code in 0..4 {
        append_sequence(&mut bits, code);
    }
    assert_eq!(bits.len(), 3 + 2 + 3 + 4);
}

#[test]
fn write_encoders_are_bounded_and_padded() {
    let words = vec![0xaaaa; 6_250];
    let dd = encode_dd(&words, 100_000, true).unwrap();
    let hd = encode_hd(&words, 100_000).unwrap();
    assert!(!dd.is_empty());
    assert_eq!(hd.last(), Some(&0));
}

#[test]
fn two_mbaud_is_representable_without_raw_termios_constants() {
    let _builder = serialport::new("not-opened", 2_000_000);
    assert_eq!(BAUD, 2_000_000);
}

#[test]
fn transitions_are_counted_and_clamped() {
    assert_eq!(transition_counts(&[0x9000], 4, 5).unwrap(), [2, 3, 2, 2, 2, 2]);
    assert_eq!(transition_counts(&[0x0001], 16, 5).unwrap()[0], 5);
    assert_eq!(transition_counts(&[0x0001], 16, 4).unwrap()[0], 4);
    for length in [0, 17] {
        assert_eq!(
            transition_counts(&[0x9000], length, 5).unwrap_err().message(),
            "invalid bridge configuration: DrawBridge write bit length does not fit its words"
        );
    }
}

#[test]
fn encodings_have_exact_bytes() {
    assert_eq!(encode_dd(&[0x9000], 4, false).unwrap(), [0x00, 0x01, 0x00]);
    assert_eq!(encode_hd(&[0x9000], 4).unwrap(), [0x59, 0x14, 0]);
    assert_eq!(encode_dd(&[0x2100], 8, true).unwrap()[0], 0x10);
    assert_eq!(encode_dd(&[0x4100], 8, true).unwrap(), [0x40, 0x0b, 0x00]);
}

#[test]
fn drawbridge_responses_are_told_apart() {
    assert!(check_response(Command::Rewind, b'1').is_ok());
    assert_eq!(
        check_response(Command::StreamTrack, b'0').unwrap_err().message(),
        "device protocol error: DrawBridge rejected command '{'"
    );
    assert_eq!(
        check_response(Command::Rewind, 0x07).unwrap_err().message(),
        "device protocol error: DrawBridge returned unexpected response 0x07"
    );
    assert_eq!(Command::NoClick.code(), b'O');
    assert_eq!(Command::WriteDouble.code(), b'}');
}

#[test]
fn requests_outside_plans_are_exact() {
    assert_eq!(version_request(), b"xR?");
    assert_eq!(disk_request(), b"^");
    assert_eq!(stop_request(), b"x");
}

#[test]
fn version_signatures_are_found() {
    let mut scan = VersionScan::new();
    for byte in *b"xx1V1" {
        assert_eq!(scan.push(byte), None);
    }
    assert_eq!(scan.push(b','), None);
    assert_eq!(
        scan.push(b'9'),
        Some(Version { major: 1, minor: 9, full_control: true })
    );
    let mut stop = StopScan::new();
    for byte in *b"XXYZx" {
        assert!(!stop.push(byte));
    }
    assert!(stop.push(b'1'));
}

fn device(minor: u8, full_control: bool) -> DrawBridge {
    DrawBridge::new(Version { major: 1, minor, full_control }, &BridgeConfig::default()).unwrap()
}

#[test]
fn old_firmware_is_refused() {
    let version = Version { major: 0, minor: 9, full_control: false };
    assert_eq!(
        DrawBridge::new(version, &BridgeConfig::default()).unwrap_err().message(),
        "unsupported firmware: DrawBridge firmware 0.9; version 1.8 or later is required"
    );
    assert_eq!(device(8, false).setup_plan().len(), 1);
    let plan = device(9, false).setup_plan();
    assert_eq!(plan[0].command, Command::Features);
    assert_eq!(plan[1].command, Command::Rewind);
}

#[test]
fn a_silent_interface_is_reset_by_its_lines() {
    assert_eq!(
        DrawBridge::recovery_plan(),
        [
            LineStep::Dtr(false),
            LineStep::Rts(false),
            LineStep::Pause(10),
            LineStep::Dtr(true),
            LineStep::Rts(true),
            LineStep::Pause(150),
            LineStep::Purge,
        ]
    );
}

#[test]
fn features_and_density() {
    let mut unit = device(9, false);
    unit.complete(Effect::Features, &[8, 0, 3]).unwrap();
    assert_eq!((unit.flags, unit.build), (8, 3));
    let plan = unit.density_plan(DensityMode::Auto);
    assert_eq!(plan[0].command, Command::DetectDensity);
    unit.complete(plan[0].effect, &[b'H']).unwrap();
    let change = unit.density_change_plan();
    assert_eq!(change[0].command, Command::HighDensity);
    unit.complete(change[0].effect, &[]).unwrap();
    assert!(unit.high_density);
    assert_eq!(unit.status.drive_type, DriveType::Hd35);
    assert!(unit.density_change_plan().is_empty());
    unit.status.disk_present = true;
    unit.complete(Effect::DensityReply, &[b'x']).unwrap();
    assert!(!unit.status.disk_present);
    assert_eq!(unit.density_change_plan()[0].command, Command::DoubleDensity);
    assert_eq!(
        unit.complete(Effect::DensityReply, &[b'?']).unwrap_err().message(),
        "device protocol error: DrawBridge returned invalid density 0x3f"
    );
    let mut plain = device(8, false);
    assert!(plain.density_plan(DensityMode::Auto).is_empty());
    assert!(plain.density_plan(DensityMode::High).is_empty());
    assert!(plain.wanted_high);
}

#[test]
fn disk_reports_are_read() {
    let mut unit = device(8, false);
    unit.disk_report(b'1', b'#').unwrap();
    assert!(unit.status.disk_present && !unit.status.write_protected);
    unit.disk_report(b'#', b'1').unwrap();
    assert!(!unit.status.disk_present && unit.status.write_protected);
    assert_eq!(
        unit.disk_report(b'?', b'0').unwrap_err().message(),
        "device protocol error: DrawBridge returned invalid disk status 0x3f"
    );
    assert!(unit.status.write_protected);
    assert!(unit.reports_disk());
}

#[test]
fn motor_side_and_no_click() {
    let mut unit = device(8, true);
    assert_eq!(DrawBridge::set_motor_plan(true, true)[0].command, Command::MotorQuick);
    assert_eq!(DrawBridge::set_motor_plan(true, false)[0].command, Command::MotorOn);
    assert_eq!(DrawBridge::set_motor_plan(false, false)[0].command, Command::MotorOff);
    unit.status.disk_present = true;
    unit.complete(Effect::MotorRunning(true), &[]).unwrap();
    assert!(unit.status.ready);
    assert_eq!(DrawBridge::select_side_plan(Side::Lower)[0].command, Command::LowerSide);
    assert_eq!(DrawBridge::select_side_plan(Side::Upper)[0].command, Command::UpperSide);
    assert_eq!(unit.no_click_step_plan().len(), 1);
    unit.complete(Effect::NoClick, &[b'x', b'1']).unwrap();
    assert!(unit.status.disk_present && unit.status.write_protected);
    assert!(device(8, false).no_click_step_plan().is_empty());
    assert_eq!(Effect::NoClick.reply_count(), 2);
    assert_eq!(
        Effect::NoClick.reply_operation(1),
        "DrawBridge no-click write-protect status"
    );
}

#[test]
fn seeks_are_framed_and_answered() {
    let mut unit = device(8, false);
    assert_eq!(unit.seek_request(7).unwrap(), *b"=07\x07");
    assert_eq!(unit.seek_request(83).unwrap(), *b"=83\x07");
    assert_eq!(
        unit.seek_request(84).unwrap_err().message(),
        "invalid bridge configuration: DrawBridge cylinder 84 is out of range"
    );
    assert_eq!(unit.seek_reply(7, b'2').unwrap(), SeekReply::Arrived);
    assert_eq!(unit.status.cylinder, 7);
    assert_eq!(unit.seek_reply(9, b'1').unwrap(), SeekReply::StatusFollows);
    assert_eq!(unit.status.cylinder, 7);
    unit.seek_status(9, b'1', b'0');
    assert_eq!(unit.status.cylinder, 9);
    assert!(unit.status.disk_present && !unit.status.write_protected);
    assert_eq!(
        unit.seek_reply(9, b'0').unwrap_err().message(),
        "device protocol error: DrawBridge seek failed"
    );
    assert_eq!(
        unit.seek_reply(9, b'!').unwrap_err().message(),
        "device protocol error: DrawBridge returned invalid seek status 0x21"
    );
}

#[test]
fn double_density_streams_decode_between_index_pulses() {
    let mut unit = device(8, false);
    let mut decoder = StreamDecoder::new(false, false);
    assert!(!decoder.push(0x28).unwrap());
    assert!(!decoder.push(0xa8).unwrap());
    for _ in 0..20 {
        assert!(!decoder.push(0x28).unwrap());
    }
    assert!(decoder.push(0xa8).unwrap());
    assert_eq!(decoder.bits().len(), 84);
    assert!(decoder.indexed());
    let capture = unit.extract(&decoder, ReadMode::Compatible).unwrap();
    assert!(capture.index_aligned);
    assert_eq!(capture.words[0], 0x5555);
    assert!(unit.status.ready);
}

#[test]
fn high_density_streams_decode_between_index_pulses() {
    let mut decoder = StreamDecoder::new(false, true);
    assert!(!decoder.push(0b00_11_00_01).unwrap());
    assert_eq!(decoder.bits(), &[false, true, false, true, false, false, true]);
    assert!(decoder.push(0b01_11_00_01).unwrap());
    assert_eq!(decoder.bits().len(), 10);
    let mut unit = device(8, false);
    assert_eq!(
        unit.extract(&decoder, ReadMode::Compatible).unwrap_err().message(),
        "device protocol error: DrawBridge stream did not contain a complete revolution"
    );
}

#[test]
fn immediate_streams_fill_their_window() {
    let mut decoder = StreamDecoder::new(true, false);
    for _ in 0..29_999 {
        assert!(!decoder.push(0xa8).unwrap());
    }
    assert!(decoder.push(0xa8).unwrap());
    assert_eq!(decoder.bits().len(), 120_000);
    assert!(!decoder.indexed());
    let mut endless = StreamDecoder::new(false, false);
    for _ in 1..MAX_STREAM_BYTES {
        assert!(!endless.push(0x28).unwrap());
    }
    assert_eq!(endless.push(0x28).unwrap_err().kind(), ErrorKind::TrackTooLarge);
}

#[test]
fn writes_ask_for_permission() {
    let mut unit = device(8, false);
    unit.status.write_protected = false;
    let (plan, job) = unit.write_plan(&[0x9000], 4, true).unwrap();
    assert_eq!(plan[0].command, Command::WriteDouble);
    assert_eq!(job.data(), &[0x00, 0x01, 0x00]);
    assert!(unit.complete(plan[0].effect, &[b'Y']).is_ok());
    assert_eq!(
        unit.complete(plan[0].effect, &[b'N']).unwrap_err().kind(),
        ErrorKind::WriteProtected
    );
    assert!(unit.status.write_protected);
    assert_eq!(
        unit.complete(plan[0].effect, &[b'?']).unwrap_err().message(),
        "device protocol error: DrawBridge returned invalid write permission 0x3f"
    );
    let long = vec![0xffff_u16; 8_200];
    let (_, mut job) = unit.write_plan(&long, 131_200, false).unwrap();
    assert_eq!(job.next().unwrap_err().kind(), ErrorKind::TrackTooLarge);
    assert_eq!(unit.write_plan(&[], 0, false).unwrap_err().kind(), ErrorKind::InvalidConfig);
}

#[test]
fn granted_writes_run_in_order() {
    let unit = device(8, false);
    let (_, mut job) = unit.write_plan(&[0x9000], 4, true).unwrap();
    assert!(matches!(job.next(), Ok(WriteAction::SendLength(bytes)) if bytes == [0, 3]));
    assert!(matches!(job.next(), Ok(WriteAction::SendAlignment(1))));
    assert!(matches!(job.next(), Ok(WriteAction::ReceiveReady)));
    assert_eq!(
        job.answer(b'?').unwrap_err().message(),
        "device protocol error: DrawBridge did not become ready for write data"
    );
    assert!(job.answer(b'!').is_ok());
    assert!(matches!(job.next(), Ok(WriteAction::SendTrack)));
    assert!(matches!(job.next(), Ok(WriteAction::ReceiveOutcome)));
    for (response, message) in [
        (b'X', "operation timed out: DrawBridge track write"),
        (b'Y', "device protocol error: DrawBridge write framing error"),
        (b'Z', "device protocol error: DrawBridge serial write overrun"),
        (b'?', "device protocol error: DrawBridge returned invalid write result 0x3f"),
    ] {
        assert_eq!(job.answer(response).unwrap_err().message(), message);
    }
    assert!(job.answer(b'1').is_ok());
    assert!(matches!(job.next(), Ok(WriteAction::Finish)));
}

#[test]
fn high_density_writes_send_no_length() {
    let config = BridgeConfig { density: DensityMode::High, ..BridgeConfig::default() };
    let version = Version { major: 1, minor: 8, full_control: false };
    let unit = DrawBridge::new(version, &config).unwrap();
    let (plan, mut job) = unit.write_plan(&[0x9000], 4, false).unwrap();
    assert_eq!(plan[0].command, Command::WriteHigh);
    assert_eq!(job.data(), &[0x59, 0x14, 0]);
    assert!(matches!(job.next(), Ok(WriteAction::SendAlignment(0))));
}
