//! Port listing, selection, and bounded transfers.

use fluxbridge::device::{
    candidates, clamp_track, drive_selection, firmware_before, port_score, rank_candidates,
    track_so_far, validate_capture, OpenAttempt, RawCapture,
};
use fluxbridge::error::{IoErrorKind, IoFailure};
use fluxbridge::flux::{FluxEvent, MAX_TRACK_BITS};
use fluxbridge::transport::ftdi::{parse_identifier, FtdiSelector};
use fluxbridge::transport::listing::{ftdi_ports, merge_ports, FtdiReport};
use fluxbridge::transport::{
    ftdi_pids, is_openable, map_serial_error, serial_port_info, serial_ports, SerialErrorKind,
    SerialReport, Transfer, TransferEvent, TransferStep, UsbReport,
};
use fluxbridge::{
    ports, BridgeConfig, DriveSelect, DriverKind, Error, ErrorKind, PortId, PortInfo,
    PortSelection, Side, TrackAddress,
};

fn port(id: &str, product: Option<&str>, usb: Option<(u16, u16)>) -> PortInfo {
    PortInfo {
        id: PortId::new(id).unwrap(),
        display_name: id.to_owned(),
        vid: usb.map(|pair| pair.0),
        pid: usb.map(|pair| pair.1),
        serial_number: None,
        product: product.map(str::to_owned),
    }
}

#[test]
fn ports_are_scored_by_driver() {
    let weazle = port("COM1", Some("GreaseWeazle F7"), Some((1, 2)));
    let numbered = port("COM2", None, Some((0x1209, 0x4d69)));
    let card = port("COM3", Some("SCP-JIM"), None);
    let direct = port("ftdi:0403:6001:0", None, Some((0x0403, 0x6001)));
    let plain = port("COM4", None, None);
    let usb = port("COM5", Some("CP2102"), Some((1, 1)));
    let clone = port("COM6", None, Some((0x1a86, 0x7523)));
    assert_eq!(port_score(DriverKind::Greaseweazle, &weazle), 100);
    assert_eq!(port_score(DriverKind::Greaseweazle, &numbered), 100);
    assert_eq!(port_score(DriverKind::Greaseweazle, &plain), 0);
    assert_eq!(port_score(DriverKind::SuperCardPro, &card), 100);
    assert_eq!(port_score(DriverKind::SuperCardPro, &weazle), 0);
    assert_eq!(port_score(DriverKind::DrawBridge, &direct), 90);
    assert_eq!(port_score(DriverKind::DrawBridge, &weazle), 0);
    assert_eq!(port_score(DriverKind::DrawBridge, &clone), 0);
    assert_eq!(port_score(DriverKind::DrawBridge, &usb), 20);
    assert_eq!(port_score(DriverKind::DrawBridge, &plain), 5);
    let ranked = rank_candidates(
        DriverKind::DrawBridge,
        &[plain, usb.clone(), clone, direct, port("COM7", None, Some((1, 1)))],
    );
    let names: Vec<&str> = ranked.iter().map(|info| info.id.as_str()).collect();
    assert_eq!(names, ["ftdi:0403:6001:0", "COM5", "COM7", "COM4"]);
}

#[test]
fn exact_selection_is_the_only_candidate() {
    let config = BridgeConfig {
        port: PortSelection::Exact(PortId::new("COM9").unwrap()),
        ..BridgeConfig::default()
    };
    let found = candidates(&config, &[port("COM1", None, None)]);
    assert_eq!(found.len(), 1);
    assert_eq!(found[0].id.as_str(), "COM9");
    assert_eq!(found[0].display_name, "COM9");
    let auto = BridgeConfig::default();
    assert_eq!(candidates(&auto, &[port("COM1", None, None)])[0].id.as_str(), "COM1");
}

#[test]
fn open_attempts_report_the_right_error() {
    let auto = BridgeConfig::default();
    assert_eq!(
        OpenAttempt::start(&auto, 0).unwrap_err().message(),
        "port not found: no candidate ports are visible for drawbridge"
    );
    let mut attempt = OpenAttempt::start(&auto, 2).unwrap();
    attempt.failed(Error::Disconnected).unwrap();
    attempt.failed(Error::WriteProtected).unwrap();
    assert_eq!(attempt.exhausted().kind(), ErrorKind::WriteProtected);
    let attempt = OpenAttempt::start(&auto, 1).unwrap();
    assert_eq!(
        attempt.exhausted().message(),
        "port not found: no drawbridge interface responded"
    );
    let exact = BridgeConfig {
        port: PortSelection::Exact(PortId::new("COM9").unwrap()),
        ..BridgeConfig::default()
    };
    let mut attempt = OpenAttempt::start(&exact, 1).unwrap();
    assert_eq!(
        attempt.failed(Error::Disconnected).unwrap_err().kind(),
        ErrorKind::Disconnected
    );
}

#[test]
fn captures_are_validated() {
    let capture = |words: usize, bit_len: usize| RawCapture {
        words: vec![0; words],
        bit_len,
        index_aligned: true,
    };
    assert!(validate_capture(&capture(4, 64)).is_ok());
    assert_eq!(
        validate_capture(&capture(4, 65)).unwrap_err().message(),
        "device protocol error: backend returned invalid 65-bit capture in 4 words"
    );
    assert_eq!(
        validate_capture(&capture(4, 63)).unwrap_err().kind(),
        ErrorKind::Protocol
    );
    assert_eq!(
        validate_capture(&capture(MAX_TRACK_BITS, MAX_TRACK_BITS + 1)).unwrap_err().kind(),
        ErrorKind::TrackTooLarge
    );
    assert!(track_so_far(&[]).is_none());
    let partial = track_so_far(&[FluxEvent { nanoseconds: 4_000, index: false }]).unwrap();
    assert_eq!((partial.bit_len, partial.words[0]), (2, 0x4000));
}

#[test]
fn tracks_and_lines_are_mapped() {
    let far = TrackAddress { cylinder: 200, side: Side::Upper };
    assert_eq!(clamp_track(far, 80), TrackAddress { cylinder: 79, side: Side::Upper });
    assert_eq!(clamp_track(far, 0).cylinder, 0);
    assert_eq!(clamp_track(TrackAddress::default(), 80), TrackAddress::default());
    assert_eq!(drive_selection(DriveSelect::PcB), (1, 1));
    assert_eq!(drive_selection(DriveSelect::Shugart3), (2, 3));
    assert!(firmware_before((1, 7), (1, 8)));
    assert!(!firmware_before((1, 8), (1, 8)));
}

#[test]
fn transfers_are_bounded_by_their_deadline() {
    let mut transfer = Transfer::new(5, "test transfer");
    match transfer.next(Some(1_000)) {
        TransferStep::Attempt(wait) => assert_eq!(wait, 1_000),
        other => panic!("unexpected {other:?}"),
    }
    match transfer.next(Some(9_000_000_000)) {
        TransferStep::Attempt(wait) => assert_eq!(wait, 250_000_000),
        other => panic!("unexpected {other:?}"),
    }
    transfer.record(TransferEvent::Moved(3)).unwrap();
    for kind in [IoErrorKind::TimedOut, IoErrorKind::WouldBlock] {
        let failure = IoFailure { kind, message: String::new() };
        transfer.record(TransferEvent::Failed(failure)).unwrap();
    }
    assert_eq!(transfer.moved(), 3);
    match transfer.next(None) {
        TransferStep::Failed(error) => {
            assert_eq!(error.message(), "operation timed out: test transfer");
        }
        other => panic!("unexpected {other:?}"),
    }
    assert_eq!(
        transfer.record(TransferEvent::Moved(0)).unwrap_err().kind(),
        ErrorKind::Disconnected
    );
    let failure = IoFailure { kind: IoErrorKind::BrokenPipe, message: "gone".to_owned() };
    assert_eq!(
        transfer.record(TransferEvent::Failed(failure)).unwrap_err().message(),
        "transport I/O error: gone"
    );
    transfer.record(TransferEvent::Moved(2)).unwrap();
    assert!(matches!(transfer.next(None), TransferStep::Done));
}

#[test]
fn serial_failures_are_told_apart() {
    for (kind, category) in [
        (SerialErrorKind::NoDevice, ErrorKind::PortNotFound),
        (SerialErrorKind::InvalidInput, ErrorKind::Protocol),
        (SerialErrorKind::Unknown, ErrorKind::Protocol),
        (SerialErrorKind::Io(IoErrorKind::PermissionDenied), ErrorKind::PermissionDenied),
        (SerialErrorKind::Io(IoErrorKind::WouldBlock), ErrorKind::PortInUse),
        (SerialErrorKind::Io(IoErrorKind::TimedOut), ErrorKind::Timeout),
    ] {
        assert_eq!(map_serial_error(kind, "x".to_owned()).kind(), category);
    }
}

#[test]
fn call_in_nodes_are_not_listed() {
    assert!(!is_openable("/dev/tty.usbmodem1", true));
    assert!(is_openable("/dev/cu.usbmodem1", true));
    assert!(is_openable("/dev/tty.usbmodem1", false));
    let reports = [
        SerialReport { name: "/dev/tty.usb".to_owned(), usb: None },
        SerialReport {
            name: "/dev/cu.usb".to_owned(),
            usb: Some(UsbReport {
                vid: 1,
                pid: 2,
                serial_number: Some("S".to_owned()),
                product: Some("Board".to_owned()),
            }),
        },
    ];
    let listed = serial_ports(&reports, true).unwrap();
    assert_eq!(listed.len(), 1);
    assert_eq!(listed[0].display_name, "Board (/dev/cu.usb)");
    assert_eq!(listed[0].vid, Some(1));
    assert_eq!(listed[0].serial_number.as_deref(), Some("S"));
    assert_eq!(serial_ports(&reports, false).unwrap().len(), 2);
    assert_eq!(serial_port_info("", &None).unwrap_err().kind(), ErrorKind::InvalidConfig);
    let blank = [SerialReport { name: String::new(), usb: None }];
    assert_eq!(serial_ports(&blank, false).unwrap_err().kind(), ErrorKind::InvalidConfig);
}

fn direct(pid: u16, serial: Option<&str>, product: Option<&str>) -> FtdiReport {
    FtdiReport {
        pid,
        serial_number: serial.map(str::to_owned),
        product: product.map(str::to_owned),
    }
}

#[test]
fn direct_interfaces_are_listed_and_found_again() {
    assert_eq!(ftdi_pids(), [0x6001, 0x6010, 0x6011, 0x6014]);
    let listed = ftdi_ports(&[
        direct(0x6001, Some("A1:B"), Some("Bridge")),
        direct(0x6001, None, Some("Bridge")),
        direct(0x6014, None, None),
    ])
    .unwrap();
    assert_eq!(listed[0].id.as_str(), "ftdi:0403:6001:A1:B");
    assert_eq!(listed[0].display_name, "Bridge (A1:B, direct USB)");
    assert_eq!(listed[1].id.as_str(), "ftdi:0403:6001:1");
    assert_eq!(listed[1].display_name, "Bridge (direct USB #1)");
    assert_eq!(listed[2].id.as_str(), "ftdi:0403:6014:0");
    assert_eq!(listed[2].display_name, "FTDI 6014 (direct USB #0)");
    let named = parse_identifier(&listed[0].id).unwrap();
    assert_eq!((named.vid, named.pid), (0x0403, 0x6001));
    assert!(matches!(named.selector, FtdiSelector::Serial(text) if text == "A1:B"));
    let placed = parse_identifier(&listed[1].id).unwrap();
    assert!(matches!(placed.selector, FtdiSelector::Index(1)));
    assert_eq!(
        ftdi_ports(&[direct(0x6001, Some("\0"), None)]).unwrap_err().kind(),
        ErrorKind::InvalidConfig
    );
}

#[test]
fn malformed_identifiers_are_refused() {
    for bad in ["ftdi:", "ftdi:0403:6001", "usb:0403:6001:0", "ftdi:10000:6001:0", "ftdi::6001:0", "ftdi:0403:zz:0"] {
        assert_eq!(
            parse_identifier(&PortId::new(bad).unwrap()).unwrap_err().message(),
            format!("invalid bridge configuration: malformed direct FTDI port identifier {bad}")
        );
    }
    let plus = parse_identifier(&PortId::new("ftdi:+403:0AbC:+7").unwrap()).unwrap();
    assert_eq!((plus.vid, plus.pid), (0x403, 0xabc));
    assert!(matches!(plus.selector, FtdiSelector::Index(7)));
    let huge = parse_identifier(
        &PortId::new("ftdi:0403:6001:99999999999999999999999").unwrap(),
    )
    .unwrap();
    assert!(matches!(huge.selector, FtdiSelector::Serial(_)));
}

#[test]
fn combined_ports_are_ordered_and_distinct() {
    let mut first = port("COM2", Some("first"), None);
    first.display_name = "first".to_owned();
    let merged = merge_ports(&[
        first,
        port("COM10", None, None),
        port("COM2", Some("second"), None),
        port("COM1", None, None),
        port("COM", None, None),
    ]);
    let names: Vec<&str> = merged.iter().map(|info| info.id.as_str()).collect();
    assert_eq!(names, ["COM", "COM1", "COM10", "COM2"]);
    assert_eq!(merged[3].display_name, "first");
    let serial = [SerialReport { name: "z".to_owned(), usb: None }];
    let listed = ports(&serial, &[direct(0x6001, None, None)], false).unwrap();
    assert_eq!(listed[0].id.as_str(), "ftdi:0403:6001:0");
    assert_eq!(listed[1].id.as_str(), "z");
}
