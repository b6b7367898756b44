//! Public value types and errors.

use fluxbridge::error::{IoErrorKind, IoFailure};
use fluxbridge::{
    drivers, BridgeConfig, CaptureQuality, DensityMode, DriveSelect, DriveStatus, DriverKind, Error,
    ErrorKind, PortId, PortSelection, ReadMode, Side, TrackCapture, VERSION,
};

#[test]
fn driver_tokens_name_their_drivers() {
    for kind in [DriverKind::DrawBridge, DriverKind::Greaseweazle, DriverKind::SuperCardPro] {
        assert_eq!(kind.as_str().parse::<DriverKind>().unwrap(), kind);
    }
    assert_eq!("SuperCard Pro".parse::<DriverKind>().unwrap(), DriverKind::SuperCardPro);
    assert_eq!("scp".parse::<DriverKind>().unwrap(), DriverKind::SuperCardPro);
    assert_eq!("Arduino".parse::<DriverKind>().unwrap(), DriverKind::DrawBridge);
    assert_eq!("grease_weazle-".parse::<DriverKind>().unwrap(), DriverKind::Greaseweazle);
}

#[test]
fn unknown_drivers_are_quoted() {
    let error = "no \"such\"\n".parse::<DriverKind>().unwrap_err();
    assert_eq!(
        error.message(),
        "invalid bridge configuration: unknown driver kind \"no \\\"such\\\"\\n\""
    );
}

#[test]
fn drivers_are_listed_most_mature_first() {
    let table = drivers();
    let kinds: Vec<DriverKind> = table.iter().map(|info| info.kind).collect();
    assert_eq!(
        kinds,
        [DriverKind::Greaseweazle, DriverKind::DrawBridge, DriverKind::SuperCardPro]
    );
    assert!(table.iter().all(|info| info.capabilities.high_density));
}

#[test]
fn port_identifiers_are_checked() {
    assert_eq!(PortId::new("/dev/ttyACM0").unwrap().as_str(), "/dev/ttyACM0");
    assert!(PortId::new("ftdi:0403:6001:0").unwrap().is_direct_ftdi());
    assert!(!PortId::new("COM3").unwrap().is_direct_ftdi());
    for bad in ["", " \t\u{3000}", "a\0b"] {
        assert_eq!(
            PortId::new(bad).unwrap_err().message(),
            "invalid bridge configuration: a port identifier must be non-empty and contain no NUL"
        );
    }
    assert_eq!("COM3".parse::<PortId>().unwrap(), PortId::new("COM3").unwrap());
}

#[test]
fn default_configuration_is_valid() {
    let config = BridgeConfig::default();
    assert!(config.validate().is_ok());
    assert_eq!(config.driver, DriverKind::DrawBridge);
    assert_eq!(config.mode, ReadMode::Compatible);
    assert_eq!(config.port, PortSelection::Auto);
    assert_eq!(config.stall_timeout, 450_000_000);
}

#[test]
fn unsupported_configurations_are_refused() {
    let message = |config: BridgeConfig| config.validate().unwrap_err().message();
    assert_eq!(
        message(BridgeConfig {
            driver: DriverKind::SuperCardPro,
            drive: DriveSelect::Shugart2,
            ..BridgeConfig::default()
        }),
        "invalid bridge configuration: supercardpro does not support Shugart2"
    );
    assert_eq!(
        message(BridgeConfig { stall_timeout: 0, ..BridgeConfig::default() }),
        "invalid bridge configuration: stall timeout must be greater than zero"
    );
    let config = BridgeConfig { density: DensityMode::High, ..BridgeConfig::default() };
    assert_eq!(
        config.validate_against(&[]).unwrap_err().message(),
        "invalid bridge configuration: drawbridge support is not compiled in"
    );
    let mut table = drivers();
    for info in &mut table {
        info.capabilities.high_density = false;
    }
    assert_eq!(
        config.validate_against(&table).unwrap_err().message(),
        "invalid bridge configuration: drawbridge does not support high-density media"
    );
}

#[test]
fn sides_convert_both_ways() {
    assert_eq!(Side::from(true), Side::Upper);
    assert!(!bool::from(Side::Lower));
    assert_eq!(Side::Upper.number(), 1);
}

#[test]
fn captures_hand_out_what_they_hold() {
    let capture = TrackCapture::new(vec![1, 2], 30, CaptureQuality::Unverified, 7);
    assert_eq!(capture.words(), &[1, 2]);
    assert_eq!(capture.bit_len(), 30);
    assert!(!capture.quality().reusable());
    assert!(CaptureQuality::IndexAligned.reusable());
    assert!(CaptureQuality::VerifiedAmigaDos { sectors: 11 }.reusable());
    assert_eq!(capture.generation(), 7);
    assert_eq!(capture.clone().into_words(), [1, 2]);
}

#[test]
fn assumed_status_is_cautious() {
    let status = DriveStatus::default();
    assert!(status.working && status.write_protected);
    assert!(!status.ready && !status.disk_present && !status.motor_running);
    assert_eq!(status.max_cylinders, 84);
}

#[test]
fn errors_have_stable_categories() {
    let text = || "x".to_owned();
    for (error, kind, message) in [
        (Error::InvalidConfig(text()), ErrorKind::InvalidConfig, "invalid bridge configuration: x"),
        (Error::PortNotFound(text()), ErrorKind::PortNotFound, "port not found: x"),
        (Error::PortInUse(text()), ErrorKind::PortInUse, "port is already in use: x"),
        (
            Error::PermissionDenied(text()),
            ErrorKind::PermissionDenied,
            "permission denied opening port: x",
        ),
        (Error::UnsupportedFirmware(text()), ErrorKind::UnsupportedFirmware, "unsupported firmware: x"),
        (Error::Protocol(text()), ErrorKind::Protocol, "device protocol error: x"),
        (Error::Timeout("x"), ErrorKind::Timeout, "operation timed out: x"),
        (Error::Disconnected, ErrorKind::Disconnected, "device disconnected"),
        (Error::WriteProtected, ErrorKind::WriteProtected, "the inserted disk is write-protected"),
        (
            Error::UnplaceablePartialWrite { start_bit: 40, track_bits: 100 },
            ErrorKind::UnplaceablePartialWrite,
            "partial write at bit 40 cannot be safely placed on a 100-bit track",
        ),
        (
            Error::TrackTooLarge { bits: 1_234_567, limit: 90 },
            ErrorKind::TrackTooLarge,
            "track contains 1234567 bits; the limit is 90",
        ),
        (Error::WorkerStopped, ErrorKind::WorkerStopped, "bridge worker stopped"),
    ] {
        assert_eq!(error.kind(), kind);
        assert_eq!(error.message(), message);
    }
}

#[test]
fn transport_failures_have_categories() {
    for (kind, category) in [
        (IoErrorKind::PermissionDenied, ErrorKind::PermissionDenied),
        (IoErrorKind::NotFound, ErrorKind::PortNotFound),
        (IoErrorKind::TimedOut, ErrorKind::Timeout),
        (IoErrorKind::WouldBlock, ErrorKind::Timeout),
        (IoErrorKind::BrokenPipe, ErrorKind::Disconnected),
        (IoErrorKind::ConnectionReset, ErrorKind::Disconnected),
        (IoErrorKind::UnexpectedEof, ErrorKind::Disconnected),
        (IoErrorKind::Other, ErrorKind::Protocol),
    ] {
        let error = Error::Io(IoFailure { kind, message: "x".to_owned() });
        assert_eq!(error.kind(), category);
        assert_eq!(error.message(), "transport I/O error: x");
    }
}

#[test]
fn version_is_the_package_version() {
    assert_eq!(VERSION, "0.1.0");
}
