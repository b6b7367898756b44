//! Access to physical floppy drives through Greaseweazle, DrawBridge, and
//! SuperCard Pro interfaces.
//!
//! The crate holds typed configuration, the three device protocols as plans of
//! exchanges, non-blocking track capture, and observable asynchronous writes.
//! Nothing in it touches a transport: callers carry out what it decides and
//! hand back what came of it.

use vstd::prelude::*;

pub mod controller;
pub mod device;
pub mod error;
pub mod flux;
pub mod text;
pub mod transport;
pub mod types;

pub use controller::Bridge;
pub use error::{Error, ErrorKind, Result};
pub use transport::listing::ports;
pub use types::{
    drivers, BridgeConfig, BridgeEvent, Capabilities, CaptureQuality, DensityMode, DriveSelect,
    DriveStatus, DriveType, DriverInfo, DriverKind, PortId, PortInfo, PortSelection, ReadMode,
    Side, TrackAddress, TrackCapture, WriteId, WriteRequest,
};

verus! {

/// The FluxBridge crate version.
pub const VERSION: &'static str = "0.1.0";

} // verus!
