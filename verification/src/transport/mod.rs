//! Bounded serial and direct-FTDI transports.

use vstd::prelude::*;

pub mod ftdi;
pub mod listing;

use crate::error::{Error, ErrorView, IoErrorKind, IoFailure, Result};
use crate::text;
use crate::text::{append_decimal, append_hex4, begins_with, characters};
use crate::types;
use crate::types::{copy_text, PortId, PortInfo, PortInfoView};

verus! {

/// Longest single wait for a transport, in nanoseconds.
pub const POLL_INTERVAL: u64 = 250_000_000;

/// USB vendor of FTDI interfaces.
pub const FTDI_VID: u16 = 0x0403;

/// USB products of FTDI interfaces.
pub open spec fn ftdi_products() -> Seq<u16> {
    seq![0x6001u16, 0x6010u16, 0x6011u16, 0x6014u16]
}

/// Returns the USB products of FTDI interfaces.
pub fn ftdi_pids() -> (pids: Vec<u16>)
    ensures
        pids@ == ftdi_products(),
{
    let pids: Vec<u16> = vec![0x6001, 0x6010, 0x6011, 0x6014];
    assert(pids@ == ftdi_products());
    pids
}

/// What to do next in a bounded transfer.
#[derive(Debug)]
pub enum TransferStep {
    /// Everything has been transferred.
    Done,
    /// Try again, waiting at most this many nanoseconds.
    Attempt(u64),
    /// The deadline has passed.
    Failed(Error),
}

/// How one attempt of a transfer ended.
#[derive(Debug)]
pub enum TransferEvent {
    /// Some bytes were transferred.
    Moved(usize),
    /// The attempt failed.
    Failed(IoFailure),
}

/// A transfer that must be complete before its deadline.
#[derive(Debug)]
pub struct Transfer {
    moved: usize,
    total: usize,
    operation: &'static str,
}

/// Where a [`Transfer`] stands.
pub struct TransferView {
    /// Bytes transferred.
    pub moved: int,
    /// Bytes to transfer.
    pub total: int,
    /// What the transfer is for.
    pub operation: Seq<char>,
}

impl View for Transfer {
    type V = TransferView;

    closed spec fn view(&self) -> TransferView {
        TransferView {
            moved: self.moved as int,
            total: self.total as int,
            operation: self.operation@,
        }
    }
}

/// Whether a failed attempt may be repeated.
pub open spec fn transient(kind: IoErrorKind) -> bool {
    kind == IoErrorKind::TimedOut || kind == IoErrorKind::WouldBlock
}

impl Transfer {
    #[verifier::type_invariant]
    spec fn bounded(self) -> bool {
        self.moved <= self.total
    }

    /// Starts a transfer.
    pub fn new(total: usize, operation: &'static str) -> (transfer: Transfer)
        ensures
            transfer@ == (TransferView { moved: 0, total: total as int, operation: operation@ }),
    {
        Transfer { moved: 0, total, operation }
    }

    /// Bytes transferred so far.
    pub fn moved(&self) -> (moved: usize)
        ensures
            moved == self@.moved,
            moved <= self@.total,
    {
        proof {
            use_type_invariant(self);
        }
        self.moved
    }

    /// Decides what to do next, given the nanoseconds left before the
    /// deadline, if it has not passed.
    pub fn next(&self, remaining: Option<u64>) -> (step: TransferStep)
        ensures
            if self@.moved == self@.total {
                step == TransferStep::Done
            } else {
                match remaining {
                    Some(left) => step == TransferStep::Attempt(
                        if left < POLL_INTERVAL {
                            left
                        } else {
                            POLL_INTERVAL
                        },
                    ),
                    None => step matches TransferStep::Failed(error) && error@
                        == ErrorView::Timeout(self@.operation),
                }
            },
    {
        if self.moved == self.total {
            return TransferStep::Done;
        }
        match remaining {
            Some(left) => TransferStep::Attempt(
                if left < POLL_INTERVAL {
                    left
                } else {
                    POLL_INTERVAL
                },
            ),
            None => TransferStep::Failed(Error::Timeout(self.operation)),
        }
    }

    /// Takes note of an attempt. A transport that moves nothing is gone; one
    /// that timed out or would block is tried again.
    pub fn record(&mut self, event: TransferEvent) -> (result: Result<()>)
        requires
            event matches TransferEvent::Moved(count) ==> count <= old(self)@.total
                - old(self)@.moved,
        ensures
            match event {
                TransferEvent::Moved(count) => {
                    &&& final(self)@ == TransferView {
                        moved: old(self)@.moved + count,
                        ..old(self)@
                    }
                    &&& if count == 0 {
                        result matches Err(error) && error@ == ErrorView::Disconnected
                    } else {
                        result is Ok
                    }
                },
                TransferEvent::Failed(failure) => {
                    &&& final(self)@ == old(self)@
                    &&& if transient(failure.kind) {
                        result is Ok
                    } else {
                        result matches Err(error) && error@ == (ErrorView::Io {
                            kind: failure.kind,
                            message: failure.message@,
                        })
                    }
                },
            },
    {
        match event {
            TransferEvent::Moved(count) => {
                if count == 0 {
                    return Err(Error::Disconnected);
                }
                self.moved = self.moved + count;
                Ok(())
            },
            TransferEvent::Failed(failure) => match failure.kind {
                IoErrorKind::TimedOut | IoErrorKind::WouldBlock => Ok(()),
                _ => Err(Error::Io(failure)),
            },
        }
    }
}

/// The failures a serial port reports.
#[derive(Debug, Clone, Copy, PartialEq, Eq, Structural)]
pub enum SerialErrorKind {
    /// There is no such device.
    NoDevice,
    /// A setting is not supported.
    InvalidInput,
    /// Anything else.
    Unknown,
    /// The operating system refused an operation.
    Io(IoErrorKind),
}

/// What a serial failure means.
pub open spec fn serial_failure(kind: SerialErrorKind, message: Seq<char>) -> ErrorView {
    match kind {
        SerialErrorKind::NoDevice => ErrorView::PortNotFound(message),
        SerialErrorKind::Io(IoErrorKind::PermissionDenied) => ErrorView::PermissionDenied(message),
        SerialErrorKind::Io(IoErrorKind::WouldBlock) => ErrorView::PortInUse(message),
        SerialErrorKind::Io(kind) => ErrorView::Io { kind, message },
        SerialErrorKind::InvalidInput | SerialErrorKind::Unknown => ErrorView::Protocol(message),
    }
}

/// Turns a serial failure into an error.
pub fn map_serial_error(kind: SerialErrorKind, message: String) -> (error: Error)
    ensures
        error@ == serial_failure(kind, message@),
{
    match kind {
        SerialErrorKind::NoDevice => Error::PortNotFound(message),
        SerialErrorKind::Io(kind) => match kind {
            IoErrorKind::PermissionDenied => Error::PermissionDenied(message),
            IoErrorKind::WouldBlock => Error::PortInUse(message),
            _ => Error::Io(IoFailure { kind, message }),
        },
        SerialErrorKind::InvalidInput | SerialErrorKind::Unknown => Error::Protocol(message),
    }
}

/// Whether a serial device node is one that can actually be opened.
///
/// macOS exposes every serial device twice: `/dev/cu.*` is the call-out node,
/// and `/dev/tty.*` the call-in node, which blocks on open until carrier detect
/// is asserted. A USB CDC device never asserts it, so opening the `tty` node
/// hangs. Listing only the `cu` node also stops one interface appearing as two.
pub fn is_openable(port_name: &str, macos: bool) -> (openable: bool)
    ensures
        openable == !(macos && ("/dev/tty."@).is_prefix_of(port_name@)),
{
    !(macos && begins_with(&characters(port_name), "/dev/tty."))
}

/// USB facts of a serial port.
#[derive(Debug)]
pub struct UsbReport {
    /// Vendor identifier.
    pub vid: u16,
    /// Product identifier.
    pub pid: u16,
    /// Serial number, when reported.
    pub serial_number: Option<String>,
    /// Product name, when reported.
    pub product: Option<String>,
}

/// The port a serial device is listed as.
pub open spec fn serial_port_view(name: Seq<char>, usb: Option<UsbReport>) -> PortInfoView {
    match usb {
        None => PortInfoView {
            id: name,
            display_name: name,
            vid: None,
            pid: None,
            serial_number: None,
            product: None,
        },
        Some(report) => PortInfoView {
            id: name,
            display_name: match report.product {
                Some(product) => product@ + " ("@ + name + ")"@,
                None => name,
            },
            vid: Some(report.vid),
            pid: Some(report.pid),
            serial_number: types::optional_text(report.serial_number),
            product: types::optional_text(report.product),
        },
    }
}

/// Lists one serial device.
pub fn serial_port_info(name: &str, usb: &Option<UsbReport>) -> (result: Result<PortInfo>)
    ensures
        match result {
            Ok(info) => types::identifies_port(name@) && info@ == serial_port_view(name@, *usb),
            Err(error) => !types::identifies_port(name@) && error@ == ErrorView::InvalidConfig(
                "a port identifier must be non-empty and contain no NUL"@,
            ),
        },
{
    let id = match PortId::new(name) {
        Ok(id) => id,
        Err(error) => return Err(error),
    };
    match usb {
        None => Ok(
            PortInfo {
                id,
                display_name: name.to_owned(),
                vid: None,
                pid: None,
                serial_number: None,
                product: None,
            },
        ),
        Some(report) => {
            let display_name = match &report.product {
                Some(product) => {
                    let mut label = product.clone();
                    label.append(" (");
                    label.append(name);
                    label.append(")");
                    label
                },
                None => name.to_owned(),
            };
            Ok(
                PortInfo {
                    id,
                    display_name,
                    vid: Some(report.vid),
                    pid: Some(report.pid),
                    serial_number: copy_text(&report.serial_number),
                    product: copy_text(&report.product),
                },
            )
        },
    }
}

/// A serial device as the operating system reports it.
#[derive(Debug)]
pub struct SerialReport {
    /// Device node.
    pub name: String,
    /// USB facts, when it is a USB device.
    pub usb: Option<UsbReport>,
}

/// Whether a reported device is listed.
pub open spec fn listable(report: SerialReport, macos: bool) -> bool {
    !(macos && ("/dev/tty."@).is_prefix_of(report.name@))
}

/// The reported devices that are listed.
pub open spec fn listable_reports(reports: Seq<SerialReport>, macos: bool) -> Seq<SerialReport> {
    reports.filter(|report: SerialReport| listable(report, macos))
}

/// Whether every device can be identified.
pub open spec fn all_identified(reports: Seq<SerialReport>) -> bool {
    forall|i: int| 0 <= i < reports.len() ==> types::identifies_port(#[trigger] reports[i].name@)
}

/// The ports some devices are listed as.
pub open spec fn serial_views(reports: Seq<SerialReport>) -> Seq<PortInfoView> {
    reports.map_values(|report: SerialReport| serial_port_view(report.name@, report.usb))
}

/// Lists the serial devices that can be opened.
pub fn serial_ports(reports: &[SerialReport], macos: bool) -> (result: Result<Vec<PortInfo>>)
    ensures
        if all_identified(listable_reports(reports@, macos)) {
            result matches Ok(ports) && crate::device::port_views(ports@) == serial_views(
                listable_reports(reports@, macos),
            )
        } else {
            result matches Err(error) && error@ == ErrorView::InvalidConfig(
                "a port identifier must be non-empty and contain no NUL"@,
            )
        },
{
    let ghost chosen = |report: SerialReport| listable(report, macos);
    let mut ports: Vec<PortInfo> = Vec::new();
    let mut i: usize = 0;
    proof {
        reveal(Seq::filter);
        assert(reports@.take(0) == Seq::<SerialReport>::empty());
        assert(crate::device::port_views(ports@) == serial_views(
            reports@.take(0).filter(chosen),
        ));
    }
    while i < reports.len()
        invariant
            i <= reports@.len(),
            chosen == (|report: SerialReport| listable(report, macos)),
            all_identified(reports@.take(i as int).filter(chosen)),
            crate::device::port_views(ports@) == serial_views(
                reports@.take(i as int).filter(chosen),
            ),
        decreases reports@.len() - i,
    {
        let ghost before = reports@.take(i as int).filter(chosen);
        let ghost now = reports@.take(i + 1);
        let ghost report = reports@[i as int];
        assert(now.drop_last() == reports@.take(i as int));
        assert(now.last() == report);
        proof {
            reveal(Seq::filter);
        }
        if is_openable(&reports[i].name, macos) {
            assert(now.filter(chosen) == before.push(report));
            assert(now.filter(chosen)[before.len() as int] == report);
            match serial_port_info(&reports[i].name, &reports[i].usb) {
                Ok(info) => {
                    let ghost earlier = ports@;
                    ports.push(info);
                    assert(crate::device::port_views(ports@) == crate::device::port_views(
                        earlier,
                    ).push(info@));
                    assert(serial_views(before.push(report)) == serial_views(before).push(
                        serial_port_view(report.name@, report.usb),
                    ));
                    assert(all_identified(now.filter(chosen))) by {
                        assert forall|j: int|
                            0 <= j < now.filter(chosen).len() implies types::identifies_port(
                            (#[trigger] now.filter(chosen)[j]).name@,
                        ) by {
                            if j < before.len() {
                                assert(now.filter(chosen)[j] == before[j]);
                            }
                        }
                    }
                },
                Err(error) => {
                    proof {
                        lemma_unidentified_persists(reports@, i + 1, macos);
                    }
                    return Err(error);
                },
            }
        } else {
            assert(now.filter(chosen) == before);
        }
        i += 1;
    }
    assert(reports@.take(reports@.len() as int) == reports@);
    Ok(ports)
}

/// A device that cannot be identified decides the whole list.
proof fn lemma_unidentified_persists(reports: Seq<SerialReport>, prefix: int, macos: bool)
    requires
        0 <= prefix <= reports.len(),
        !all_identified(listable_reports(reports.take(prefix), macos)),
    ensures
        !all_identified(listable_reports(reports, macos)),
    decreases reports.len(),
{
    if prefix == reports.len() {
        assert(reports.take(prefix) == reports);
    } else {
        reveal(Seq::filter);
        let shorter = reports.drop_last();
        assert(shorter.take(prefix) == reports.take(prefix));
        lemma_unidentified_persists(shorter, prefix, macos);
        let early = listable_reports(shorter, macos);
        let bad = choose|i: int|
            0 <= i < early.len() && !types::identifies_port((#[trigger] early[i]).name@);
        assert(listable_reports(reports, macos)[bad] == early[bad]);
    }
}

/// The text that selects one of several interfaces: its serial number, or its
/// position among those alike.
pub open spec fn ftdi_selector(index: int, serial: Option<String>) -> Seq<char> {
    match serial {
        Some(serial) => serial@,
        None => text::decimal(index as nat),
    }
}

/// The identifier of a direct FTDI interface.
pub open spec fn ftdi_identifier(vid: u16, pid: u16, selector: Seq<char>) -> Seq<char> {
    "ftdi:"@ + text::hex4(vid as int) + ":"@ + text::hex4(pid as int) + ":"@ + selector
}

/// The port a direct FTDI interface is listed as.
pub open spec fn ftdi_port_view(
    pid: u16,
    index: int,
    serial: Option<String>,
    product: Option<String>,
) -> PortInfoView {
    PortInfoView {
        id: ftdi_identifier(FTDI_VID, pid, ftdi_selector(index, serial)),
        display_name: match product {
            Some(product) => match serial {
                Some(serial) => product@ + " ("@ + serial@ + ", direct USB)"@,
                None => product@ + " (direct USB #"@ + text::decimal(index as nat) + ")"@,
            },
            None => "FTDI "@ + text::hex4(pid as int) + " (direct USB #"@ + text::decimal(
                index as nat,
            ) + ")"@,
        },
        vid: Some(FTDI_VID),
        pid: Some(pid),
        serial_number: types::optional_text(serial),
        product: types::optional_text(product),
    }
}

/// Lists one direct FTDI interface, the `index`-th of its product.
pub fn ftdi_port_info(
    pid: u16,
    index: usize,
    serial: Option<String>,
    product: Option<String>,
) -> (result: Result<PortInfo>)
    ensures
        ({
            let view = ftdi_port_view(pid, index as int, serial, product);
            match result {
                Ok(info) => types::identifies_port(view.id) && info@ == view,
                Err(error) => !types::identifies_port(view.id) && error@
                    == ErrorView::InvalidConfig(
                    "a port identifier must be non-empty and contain no NUL"@,
                ),
            }
        }),
{
    let mut identifier = "ftdi:".to_owned();
    append_hex4(&mut identifier, FTDI_VID);
    identifier.append(":");
    append_hex4(&mut identifier, pid);
    identifier.append(":");
    match &serial {
        Some(serial) => identifier.append(serial),
        None => append_decimal(&mut identifier, index as u64),
    }
    assert(identifier@ == ftdi_identifier(FTDI_VID, pid, ftdi_selector(index as int, serial)));
    let id = match PortId::new(&identifier) {
        Ok(id) => id,
        Err(error) => return Err(error),
    };
    let display_name = match (&product, &serial) {
        (Some(product), Some(serial)) => {
            let mut label = product.clone();
            label.append(" (");
            label.append(serial);
            label.append(", direct USB)");
            label
        },
        (Some(product), None) => {
            let mut label = product.clone();
            label.append(" (direct USB #");
            append_decimal(&mut label, index as u64);
            label.append(")");
            label
        },
        _ => {
            let mut label = "FTDI ".to_owned();
            append_hex4(&mut label, pid);
            label.append(" (direct USB #");
            append_decimal(&mut label, index as u64);
            label.append(")");
            label
        },
    };
    Ok(
        PortInfo {
            id,
            display_name,
            vid: Some(FTDI_VID),
            pid: Some(pid),
            serial_number: serial,
            product,
        },
    )
}

} // verus!
