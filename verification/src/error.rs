//! Error types.

use vstd::prelude::*;

use crate::text::append_decimal;

verus! {

/// A FluxBridge result.
pub type Result<T> = core::result::Result<T, Error>;

/// Stable, non-exhaustive categories suitable for status displays and events.
#[derive(Debug, Clone, Copy, PartialEq, Eq, Structural)]
#[non_exhaustive]
pub enum ErrorKind {
    /// The requested configuration is inconsistent or unsupported.
    InvalidConfig,
    /// The selected port does not exist.
    PortNotFound,
    /// Another process already owns the selected port.
    PortInUse,
    /// The process cannot access the selected port.
    PermissionDenied,
    /// The interface firmware is too old or incompatible.
    UnsupportedFirmware,
    /// The interface returned an invalid response.
    Protocol,
    /// An operation exceeded its deadline.
    Timeout,
    /// The interface was disconnected.
    Disconnected,
    /// The disk is physically write-protected.
    WriteProtected,
    /// A partial write cannot be placed safely.
    UnplaceablePartialWrite,
    /// A track exceeds the supported bounded buffer size.
    TrackTooLarge,
    /// The bridge worker stopped unexpectedly.
    WorkerStopped,
}

/// The transport failures that are told apart.
#[derive(Debug, Clone, Copy, PartialEq, Eq, Structural)]
pub enum IoErrorKind {
    /// The process may not access the transport.
    PermissionDenied,
    /// The transport does not exist.
    NotFound,
    /// The transport did not answer in time.
    TimedOut,
    /// The transport had nothing to do without blocking.
    WouldBlock,
    /// The peer closed its reading end.
    BrokenPipe,
    /// The peer reset the connection.
    ConnectionReset,
    /// The transport ended in the middle of a transfer.
    UnexpectedEof,
    /// Any other failure.
    Other,
}

/// A transport-level failure.
#[derive(Debug)]
pub struct IoFailure {
    /// What went wrong.
    pub kind: IoErrorKind,
    /// The operating system's description.
    pub message: String,
}

/// An error returned by FluxBridge.
#[derive(Debug)]
#[non_exhaustive]
pub enum Error {
    /// Invalid or unsupported configuration.
    InvalidConfig(String),
    /// The selected port was not found.
    PortNotFound(String),
    /// The selected port is already in use.
    PortInUse(String),
    /// The selected port cannot be accessed.
    PermissionDenied(String),
    /// The connected firmware cannot implement the requested operation.
    UnsupportedFirmware(String),
    /// The device returned an invalid response.
    Protocol(String),
    /// An operation exceeded its deadline.
    Timeout(&'static str),
    /// The device was disconnected.
    Disconnected,
    /// The inserted disk is write-protected.
    WriteProtected,
    /// The interface cannot safely place a partial write at the requested bit.
    UnplaceablePartialWrite {
        /// Requested starting bit.
        start_bit: usize,
        /// Known track length.
        track_bits: usize,
    },
    /// The requested track exceeds the bounded transfer size.
    TrackTooLarge {
        /// Requested bit count.
        bits: usize,
        /// Maximum bit count.
        limit: usize,
    },
    /// The worker thread stopped unexpectedly.
    WorkerStopped,
    /// A transport-level I/O failure.
    Io(IoFailure),
}

/// An [`Error`] with its texts as character sequences.
pub enum ErrorView {
    /// See [`Error::InvalidConfig`].
    InvalidConfig(Seq<char>),
    /// See [`Error::PortNotFound`].
    PortNotFound(Seq<char>),
    /// See [`Error::PortInUse`].
    PortInUse(Seq<char>),
    /// See [`Error::PermissionDenied`].
    PermissionDenied(Seq<char>),
    /// See [`Error::UnsupportedFirmware`].
    UnsupportedFirmware(Seq<char>),
    /// See [`Error::Protocol`].
    Protocol(Seq<char>),
    /// See [`Error::Timeout`].
    Timeout(Seq<char>),
    /// See [`Error::Disconnected`].
    Disconnected,
    /// See [`Error::WriteProtected`].
    WriteProtected,
    /// See [`Error::UnplaceablePartialWrite`].
    UnplaceablePartialWrite { start_bit: int, track_bits: int },
    /// See [`Error::TrackTooLarge`].
    TrackTooLarge { bits: int, limit: int },
    /// See [`Error::WorkerStopped`].
    WorkerStopped,
    /// See [`Error::Io`].
    Io { kind: IoErrorKind, message: Seq<char> },
}

impl View for Error {
    type V = ErrorView;

    open spec fn view(&self) -> ErrorView {
        match *self {
            Error::InvalidConfig(text) => ErrorView::InvalidConfig(text@),
            Error::PortNotFound(text) => ErrorView::PortNotFound(text@),
            Error::PortInUse(text) => ErrorView::PortInUse(text@),
            Error::PermissionDenied(text) => ErrorView::PermissionDenied(text@),
            Error::UnsupportedFirmware(text) => ErrorView::UnsupportedFirmware(text@),
            Error::Protocol(text) => ErrorView::Protocol(text@),
            Error::Timeout(text) => ErrorView::Timeout(text@),
            Error::Disconnected => ErrorView::Disconnected,
            Error::WriteProtected => ErrorView::WriteProtected,
            Error::UnplaceablePartialWrite { start_bit, track_bits } => {
                ErrorView::UnplaceablePartialWrite {
                    start_bit: start_bit as int,
                    track_bits: track_bits as int,
                }
            },
            Error::TrackTooLarge { bits, limit } => ErrorView::TrackTooLarge {
                bits: bits as int,
                limit: limit as int,
            },
            Error::WorkerStopped => ErrorView::WorkerStopped,
            Error::Io(failure) => ErrorView::Io { kind: failure.kind, message: failure.message@ },
        }
    }
}

/// A result with its error viewed.
pub open spec fn viewed<T>(result: Result<T>) -> core::result::Result<T, ErrorView> {
    match result {
        Ok(value) => Ok(value),
        Err(error) => Err(error@),
    }
}

impl ErrorView {
    /// The stable category of an error.
    pub open spec fn kind(self) -> ErrorKind {
        match self {
            ErrorView::InvalidConfig(_) => ErrorKind::InvalidConfig,
            ErrorView::PortNotFound(_) => ErrorKind::PortNotFound,
            ErrorView::PortInUse(_) => ErrorKind::PortInUse,
            ErrorView::PermissionDenied(_) => ErrorKind::PermissionDenied,
            ErrorView::UnsupportedFirmware(_) => ErrorKind::UnsupportedFirmware,
            ErrorView::Protocol(_) => ErrorKind::Protocol,
            ErrorView::Timeout(_) => ErrorKind::Timeout,
            ErrorView::Disconnected => ErrorKind::Disconnected,
            ErrorView::WriteProtected => ErrorKind::WriteProtected,
            ErrorView::UnplaceablePartialWrite { .. } => ErrorKind::UnplaceablePartialWrite,
            ErrorView::TrackTooLarge { .. } => ErrorKind::TrackTooLarge,
            ErrorView::WorkerStopped => ErrorKind::WorkerStopped,
            ErrorView::Io { kind, .. } => match kind {
                IoErrorKind::PermissionDenied => ErrorKind::PermissionDenied,
                IoErrorKind::NotFound => ErrorKind::PortNotFound,
                IoErrorKind::TimedOut | IoErrorKind::WouldBlock => ErrorKind::Timeout,
                IoErrorKind::BrokenPipe
                | IoErrorKind::ConnectionReset
                | IoErrorKind::UnexpectedEof => ErrorKind::Disconnected,
                IoErrorKind::Other => ErrorKind::Protocol,
            },
        }
    }

    /// The user-facing description of an error.
    pub open spec fn message(self) -> Seq<char> {
        match self {
            ErrorView::InvalidConfig(text) => "invalid bridge configuration: "@ + text,
            ErrorView::PortNotFound(text) => "port not found: "@ + text,
            ErrorView::PortInUse(text) => "port is already in use: "@ + text,
            ErrorView::PermissionDenied(text) => "permission denied opening port: "@ + text,
            ErrorView::UnsupportedFirmware(text) => "unsupported firmware: "@ + text,
            ErrorView::Protocol(text) => "device protocol error: "@ + text,
            ErrorView::Timeout(text) => "operation timed out: "@ + text,
            ErrorView::Disconnected => "device disconnected"@,
            ErrorView::WriteProtected => "the inserted disk is write-protected"@,
            ErrorView::UnplaceablePartialWrite { start_bit, track_bits } => {
                "partial write at bit "@ + crate::text::decimal(start_bit as nat)
                    + " cannot be safely placed on a "@ + crate::text::decimal(track_bits as nat)
                    + "-bit track"@
            },
            ErrorView::TrackTooLarge { bits, limit } => {
                "track contains "@ + crate::text::decimal(bits as nat) + " bits; the limit is "@
                    + crate::text::decimal(limit as nat)
            },
            ErrorView::WorkerStopped => "bridge worker stopped"@,
            ErrorView::Io { message, .. } => "transport I/O error: "@ + message,
        }
    }
}

/// `head` followed by `tail`.
fn joined(head: &str, tail: &str) -> (text: String)
    ensures
        text@ == head@ + tail@,
{
    let mut text = head.to_owned();
    text.append(tail);
    text
}

impl Error {
    /// Returns the stable category for this error.
    pub fn kind(&self) -> (kind: ErrorKind)
        ensures
            kind == self@.kind(),
    {
        match self {
            Error::InvalidConfig(_) => ErrorKind::InvalidConfig,
            Error::PortNotFound(_) => ErrorKind::PortNotFound,
            Error::PortInUse(_) => ErrorKind::PortInUse,
            Error::PermissionDenied(_) => ErrorKind::PermissionDenied,
            Error::UnsupportedFirmware(_) => ErrorKind::UnsupportedFirmware,
            Error::Protocol(_) => ErrorKind::Protocol,
            Error::Timeout(_) => ErrorKind::Timeout,
            Error::Disconnected => ErrorKind::Disconnected,
            Error::WriteProtected => ErrorKind::WriteProtected,
            Error::UnplaceablePartialWrite { .. } => ErrorKind::UnplaceablePartialWrite,
            Error::TrackTooLarge { .. } => ErrorKind::TrackTooLarge,
            Error::WorkerStopped => ErrorKind::WorkerStopped,
            Error::Io(failure) => match failure.kind {
                IoErrorKind::PermissionDenied => ErrorKind::PermissionDenied,
                IoErrorKind::NotFound => ErrorKind::PortNotFound,
                IoErrorKind::TimedOut | IoErrorKind::WouldBlock => ErrorKind::Timeout,
                IoErrorKind::BrokenPipe
                | IoErrorKind::ConnectionReset
                | IoErrorKind::UnexpectedEof => ErrorKind::Disconnected,
                IoErrorKind::Other => ErrorKind::Protocol,
            },
        }
    }

    /// Returns the user-facing description of this error.
    pub fn message(&self) -> (text: String)
        ensures
            text@ == self@.message(),
    {
        match self {
            Error::InvalidConfig(detail) => joined("invalid bridge configuration: ", detail),
            Error::PortNotFound(detail) => joined("port not found: ", detail),
            Error::PortInUse(detail) => joined("port is already in use: ", detail),
            Error::PermissionDenied(detail) => joined("permission denied opening port: ", detail),
            Error::UnsupportedFirmware(detail) => joined("unsupported firmware: ", detail),
            Error::Protocol(detail) => joined("device protocol error: ", detail),
            Error::Timeout(operation) => joined("operation timed out: ", operation),
            Error::Disconnected => "device disconnected".to_owned(),
            Error::WriteProtected => "the inserted disk is write-protected".to_owned(),
            Error::UnplaceablePartialWrite { start_bit, track_bits } => {
                let mut text = "partial write at bit ".to_owned();
                append_decimal(&mut text, *start_bit as u64);
                text.append(" cannot be safely placed on a ");
                append_decimal(&mut text, *track_bits as u64);
                text.append("-bit track");
                text
            },
            Error::TrackTooLarge { bits, limit } => {
                let mut text = "track contains ".to_owned();
                append_decimal(&mut text, *bits as u64);
                text.append(" bits; the limit is ");
                append_decimal(&mut text, *limit as u64);
                text
            },
            Error::WorkerStopped => "bridge worker stopped".to_owned(),
            Error::Io(failure) => joined("transport I/O error: ", &failure.message),
        }
    }
}

} // verus!
