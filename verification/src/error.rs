//! The error kinds shared by every layer.

use vstd::prelude::*;

verus! {

/// Why a command could not be completed.
#[derive(Debug, PartialEq, Eq)]
pub enum Error {
    /// A failure described only by its message.
    Custom(String),
    /// The transport underneath failed.
    Io(String),
    /// The device answered with bytes the protocol does not allow here:
    /// an acknowledgement that is neither `OK` nor `FL`, or a field of the
    /// wrong size. Carries the bytes received.
    ProtocolViolation(Vec<u8>),
    /// The device answered `FL` with this code.
    DeviceError(u16),
    /// The CRC-32 trailer is absent or does not match the payload.
    ChecksumMismatch,
    /// A text payload is not valid UTF-8.
    TextDecodeError,
}

/// An [`Error`] with its contents as mathematical values.
pub enum ErrorView {
    Custom(Seq<char>),
    Io(Seq<char>),
    ProtocolViolation(Seq<u8>),
    DeviceError(u16),
    ChecksumMismatch,
    TextDecodeError,
}

impl View for Error {
    type V = ErrorView;

    open spec fn view(&self) -> ErrorView {
        match self {
            Error::Custom(m) => ErrorView::Custom(m@),
            Error::Io(m) => ErrorView::Io(m@),
            Error::ProtocolViolation(b) => ErrorView::ProtocolViolation(b@),
            Error::DeviceError(c) => ErrorView::DeviceError(*c),
            Error::ChecksumMismatch => ErrorView::ChecksumMismatch,
            Error::TextDecodeError => ErrorView::TextDecodeError,
        }
    }
}

} // verus!
