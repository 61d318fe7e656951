//! Errors of the Daly BMS protocol layer.

use vstd::prelude::*;

verus! {

/// Errors that can occur while talking to a Daly BMS.
///
/// The variants that stem from the serial port or the operating system carry
/// the text of the underlying error, produced by the caller that performed
/// the I/O.
#[derive(Debug, Clone, PartialEq, Eq)]
pub enum DalyError {
    /// The serial port could not be opened or became unavailable.
    Serial(String),
    /// Low-level input/output error.
    Io(String),
    /// No answer arrived within the allotted time.
    Timeout { bms_id: u8, cmd: u8 },
    /// The received frame has a wrong checksum.
    Checksum { expected: u8, actual: u8 },
    /// The received frame is too short or malformed.
    InvalidFrame { len: usize, reason: &'static str },
    /// The BMS address in the answer is not the one that was asked.
    UnexpectedAddress { expected: u8, actual: u8 },
    /// The start flag is not `0xA5`.
    InvalidStartFlag(u8),
    /// The data id in the answer does not match the request.
    UnexpectedDataId { expected: u8, actual: u8 },
    /// The BMS at this address did not answer during discovery.
    NotFound(u8),
    /// A write command was refused because read-only mode is on.
    ReadOnly,
    /// The read-back after a write did not show the requested state.
    VerifyFailed { bms_id: u8, cmd: u8 },
    /// Any other error, with its message.
    Other(String),
}

impl DalyError {
    /// `true` for the errors after which retrying the same command is pointless
    /// (the serial port itself failed).
    pub open spec fn spec_is_fatal(&self) -> bool {
        self is Serial || self is Io
    }

    /// `true` for the errors after which retrying the same command is pointless.
    pub fn is_fatal(&self) -> (b: bool)
        ensures
            b == self.spec_is_fatal(),
    {
        match self {
            DalyError::Serial(_) | DalyError::Io(_) => true,
            _ => false,
        }
    }
}

} // verus!
