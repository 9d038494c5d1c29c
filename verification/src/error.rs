//! The unified error type shared by all layers of the protocol stack.

use vstd::prelude::*;

verus! {

/// Every failure a layer of the stack can surface.
///
/// Layer-specific variants carry a short human-readable message; the plain
/// variants stand for conditions that need no further detail.
#[derive(Debug)]
pub enum AutomotiveError {
    /// Errors related to CAN bus operations.
    CanError(String),
    /// Errors specific to CAN-FD operations.
    CanFdError(String),
    /// Errors occurring in the ISO-TP (ISO 15765-2) transport.
    IsoTpError(String),
    /// Errors specific to the J1939 protocol.
    J1939Error(String),
    /// Errors occurring in the UDS (ISO 14229) dialog.
    UdsError(String),
    /// Errors specific to OBD-II operations.
    ObdError(String),
    /// Errors specific to DoIP operations.
    DoIPError(String),
    /// Connection failed in DoIP.
    ConnectionFailed,
    /// Failed to send data in DoIP.
    SendFailed,
    /// Failed to receive data in DoIP.
    ReceiveFailed,
    /// Operation timed out.
    Timeout,
    /// Buffer capacity exceeded.
    BufferOverflow,
    /// Invalid parameter provided to a function, or a response missing an
    /// expected echo.
    InvalidParameter,
    /// Component used before initialization.
    NotInitialized,
    /// Error related to hardware port operations.
    PortError(String),
    /// Invalid data received.
    InvalidData,
    /// Invalid checksum.
    InvalidChecksum,
    /// Checksum error.
    ChecksumError,
}

/// Result type alias for automotive operations.
pub type Result<T> = core::result::Result<T, AutomotiveError>;

} // verus!
