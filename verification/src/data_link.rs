//! Data link layer: raw CAN frame handling, bus status and error reporting.

use crate::error::AutomotiveError;
use crate::types::{Config, Frame};
use vstd::prelude::*;

verus! {

/// Data link layer trait for raw CAN frame handling, implemented by
/// controller drivers outside the verified stack.
pub trait DataLinkLayer: Sized {
    type Config: Config;

    fn new(config: Self::Config) -> core::result::Result<Self, AutomotiveError>;

    fn open(&mut self) -> core::result::Result<(), AutomotiveError>;

    fn close(&mut self) -> core::result::Result<(), AutomotiveError>;

    fn send_frame(&mut self, frame: &Frame) -> core::result::Result<(), AutomotiveError>;

    fn receive_frame(&mut self) -> core::result::Result<Frame, AutomotiveError>;

    fn set_timeout(&mut self, timeout_ms: u32) -> core::result::Result<(), AutomotiveError>;

    fn get_status(&self) -> core::result::Result<u32, AutomotiveError>;

    /// Returns the transmit and receive error counters (TEC, REC).
    fn get_error_counters(&self) -> core::result::Result<(u8, u8), AutomotiveError>;

    fn get_bus_status(&self) -> core::result::Result<BusStatus, AutomotiveError>;

    fn request_recovery(&mut self) -> core::result::Result<(), AutomotiveError>;
}

/// CAN bus status.
#[derive(Debug, Clone, Copy, PartialEq, Eq, Structural)]
pub enum BusStatus {
    Error,
    Warning,
    ErrorPassive,
    BusOff,
    Active,
}

/// CAN error types.
#[derive(Debug, Clone, Copy, PartialEq, Eq, Structural)]
pub enum CanErrorType {
    /// Transmitted 0 but received 1.
    Bit0,
    /// Transmitted 1 but received 0.
    Bit1,
    /// Bit stuffing error.
    Stuff,
    /// Form error.
    Form,
    /// CRC error.
    Crc,
    /// No acknowledgment received.
    Ack,
    /// Other error types.
    Other(u8),
}

/// CAN error frame.
#[derive(Debug, Clone, Copy, PartialEq, Eq, Structural)]
pub struct CanError {
    pub error_type: CanErrorType,
    pub is_tx: bool,
    pub frame_type: FrameType,
    pub location: ErrorLocation,
    pub tec: u8,
    pub rec: u8,
}

/// Frame type at the point an error occurred.
#[derive(Debug, Clone, Copy, PartialEq, Eq, Structural)]
pub enum FrameType {
    Data,
    Remote,
    Error,
    Overload,
}

/// Location in the frame where an error occurred.
#[derive(Debug, Clone, Copy, PartialEq, Eq, Structural)]
pub enum ErrorLocation {
    Sof,
    Id,
    Rtr,
    Ide,
    R0,
    Dlc,
    Data,
    Crc,
    CrcDelimiter,
    Ack,
    AckDelimiter,
    Eof,
    InterFrame,
    Other(u8),
}

} // verus!
