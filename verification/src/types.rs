//! Common types used throughout the automotive protocol stack: the CAN
//! frame, protocol addressing, and the traits that configurations and
//! hardware ports implement.

use crate::error::AutomotiveError;
use vstd::prelude::*;

verus! {

/// CAN identifier type, supporting both standard (11-bit) and extended
/// (29-bit) identifiers.
pub type CanId = u32;

/// Frame data type representing the payload of a CAN frame.
pub type FrameData = Vec<u8>;

/// Timestamp type representing milliseconds since an arbitrary epoch.
pub type Timestamp = u64;

/// Protocol-specific addressing information, primarily used by J1939.
#[derive(Debug, Clone, Copy, PartialEq, Eq, Structural)]
pub struct Address {
    /// Message priority (0-7, with 0 being highest priority).
    pub priority: u8,
    /// Parameter Group Number (PGN) identifying the message type.
    pub pgn: u32,
    /// Source address of the sending node.
    pub source: u8,
    /// Destination address of the target node.
    pub destination: u8,
}

/// Mathematical model of a CAN frame, used by the contracts of every layer.
pub struct FrameView {
    pub id: u32,
    pub data: Seq<u8>,
    pub timestamp: u64,
    pub is_extended: bool,
    pub is_fd: bool,
}

impl FrameView {
    /// The frame invariant: a standard identifier fits in 11 bits, and a
    /// classic CAN payload carries at most 8 bytes.
    pub open spec fn wf(self) -> bool {
        &&& !self.is_extended ==> self.id < 0x800
        &&& !self.is_fd ==> self.data.len() <= 8
    }
}

/// Generic frame structure used across the protocol layers, representing
/// both classic CAN and CAN-FD frames.
#[derive(Debug)]
pub struct Frame {
    /// CAN identifier (11-bit or 29-bit).
    pub id: CanId,
    /// Frame payload data.
    pub data: FrameData,
    /// Timestamp of frame reception/transmission.
    pub timestamp: Timestamp,
    /// Whether the frame uses an extended (29-bit) identifier.
    pub is_extended: bool,
    /// Whether the frame is a CAN-FD frame.
    pub is_fd: bool,
}

impl View for Frame {
    type V = FrameView;

    open spec fn view(&self) -> FrameView {
        FrameView {
            id: self.id,
            data: self.data@,
            timestamp: self.timestamp,
            is_extended: self.is_extended,
            is_fd: self.is_fd,
        }
    }
}

impl Clone for Frame {
    /// A clone carries exactly the same model as the original.
    fn clone(&self) -> (r: Self)
        ensures
            r@ == self@,
    {
        let data = self.data.clone();
        proof {
            assert(data@ =~= self.data@);
        }
        Frame {
            id: self.id,
            data,
            timestamp: self.timestamp,
            is_extended: self.is_extended,
            is_fd: self.is_fd,
        }
    }
}

impl Default for Frame {
    /// An empty standard frame with identifier 0.
    fn default() -> (r: Self)
        ensures
            r@.id == 0,
            r@.data == Seq::<u8>::empty(),
            r@.timestamp == 0,
            !r@.is_extended,
            !r@.is_fd,
    {
        Frame { id: 0, data: Vec::new(), timestamp: 0, is_extended: false, is_fd: false }
    }
}

/// Configuration trait implemented by all protocol configurations: a
/// configuration can be validated before use.
pub trait Config {
    /// Returns `Ok(())` when the configuration parameters are consistent,
    /// and an error otherwise.
    fn validate(&self) -> core::result::Result<(), AutomotiveError>;
}

/// Hardware abstraction trait for raw CAN interfaces, implemented by
/// platform-specific code outside the verified stack.
pub trait Port {
    /// Sends a frame through the CAN interface.
    fn send(&mut self, frame: &Frame) -> core::result::Result<(), AutomotiveError>;

    /// Receives a frame from the CAN interface, blocking until a frame is
    /// received or the configured timeout expires.
    fn receive(&mut self) -> core::result::Result<Frame, AutomotiveError>;

    /// Sets the timeout for receive operations, in milliseconds; 0 means no
    /// timeout.
    fn set_timeout(&mut self, timeout_ms: u32) -> core::result::Result<(), AutomotiveError>;
}

} // verus!
