//! Physical layer: the verified boundary to frame-level hardware.
//!
//! The [`PhysicalLayer`] trait is the contract between the verified stack and
//! whatever actually moves frames (a CAN controller, a test double). Its
//! contracts are stated over two ghost logs: the sequence of frames sent and
//! the sequence of frames received. Everything the upper layers prove about
//! wire traffic is phrased over these logs.

pub mod can;
pub mod canfd;
pub mod mock_lin;

use crate::error::AutomotiveError;
use crate::types::{Frame, FrameView};
use vstd::prelude::*;

verus! {

/// Frame-level hardware abstraction implemented by CAN interfaces and test
/// doubles.
///
/// An implementation maintains two ghost logs, `frames_sent` and
/// `frames_rcvd`; each exec method states how it extends them. The verified
/// transport layers above are proved against exactly these contracts.
pub trait PhysicalLayer: Sized {
    /// All frames handed to `send_frame` so far, in order.
    spec fn frames_sent(&self) -> Seq<FrameView>;

    /// All frames returned by `receive_frame` so far, in order.
    spec fn frames_rcvd(&self) -> Seq<FrameView>;

    /// Opens the interface.
    fn open(&mut self) -> (r: core::result::Result<(), AutomotiveError>)
        ensures
            final(self).frames_sent() == old(self).frames_sent(),
            final(self).frames_rcvd() == old(self).frames_rcvd(),
    ;

    /// Closes the interface.
    fn close(&mut self) -> (r: core::result::Result<(), AutomotiveError>)
        ensures
            final(self).frames_sent() == old(self).frames_sent(),
            final(self).frames_rcvd() == old(self).frames_rcvd(),
    ;

    /// Transmits one frame. On success the frame is appended to the sent
    /// log; on failure nothing was sent.
    fn send_frame(&mut self, frame: &Frame) -> (r: core::result::Result<(), AutomotiveError>)
        ensures
            final(self).frames_rcvd() == old(self).frames_rcvd(),
            r is Ok ==> final(self).frames_sent() == old(self).frames_sent().push(frame@),
            r is Err ==> final(self).frames_sent() == old(self).frames_sent(),
    ;

    /// Blocks up to the configured timeout for one frame. On success the
    /// frame is appended to the received log; on failure nothing was
    /// received.
    fn receive_frame(&mut self) -> (r: core::result::Result<Frame, AutomotiveError>)
        ensures
            final(self).frames_sent() == old(self).frames_sent(),
            r matches Ok(f) ==> final(self).frames_rcvd() == old(self).frames_rcvd().push(f@),
            r is Err ==> final(self).frames_rcvd() == old(self).frames_rcvd(),
    ;

    /// Sets the receive timeout in milliseconds; 0 means no timeout.
    fn set_timeout(&mut self, timeout_ms: u32) -> (r: core::result::Result<(), AutomotiveError>)
        ensures
            final(self).frames_sent() == old(self).frames_sent(),
            final(self).frames_rcvd() == old(self).frames_rcvd(),
    ;

    /// Pauses for at least the given number of microseconds (used for the
    /// ISO-TP separation time). Exchanges no frames.
    fn wait_us(&mut self, micros: u32)
        ensures
            final(self).frames_sent() == old(self).frames_sent(),
            final(self).frames_rcvd() == old(self).frames_rcvd(),
    ;
}

} // verus!
