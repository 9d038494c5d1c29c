//! Transport layer: segmentation and reassembly of messages over frames.
//!
//! The central implementation is ISO-TP (ISO 15765-2) in [`isotp`]; LIN,
//! DoIP framing and the ISOBUS transport protocol sit beside it.

pub mod doip;
pub mod isobus;
pub mod isobus_diagnostic;
pub mod isotp;
pub mod lin;

use crate::error::AutomotiveError;
use crate::types::{Config, Frame};
use vstd::prelude::*;

verus! {

/// Frame-level transport trait: a transport that can pass single frames
/// through to the layer below it.
pub trait TransportLayer: Sized {
    type Config: Config;

    fn new(config: Self::Config) -> core::result::Result<Self, AutomotiveError>;

    fn open(&mut self) -> core::result::Result<(), AutomotiveError>;

    fn close(&mut self) -> core::result::Result<(), AutomotiveError>;

    fn write_frame(&mut self, frame: &Frame) -> core::result::Result<(), AutomotiveError>;

    fn read_frame(&mut self) -> core::result::Result<Frame, AutomotiveError>;

    fn set_timeout(&mut self, timeout_ms: u32) -> core::result::Result<(), AutomotiveError>;
}

/// Message-level transport trait: what the UDS and OBD-II engines are built
/// on. One `send` delivers one whole byte string; one `receive` yields one
/// whole byte string.
///
/// The contracts are stated over two ghost logs of complete messages, so the
/// application layer can be verified without knowing how a message is
/// segmented underneath.
pub trait IsoTpTransport: Sized {
    /// All messages successfully sent so far, in order.
    spec fn msgs_sent(&self) -> Seq<Seq<u8>>;

    /// All messages successfully received so far, in order.
    spec fn msgs_rcvd(&self) -> Seq<Seq<u8>>;

    /// Opens the transport. Exchanges no messages.
    fn open(&mut self) -> (r: core::result::Result<(), AutomotiveError>)
        ensures
            final(self).msgs_sent() == old(self).msgs_sent(),
            final(self).msgs_rcvd() == old(self).msgs_rcvd(),
    ;

    /// Closes the transport. Exchanges no messages.
    fn close(&mut self) -> (r: core::result::Result<(), AutomotiveError>)
        ensures
            final(self).msgs_sent() == old(self).msgs_sent(),
            final(self).msgs_rcvd() == old(self).msgs_rcvd(),
    ;

    /// Sends one message. On success exactly that message was delivered; on
    /// failure no complete message was delivered.
    fn send(&mut self, data: &[u8]) -> (r: core::result::Result<(), AutomotiveError>)
        ensures
            final(self).msgs_rcvd() == old(self).msgs_rcvd(),
            r is Ok ==> final(self).msgs_sent() == old(self).msgs_sent().push(data@),
            r is Err ==> final(self).msgs_sent() == old(self).msgs_sent(),
    ;

    /// Receives one message. On success exactly that message was taken from
    /// the peer; on failure no complete message was taken.
    fn receive(&mut self) -> (r: core::result::Result<Vec<u8>, AutomotiveError>)
        ensures
            final(self).msgs_sent() == old(self).msgs_sent(),
            r matches Ok(m) ==> final(self).msgs_rcvd() == old(self).msgs_rcvd().push(m@),
            r is Err ==> final(self).msgs_rcvd() == old(self).msgs_rcvd(),
    ;

    /// Sets the receive timeout in milliseconds. Exchanges no messages.
    fn set_timeout(&mut self, timeout_ms: u32) -> (r: core::result::Result<(), AutomotiveError>)
        ensures
            final(self).msgs_sent() == old(self).msgs_sent(),
            final(self).msgs_rcvd() == old(self).msgs_rcvd(),
    ;

    /// Pauses for at least the given number of microseconds. Exchanges no
    /// messages.
    fn wait_us(&mut self, micros: u32)
        ensures
            final(self).msgs_sent() == old(self).msgs_sent(),
            final(self).msgs_rcvd() == old(self).msgs_rcvd(),
    ;
}

} // verus!
