//! An automotive diagnostic protocol stack, layered after the OSI model:
//! CAN frame types at the bottom, the ISO-TP (ISO 15765-2) transport
//! segmenter/reassembler above them, and the UDS (ISO 14229) and OBD-II
//! service engines on top, beside a J1939 network adapter.
//!
//! Every layer is specified against a mathematical model of the frames it
//! sends and receives, and the protocol rules (frame layout, sequence
//! numbering, flow control, dialog handling, address arbitration) are
//! verified against that model.

use vstd::prelude::*;

pub mod application;
pub mod bytes;
pub mod clock;
pub mod data_link;
pub mod error;
pub mod network;
pub mod physical;
pub mod transport;
pub mod types;

pub use application::{obdii, uds};
pub use network::j1939;
pub use transport::isotp;

verus! {

/// Current version of the library.
pub const VERSION: &'static str = "0.1.0";

} // verus!
