//! Application layer: the UDS (ISO 14229) and OBD-II service engines.

pub mod obdii;
pub mod uds;

use crate::error::AutomotiveError;
use crate::types::Config;
use vstd::prelude::*;

pub use uds::Uds;

verus! {

/// Application layer trait implemented by the UDS and OBD-II engines.
pub trait ApplicationLayer: Sized {
    type Config: Config;

    type Request;

    type Response;

    fn new(config: Self::Config) -> core::result::Result<Self, AutomotiveError>;

    fn open(&mut self) -> core::result::Result<(), AutomotiveError>;

    fn close(&mut self) -> core::result::Result<(), AutomotiveError>;

    fn send_request(&mut self, request: &Self::Request) -> core::result::Result<
        Self::Response,
        AutomotiveError,
    >;

    fn set_timeout(&mut self, timeout_ms: u32) -> core::result::Result<(), AutomotiveError>;
}

} // verus!
