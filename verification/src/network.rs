//! Network layer: the J1939 adapter.

pub mod j1939;

use crate::error::AutomotiveError;
use crate::types::{Address, Config};
use vstd::prelude::*;

verus! {

/// Network layer trait implemented by the J1939 adapter.
pub trait NetworkLayer: Sized {
    type Config: Config;

    type Message;

    fn new(config: Self::Config) -> core::result::Result<Self, AutomotiveError>;

    fn open(&mut self) -> core::result::Result<(), AutomotiveError>;

    fn close(&mut self) -> core::result::Result<(), AutomotiveError>;

    fn send(&mut self, address: &Address, data: &[u8]) -> core::result::Result<
        (),
        AutomotiveError,
    >;

    fn receive(&mut self) -> core::result::Result<Self::Message, AutomotiveError>;

    fn set_timeout(&mut self, timeout_ms: u32) -> core::result::Result<(), AutomotiveError>;

    fn claim_address(&mut self, address: u8) -> core::result::Result<(), AutomotiveError>;

    fn get_address(&self) -> core::result::Result<u8, AutomotiveError>;
}

} // verus!
