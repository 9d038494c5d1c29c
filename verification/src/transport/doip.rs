//! DoIP: header and payload framing for diagnostics over IP.
//!
//! The verified part is the codec: the 8-byte header layout, the routing
//! activation and diagnostic message payloads, and their parsers. The TCP
//! plumbing that carries these bytes lives outside the library and calls
//! into this module.

use crate::bytes::{append_range, push_u16_be, push_u32_be, u16_be, u32_be};
use crate::error::AutomotiveError;
use crate::types::Config;
use vstd::prelude::*;
use vstd::string::StringExecFns;

verus! {

/// The DoIP protocol version this stack speaks.
pub const DOIP_PROTOCOL_VERSION: u8 = 0x02;

/// Payload type of a vehicle identification request.
pub const DOIP_VEHICLE_IDENTIFICATION_REQUEST: u16 = 0x0001;

/// Payload type of a vehicle identification response.
pub const DOIP_VEHICLE_IDENTIFICATION_RESPONSE: u16 = 0x0002;

/// Payload type of a routing activation request.
pub const DOIP_ROUTING_ACTIVATION_REQUEST: u16 = 0x0005;

/// Payload type of a routing activation response.
pub const DOIP_ROUTING_ACTIVATION_RESPONSE: u16 = 0x0006;

/// Payload type of a diagnostic message.
pub const DOIP_DIAGNOSTIC_MESSAGE: u16 = 0x8001;

/// Payload type of a positive diagnostic acknowledgement.
pub const DOIP_DIAGNOSTIC_MESSAGE_POSITIVE_ACK: u16 = 0x8002;

/// Payload type of a negative diagnostic acknowledgement.
pub const DOIP_DIAGNOSTIC_MESSAGE_NEGATIVE_ACK: u16 = 0x8003;

/// A DoIP message header.
#[derive(Debug, Clone, Copy, PartialEq, Eq, Structural)]
pub struct DoIPHeader {
    /// Protocol version.
    pub protocol_version: u8,
    /// Bitwise inverse of the protocol version.
    pub inverse_version: u8,
    /// What the payload carries.
    pub payload_type: u16,
    /// How many payload bytes follow the header.
    pub payload_length: u32,
}

/// The eight bytes a header serialises to.
pub open spec fn header_bytes(h: DoIPHeader) -> Seq<u8> {
    seq![h.protocol_version, h.inverse_version] + u16_be(h.payload_type) + u32_be(
        h.payload_length,
    )
}

impl DoIPHeader {
    /// A header of the current protocol version.
    pub fn new(payload_type: u16, payload_length: u32) -> (r: Self)
        ensures
            r.protocol_version == DOIP_PROTOCOL_VERSION,
            r.inverse_version == 0xFD,
            r.payload_type == payload_type,
            r.payload_length == payload_length,
    {
        DoIPHeader {
            protocol_version: DOIP_PROTOCOL_VERSION,
            // The bitwise inverse of the protocol version byte.
            inverse_version: 0xFD,
            payload_type,
            payload_length,
        }
    }

    /// Serialises the header to its eight bytes.
    pub fn to_bytes(&self) -> (v: Vec<u8>)
        ensures
            v@ == header_bytes(*self),
    {
        let mut v: Vec<u8> = Vec::new();
        v.push(self.protocol_version);
        v.push(self.inverse_version);
        push_u16_be(&mut v, self.payload_type);
        push_u32_be(&mut v, self.payload_length);
        proof {
            assert(v@ =~= header_bytes(*self));
        }
        v
    }

    /// Parses a header from at least eight bytes, rejecting any version
    /// pair other than the current protocol version and its inverse.
    pub fn from_bytes(bytes: &[u8]) -> (r: core::result::Result<Self, AutomotiveError>)
        ensures
            bytes@.len() < 8 ==> (r matches Err(AutomotiveError::InvalidData)),
            bytes@.len() >= 8 && !(bytes@[0] == DOIP_PROTOCOL_VERSION && bytes@[1] == 0xFD) ==> (
            r matches Err(AutomotiveError::InvalidData)),
            bytes@.len() >= 8 && bytes@[0] == DOIP_PROTOCOL_VERSION && bytes@[1] == 0xFD ==> (
            r matches Ok(h) && h.protocol_version == bytes@[0] && h.inverse_version == bytes@[1]
                && h.payload_type as int == bytes@[2] * 256 + bytes@[3]
                && h.payload_length as int == ((bytes@[4] * 256 + bytes@[5]) * 256 + bytes@[6])
                * 256 + bytes@[7]),
    {
        if bytes.len() < 8 {
            return Err(AutomotiveError::InvalidData);
        }
        let protocol_version = bytes[0];
        let inverse_version = bytes[1];
        if protocol_version != DOIP_PROTOCOL_VERSION || inverse_version != 0xFD {
            return Err(AutomotiveError::InvalidData);
        }
        let payload_type = (bytes[2] as u16) * 256 + (bytes[3] as u16);
        let payload_length = (((bytes[4] as u32) * 256 + (bytes[5] as u32)) * 256 + (
        bytes[6] as u32)) * 256 + (bytes[7] as u32);
        Ok(DoIPHeader { protocol_version, inverse_version, payload_type, payload_length })
    }
}

/// DoIP header codec law: parsing a serialised header of the current
/// protocol version returns the header.
pub proof fn lemma_doip_header_round_trip(h: DoIPHeader)
    requires
        h.protocol_version == DOIP_PROTOCOL_VERSION,
        h.inverse_version == 0xFD,
    ensures
        ({
            let b = header_bytes(h);
            &&& b.len() == 8
            &&& b[0] == DOIP_PROTOCOL_VERSION
            &&& b[1] == 0xFD
            &&& b[2] * 256 + b[3] == h.payload_type
            &&& ((b[4] * 256 + b[5]) * 256 + b[6]) * 256 + b[7] == h.payload_length
        }),
{
    let b = header_bytes(h);
    let t = h.payload_type;
    let l = h.payload_length;
    assert(b[2] == t / 256 && b[3] == t % 256);
    assert((t / 256) * 256 + t % 256 == t) by {
        vstd::arithmetic::div_mod::lemma_fundamental_div_mod(t as int, 256);
    }
    assert(b[4] == l / 0x1000000 && b[5] == (l / 0x10000) % 256 && b[6] == (l / 256) % 256 && b[7]
        == l % 256);
    assert((((l / 0x1000000) * 256 + (l / 0x10000) % 256) * 256 + (l / 256) % 256) * 256 + l % 256
        == l) by (nonlinear_arith);
}

/// DoIP endpoint configuration.
#[derive(Debug, Clone)]
pub struct DoIPConfig {
    /// Host name or address of the DoIP entity.
    pub host: String,
    /// TCP port of the DoIP entity.
    pub port: u16,
    /// Logical address of the diagnostic target.
    pub target_address: u16,
    /// Logical address of this tester.
    pub source_address: u16,
    /// General receive timeout, in milliseconds.
    pub timeout_ms: u32,
    /// TCP connection timeout, in milliseconds.
    pub tcp_connection_timeout_ms: u32,
    /// Response timeout, in milliseconds.
    pub response_timeout_ms: u32,
}

impl Config for DoIPConfig {
    /// A configuration is valid when the port and both logical addresses
    /// are non-zero.
    fn validate(&self) -> (r: core::result::Result<(), AutomotiveError>)
        ensures
            r is Ok <==> (self.port != 0 && self.target_address != 0 && self.source_address != 0),
            r is Err ==> (r matches Err(AutomotiveError::InvalidParameter)),
    {
        if self.port == 0 {
            return Err(AutomotiveError::InvalidParameter);
        }
        if self.target_address == 0 || self.source_address == 0 {
            return Err(AutomotiveError::InvalidParameter);
        }
        Ok(())
    }
}

impl Default for DoIPConfig {
    fn default() -> (r: Self)
        ensures
            r.port == 13400,
            r.target_address == 0x0E80,
            r.source_address == 0x0E00,
            r.timeout_ms == 5000,
            r.tcp_connection_timeout_ms == 2000,
            r.response_timeout_ms == 5000,
    {
        DoIPConfig {
            host: String::from_str("localhost"),
            port: 13400,
            target_address: 0x0E80,
            source_address: 0x0E00,
            timeout_ms: 5000,
            tcp_connection_timeout_ms: 2000,
            response_timeout_ms: 5000,
        }
    }
}

/// Builds the routing activation request payload: the source address, the
/// default activation type, and four reserved bytes.
pub fn build_routing_activation_payload(source_address: u16) -> (v: Vec<u8>)
    ensures
        v@ == u16_be(source_address) + seq![0u8, 0u8, 0u8, 0u8, 0u8, 0u8],
{
    let mut v: Vec<u8> = Vec::new();
    push_u16_be(&mut v, source_address);
    v.push(0x00);
    v.push(0x00);
    v.push(0x00);
    v.push(0x00);
    v.push(0x00);
    v.push(0x00);
    proof {
        assert(v@ =~= u16_be(source_address) + seq![0u8, 0u8, 0u8, 0u8, 0u8, 0u8]);
    }
    v
}

/// Builds a diagnostic message payload: source and target addresses, then
/// the diagnostic data.
pub fn build_diagnostic_payload(source_address: u16, target_address: u16, data: &[u8]) -> (v: Vec<
    u8,
>)
    ensures
        v@ == u16_be(source_address) + u16_be(target_address) + data@,
{
    let mut v: Vec<u8> = Vec::new();
    push_u16_be(&mut v, source_address);
    push_u16_be(&mut v, target_address);
    append_range(&mut v, data, 0, data.len());
    proof {
        assert(data@.subrange(0, data@.len() as int) =~= data@);
        assert(v@ =~= u16_be(source_address) + u16_be(target_address) + data@);
    }
    v
}

/// Extracts the diagnostic data from a diagnostic message payload: the
/// bytes after the two logical addresses.
pub fn parse_diagnostic_payload(payload: &[u8]) -> (r: core::result::Result<
    Vec<u8>,
    AutomotiveError,
>)
    ensures
        payload@.len() < 4 ==> (r matches Err(AutomotiveError::InvalidData)),
        payload@.len() >= 4 ==> (r matches Ok(v) && v@ == payload@.skip(4)),
{
    if payload.len() < 4 {
        return Err(AutomotiveError::InvalidData);
    }
    let mut v: Vec<u8> = Vec::new();
    append_range(&mut v, payload, 4, payload.len());
    proof {
        assert(v@ =~= payload@.skip(4));
    }
    Ok(v)
}

} // verus!
