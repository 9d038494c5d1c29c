//! J1939: 29-bit identifier encoding/decoding and NAME-based address-claim
//! arbitration.
//!
//! The identifier layout is captured by [`j1939_id`] and the `parse_*`
//! functions; [`lemma_j1939_address_round_trip`] proves decode after encode
//! is the identity for every address with valid field widths. Arbitration
//! is captured by [`contender_wins`]: the numerically lower 8-byte NAME
//! wins, as [`lemma_j1939_lower_name_wins`] states, and `claim_address` is
//! proved to succeed only when no competing claim with a lower NAME arrived.

use crate::bytes::{append_range, be_value, be_value_of, push_u64_be, u64_be};
use crate::error::AutomotiveError;
use crate::network::NetworkLayer;
use crate::physical::PhysicalLayer;
use crate::types::{Address, Config, Frame, FrameView};
use vstd::prelude::*;

verus! {

/// PGN of the address-claimed message.
pub const PGN_ADDRESS_CLAIMED: u32 = 0xEE00;

/// PGN of the request message.
pub const PGN_REQUEST: u32 = 0xEA00;

/// PGN of the cannot-claim message (the address-claimed PGN from the null
/// source address).
pub const PGN_CANNOT_CLAIM: u32 = 0xEE00;

/// How many frames the claim listener examines before it concedes that no
/// timeout will come.
pub const MAX_CLAIM_FRAMES: u32 = 65535;

/// A decoded J1939 message.
#[derive(Debug, Clone)]
pub struct J1939Message {
    /// The decoded addressing fields.
    pub address: Address,
    /// The payload.
    pub data: Vec<u8>,
    /// The receive timestamp carried by the frame.
    pub timestamp: u64,
}

/// J1939 node configuration.
#[derive(Debug, Clone, Copy)]
pub struct J1939Config {
    /// The node's 64-bit NAME, compared big-endian in arbitration.
    pub name: u64,
    /// The address the node claims on open.
    pub preferred_address: u8,
    /// The inclusive range of addresses the node may claim.
    pub address_range: (u8, u8),
}

impl Config for J1939Config {
    /// A configuration is valid when the NAME is non-zero and the preferred
    /// address lies in a well-ordered range.
    fn validate(&self) -> (r: core::result::Result<(), AutomotiveError>)
        ensures
            r is Ok <==> (self.name != 0 && self.address_range.0 <= self.address_range.1
                && self.address_range.0 <= self.preferred_address && self.preferred_address
                <= self.address_range.1),
            r is Err ==> (r matches Err(AutomotiveError::InvalidParameter)),
    {
        if self.name == 0 {
            return Err(AutomotiveError::InvalidParameter);
        }
        if self.address_range.0 > self.address_range.1 {
            return Err(AutomotiveError::InvalidParameter);
        }
        if self.preferred_address < self.address_range.0 || self.preferred_address
            > self.address_range.1 {
            return Err(AutomotiveError::InvalidParameter);
        }
        Ok(())
    }
}

// ---------------------------------------------------------------------------
// The identifier codec.
// ---------------------------------------------------------------------------

/// The 29-bit identifier: priority in bits 26..29, PGN in bits 8..26, source
/// address in bits 0..8.
pub open spec fn j1939_id(priority: u8, pgn: u32, source: u8) -> u32 {
    (((priority as u32) & 7) << 26) | ((pgn & 0x3FFFF) << 8) | (source as u32)
}

/// The priority field of an identifier.
pub open spec fn parse_priority(id: u32) -> u8 {
    ((id >> 26) & 0x7) as u8
}

/// The PGN field of an identifier.
pub open spec fn parse_pgn(id: u32) -> u32 {
    (id >> 8) & 0x3FFFF
}

/// The source address field of an identifier.
pub open spec fn parse_source(id: u32) -> u8 {
    (id & 0xFF) as u8
}

/// The destination an identifier addresses: for a destination-specific PGN
/// (PDU1, PF below 240) the low byte of the PGN, else broadcast.
pub open spec fn parse_destination(id: u32) -> u8 {
    if (parse_pgn(id) >> 8) & 0xFF < 240 {
        (parse_pgn(id) & 0xFF) as u8
    } else {
        0xFF
    }
}

/// The full address an identifier decodes to.
pub open spec fn parse_address(id: u32) -> Address {
    Address {
        priority: parse_priority(id),
        pgn: parse_pgn(id),
        source: parse_source(id),
        destination: parse_destination(id),
    }
}

/// An address has valid field widths, and its destination agrees with its
/// PGN: embedded in the low PGN byte for destination-specific PGNs,
/// broadcast otherwise.
pub open spec fn address_widths_valid(a: Address) -> bool {
    &&& a.priority <= 7
    &&& a.pgn <= 0x3FFFF
    &&& if (a.pgn >> 8) & 0xFF < 240 {
        a.destination == a.pgn & 0xFF
    } else {
        a.destination == 0xFF
    }
}

/// J1939 identifier codec law: decoding an encoded address returns the
/// address, for every address with valid field widths.
pub proof fn lemma_j1939_address_round_trip(a: Address)
    requires
        address_widths_valid(a),
    ensures
        parse_address(j1939_id(a.priority, a.pgn, a.source)) == a,
{
    let p = a.priority;
    let g = a.pgn;
    let s = a.source;
    let id = j1939_id(p, g, s);
    assert(((id >> 26) & 0x7) == (p as u32) && ((id >> 8) & 0x3FFFF) == g && (id & 0xFF) == (
    s as u32) && (g & 0xFF) < 256) by (bit_vector)
        requires
            p <= 7,
            g <= 0x3FFFF,
            id == (((p as u32) & 7) << 26) | ((g & 0x3FFFF) << 8) | (s as u32),
    ;
    assert(parse_priority(id) == p);
    assert(parse_source(id) == s);
}

// ---------------------------------------------------------------------------
// Arbitration.
// ---------------------------------------------------------------------------

/// Whether a competing claim with the given NAME value beats a node that
/// owns `own_name`: strictly lower NAMEs win.
pub open spec fn contender_wins(contender_name: int, own_name: u64) -> bool {
    contender_name < own_name
}

/// J1939 NAME arbitration law: of two claimants, the one with the
/// numerically lower NAME beats the other, and is not beaten by it — so the
/// higher-NAME node loses, and by the contract of `claim_address` the loser
/// never reports success.
pub proof fn lemma_j1939_lower_name_wins(name_a: u64, name_b: u64)
    requires
        name_a < name_b,
    ensures
        contender_wins(name_a as int, name_b),
        !contender_wins(name_b as int, name_a),
{
}

/// The NAME value a claim frame carries: the big-endian value of its first
/// eight payload bytes (of as many as it has, when shorter).
pub open spec fn claim_name(data: Seq<u8>) -> int {
    be_value(data.take(if data.len() < 8 { data.len() as int } else { 8 }))
}

/// A frame that competes for `address`: an extended frame carrying the
/// address-claimed PGN from that source address.
pub open spec fn is_competing_claim(f: FrameView, address: u8) -> bool {
    &&& f.is_extended
    &&& parse_pgn(f.id) == PGN_ADDRESS_CLAIMED
    &&& parse_source(f.id) == address
}

/// The frame this node emits to claim `address`: the address-claimed PGN at
/// priority 6 with the big-endian NAME as payload.
pub open spec fn claim_frame_view(name: u64, address: u8) -> FrameView {
    FrameView {
        id: j1939_id(6, PGN_ADDRESS_CLAIMED, address),
        data: u64_be(name),
        timestamp: 0,
        is_extended: true,
        is_fd: false,
    }
}

// ---------------------------------------------------------------------------
// The adapter.
// ---------------------------------------------------------------------------

/// The J1939 adapter over a physical layer `P`.
pub struct J1939<P: PhysicalLayer> {
    config: J1939Config,
    physical: P,
    current_address: Option<u8>,
    is_open: bool,
    timeout_ms: u32,
}

impl<P: PhysicalLayer> J1939<P> {
    /// The configuration this node runs with.
    pub closed spec fn spec_config(&self) -> J1939Config {
        self.config
    }

    /// Whether the adapter has been opened.
    pub closed spec fn spec_is_open(&self) -> bool {
        self.is_open
    }

    /// The address this node owns, if any.
    pub closed spec fn spec_current_address(&self) -> Option<u8> {
        self.current_address
    }

    /// The receive timeout last set through this layer, in milliseconds
    /// (one second until a caller sets one).
    pub closed spec fn spec_timeout(&self) -> u32 {
        self.timeout_ms
    }

    /// All frames the underlying physical layer has sent.
    pub closed spec fn wire_sent(&self) -> Seq<FrameView> {
        self.physical.frames_sent()
    }

    /// All frames the underlying physical layer has handed up.
    pub closed spec fn wire_rcvd(&self) -> Seq<FrameView> {
        self.physical.frames_rcvd()
    }

    /// Creates a new J1939 node, still closed, over the given physical
    /// layer.
    pub fn with_physical(config: J1939Config, physical: P) -> (r: Self)
        ensures
            r.spec_config() == config,
            !r.spec_is_open(),
            r.spec_current_address() is None,
            r.spec_timeout() == 1000,
            r.wire_sent() == physical.frames_sent(),
            r.wire_rcvd() == physical.frames_rcvd(),
    {
        J1939 { config, physical, current_address: None, is_open: false, timeout_ms: 1000 }
    }

    /// Builds the frame for a message to `address` with the given payload,
    /// using this node's claimed address (or the null address) as source.
    pub fn build_frame(&self, address: &Address, data: &[u8]) -> (f: Frame)
        ensures
            f@.id == j1939_id(
                address.priority,
                address.pgn,
                match self.spec_current_address() {
                    Some(a) => a,
                    None => 0xFF,
                },
            ),
            f@.data == data@,
            f@.timestamp == 0,
            f@.is_extended,
            !f@.is_fd,
    {
        let source = match self.current_address {
            Some(a) => a,
            None => 0xFF,
        };
        let id = (((address.priority as u32) & 7) << 26) | ((address.pgn & 0x3FFFF) << 8) | (
        source as u32);
        let mut payload: Vec<u8> = Vec::new();
        append_range(&mut payload, data, 0, data.len());
        proof {
            assert(payload@ =~= data@);
        }
        Frame { id, data: payload, timestamp: 0, is_extended: true, is_fd: false }
    }

    /// Decodes a received frame; only extended frames carry J1939 messages.
    pub fn parse_frame(&self, frame: &Frame) -> (r: core::result::Result<
        J1939Message,
        AutomotiveError,
    >)
        ensures
            !frame@.is_extended ==> (r matches Err(AutomotiveError::J1939Error(_))),
            frame@.is_extended ==> (r matches Ok(m) && m.address == parse_address(frame@.id)
                && m.data@ == frame@.data && m.timestamp == frame@.timestamp),
    {
        if !frame.is_extended {
            return Err(AutomotiveError::J1939Error("not an extended frame".to_owned()));
        }
        let id = frame.id;
        let priority = ((id >> 26) & 0x7) as u8;
        let pgn = (id >> 8) & 0x3FFFF;
        let source = (id & 0xFF) as u8;
        let pf = (pgn >> 8) & 0xFF;
        let destination = if pf < 240 {
            (pgn & 0xFF) as u8
        } else {
            0xFF
        };
        let mut payload: Vec<u8> = Vec::new();
        append_range(&mut payload, frame.data.as_slice(), 0, frame.data.len());
        proof {
            assert(payload@ =~= frame@.data);
        }
        Ok(
            J1939Message {
                address: Address { priority, pgn, source, destination },
                data: payload,
                timestamp: frame.timestamp,
            },
        )
    }

    /// Emits this node's address claim for `address`.
    fn send_address_claim(&mut self, address: u8) -> (r: core::result::Result<
        (),
        AutomotiveError,
    >)
        ensures
            final(self).spec_config() == old(self).spec_config(),
            final(self).spec_is_open() == old(self).spec_is_open(),
            final(self).spec_current_address() == old(self).spec_current_address(),
            final(self).spec_timeout() == old(self).spec_timeout(),
            final(self).wire_rcvd() == old(self).wire_rcvd(),
            r is Ok ==> final(self).wire_sent() == old(self).wire_sent().push(
                claim_frame_view(old(self).spec_config().name, address),
            ),
            r is Err ==> final(self).wire_sent() == old(self).wire_sent(),
    {
        let mut name_bytes: Vec<u8> = Vec::new();
        push_u64_be(&mut name_bytes, self.config.name);
        let id = ((6u32 & 7) << 26) | ((PGN_ADDRESS_CLAIMED & 0x3FFFF) << 8) | (address as u32);
        let frame = Frame { id, data: name_bytes, timestamp: 0, is_extended: true, is_fd: false };
        proof {
            assert(frame@ == claim_frame_view(self.config.name, address));
        }
        self.physical.send_frame(&frame)
    }

    /// Claims `address`: emits the claim, then listens about 250 ms for a
    /// competing claim on the same address. A contender with a lower NAME
    /// wins the arbitration: this node emits a cannot-claim message and
    /// fails; when the listening window passes without a winning contender,
    /// the address is owned. The receive timeout the caller last set through
    /// this layer is restored afterwards.
    pub fn claim_address(&mut self, address: u8) -> (r: core::result::Result<
        (),
        AutomotiveError,
    >)
        ensures
            final(self).spec_config() == old(self).spec_config(),
            final(self).spec_is_open() == old(self).spec_is_open(),
            !old(self).spec_is_open() ==> (r matches Err(AutomotiveError::NotInitialized)),
            old(self).spec_is_open() && !(old(self).spec_config().address_range.0 <= address
                && address <= old(self).spec_config().address_range.1) ==> (r matches Err(
            AutomotiveError::InvalidParameter)),
            final(self).spec_timeout() == old(self).spec_timeout(),
            r is Ok ==> {
                &&& final(self).spec_current_address() == Some(address)
                &&& final(self).wire_sent() == old(self).wire_sent().push(
                    claim_frame_view(old(self).spec_config().name, address),
                )
                &&& forall|i: int|
                    old(self).wire_rcvd().len() <= i < final(self).wire_rcvd().len()
                        && is_competing_claim(#[trigger] final(self).wire_rcvd()[i], address)
                        ==> !contender_wins(
                        claim_name(final(self).wire_rcvd()[i].data),
                        old(self).spec_config().name,
                    )
            },
            r is Err ==> final(self).spec_current_address() == old(self).spec_current_address(),
    {
        if !self.is_open {
            return Err(AutomotiveError::NotInitialized);
        }
        if address < self.config.address_range.0 || address > self.config.address_range.1 {
            return Err(AutomotiveError::InvalidParameter);
        }

        match self.send_address_claim(address) {
            Ok(()) => (),
            Err(e) => return Err(e),
        }

        // Listen for competing claims within the arbitration window.
        match self.physical.set_timeout(250) {
            Ok(()) => (),
            Err(e) => return Err(e),
        }

        let ghost entry_rcvd = self.physical.frames_rcvd();
        let mut seen: u32 = 0;
        let mut won = false;
        let mut beaten = false;
        while seen < MAX_CLAIM_FRAMES && !won && !beaten
            invariant
                self.config == old(self).config,
                self.is_open == old(self).is_open,
                self.current_address == old(self).current_address,
                self.timeout_ms == old(self).timeout_ms,
                self.physical.frames_sent() == old(self).physical.frames_sent().push(
                    claim_frame_view(old(self).config.name, address),
                ),
                entry_rcvd == old(self).physical.frames_rcvd(),
                entry_rcvd.len() <= self.physical.frames_rcvd().len(),
                !beaten ==> forall|i: int|
                    entry_rcvd.len() <= i < self.physical.frames_rcvd().len()
                        && is_competing_claim(#[trigger] self.physical.frames_rcvd()[i], address)
                        ==> !contender_wins(
                        claim_name(self.physical.frames_rcvd()[i].data),
                        old(self).config.name,
                    ),
            decreases MAX_CLAIM_FRAMES - seen,
        {
            match self.physical.receive_frame() {
                Ok(f) => {
                    if f.is_extended {
                        let pgn = (f.id >> 8) & 0x3FFFF;
                        let source = (f.id & 0xFF) as u8;
                        if pgn == PGN_ADDRESS_CLAIMED && source == address {
                            let upto = if f.data.len() < 8 {
                                f.data.len()
                            } else {
                                8
                            };
                            let contender = be_value_of(f.data.as_slice(), 0, upto);
                            proof {
                                assert(f@.data.subrange(
                                    0,
                                    if f@.data.len() < 8 {
                                        f@.data.len() as int
                                    } else {
                                        8
                                    },
                                ) =~= f@.data.take(
                                    if f@.data.len() < 8 {
                                        f@.data.len() as int
                                    } else {
                                        8
                                    },
                                ));
                            }
                            if contender < self.config.name {
                                beaten = true;
                            }
                        }
                    }
                },
                Err(AutomotiveError::Timeout) => {
                    won = true;
                },
                Err(_) => {
                },
            }
            seen += 1;
        }

        // Restore the receive timeout the caller last set through this
        // layer.
        let restored = self.timeout_ms;
        match self.physical.set_timeout(restored) {
            Ok(()) => (),
            Err(e) => return Err(e),
        }

        if beaten {
            // Emit a best-effort cannot-claim message from the null source
            // address, then report the loss.
            let mut name_bytes: Vec<u8> = Vec::new();
            push_u64_be(&mut name_bytes, self.config.name);
            let id = ((6u32 & 7) << 26) | ((PGN_CANNOT_CLAIM & 0x3FFFF) << 8) | 0xFEu32;
            let frame = Frame {
                id,
                data: name_bytes,
                timestamp: 0,
                is_extended: true,
                is_fd: false,
            };
            let _ignored = self.physical.send_frame(&frame);
            return Err(
                AutomotiveError::J1939Error("address claimed by lower-name contender".to_owned()),
            );
        }
        self.current_address = Some(address);
        Ok(())
    }

    /// Opens the adapter: validates the configuration, opens the physical
    /// layer, and claims the preferred address.
    pub fn open(&mut self) -> (r: core::result::Result<(), AutomotiveError>)
        ensures
            final(self).spec_config() == old(self).spec_config(),
            r is Ok ==> final(self).spec_is_open(),
            r is Ok && !old(self).spec_is_open() ==> final(self).spec_current_address() == Some(
                old(self).spec_config().preferred_address,
            ) && final(self).wire_sent() == old(self).wire_sent().push(
                claim_frame_view(
                    old(self).spec_config().name,
                    old(self).spec_config().preferred_address,
                ),
            ),
    {
        if self.is_open {
            return Ok(());
        }
        match self.config.validate() {
            Ok(()) => (),
            Err(e) => return Err(e),
        }
        match self.physical.open() {
            Ok(()) => (),
            Err(e) => return Err(e),
        }
        self.is_open = true;
        let preferred = self.config.preferred_address;
        match self.claim_address(preferred) {
            Ok(()) => (),
            Err(e) => return Err(e),
        }
        Ok(())
    }

    /// Closes the adapter and releases the claimed address.
    pub fn close(&mut self) -> (r: core::result::Result<(), AutomotiveError>)
        ensures
            final(self).spec_config() == old(self).spec_config(),
            r is Ok ==> !final(self).spec_is_open() && final(self).spec_current_address() is None,
    {
        if self.is_open {
            match self.physical.close() {
                Ok(()) => (),
                Err(e) => return Err(e),
            }
        }
        self.is_open = false;
        self.current_address = None;
        Ok(())
    }

    /// Sends a message: fails until an address is owned; otherwise emits
    /// exactly one frame with the encoded identifier and the payload.
    pub fn send(&mut self, address: &Address, data: &[u8]) -> (r: core::result::Result<
        (),
        AutomotiveError,
    >)
        ensures
            final(self).spec_config() == old(self).spec_config(),
            final(self).spec_is_open() == old(self).spec_is_open(),
            final(self).spec_current_address() == old(self).spec_current_address(),
            final(self).wire_rcvd() == old(self).wire_rcvd(),
            !old(self).spec_is_open() ==> (r matches Err(AutomotiveError::NotInitialized)),
            old(self).spec_is_open() && old(self).spec_current_address() is None ==> (r matches Err(
                AutomotiveError::J1939Error(_),
            )) && final(self).wire_sent() == old(self).wire_sent(),
            r is Ok ==> (old(self).spec_current_address() matches Some(src)
                && final(self).wire_sent() == old(self).wire_sent().push(
                (FrameView {
                    id: j1939_id(address.priority, address.pgn, src),
                    data: data@,
                    timestamp: 0,
                    is_extended: true,
                    is_fd: false,
                }),
            )),
    {
        if !self.is_open {
            return Err(AutomotiveError::NotInitialized);
        }
        if self.current_address.is_none() {
            return Err(AutomotiveError::J1939Error("no address claimed".to_owned()));
        }
        let frame = self.build_frame(address, data);
        self.physical.send_frame(&frame)
    }

    /// Receives and decodes one message.
    pub fn receive(&mut self) -> (r: core::result::Result<J1939Message, AutomotiveError>)
        ensures
            final(self).spec_config() == old(self).spec_config(),
            final(self).spec_is_open() == old(self).spec_is_open(),
            final(self).spec_current_address() == old(self).spec_current_address(),
            final(self).wire_sent() == old(self).wire_sent(),
            !old(self).spec_is_open() ==> (r matches Err(AutomotiveError::NotInitialized)),
            r matches Ok(m) ==> {
                &&& final(self).wire_rcvd().len() == old(self).wire_rcvd().len() + 1
                &&& final(self).wire_rcvd().last().is_extended
                &&& m.address == parse_address(final(self).wire_rcvd().last().id)
                &&& m.data@ == final(self).wire_rcvd().last().data
            },
    {
        if !self.is_open {
            return Err(AutomotiveError::NotInitialized);
        }
        let frame = match self.physical.receive_frame() {
            Ok(f) => f,
            Err(e) => return Err(e),
        };
        self.parse_frame(&frame)
    }

    /// Sets the physical receive timeout.
    pub fn set_timeout(&mut self, timeout_ms: u32) -> (r: core::result::Result<
        (),
        AutomotiveError,
    >)
        ensures
            final(self).spec_config() == old(self).spec_config(),
            final(self).spec_is_open() == old(self).spec_is_open(),
            final(self).spec_current_address() == old(self).spec_current_address(),
            final(self).wire_sent() == old(self).wire_sent(),
            final(self).wire_rcvd() == old(self).wire_rcvd(),
            !old(self).spec_is_open() ==> (r matches Err(AutomotiveError::NotInitialized)),
            r is Ok ==> final(self).spec_timeout() == timeout_ms,
            r is Err ==> final(self).spec_timeout() == old(self).spec_timeout(),
    {
        if !self.is_open {
            return Err(AutomotiveError::NotInitialized);
        }
        match self.physical.set_timeout(timeout_ms) {
            Ok(()) => {
                self.timeout_ms = timeout_ms;
                Ok(())
            },
            Err(e) => Err(e),
        }
    }

    /// The address this node owns, or `J1939Error` when none is claimed.
    pub fn get_address(&self) -> (r: core::result::Result<u8, AutomotiveError>)
        ensures
            self.spec_current_address() matches Some(a) ==> (r matches Ok(b) && a == b),
            self.spec_current_address() is None ==> (r matches Err(AutomotiveError::J1939Error(_))),
    {
        match self.current_address {
            Some(a) => Ok(a),
            None => Err(AutomotiveError::J1939Error("no address claimed".to_owned())),
        }
    }
}

impl<P: PhysicalLayer> NetworkLayer for J1939<P> {
    type Config = J1939Config;

    type Message = J1939Message;

    /// A J1939 node cannot exist without a physical layer; use
    /// `with_physical`.
    fn new(config: J1939Config) -> (r: core::result::Result<Self, AutomotiveError>) {
        Err(AutomotiveError::NotInitialized)
    }

    fn open(&mut self) -> (r: core::result::Result<(), AutomotiveError>) {
        J1939::open(self)
    }

    fn close(&mut self) -> (r: core::result::Result<(), AutomotiveError>) {
        J1939::close(self)
    }

    fn send(&mut self, address: &Address, data: &[u8]) -> (r: core::result::Result<
        (),
        AutomotiveError,
    >) {
        J1939::send(self, address, data)
    }

    fn receive(&mut self) -> (r: core::result::Result<J1939Message, AutomotiveError>) {
        J1939::receive(self)
    }

    fn set_timeout(&mut self, timeout_ms: u32) -> (r: core::result::Result<
        (),
        AutomotiveError,
    >) {
        J1939::set_timeout(self, timeout_ms)
    }

    fn claim_address(&mut self, address: u8) -> (r: core::result::Result<(), AutomotiveError>) {
        J1939::claim_address(self, address)
    }

    fn get_address(&self) -> (r: core::result::Result<u8, AutomotiveError>) {
        J1939::get_address(self)
    }
}

} // verus!
