//! ISOBUS: the J1939 transport protocol connection management (RTS/CTS,
//! data packets, end-of-message acknowledgement) and the diagnostic
//! protocol riding on it.
//!
//! Sessions are keyed by source address, one per source — the
//! well-formedness every handler preserves. The actual bus hand-off is a
//! stub, as the controller interface lives outside the library.

use crate::clock::now_millis;
use crate::error::AutomotiveError;
use crate::transport::isobus_diagnostic::{DiagnosticTroubleCode, ISOBUSDiagnosticProtocol};
use crate::transport::TransportLayer;
use crate::types::{Config, Frame};
use vstd::prelude::*;

verus! {

/// The ISOBUS protocol version.
pub const ISOBUS_PROTOCOL_VERSION: u8 = 0x03;

/// PGN of the address claim message.
pub const PGN_ADDRESS_CLAIM: u32 = 0xEE00;

/// PGN of the request message.
pub const PGN_REQUEST: u32 = 0xEA00;

/// PGN of transport protocol connection management frames.
pub const PGN_TRANSPORT_PROTOCOL_CONNECTION: u32 = 0xEC00;

/// PGN of transport protocol data frames.
pub const PGN_TRANSPORT_PROTOCOL_DATA: u32 = 0xEB00;

/// PGN of the diagnostic message.
pub const PGN_DIAGNOSTIC_MESSAGE: u32 = 0xFECA;

/// Control byte: request to send.
pub const TP_CM_RTS: u8 = 0x10;

/// Control byte: clear to send.
pub const TP_CM_CTS: u8 = 0x11;

/// Control byte: end of message acknowledgement.
pub const TP_CM_END_OF_MSG_ACK: u8 = 0x13;

/// Control byte: broadcast announce message.
pub const TP_CM_BAM: u8 = 0x20;

/// Control byte: connection abort.
pub const TP_CM_ABORT: u8 = 0xFF;

/// ISOBUS node configuration.
#[derive(Debug, Clone)]
pub struct ISOBUSConfig {
    /// The node's source address.
    pub source_address: u8,
    /// The node's 64-bit NAME.
    pub name: u64,
    /// The address preferred at claim time.
    pub preferred_address: u8,
    /// Function instance of the NAME.
    pub function_instance: u8,
    /// ECU instance of the NAME.
    pub ecu_instance: u8,
    /// Manufacturer code of the NAME.
    pub manufacturer_code: u16,
    /// Identity number of the NAME.
    pub identity_number: u32,
    /// Receive timeout in milliseconds.
    pub timeout_ms: u32,
}

impl Config for ISOBUSConfig {
    /// A configuration is valid when both addresses are below the null
    /// address.
    fn validate(&self) -> (r: core::result::Result<(), AutomotiveError>)
        ensures
            r is Ok <==> (self.source_address <= 0xFE && self.preferred_address <= 0xFE),
            r is Err ==> (r matches Err(AutomotiveError::InvalidParameter)),
    {
        if self.source_address > 0xFE {
            return Err(AutomotiveError::InvalidParameter);
        }
        if self.preferred_address > 0xFE {
            return Err(AutomotiveError::InvalidParameter);
        }
        Ok(())
    }
}

impl Default for ISOBUSConfig {
    fn default() -> (r: Self)
        ensures
            r.source_address == 0x80,
            r.name == 0,
            r.preferred_address == 0x80,
            r.function_instance == 0,
            r.ecu_instance == 0,
            r.manufacturer_code == 0,
            r.identity_number == 0,
            r.timeout_ms == 1000,
    {
        ISOBUSConfig {
            source_address: 0x80,
            name: 0,
            preferred_address: 0x80,
            function_instance: 0,
            ecu_instance: 0,
            manufacturer_code: 0,
            identity_number: 0,
            timeout_ms: 1000,
        }
    }
}

/// Transport protocol session states.
#[derive(Debug, Clone, Copy, PartialEq, Eq, Structural)]
pub enum TPSessionState {
    Idle,
    WaitingForCTS,
    SendingData,
    WaitingForEndOfMsgACK,
    ReceivingData,
}

/// One transport protocol session.
#[derive(Debug)]
pub struct TPSession {
    /// Where the session stands.
    pub state: TPSessionState,
    /// Announced total message size in bytes.
    pub total_size: u16,
    /// Announced number of 7-byte packets.
    pub total_packets: u8,
    /// The packet number expected or sent next.
    pub next_packet: u8,
    /// The bytes gathered or to be sent.
    pub data: Vec<u8>,
    /// Source address of the peer.
    pub source_address: u8,
    /// Destination address.
    pub destination_address: u8,
    /// The PGN the message carries.
    pub pgn: u32,
    /// Clock reading of the last activity.
    pub last_timestamp: u64,
}

/// Mathematical model of a session.
pub struct TPSessionView {
    pub state: TPSessionState,
    pub total_size: u16,
    pub total_packets: u8,
    pub next_packet: u8,
    pub data: Seq<u8>,
    pub source_address: u8,
    pub destination_address: u8,
    pub pgn: u32,
    pub last_timestamp: u64,
}

impl View for TPSession {
    type V = TPSessionView;

    open spec fn view(&self) -> TPSessionView {
        TPSessionView {
            state: self.state,
            total_size: self.total_size,
            total_packets: self.total_packets,
            next_packet: self.next_packet,
            data: self.data@,
            source_address: self.source_address,
            destination_address: self.destination_address,
            pgn: self.pgn,
            last_timestamp: self.last_timestamp,
        }
    }
}

/// No two sessions share a source address.
pub open spec fn sources_unique(s: Seq<TPSessionView>) -> bool {
    forall|i: int, j: int|
        0 <= i < j < s.len() ==> s[i].source_address != s[j].source_address
}

/// The sessions that do not belong to the given source, in order.
pub open spec fn sessions_except(s: Seq<TPSessionView>, src: u8) -> Seq<TPSessionView>
    decreases s.len(),
{
    if s.len() == 0 {
        s
    } else if s[0].source_address == src {
        sessions_except(s.skip(1), src)
    } else {
        seq![s[0]] + sessions_except(s.skip(1), src)
    }
}

/// A freshly opened receiving session parsed from an RTS frame.
pub open spec fn rts_session_ok(v: TPSessionView, src: u8, own: u8, data: Seq<u8>) -> bool {
    &&& v.state is ReceivingData
    &&& v.total_size == data[2] * 256 + data[1]
    &&& v.total_packets == data[3]
    &&& v.next_packet == 1
    &&& v.data.len() == 0
    &&& v.source_address == src
    &&& v.destination_address == own
    &&& v.pgn == data[7] * 0x10000 + data[6] * 256 + data[5]
}

/// The receiving session of the source extended by one data packet: the
/// payload grew by the packet's bytes and the expected packet number
/// advanced, everything else unchanged.
pub open spec fn tp_data_extended(
    pre: Seq<TPSessionView>,
    post: Seq<TPSessionView>,
    src: u8,
    data: Seq<u8>,
    i: int,
    j: int,
) -> bool {
    &&& 0 <= i < post.len()
    &&& 0 <= j < pre.len()
    &&& pre[j].source_address == src
    &&& post[i].source_address == src
    &&& post[i].data == pre[j].data + data.skip(1)
    &&& post[i].next_packet == pre[j].next_packet + 1
    &&& post[i].total_packets == pre[j].total_packets
    &&& post[i].total_size == pre[j].total_size
    &&& post[i].pgn == pre[j].pgn
    &&& post[i].state == pre[j].state
}

/// Some session of the source advanced to sending, as a CTS frame directs.
pub open spec fn cts_advanced(
    pre: Seq<TPSessionView>,
    post: Seq<TPSessionView>,
    src: u8,
    data: Seq<u8>,
    i: int,
    j: int,
) -> bool {
    &&& 0 <= i < post.len()
    &&& 0 <= j < pre.len()
    &&& pre[j].source_address == src
    &&& cts_session_ok(post[i], pre[j], data)
}

/// A sending session parsed from a CTS frame, advancing a previous session.
pub open spec fn cts_session_ok(v: TPSessionView, prev: TPSessionView, data: Seq<u8>) -> bool {
    &&& v.state is SendingData
    &&& v.next_packet == data[2]
    &&& v.total_size == prev.total_size
    &&& v.total_packets == prev.total_packets
    &&& v.data == prev.data
    &&& v.source_address == prev.source_address
    &&& v.destination_address == prev.destination_address
    &&& v.pgn == prev.pgn
}

/// The ISOBUS node: session table and diagnostic protocol.
pub struct ISOBUS {
    config: ISOBUSConfig,
    is_open: bool,
    address_claimed: bool,
    tp_sessions: Vec<TPSession>,
    rx_buffer: Vec<u8>,
    diagnostic_protocol: ISOBUSDiagnosticProtocol,
}

impl ISOBUS {
    /// The configuration this node runs with.
    pub closed spec fn spec_config(&self) -> ISOBUSConfig {
        self.config
    }

    /// Whether the node has been opened.
    pub closed spec fn spec_is_open(&self) -> bool {
        self.is_open
    }

    /// Whether the node holds its address.
    pub closed spec fn spec_address_claimed(&self) -> bool {
        self.address_claimed
    }

    /// The open transport protocol sessions, in insertion order.
    pub closed spec fn sessions(&self) -> Seq<TPSessionView> {
        self.tp_sessions@.map_values(|s: TPSession| s@)
    }

    /// The active trouble codes of the diagnostic protocol.
    pub closed spec fn active_dtcs(&self) -> Seq<DiagnosticTroubleCode> {
        self.diagnostic_protocol.active()
    }

    /// The previously active trouble codes of the diagnostic protocol.
    pub closed spec fn inactive_dtcs(&self) -> Seq<DiagnosticTroubleCode> {
        self.diagnostic_protocol.inactive()
    }

    /// Well-formedness: one session per source, one trouble code per fault.
    pub closed spec fn wf(&self) -> bool {
        &&& sources_unique(self.sessions())
        &&& self.diagnostic_protocol.wf()
    }

    /// Looks for the session of a source and returns its index.
    fn find_session(&self, src: u8) -> (r: Option<usize>)
        ensures
            match r {
                Some(i) => i < self.sessions().len() && self.sessions()[i as int].source_address
                    == src,
                None => forall|i: int|
                    0 <= i < self.sessions().len() ==> self.sessions()[i].source_address != src,
            },
    {
        let mut i: usize = 0;
        while i < self.tp_sessions.len()
            invariant
                i <= self.sessions().len(),
                forall|j: int| 0 <= j < i ==> self.sessions()[j].source_address != src,
            decreases self.sessions().len() - i,
        {
            if self.tp_sessions[i].source_address == src {
                return Some(i);
            }
            i += 1;
        }
        None
    }

    /// Removes the session of a source, if one is open.
    fn remove_session(&mut self, src: u8)
        requires
            old(self).wf(),
        ensures
            final(self).wf(),
            final(self).spec_config() == old(self).spec_config(),
            final(self).spec_is_open() == old(self).spec_is_open(),
            final(self).spec_address_claimed() == old(self).spec_address_claimed(),
            final(self).active_dtcs() == old(self).active_dtcs(),
            final(self).inactive_dtcs() == old(self).inactive_dtcs(),
            final(self).sessions() == sessions_except(old(self).sessions(), src),
    {
        match self.find_session(src) {
            Some(i) => {
                let _removed = self.tp_sessions.remove(i);
                proof {
                    let so = old(self).sessions();
                    let s = self.sessions();
                    assert(s =~= so.remove(i as int));
                    lemma_sessions_except_unique_remove(so, src, i as int);
                    assert(s =~= sessions_except(so, src));
                }
            },
            None => {
                proof {
                    lemma_sessions_except_absent(old(self).sessions(), src);
                    assert(self.sessions() =~= sessions_except(old(self).sessions(), src));
                }
            },
        }
    }

    /// Handles a transport protocol connection management frame: RTS opens
    /// a receiving session (replacing any session of the same source) and
    /// would answer CTS; CTS advances the source's session to sending; an
    /// end-of-message acknowledgement or an abort closes it. Sessions of
    /// other sources are never touched.
    pub fn handle_tp_connection(&mut self, source_address: u8, data: &[u8]) -> (r:
        core::result::Result<(), AutomotiveError>)
        requires
            old(self).wf(),
        ensures
            final(self).wf(),
            final(self).spec_config() == old(self).spec_config(),
            final(self).spec_is_open() == old(self).spec_is_open(),
            final(self).active_dtcs() == old(self).active_dtcs(),
            final(self).inactive_dtcs() == old(self).inactive_dtcs(),
            r is Ok,
            sessions_except(final(self).sessions(), source_address) == sessions_except(
                old(self).sessions(),
                source_address,
            ),
            data@.len() >= 8 && data@[0] == TP_CM_RTS ==> exists|i: int|
                0 <= i < final(self).sessions().len() && rts_session_ok(
                    #[trigger] final(self).sessions()[i],
                    source_address,
                    old(self).spec_config().source_address,
                    data@,
                ),
            data@.len() >= 1 && (data@[0] == TP_CM_END_OF_MSG_ACK || data@[0] == TP_CM_ABORT)
                ==> final(self).sessions() == sessions_except(
                old(self).sessions(),
                source_address,
            ),
            data@.len() >= 3 && data@[0] == TP_CM_CTS && (exists|j: int|
                0 <= j < old(self).sessions().len() && (#[trigger] old(
                    self,
                ).sessions()[j]).source_address == source_address) ==> exists|i: int, j: int|
                #[trigger] cts_advanced(
                    old(self).sessions(),
                    final(self).sessions(),
                    source_address,
                    data@,
                    i,
                    j,
                ),
    {
        if data.len() < 1 {
            proof {
                assert(self.sessions() =~= old(self).sessions());
            }
            return Ok(());
        }
        let control_byte = data[0];
        if control_byte == TP_CM_RTS {
            if data.len() < 8 {
                proof {
                    assert(self.sessions() =~= old(self).sessions());
                }
                return Ok(());
            }
            let size: u16 = (data[2] as u16) * 256 + (data[1] as u16);
            let total_packets = data[3];
            let pgn: u32 = (data[7] as u32) * 0x10000 + (data[6] as u32) * 256 + (data[5] as u32);
            let session = TPSession {
                state: TPSessionState::ReceivingData,
                total_size: size,
                total_packets,
                next_packet: 1,
                data: Vec::new(),
                source_address,
                destination_address: self.config.source_address,
                pgn,
                last_timestamp: now_millis(),
            };
            self.remove_session(source_address);
            let ghost mid = self.sessions();
            self.tp_sessions.push(session);
            proof {
                let s = self.sessions();
                assert(s =~= mid.push(session@));
                lemma_sessions_except_push_same(mid, session@, source_address);
                lemma_sessions_except_idempotent(old(self).sessions(), source_address);
                lemma_sessions_except_no_src(old(self).sessions(), source_address);
                assert(rts_session_ok(s[s.len() - 1], source_address, self.config.source_address,
                    data@));
                assert forall|a: int, b: int|
                    0 <= a < b < s.len() implies s[a].source_address != s[b].source_address by {
                    if b == s.len() - 1 {
                        assert(s[a] == mid[a]);
                        assert(mid[a].source_address != source_address);
                    } else {
                        assert(s[a] == mid[a] && s[b] == mid[b]);
                    }
                }
            }
            // Answering with a clear-to-send frame is left to the
            // controller interface beneath this stub.
            Ok(())
        } else if control_byte == TP_CM_CTS {
            if data.len() < 3 {
                proof {
                    assert(self.sessions() =~= old(self).sessions());
                }
                return Ok(());
            }
            match self.find_session(source_address) {
                Some(i) => {
                    let next = data[2];
                    let ghost prev = self.sessions()[i as int];
                    let mut updated = self.tp_sessions.remove(i);
                    updated.state = TPSessionState::SendingData;
                    updated.next_packet = next;
                    let ghost adv = updated@;
                    let ghost mid = self.sessions();
                    self.tp_sessions.push(updated);
                    proof {
                        let so = old(self).sessions();
                        let s = self.sessions();
                        assert(cts_session_ok(adv, prev, data@));
                        assert(s[s.len() - 1] == adv);
                        assert(cts_advanced(so, s, source_address, data@, s.len() - 1, i as int));
                        assert(mid =~= so.remove(i as int));
                        assert(s =~= mid.push(updated@));
                        assert(updated@.source_address == source_address);
                        lemma_sessions_except_unique_remove(so, source_address, i as int);
                        lemma_sessions_except_push_same(mid, updated@, source_address);
                        lemma_sessions_except_no_src(so, source_address);
                        lemma_sessions_except_idempotent(so, source_address);
                        assert forall|a: int, b: int|
                            0 <= a < b < mid.len() implies mid[a].source_address
                            != mid[b].source_address by {
                            assert(mid[a] == if a < i as int { so[a] } else { so[a + 1] });
                            assert(mid[b] == if b < i as int { so[b] } else { so[b + 1] });
                        }
                        assert forall|a: int|
                            0 <= a < mid.len() implies mid[a].source_address
                            != source_address by {
                            assert(mid[a] == sessions_except(so, source_address)[a]);
                        }
                        assert forall|a: int, b: int|
                            0 <= a < b < s.len() implies s[a].source_address
                            != s[b].source_address by {
                            if b == s.len() - 1 {
                                assert(s[a] == mid[a]);
                            } else {
                                assert(s[a] == mid[a] && s[b] == mid[b]);
                            }
                        }
                    }
                    Ok(())
                },
                None => {
                    proof {
                        assert(self.sessions() =~= old(self).sessions());
                    }
                    Ok(())
                },
            }
        } else if control_byte == TP_CM_END_OF_MSG_ACK || control_byte == TP_CM_ABORT {
            self.remove_session(source_address);
            proof {
                lemma_sessions_except_idempotent(old(self).sessions(), source_address);
            }
            Ok(())
        } else {
            proof {
                assert(self.sessions() =~= old(self).sessions());
            }
            Ok(())
        }
    }

    /// Handles a transport protocol data frame: a packet carrying the
    /// expected sequence number extends the source's receiving session and
    /// advances it; the last packet closes the session (the end-of-message
    /// acknowledgement being left to the controller interface). Anything
    /// else leaves the table unchanged. Sessions of other sources are never
    /// touched.
    pub fn handle_tp_data(&mut self, source_address: u8, data: &[u8]) -> (r: core::result::Result<
        (),
        AutomotiveError,
    >)
        requires
            old(self).wf(),
        ensures
            final(self).wf(),
            final(self).spec_config() == old(self).spec_config(),
            final(self).spec_is_open() == old(self).spec_is_open(),
            final(self).active_dtcs() == old(self).active_dtcs(),
            final(self).inactive_dtcs() == old(self).inactive_dtcs(),
            r is Ok,
            sessions_except(final(self).sessions(), source_address) == sessions_except(
                old(self).sessions(),
                source_address,
            ),
            data@.len() >= 1 ==> forall|j: int|
                (0 <= j < old(self).sessions().len() && (#[trigger] old(
                    self,
                ).sessions()[j]).source_address == source_address && old(
                    self,
                ).sessions()[j].next_packet == data@[0] && old(self).sessions()[j].next_packet + 1
                    <= old(self).sessions()[j].total_packets) ==> exists|i: int|
                    tp_data_extended(
                        old(self).sessions(),
                        final(self).sessions(),
                        source_address,
                        data@,
                        i,
                        j,
                    ),
            data@.len() >= 1 ==> forall|j: int|
                (0 <= j < old(self).sessions().len() && (#[trigger] old(
                    self,
                ).sessions()[j]).source_address == source_address && old(
                    self,
                ).sessions()[j].next_packet == data@[0] && old(self).sessions()[j].next_packet + 1
                    > old(self).sessions()[j].total_packets) ==> final(self).sessions()
                    == sessions_except(old(self).sessions(), source_address),
    {
        if data.len() < 1 {
            proof {
                assert(self.sessions() =~= old(self).sessions());
            }
            return Ok(());
        }
        let sequence = data[0];
        match self.find_session(source_address) {
            Some(i) => {
                if self.tp_sessions[i].next_packet == sequence {
                    let ghost so = old(self).sessions();
                    let ghost prev = self.sessions()[i as int];
                    proof {
                        assert forall|j: int|
                            0 <= j < so.len() && so[j].source_address == source_address implies j
                            == i as int by {
                            if j < i as int {
                                assert(so[j].source_address != so[i as int].source_address);
                            } else if j > i as int {
                                assert(so[i as int].source_address != so[j].source_address);
                            }
                        }
                    }
                    let mut session = self.tp_sessions.remove(i);
                    let ghost mid = self.sessions();
                    crate::bytes::append_range(&mut session.data, data, 1, data.len());
                    session.last_timestamp = now_millis();
                    proof {
                        assert(mid =~= so.remove(i as int));
                        assert(session@.source_address == source_address);
                        lemma_sessions_except_unique_remove(so, source_address, i as int);
                        lemma_sessions_except_no_src(so, source_address);
                        lemma_sessions_except_idempotent(so, source_address);
                        assert forall|a: int, b: int|
                            0 <= a < b < mid.len() implies mid[a].source_address
                            != mid[b].source_address by {
                            assert(mid[a] == if a < i as int { so[a] } else { so[a + 1] });
                            assert(mid[b] == if b < i as int { so[b] } else { so[b + 1] });
                        }
                        assert forall|a: int|
                            0 <= a < mid.len() implies mid[a].source_address
                            != source_address by {
                            assert(mid[a] == sessions_except(so, source_address)[a]);
                        }
                    }
                    if session.next_packet as u16 + 1 > session.total_packets as u16 {
                        // Message complete: the acknowledgement frame is
                        // left to the controller interface.
                        proof {
                            assert(self.sessions() =~= mid);
                            lemma_sessions_except_absent(mid, source_address);
                        }
                        Ok(())
                    } else {
                        session.next_packet = session.next_packet + 1;
                        let ghost grown = session@;
                        self.tp_sessions.push(session);
                        proof {
                            let s = self.sessions();
                            assert(s =~= mid.push(self.tp_sessions@.last()@));
                            lemma_sessions_except_push_same(
                                mid,
                                self.tp_sessions@.last()@,
                                source_address,
                            );
                            assert(grown.data =~= prev.data + data@.skip(1));
                            assert(s[s.len() - 1] == grown);
                            assert(tp_data_extended(
                                so,
                                s,
                                source_address,
                                data@,
                                s.len() - 1,
                                i as int,
                            ));
                            assert forall|a: int, b: int|
                                0 <= a < b < s.len() implies s[a].source_address
                                != s[b].source_address by {
                                if b == s.len() - 1 {
                                    assert(s[a] == mid[a]);
                                } else {
                                    assert(s[a] == mid[a] && s[b] == mid[b]);
                                }
                            }
                        }
                        Ok(())
                    }
                } else {
                    proof {
                        assert(self.sessions() =~= old(self).sessions());
                    }
                    Ok(())
                }
            },
            None => {
                proof {
                    assert(self.sessions() =~= old(self).sessions());
                }
                Ok(())
            },
        }
    }

    /// Dispatches a transport protocol frame by its PGN.
    pub fn handle_transport_protocol(&mut self, frame: &Frame) -> (r: core::result::Result<
        (),
        AutomotiveError,
    >)
        requires
            old(self).wf(),
        ensures
            final(self).wf(),
            final(self).spec_config() == old(self).spec_config(),
            final(self).spec_is_open() == old(self).spec_is_open(),
            final(self).active_dtcs() == old(self).active_dtcs(),
            final(self).inactive_dtcs() == old(self).inactive_dtcs(),
            r is Ok,
    {
        let source_address = (frame.id & 0xFF) as u8;
        let pgn = (frame.id >> 8) & 0x3FFFF;
        if pgn == PGN_TRANSPORT_PROTOCOL_CONNECTION {
            self.handle_tp_connection(source_address, frame.data.as_slice())
        } else if pgn == PGN_TRANSPORT_PROTOCOL_DATA {
            self.handle_tp_data(source_address, frame.data.as_slice())
        } else {
            Ok(())
        }
    }

    /// Applies one incoming diagnostic message to the diagnostic protocol.
    pub fn handle_diagnostic_message(&mut self, frame: &Frame) -> (r: core::result::Result<
        (),
        AutomotiveError,
    >)
        requires
            old(self).wf(),
        ensures
            final(self).wf(),
            final(self).spec_config() == old(self).spec_config(),
            final(self).spec_is_open() == old(self).spec_is_open(),
            final(self).sessions() == old(self).sessions(),
            r is Ok,
    {
        match self.diagnostic_protocol.process_message(frame) {
            Ok(_) => Ok(()),
            Err(e) => Err(e),
        }
    }

    /// Advances the diagnostic protocol clock; the DM1 frame a due
    /// broadcast produces is left to the controller interface.
    pub fn update_diagnostic_protocol(&mut self) -> (r: core::result::Result<
        (),
        AutomotiveError,
    >)
        requires
            old(self).wf(),
        ensures
            final(self).wf(),
            final(self).spec_config() == old(self).spec_config(),
            final(self).spec_is_open() == old(self).spec_is_open(),
            final(self).sessions() == old(self).sessions(),
            final(self).active_dtcs() == old(self).active_dtcs(),
            final(self).inactive_dtcs() == old(self).inactive_dtcs(),
            r is Ok,
    {
        match self.diagnostic_protocol.update() {
            Ok(_) => Ok(()),
            Err(e) => Err(e),
        }
    }

    /// Records a trouble code with the diagnostic protocol.
    pub fn add_dtc(&mut self, dtc: DiagnosticTroubleCode)
        requires
            old(self).wf(),
        ensures
            final(self).wf(),
            final(self).spec_config() == old(self).spec_config(),
            final(self).spec_is_open() == old(self).spec_is_open(),
            final(self).sessions() == old(self).sessions(),
            dtc.active ==> final(self).inactive_dtcs() == old(self).inactive_dtcs(),
    {
        self.diagnostic_protocol.add_dtc(dtc);
    }

    /// Clears all trouble codes, active and previously active.
    pub fn clear_dtcs(&mut self)
        requires
            old(self).wf(),
        ensures
            final(self).wf(),
            final(self).spec_config() == old(self).spec_config(),
            final(self).spec_is_open() == old(self).spec_is_open(),
            final(self).sessions() == old(self).sessions(),
            final(self).active_dtcs() == Seq::<DiagnosticTroubleCode>::empty(),
            final(self).inactive_dtcs() == Seq::<DiagnosticTroubleCode>::empty(),
    {
        self.diagnostic_protocol.clear_active_dtcs();
        self.diagnostic_protocol.clear_inactive_dtcs();
    }

    /// Returns a copy of the active trouble codes.
    pub fn get_active_dtcs(&self) -> (v: Vec<DiagnosticTroubleCode>)
        ensures
            v@ == self.active_dtcs(),
    {
        self.diagnostic_protocol.get_active_dtcs()
    }

    /// Returns a copy of the previously active trouble codes.
    pub fn get_inactive_dtcs(&self) -> (v: Vec<DiagnosticTroubleCode>)
        ensures
            v@ == self.inactive_dtcs(),
    {
        self.diagnostic_protocol.get_inactive_dtcs()
    }

    /// Claims the configured source address. The claim frame itself is
    /// left to the controller interface beneath this stub; the node then
    /// holds the address.
    fn claim_address(&mut self) -> (r: core::result::Result<(), AutomotiveError>)
        ensures
            final(self).spec_config() == old(self).spec_config(),
            final(self).spec_is_open() == old(self).spec_is_open(),
            final(self).sessions() == old(self).sessions(),
            final(self).active_dtcs() == old(self).active_dtcs(),
            final(self).inactive_dtcs() == old(self).inactive_dtcs(),
            r is Ok ==> final(self).spec_address_claimed(),
    {
        self.address_claimed = true;
        Ok(())
    }

    /// Replaces any session of the given source with the new session.
    fn upsert_session(&mut self, session: TPSession)
        ensures
            final(self).spec_config() == old(self).spec_config(),
            final(self).spec_is_open() == old(self).spec_is_open(),
            final(self).spec_address_claimed() == old(self).spec_address_claimed(),
            final(self).active_dtcs() == old(self).active_dtcs(),
            final(self).inactive_dtcs() == old(self).inactive_dtcs(),
            final(self).sessions() == sessions_except(
                old(self).sessions(),
                session.source_address,
            ).push(session@),
    {
        let src = session.source_address;
        let mut kept: Vec<TPSession> = Vec::new();
        proof {
            assert(self.sessions().skip(0) =~= self.sessions());
        }
        let mut i: usize = 0;
        while i < self.tp_sessions.len()
            invariant
                i <= self.tp_sessions@.len(),
                self.tp_sessions@ == old(self).tp_sessions@,
                src == session.source_address,
                kept@.map_values(|s: TPSession| s@) + sessions_except(
                    self.sessions().skip(i as int),
                    src,
                ) == sessions_except(old(self).sessions(), src),
            decreases self.tp_sessions@.len() - i,
        {
            let ghost pre = self.sessions().skip(i as int);
            let keep = self.tp_sessions[i].source_address != src;
            proof {
                assert(pre[0] == self.sessions()[i as int]);
                assert(pre.skip(1) =~= self.sessions().skip(i as int + 1));
            }
            if keep {
                let s = self.tp_sessions[i].clone_session();
                kept.push(s);
                proof {
                    assert(sessions_except(pre, src) == seq![pre[0]] + sessions_except(
                        pre.skip(1),
                        src,
                    ));
                    assert(kept@.map_values(|s: TPSession| s@) + sessions_except(
                        self.sessions().skip(i as int + 1),
                        src,
                    ) =~= sessions_except(old(self).sessions(), src));
                }
            } else {
                proof {
                    assert(sessions_except(pre, src) == sessions_except(pre.skip(1), src));
                    assert(kept@.map_values(|s: TPSession| s@) + sessions_except(
                        self.sessions().skip(i as int + 1),
                        src,
                    ) =~= sessions_except(old(self).sessions(), src));
                }
            }
            i += 1;
        }
        proof {
            assert(self.sessions().skip(self.tp_sessions@.len() as int)
                =~= Seq::<TPSessionView>::empty());
        }
        kept.push(session);
        self.tp_sessions = kept;
        proof {
            assert(self.sessions() =~= sessions_except(old(self).sessions(), src).push(
                self.tp_sessions@.last()@,
            ));
        }
    }
}

impl TPSession {
    /// A field-for-field copy of the session.
    fn clone_session(&self) -> (r: Self)
        ensures
            r@ == self@,
    {
        let mut data: Vec<u8> = Vec::new();
        crate::bytes::append_range(&mut data, self.data.as_slice(), 0, self.data.len());
        proof {
            assert(data@ =~= self@.data);
        }
        TPSession {
            state: self.state,
            total_size: self.total_size,
            total_packets: self.total_packets,
            next_packet: self.next_packet,
            data,
            source_address: self.source_address,
            destination_address: self.destination_address,
            pgn: self.pgn,
            last_timestamp: self.last_timestamp,
        }
    }
}

proof fn lemma_sessions_except_absent(s: Seq<TPSessionView>, src: u8)
    requires
        forall|i: int| 0 <= i < s.len() ==> s[i].source_address != src,
    ensures
        sessions_except(s, src) == s,
    decreases s.len(),
{
    if s.len() > 0 {
        lemma_sessions_except_absent(s.skip(1), src);
        assert(seq![s[0]] + s.skip(1) =~= s);
    }
}

proof fn lemma_sessions_except_no_src(s: Seq<TPSessionView>, src: u8)
    ensures
        forall|i: int|
            0 <= i < sessions_except(s, src).len() ==> #[trigger] sessions_except(
                s,
                src,
            )[i].source_address != src,
    decreases s.len(),
{
    if s.len() > 0 {
        lemma_sessions_except_no_src(s.skip(1), src);
        if s[0].source_address != src {
            assert forall|i: int|
                0 <= i < sessions_except(s, src).len() implies #[trigger] sessions_except(
                s,
                src,
            )[i].source_address != src by {
                if i > 0 {
                    assert(sessions_except(s, src)[i] == sessions_except(s.skip(1), src)[i - 1]);
                }
            }
        }
    }
}

/// Removing the unique session of a source is exactly `sessions_except`.
proof fn lemma_sessions_except_unique_remove(s: Seq<TPSessionView>, src: u8, i: int)
    requires
        sources_unique(s),
        0 <= i < s.len(),
        s[i].source_address == src,
    ensures
        sessions_except(s, src) == s.remove(i),
    decreases s.len(),
{
    if i == 0 {
        assert forall|j: int| 0 <= j < s.skip(1).len() implies #[trigger] s.skip(
            1,
        )[j].source_address != src by {
            assert(s.skip(1)[j] == s[j + 1]);
        }
        lemma_sessions_except_absent(s.skip(1), src);
        assert(s.remove(0) =~= s.skip(1));
    } else {
        assert(s[0].source_address != src);
        assert forall|a: int, b: int|
            0 <= a < b < s.skip(1).len() implies s.skip(1)[a].source_address != s.skip(
            1,
        )[b].source_address by {
            assert(s.skip(1)[a] == s[a + 1] && s.skip(1)[b] == s[b + 1]);
        }
        assert(s.skip(1)[i - 1] == s[i]);
        lemma_sessions_except_unique_remove(s.skip(1), src, i - 1);
        assert(seq![s[0]] + s.skip(1).remove(i - 1) =~= s.remove(i));
    }
}

/// Appending a session of the source leaves the other sessions alone.
proof fn lemma_sessions_except_push_same(s: Seq<TPSessionView>, v: TPSessionView, src: u8)
    requires
        v.source_address == src,
    ensures
        sessions_except(s.push(v), src) == sessions_except(s, src),
    decreases s.len(),
{
    let p = s.push(v);
    if s.len() == 0 {
        assert(p[0] == v);
        assert(p.skip(1) =~= Seq::<TPSessionView>::empty());
        assert(p[0].source_address == src);
        assert(sessions_except(p, src) == sessions_except(p.skip(1), src));
        assert(sessions_except(Seq::<TPSessionView>::empty(), src)
            == Seq::<TPSessionView>::empty());
    } else {
        assert(p[0] == s[0]);
        assert(p.skip(1) =~= s.skip(1).push(v));
        lemma_sessions_except_push_same(s.skip(1), v, src);
        if s[0].source_address == src {
            assert(sessions_except(p, src) == sessions_except(p.skip(1), src));
            assert(sessions_except(s, src) == sessions_except(s.skip(1), src));
        } else {
            assert(sessions_except(p, src) == seq![p[0]] + sessions_except(p.skip(1), src));
            assert(sessions_except(s, src) == seq![s[0]] + sessions_except(s.skip(1), src));
        }
    }
}

/// Filtering preserves the uniqueness of sources.
proof fn lemma_sessions_except_unique(s: Seq<TPSessionView>, src: u8)
    requires
        sources_unique(s),
    ensures
        sources_unique(sessions_except(s, src)),
    decreases s.len(),
{
    if s.len() > 0 {
        assert forall|a: int, b: int| 0 <= a < b < s.skip(1).len() implies s.skip(
            1,
        )[a].source_address != s.skip(1)[b].source_address by {
            assert(s.skip(1)[a] == s[a + 1] && s.skip(1)[b] == s[b + 1]);
        }
        lemma_sessions_except_unique(s.skip(1), src);
        if s[0].source_address != src {
            assert forall|i: int| 0 <= i < s.skip(1).len() implies s.skip(1)[i].source_address
                != s[0].source_address by {
                assert(s.skip(1)[i] == s[i + 1]);
            }
            lemma_sessions_except_keeps_absence(s.skip(1), src, s[0].source_address);
            let r = sessions_except(s, src);
            let rt = sessions_except(s.skip(1), src);
            assert forall|a: int, b: int| 0 <= a < b < r.len() implies r[a].source_address
                != r[b].source_address by {
                assert(r[b] == rt[b - 1]);
                if a == 0 {
                    assert(r[a] == s[0]);
                } else {
                    assert(r[a] == rt[a - 1]);
                }
            }
        }
    }
}

/// A source absent before filtering stays absent after it.
proof fn lemma_sessions_except_keeps_absence(s: Seq<TPSessionView>, src: u8, other: u8)
    requires
        forall|i: int| 0 <= i < s.len() ==> s[i].source_address != other,
    ensures
        forall|i: int|
            0 <= i < sessions_except(s, src).len() ==> (#[trigger] sessions_except(
                s,
                src,
            )[i]).source_address != other,
    decreases s.len(),
{
    if s.len() > 0 {
        assert forall|i: int| 0 <= i < s.skip(1).len() implies s.skip(1)[i].source_address
            != other by {
            assert(s.skip(1)[i] == s[i + 1]);
        }
        lemma_sessions_except_keeps_absence(s.skip(1), src, other);
        if s[0].source_address != src {
            assert forall|i: int| 0 <= i < sessions_except(s, src).len() implies (
            #[trigger] sessions_except(s, src)[i]).source_address != other by {
                if i > 0 {
                    assert(sessions_except(s, src)[i] == sessions_except(s.skip(1), src)[i - 1]);
                }
            }
        }
    }
}

/// Filtering a source out twice filters it once.
proof fn lemma_sessions_except_idempotent(s: Seq<TPSessionView>, src: u8)
    ensures
        sessions_except(sessions_except(s, src), src) == sessions_except(s, src),
    decreases s.len(),
{
    lemma_sessions_except_no_src(s, src);
    lemma_sessions_except_absent(sessions_except(s, src), src);
}

impl TransportLayer for ISOBUS {
    type Config = ISOBUSConfig;

    fn new(config: ISOBUSConfig) -> (r: core::result::Result<Self, AutomotiveError>) {
        Ok(
            ISOBUS {
                config,
                is_open: false,
                address_claimed: false,
                tp_sessions: Vec::new(),
                rx_buffer: Vec::new(),
                diagnostic_protocol: ISOBUSDiagnosticProtocol::new(),
            },
        )
    }

    fn open(&mut self) -> (r: core::result::Result<(), AutomotiveError>) {
        if self.is_open {
            return Ok(());
        }
        match self.config.validate() {
            Ok(()) => (),
            Err(e) => return Err(e),
        }
        match self.claim_address() {
            Ok(()) => (),
            Err(e) => return Err(e),
        }
        self.is_open = true;
        Ok(())
    }

    fn close(&mut self) -> (r: core::result::Result<(), AutomotiveError>) {
        self.is_open = false;
        self.address_claimed = false;
        self.tp_sessions = Vec::new();
        Ok(())
    }

    fn write_frame(&mut self, frame: &Frame) -> (r: core::result::Result<(), AutomotiveError>) {
        if !self.is_open {
            return Err(AutomotiveError::NotInitialized);
        }
        if !self.address_claimed {
            return Err(AutomotiveError::NotInitialized);
        }
        if frame.data.len() > 8 {
            // A long message opens a sending session announced by a
            // request-to-send; emitting the frame itself is left to the
            // controller interface beneath this stub.
            if frame.data.len() > 0xFFFF {
                return Err(AutomotiveError::InvalidParameter);
            }
            let total_size = frame.data.len() as u16;
            let total_packets = ((frame.data.len() + 6) / 7) as u8;
            let pgn = (frame.id >> 8) & 0x3FFFF;
            let mut data: Vec<u8> = Vec::new();
            crate::bytes::append_range(&mut data, frame.data.as_slice(), 0, frame.data.len());
            let session = TPSession {
                state: TPSessionState::WaitingForCTS,
                total_size,
                total_packets,
                next_packet: 1,
                data,
                source_address: self.config.source_address,
                destination_address: (frame.id & 0xFF) as u8,
                pgn,
                last_timestamp: now_millis(),
            };
            self.upsert_session(session);
        }
        Ok(())
    }

    fn read_frame(&mut self) -> (r: core::result::Result<Frame, AutomotiveError>) {
        if !self.is_open {
            return Err(AutomotiveError::NotInitialized);
        }
        if !self.address_claimed {
            return Err(AutomotiveError::NotInitialized);
        }
        Err(AutomotiveError::PortError("controller interface not attached".to_owned()))
    }

    fn set_timeout(&mut self, timeout_ms: u32) -> (r: core::result::Result<
        (),
        AutomotiveError,
    >) {
        if !self.is_open {
            return Err(AutomotiveError::NotInitialized);
        }
        self.config.timeout_ms = timeout_ms;
        Ok(())
    }
}

} // verus!
