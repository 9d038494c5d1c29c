//! UDS (ISO 14229): the diagnostic request/response engine.
//!
//! A service call builds the request bytes, sends them as one transport
//! message, and interprets the responses: negative responses with NRC `0x78`
//! (response pending) renew the wait up to four times, any other negative
//! response or a mismatched echo surfaces `UdsError`, and a positive
//! response must begin with the request SID plus `0x40`.
//!
//! The dialog is modelled by [`dialog_result`]: the unique outcome a
//! sequence of received messages determines. `send_request` is proved to
//! return `Ok` exactly when the consumed messages have a positive outcome,
//! and [`lemma_uds_pending_idempotent`] proves that interposed pending
//! responses never change the value a dialog yields. The session clock
//! (S3 inactivity) is evaluated once at the top of every service call,
//! before any request bytes leave the client.

use crate::bytes::{append_range, be_value, be_value_of, push_u16_be, push_u32_be, u16_be, u32_be};
use crate::clock::now_millis;
use crate::error::AutomotiveError;
use crate::transport::IsoTpTransport;
use crate::types::Config;
use vstd::prelude::*;

verus! {

// UDS service identifiers.
pub const SID_DIAGNOSTIC_SESSION_CONTROL: u8 = 0x10;

pub const SID_ECU_RESET: u8 = 0x11;

pub const SID_SECURITY_ACCESS: u8 = 0x27;

pub const SID_TESTER_PRESENT: u8 = 0x3E;

pub const SID_READ_DATA_BY_ID: u8 = 0x22;

pub const SID_WRITE_DATA_BY_ID: u8 = 0x2E;

pub const SID_CLEAR_DIAGNOSTIC_INFO: u8 = 0x14;

pub const SID_READ_DTC: u8 = 0x19;

pub const SID_COMMUNICATION_CONTROL: u8 = 0x28;

pub const SID_AUTHENTICATION: u8 = 0x29;

pub const SID_READ_DATA_BY_PERIODIC_ID: u8 = 0x2A;

pub const SID_DYNAMICALLY_DEFINE_DATA_ID: u8 = 0x2C;

pub const SID_READ_MEMORY_BY_ADDRESS: u8 = 0x23;

pub const SID_WRITE_MEMORY_BY_ADDRESS: u8 = 0x3D;

pub const SID_READ_SCALING_DATA_BY_ID: u8 = 0x24;

pub const SID_INPUT_OUTPUT_CONTROL_BY_ID: u8 = 0x2F;

pub const SID_ROUTINE_CONTROL: u8 = 0x31;

pub const SID_REQUEST_DOWNLOAD: u8 = 0x34;

pub const SID_REQUEST_UPLOAD: u8 = 0x35;

pub const SID_TRANSFER_DATA: u8 = 0x36;

pub const SID_REQUEST_TRANSFER_EXIT: u8 = 0x37;

// UDS negative response codes.
pub const NRC_GENERAL_REJECT: u8 = 0x10;

pub const NRC_SERVICE_NOT_SUPPORTED: u8 = 0x11;

pub const NRC_SUB_FUNCTION_NOT_SUPPORTED: u8 = 0x12;

pub const NRC_INCORRECT_MESSAGE_LENGTH: u8 = 0x13;

pub const NRC_CONDITIONS_NOT_CORRECT: u8 = 0x22;

pub const NRC_REQUEST_SEQUENCE_ERROR: u8 = 0x24;

pub const NRC_REQUEST_OUT_OF_RANGE: u8 = 0x31;

pub const NRC_SECURITY_ACCESS_DENIED: u8 = 0x33;

pub const NRC_INVALID_KEY: u8 = 0x35;

pub const NRC_EXCEEDED_NUMBER_OF_ATTEMPTS: u8 = 0x36;

pub const NRC_RESPONSE_PENDING: u8 = 0x78;

/// How a response classifies.
#[derive(Debug, Clone, PartialEq, Eq, Structural)]
pub enum UdsResponseType {
    Positive,
    /// Negative, carrying the NRC.
    Negative(u8),
}

/// UDS diagnostic session kinds.
#[derive(Debug, Clone, Copy, PartialEq, Eq, Structural)]
pub enum UdsSessionType {
    Default,
    Programming,
    Extended,
    SafetySystem,
}

/// UDS ECU reset kinds.
#[derive(Debug, Clone, Copy, PartialEq, Eq, Structural)]
pub enum UdsResetType {
    HardReset,
    KeyOffOnReset,
    SoftReset,
    EnableRapidPowerShutdown,
    DisableRapidPowerShutdown,
}

/// The wire byte of a session kind.
pub open spec fn session_type_byte(st: UdsSessionType) -> u8 {
    match st {
        UdsSessionType::Default => 0x01,
        UdsSessionType::Programming => 0x02,
        UdsSessionType::Extended => 0x03,
        UdsSessionType::SafetySystem => 0x04,
    }
}

/// Computes the wire byte of a session kind.
pub fn session_type_to_byte(st: UdsSessionType) -> (b: u8)
    ensures
        b == session_type_byte(st),
{
    match st {
        UdsSessionType::Default => 0x01,
        UdsSessionType::Programming => 0x02,
        UdsSessionType::Extended => 0x03,
        UdsSessionType::SafetySystem => 0x04,
    }
}

/// The wire byte of a reset kind.
pub open spec fn reset_type_byte(rt: UdsResetType) -> u8 {
    match rt {
        UdsResetType::HardReset => 0x01,
        UdsResetType::KeyOffOnReset => 0x02,
        UdsResetType::SoftReset => 0x03,
        UdsResetType::EnableRapidPowerShutdown => 0x04,
        UdsResetType::DisableRapidPowerShutdown => 0x05,
    }
}

/// Computes the wire byte of a reset kind.
pub fn reset_type_to_byte(rt: UdsResetType) -> (b: u8)
    ensures
        b == reset_type_byte(rt),
{
    match rt {
        UdsResetType::HardReset => 0x01,
        UdsResetType::KeyOffOnReset => 0x02,
        UdsResetType::SoftReset => 0x03,
        UdsResetType::EnableRapidPowerShutdown => 0x04,
        UdsResetType::DisableRapidPowerShutdown => 0x05,
    }
}

/// A UDS request message.
#[derive(Debug, Clone)]
pub struct UdsRequest {
    pub service_id: u8,
    pub parameters: Vec<u8>,
}

/// A UDS response message: the first byte of the wire response and the
/// bytes after it.
#[derive(Debug, Clone)]
pub struct UdsResponse {
    pub service_id: u8,
    pub data: Vec<u8>,
}

/// UDS session status.
#[derive(Debug, Clone, Copy, PartialEq, Eq, Structural)]
pub struct SessionStatus {
    /// The active diagnostic session.
    pub session_type: UdsSessionType,
    /// Granted security level; 0 means locked.
    pub security_level: u8,
    /// Clock reading of the last UDS activity, in milliseconds.
    pub last_activity: u64,
    /// Whether a TesterPresent request has been acknowledged.
    pub tester_present_sent: bool,
}

impl Default for SessionStatus {
    /// The default session: locked, no activity recorded.
    fn default() -> (r: Self)
        ensures
            r.session_type is Default,
            r.security_level == 0,
            r.last_activity == 0,
            !r.tester_present_sent,
    {
        SessionStatus {
            session_type: UdsSessionType::Default,
            security_level: 0,
            last_activity: 0,
            tester_present_sent: false,
        }
    }
}

/// UDS engine configuration.
#[derive(Debug, Clone, Copy)]
pub struct UdsConfig {
    /// General transport timeout, in milliseconds.
    pub timeout_ms: u32,
    /// Deadline for the first response byte.
    pub p2_timeout_ms: u32,
    /// Deadline after a pending negative response.
    pub p2_star_timeout_ms: u32,
    /// Inactivity window after which a non-default session falls back to
    /// the default session.
    pub s3_client_timeout_ms: u32,
    /// Cadence at which TesterPresent holds a non-default session open.
    pub tester_present_interval_ms: u32,
}

impl Config for UdsConfig {
    fn validate(&self) -> (r: core::result::Result<(), AutomotiveError>)
        ensures
            r is Ok,
    {
        Ok(())
    }
}

impl Default for UdsConfig {
    fn default() -> (r: Self)
        ensures
            r.timeout_ms == 1000,
            r.p2_timeout_ms == 5000,
            r.p2_star_timeout_ms == 5000,
            r.s3_client_timeout_ms == 5000,
            r.tester_present_interval_ms == 2000,
    {
        UdsConfig {
            timeout_ms: 1000,
            p2_timeout_ms: 5000,
            p2_star_timeout_ms: 5000,
            s3_client_timeout_ms: 5000,
            tester_present_interval_ms: 2000,
        }
    }
}

// ---------------------------------------------------------------------------
// The dialog model.
// ---------------------------------------------------------------------------

/// A pending negative response: `[0x7F, SID, 0x78]`.
pub open spec fn is_pending(msg: Seq<u8>, sid: u8) -> bool {
    msg.len() == 3 && msg[0] == 0x7f && msg[1] == sid && msg[2] == 0x78
}

/// A positive response: it begins with `SID + 0x40`.
pub open spec fn is_positive(msg: Seq<u8>, sid: u8) -> bool {
    msg.len() >= 1 && msg[0] == sid + 0x40
}

/// The outcome a response sequence determines, after `seen` pending
/// responses have already been tolerated: pendings renew the wait until the
/// fifth, a positive response yields its payload, and anything else —
/// another negative response, a mismatched echo, an empty message, or
/// running out of responses — yields nothing.
pub open spec fn dialog_result_from(msgs: Seq<Seq<u8>>, sid: u8, seen: int) -> Option<Seq<u8>>
    decreases msgs.len(),
{
    if msgs.len() == 0 {
        None
    } else if is_pending(msgs[0], sid) {
        if seen + 1 >= 5 {
            None
        } else {
            dialog_result_from(msgs.skip(1), sid, seen + 1)
        }
    } else if is_positive(msgs[0], sid) {
        Some(msgs[0].skip(1))
    } else {
        None
    }
}

/// The outcome a fresh dialog determines from the received messages.
pub open spec fn dialog_result(msgs: Seq<Seq<u8>>, sid: u8) -> Option<Seq<u8>> {
    dialog_result_from(msgs, sid, 0)
}

/// The sent log after a completed security-access handshake for `level`
/// with key bytes `key`: the seed request, then the key request.
pub open spec fn security_dialog_sent(log: Seq<Seq<u8>>, level: u8, key: Seq<u8>) -> Seq<
    Seq<u8>,
> {
    log.push(seq![SID_SECURITY_ACCESS, (2 * level - 1) as u8]).push(
        seq![SID_SECURITY_ACCESS, (2 * level) as u8] + key,
    )
}

/// The two security-access dialogs within the consumed messages: the first
/// `i` messages form the seed dialog with a non-empty positive outcome
/// `seed`, the rest the key dialog with an empty positive outcome.
pub open spec fn seed_dialog(consumed: Seq<Seq<u8>>, i: int, seed: Seq<u8>) -> bool {
    &&& 0 < i <= consumed.len()
    &&& dialog_result(consumed.take(i), SID_SECURITY_ACCESS) == Some(seed)
    &&& seed.len() >= 1
    &&& dialog_result(consumed.skip(i), SID_SECURITY_ACCESS) == Some(Seq::<u8>::empty())
}

/// A completed security-access handshake: the seed dialog yielded the seed
/// bytes, the caller's function turned exactly those bytes into the key that
/// the second request carried, and the key dialog accepted with an empty
/// positive response.
pub open spec fn security_unlock_ok<F: Fn(&[u8]) -> Vec<u8>>(
    key_fn: F,
    level: u8,
    pre_sent: Seq<Seq<u8>>,
    post_sent: Seq<Seq<u8>>,
    consumed: Seq<Seq<u8>>,
) -> bool {
    exists|i: int, s: &[u8], key: Vec<u8>|
        #![trigger seed_dialog(consumed, i, s@), call_ensures(key_fn, (s,), key)]
        {
            &&& seed_dialog(consumed, i, s@)
            &&& call_ensures(key_fn, (s,), key)
            &&& post_sent == security_dialog_sent(pre_sent, level, key@)
        }
}

/// `k` pending negative responses for `sid`.
pub open spec fn pendings(sid: u8, k: int) -> Seq<Seq<u8>> {
    Seq::new(k as nat, |i: int| seq![0x7fu8, sid, 0x78u8])
}

proof fn lemma_dialog_from_pendings(sid: u8, pos: Seq<u8>, k: int, seen: int)
    requires
        0 <= k,
        0 <= seen,
        k + seen < 5,
        !is_pending(pos, sid),
    ensures
        dialog_result_from(pendings(sid, k) + seq![pos], sid, seen) == dialog_result_from(
            seq![pos],
            sid,
            0,
        ),
    decreases k,
{
    if k == 0 {
        assert(pendings(sid, 0) + seq![pos] =~= seq![pos]);
        assert(seq![pos][0] == pos);
    } else {
        let all = pendings(sid, k) + seq![pos];
        assert(all[0] == pendings(sid, k)[0]);
        assert(is_pending(all[0], sid));
        assert(all.skip(1) =~= pendings(sid, k - 1) + seq![pos]);
        lemma_dialog_from_pendings(sid, pos, k - 1, seen + 1);
    }
}

/// UDS pending-response idempotence: a dialog that interposes `k`
/// (0 <= k < 5) pending negative responses before the positive response
/// yields exactly the value of the dialog with none: the interposed
/// pendings never change the result.
pub proof fn lemma_uds_pending_idempotent(sid: u8, pos: Seq<u8>, k: int)
    requires
        0 <= k < 5,
        is_positive(pos, sid),
        !is_pending(pos, sid),
    ensures
        dialog_result(pendings(sid, k) + seq![pos], sid) == dialog_result(seq![pos], sid),
        dialog_result(seq![pos], sid) == Some(pos.skip(1)),
{
    lemma_dialog_from_pendings(sid, pos, k, 0);
    assert(seq![pos][0] == pos);
}

// ---------------------------------------------------------------------------
// Session timing.
// ---------------------------------------------------------------------------

/// What one TesterPresent call did, for the clock reading `now` it took:
/// either the S3 window had passed — the session fell back to the default
/// session and no bytes left the client — or the request `[0x3E, 0x00]` was
/// sent and positively acknowledged.
pub open spec fn tester_present_outcome(
    pre: SessionStatus,
    s3: u32,
    pre_sent: Seq<Seq<u8>>,
    post: SessionStatus,
    post_sent: Seq<Seq<u8>>,
    consumed: Seq<Seq<u8>>,
    now: u64,
) -> bool {
    let after = session_after_timing(pre, s3, now);
    if after != pre {
        &&& post == after
        &&& post_sent == pre_sent
    } else {
        &&& post.tester_present_sent
        &&& post_sent == pre_sent.push(seq![SID_TESTER_PRESENT, 0x00u8])
        &&& dialog_result(consumed, SID_TESTER_PRESENT) is Some
    }
}

/// A TesterPresent call behaved as [`tester_present_outcome`] prescribes,
/// for the clock reading it took.
pub open spec fn tester_present_spec(
    pre: SessionStatus,
    s3: u32,
    pre_sent: Seq<Seq<u8>>,
    post: SessionStatus,
    post_sent: Seq<Seq<u8>>,
    consumed: Seq<Seq<u8>>,
) -> bool {
    exists|now: u64|
        #[trigger] tester_present_outcome(pre, s3, pre_sent, post, post_sent, consumed, now)
}

/// The session status a request observes at clock reading `now`: when the
/// S3 inactivity window has elapsed in a non-default session, the session
/// has fallen back to the default session with security relocked; otherwise
/// it is unchanged.
pub open spec fn session_after_timing(st: SessionStatus, s3: u32, now: u64) -> SessionStatus {
    if !(st.session_type is Default) && now > st.last_activity && now - st.last_activity
        > s3 {
        SessionStatus {
            session_type: UdsSessionType::Default,
            security_level: 0,
            last_activity: now,
            tester_present_sent: false,
        }
    } else {
        st
    }
}

/// UDS S3 reset law: when the wall-clock gap since the last activity
/// exceeds the S3 client timeout and the session was not the default one,
/// the status the next request observes is the default session, relocked —
/// and it is established before any request bytes leave the client.
pub proof fn lemma_s3_reset(st: SessionStatus, s3: u32, now: u64)
    requires
        !(st.session_type is Default),
        now > st.last_activity,
        now - st.last_activity > s3,
    ensures
        session_after_timing(st, s3, now).session_type is Default,
        session_after_timing(st, s3, now).security_level == 0,
{
}

// ---------------------------------------------------------------------------
// The engine.
// ---------------------------------------------------------------------------

/// The UDS engine over a message transport `T`.
pub struct Uds<T: IsoTpTransport> {
    config: UdsConfig,
    transport: T,
    /// The session status, visible to callers.
    pub status: SessionStatus,
    is_open: bool,
}

impl<T: IsoTpTransport> Uds<T> {
    /// The configuration this engine runs with.
    pub closed spec fn spec_config(&self) -> UdsConfig {
        self.config
    }

    /// The session status, as contracts see it.
    pub closed spec fn spec_status(&self) -> SessionStatus {
        self.status
    }

    /// Whether the engine has been opened.
    pub closed spec fn spec_is_open(&self) -> bool {
        self.is_open
    }

    /// All messages the transport has sent.
    pub closed spec fn sent_log(&self) -> Seq<Seq<u8>> {
        self.transport.msgs_sent()
    }

    /// All messages the transport has handed up.
    pub closed spec fn rcvd_log(&self) -> Seq<Seq<u8>> {
        self.transport.msgs_rcvd()
    }

    /// Creates a new UDS engine, still closed, over the given transport.
    pub fn with_transport(config: UdsConfig, transport: T) -> (r: Self)
        ensures
            r.spec_config() == config,
            !r.spec_is_open(),
            r.spec_status().session_type is Default,
            r.spec_status().security_level == 0,
            !r.spec_status().tester_present_sent,
            r.sent_log() == transport.msgs_sent(),
            r.rcvd_log() == transport.msgs_rcvd(),
    {
        Uds { config, transport, status: SessionStatus::default(), is_open: false }
    }

    /// Opens the engine and the transport beneath it.
    pub fn open(&mut self) -> (r: core::result::Result<(), AutomotiveError>)
        ensures
            final(self).spec_config() == old(self).spec_config(),
            final(self).spec_status() == old(self).spec_status(),
            final(self).sent_log() == old(self).sent_log(),
            final(self).rcvd_log() == old(self).rcvd_log(),
            r is Ok ==> final(self).spec_is_open(),
            r is Err ==> final(self).spec_is_open() == old(self).spec_is_open(),
    {
        if self.is_open {
            return Ok(());
        }
        match self.transport.open() {
            Ok(()) => (),
            Err(e) => return Err(e),
        }
        self.is_open = true;
        Ok(())
    }

    /// Closes the engine.
    pub fn close(&mut self) -> (r: core::result::Result<(), AutomotiveError>)
        ensures
            final(self).spec_config() == old(self).spec_config(),
            final(self).spec_status() == old(self).spec_status(),
            final(self).sent_log() == old(self).sent_log(),
            final(self).rcvd_log() == old(self).rcvd_log(),
            r is Ok && !final(self).spec_is_open(),
    {
        self.is_open = false;
        Ok(())
    }

    /// Sets the transport receive timeout.
    pub fn set_timeout(&mut self, timeout_ms: u32) -> (r: core::result::Result<
        (),
        AutomotiveError,
    >)
        ensures
            final(self).spec_config() == old(self).spec_config(),
            final(self).spec_is_open() == old(self).spec_is_open(),
            final(self).spec_status() == old(self).spec_status(),
            final(self).sent_log() == old(self).sent_log(),
            final(self).rcvd_log() == old(self).rcvd_log(),
            !old(self).spec_is_open() ==> (r matches Err(AutomotiveError::NotInitialized)),
    {
        if !self.is_open {
            return Err(AutomotiveError::NotInitialized);
        }
        self.transport.set_timeout(timeout_ms)
    }

    /// Applies the session clock to the status: the S3 fallback, exactly as
    /// [`session_after_timing`] states it, for the given clock reading.
    pub fn check_session_timeout(&mut self, now: u64)
        ensures
            final(self).spec_config() == old(self).spec_config(),
            final(self).spec_is_open() == old(self).spec_is_open(),
            final(self).sent_log() == old(self).sent_log(),
            final(self).rcvd_log() == old(self).rcvd_log(),
            final(self).spec_status() == session_after_timing(
                old(self).spec_status(),
                old(self).spec_config().s3_client_timeout_ms,
                now,
            ),
    {
        if !(self.status.session_type == UdsSessionType::Default) {
            if now > self.status.last_activity && now - self.status.last_activity
                > self.config.s3_client_timeout_ms as u64 {
                self.status = SessionStatus {
                    session_type: UdsSessionType::Default,
                    security_level: 0,
                    last_activity: now,
                    tester_present_sent: false,
                };
            }
        }
    }

    /// Evaluates the session clock once, at the top of a request, strictly
    /// before any transport activity.
    pub fn handle_session_timing(&mut self)
        ensures
            final(self).spec_config() == old(self).spec_config(),
            final(self).spec_is_open() == old(self).spec_is_open(),
            final(self).sent_log() == old(self).sent_log(),
            final(self).rcvd_log() == old(self).rcvd_log(),
            exists|now: u64|
                final(self).spec_status() == session_after_timing(
                    old(self).spec_status(),
                    old(self).spec_config().s3_client_timeout_ms,
                    now,
                ),
    {
        let now = now_millis();
        self.check_session_timeout(now);
    }

    /// Sends one request and drives the response dialog.
    ///
    /// The consumed responses determine the outcome exactly as
    /// [`dialog_result`] states it: up to four pending negative responses
    /// renew the wait (under the extended P2* deadline, after a short
    /// pause); the fifth surfaces `UdsError`. A positive response must echo
    /// the request SID plus `0x40` — a mismatch or any other negative
    /// response surfaces `UdsError`, an empty response `InvalidParameter`.
    #[verifier::rlimit(50)]
    pub fn send_request(&mut self, request: &UdsRequest) -> (r: core::result::Result<
        UdsResponse,
        AutomotiveError,
    >)
        ensures
            final(self).spec_config() == old(self).spec_config(),
            final(self).spec_is_open() == old(self).spec_is_open(),
            final(self).spec_status() == old(self).spec_status(),
            !old(self).spec_is_open() ==> (r matches Err(AutomotiveError::NotInitialized))
                && final(self).sent_log() == old(self).sent_log(),
            final(self).sent_log() == old(self).sent_log() || final(self).sent_log() == old(
                self,
            ).sent_log().push(seq![request.service_id] + request.parameters@),
            r is Ok ==> final(self).sent_log() == old(self).sent_log().push(
                seq![request.service_id] + request.parameters@,
            ),
            final(self).rcvd_log().len() >= old(self).rcvd_log().len(),
            final(self).rcvd_log().take(old(self).rcvd_log().len() as int) == old(
                self,
            ).rcvd_log(),
            r matches Ok(resp) ==> {
                &&& dialog_result(
                    final(self).rcvd_log().skip(old(self).rcvd_log().len() as int),
                    request.service_id,
                ) == Some(resp.data@)
                &&& resp.service_id as int == request.service_id + 0x40
            },
            r is Err ==> dialog_result(
                final(self).rcvd_log().skip(old(self).rcvd_log().len() as int),
                request.service_id,
            ) is None,
            r is Err && final(self).rcvd_log().len() > old(self).rcvd_log().len() && final(self).rcvd_log().last().len() == 0 ==> (r matches Err(AutomotiveError::InvalidParameter)),
            r is Err && final(self).rcvd_log().len() > old(self).rcvd_log().len() && final(self).rcvd_log().last().len() > 0 && !is_pending(
                final(self).rcvd_log().last(),
                request.service_id,
            ) && !is_positive(final(self).rcvd_log().last(), request.service_id) ==> (r matches Err(
                AutomotiveError::UdsError(_),
            )),
            r is Err && final(self).rcvd_log().len() == old(self).rcvd_log().len() + 5 && (forall|i: int|
                old(self).rcvd_log().len() <= i < final(self).rcvd_log().len() ==> is_pending(
                    #[trigger] final(self).rcvd_log()[i],
                    request.service_id,
                )) ==> (r matches Err(AutomotiveError::UdsError(_))),
    {
        if !self.is_open {
            proof {
                assert(self.transport.msgs_rcvd().skip(self.transport.msgs_rcvd().len() as int)
                    =~= Seq::<Seq<u8>>::empty());
            }
            return Err(AutomotiveError::NotInitialized);
        }
        let ghost entry_rcvd = self.transport.msgs_rcvd();
        let ghost sid = request.service_id;
        let ghost req_bytes = seq![request.service_id] + request.parameters@;

        let mut data: Vec<u8> = Vec::new();
        data.push(request.service_id);
        append_range(&mut data, request.parameters.as_slice(), 0, request.parameters.len());
        proof {
            assert(request.parameters@.subrange(0, request.parameters@.len() as int)
                =~= request.parameters@);
            assert(data@ =~= req_bytes);
        }
        match self.transport.send(data.as_slice()) {
            Ok(()) => (),
            Err(e) => {
                proof {
                    assert(self.transport.msgs_rcvd().skip(entry_rcvd.len() as int)
                        =~= Seq::<Seq<u8>>::empty());
                    assert(self.transport.msgs_rcvd().take(entry_rcvd.len() as int)
                        =~= entry_rcvd);
                }
                return Err(e);
            },
        }
        // First response under the P2 deadline.
        match self.transport.set_timeout(self.config.p2_timeout_ms) {
            Ok(()) => (),
            Err(e) => {
                proof {
                    assert(self.transport.msgs_rcvd().skip(entry_rcvd.len() as int)
                        =~= Seq::<Seq<u8>>::empty());
                    assert(self.transport.msgs_rcvd().take(entry_rcvd.len() as int)
                        =~= entry_rcvd);
                }
                return Err(e);
            },
        }

        let mut pendings_seen: u32 = 0;
        while pendings_seen < 5
            invariant
                old(self).is_open,
                self.is_open == old(self).is_open,
                self.config == old(self).config,
                self.status == old(self).spec_status(),
                entry_rcvd == old(self).transport.msgs_rcvd(),
                sid == request.service_id,
                req_bytes == seq![request.service_id] + request.parameters@,
                self.transport.msgs_sent() == old(self).transport.msgs_sent().push(req_bytes),
                pendings_seen <= 4,
                self.transport.msgs_rcvd().len() >= entry_rcvd.len(),
                self.transport.msgs_rcvd().take(entry_rcvd.len() as int) == entry_rcvd,
                self.transport.msgs_rcvd().len() - entry_rcvd.len() == pendings_seen,
                forall|i: int|
                    0 <= i < pendings_seen ==> is_pending(
                        #[trigger] self.transport.msgs_rcvd().skip(entry_rcvd.len() as int)[i],
                        sid,
                    ),
                forall|rest: Seq<Seq<u8>>|
                    #[trigger] dialog_result_from(rest, sid, pendings_seen as int)
                        == dialog_result_from(
                        self.transport.msgs_rcvd().skip(entry_rcvd.len() as int) + rest,
                        sid,
                        0,
                    ),
            decreases 5 - pendings_seen,
        {
            let ghost consumed_old = self.transport.msgs_rcvd().skip(entry_rcvd.len() as int);
            let resp = match self.transport.receive() {
                Ok(m) => m,
                Err(e) => {
                    proof {
                        assert(consumed_old + Seq::<Seq<u8>>::empty() =~= consumed_old);
                        assert(dialog_result_from(
                            Seq::<Seq<u8>>::empty(),
                            sid,
                            pendings_seen as int,
                        ) is None);
                    }
                    proof {
                        if pendings_seen > 0 {
                            assert(self.transport.msgs_rcvd().last()
                                == self.transport.msgs_rcvd().skip(entry_rcvd.len() as int)[
                                pendings_seen - 1]);
                            assert(is_pending(self.transport.msgs_rcvd().last(), sid));
                        }
                    }
                    return Err(e);
                },
            };
            let ghost consumed_new = self.transport.msgs_rcvd().skip(entry_rcvd.len() as int);
            proof {
                assert(self.transport.msgs_rcvd().take(entry_rcvd.len() as int) =~= entry_rcvd);
                assert(consumed_new =~= consumed_old.push(resp@));
                assert(consumed_old + seq![resp@] =~= consumed_new);
                assert((seq![resp@])[0] == resp@);
                assert((seq![resp@]).skip(1) =~= Seq::<Seq<u8>>::empty());
            }
            if resp.len() == 0 {
                proof {
                    assert(dialog_result_from(seq![resp@], sid, pendings_seen as int) is None);
                    assert(self.transport.msgs_rcvd().last() == resp@);
                }
                return Err(AutomotiveError::InvalidParameter);
            }
            let b0 = resp[0];
            if resp.len() == 3 && b0 == 0x7f && resp[1] == request.service_id && resp[2]
                == NRC_RESPONSE_PENDING {
                proof {
                    assert(is_pending(resp@, sid));
                }
                if pendings_seen == 4 {
                    proof {
                        assert(dialog_result_from(seq![resp@], sid, 4) is None);
                    }
                    return Err(AutomotiveError::UdsError("response timeout".to_owned()));
                }
                proof {
                    assert forall|rest: Seq<Seq<u8>>|
                        #[trigger] dialog_result_from(rest, sid, pendings_seen as int + 1)
                            == dialog_result_from(consumed_new + rest, sid, 0) by {
                        let prev = seq![resp@] + rest;
                        assert(dialog_result_from(prev, sid, pendings_seen as int)
                            == dialog_result_from(consumed_old + prev, sid, 0));
                        assert(prev[0] == resp@);
                        assert(prev.skip(1) =~= rest);
                        assert(dialog_result_from(prev, sid, pendings_seen as int)
                            == dialog_result_from(rest, sid, pendings_seen as int + 1));
                        assert(consumed_old + prev =~= consumed_new + rest);
                    }
                }
                pendings_seen += 1;
                // Renewed wait under the extended P2* deadline, after a
                // short pause.
                match self.transport.set_timeout(self.config.p2_star_timeout_ms) {
                    Ok(()) => (),
                    Err(e) => {
                        proof {
                            assert(consumed_new + Seq::<Seq<u8>>::empty() =~= consumed_new);
                            assert(dialog_result_from(
                                Seq::<Seq<u8>>::empty(),
                                sid,
                                pendings_seen as int,
                            ) is None);
                            if pendings_seen > 0 {
                                assert(self.transport.msgs_rcvd().last()
                                    == self.transport.msgs_rcvd().skip(entry_rcvd.len() as int)[
                                    pendings_seen - 1]);
                                assert(is_pending(self.transport.msgs_rcvd().last(), sid));
                            }
                        }
                        return Err(e);
                    },
                }
                self.transport.wait_us(100000);
            } else if (b0 as u16) == (request.service_id as u16) + 0x40 {
                proof {
                    assert(!is_pending(resp@, sid));
                    assert(is_positive(resp@, sid));
                    assert(dialog_result_from(seq![resp@], sid, pendings_seen as int) == Some(
                        resp@.skip(1),
                    ));
                }
                let mut rest_data: Vec<u8> = Vec::new();
                append_range(&mut rest_data, resp.as_slice(), 1, resp.len());
                proof {
                    assert(rest_data@ =~= resp@.skip(1));
                }
                return Ok(UdsResponse { service_id: b0, data: rest_data });
            } else if b0 == 0x7f {
                proof {
                    assert(!is_pending(resp@, sid));
                    assert(!is_positive(resp@, sid));
                    assert(dialog_result_from(seq![resp@], sid, pendings_seen as int) is None);
                }
                return Err(AutomotiveError::UdsError("negative response".to_owned()));
            } else {
                proof {
                    assert(!is_pending(resp@, sid));
                    assert(!is_positive(resp@, sid));
                    assert(dialog_result_from(seq![resp@], sid, pendings_seen as int) is None);
                }
                return Err(
                    AutomotiveError::UdsError("unexpected response service identifier".to_owned()),
                );
            }
        }
        proof {
            assert(false);
        }
        Err(AutomotiveError::UdsError("response timeout".to_owned()))
    }

    /// Changes the diagnostic session: request `[0x10, session]`, positive
    /// response required with at least the session echo.
    pub fn change_session(&mut self, session_type: UdsSessionType) -> (r: core::result::Result<
        (),
        AutomotiveError,
    >)
        ensures
            final(self).spec_config() == old(self).spec_config(),
            final(self).spec_is_open() == old(self).spec_is_open(),
            !old(self).spec_is_open() ==> (r matches Err(AutomotiveError::NotInitialized)),
            r is Ok ==> {
                &&& final(self).spec_status().session_type == session_type
                &&& (session_type is Default ==> final(self).spec_status().security_level == 0)
                &&& final(self).sent_log() == old(self).sent_log().push(
                    seq![SID_DIAGNOSTIC_SESSION_CONTROL, session_type_byte(session_type)],
                )
                &&& {
                    let consumed = final(self).rcvd_log().skip(old(self).rcvd_log().len() as int);
                    &&& dialog_result(consumed, SID_DIAGNOSTIC_SESSION_CONTROL) is Some
                    &&& dialog_result(
                        consumed,
                        SID_DIAGNOSTIC_SESSION_CONTROL,
                    )->Some_0.len() >= 1
                }
            },
            r is Err ==> exists|now: u64|
                final(self).spec_status() == session_after_timing(
                    old(self).spec_status(),
                    old(self).spec_config().s3_client_timeout_ms,
                    now,
                ),
    {
        self.handle_session_timing();
        let mut params: Vec<u8> = Vec::new();
        params.push(session_type_to_byte(session_type));
        let request = UdsRequest { service_id: SID_DIAGNOSTIC_SESSION_CONTROL, parameters: params };
        let response = match self.send_request(&request) {
            Ok(resp) => resp,
            Err(e) => return Err(e),
        };
        proof {
            assert(seq![request.service_id] + request.parameters@ =~= seq![
                SID_DIAGNOSTIC_SESSION_CONTROL,
                session_type_byte(session_type),
            ]);
        }
        if response.data.len() == 0 {
            return Err(AutomotiveError::InvalidParameter);
        }
        self.status.session_type = session_type;
        if session_type == UdsSessionType::Default {
            // The data model ties the default session to a locked state.
            self.status.security_level = 0;
        }
        self.status.last_activity = now_millis();
        Ok(())
    }

    /// Requests an ECU reset: request `[0x11, reset]`; any positive
    /// response accepts.
    pub fn ecu_reset(&mut self, reset_type: UdsResetType) -> (r: core::result::Result<
        (),
        AutomotiveError,
    >)
        ensures
            final(self).spec_config() == old(self).spec_config(),
            final(self).spec_is_open() == old(self).spec_is_open(),
            !old(self).spec_is_open() ==> (r matches Err(AutomotiveError::NotInitialized)),
            r is Ok ==> {
                &&& final(self).sent_log() == old(self).sent_log().push(
                    seq![SID_ECU_RESET, reset_type_byte(reset_type)],
                )
                &&& dialog_result(
                    final(self).rcvd_log().skip(old(self).rcvd_log().len() as int),
                    SID_ECU_RESET,
                ) is Some
            },
    {
        self.handle_session_timing();
        let mut params: Vec<u8> = Vec::new();
        params.push(reset_type_to_byte(reset_type));
        let request = UdsRequest { service_id: SID_ECU_RESET, parameters: params };
        match self.send_request(&request) {
            Ok(_resp) => {
                proof {
                    assert(seq![request.service_id] + request.parameters@ =~= seq![
                        SID_ECU_RESET,
                        reset_type_byte(reset_type),
                    ]);
                }
                Ok(())
            },
            Err(e) => Err(e),
        }
    }

    /// Reads a data element: request `[0x22, did]`, returning the positive
    /// response bytes (identifier echo included), which must be non-empty.
    pub fn read_data_by_id(&mut self, did: u16) -> (r: core::result::Result<
        Vec<u8>,
        AutomotiveError,
    >)
        ensures
            final(self).spec_config() == old(self).spec_config(),
            final(self).spec_is_open() == old(self).spec_is_open(),
            !old(self).spec_is_open() ==> (r matches Err(AutomotiveError::NotInitialized)),
            r matches Ok(v) ==> {
                &&& final(self).sent_log() == old(self).sent_log().push(
                    seq![SID_READ_DATA_BY_ID] + u16_be(did),
                )
                &&& dialog_result(
                    final(self).rcvd_log().skip(old(self).rcvd_log().len() as int),
                    SID_READ_DATA_BY_ID,
                ) == Some(v@)
                &&& v@.len() >= 1
            },
    {
        self.handle_session_timing();
        let mut params: Vec<u8> = Vec::new();
        push_u16_be(&mut params, did);
        let request = UdsRequest { service_id: SID_READ_DATA_BY_ID, parameters: params };
        let response = match self.send_request(&request) {
            Ok(resp) => resp,
            Err(e) => return Err(e),
        };
        proof {
            assert(seq![request.service_id] + request.parameters@ =~= seq![SID_READ_DATA_BY_ID]
                + u16_be(did));
        }
        if response.data.len() == 0 {
            return Err(AutomotiveError::UdsError("empty read response".to_owned()));
        }
        Ok(response.data)
    }

    /// Writes a data element: request `[0x2E, did, data]`; any positive
    /// response accepts.
    pub fn write_data_by_id(&mut self, did: u16, data: &[u8]) -> (r: core::result::Result<
        (),
        AutomotiveError,
    >)
        ensures
            final(self).spec_config() == old(self).spec_config(),
            final(self).spec_is_open() == old(self).spec_is_open(),
            !old(self).spec_is_open() ==> (r matches Err(AutomotiveError::NotInitialized)),
            r is Ok ==> {
                &&& final(self).sent_log() == old(self).sent_log().push(
                    seq![SID_WRITE_DATA_BY_ID] + u16_be(did) + data@,
                )
                &&& dialog_result(
                    final(self).rcvd_log().skip(old(self).rcvd_log().len() as int),
                    SID_WRITE_DATA_BY_ID,
                ) is Some
            },
    {
        self.handle_session_timing();
        let mut params: Vec<u8> = Vec::new();
        push_u16_be(&mut params, did);
        append_range(&mut params, data, 0, data.len());
        let request = UdsRequest { service_id: SID_WRITE_DATA_BY_ID, parameters: params };
        match self.send_request(&request) {
            Ok(_resp) => {
                proof {
                    assert(data@.subrange(0, data@.len() as int) =~= data@);
                    assert(seq![request.service_id] + request.parameters@ =~= seq![
                        SID_WRITE_DATA_BY_ID,
                    ] + u16_be(did) + data@);
                }
                Ok(())
            },
            Err(e) => Err(e),
        }
    }

    /// Keeps the session alive: evaluates the S3 clock first — an expired
    /// non-default session resets to the default session without touching
    /// the wire — and otherwise sends `[0x3E, 0x00]` and waits for its
    /// positive response.
    pub fn tester_present(&mut self) -> (r: core::result::Result<(), AutomotiveError>)
        ensures
            final(self).spec_config() == old(self).spec_config(),
            final(self).spec_is_open() == old(self).spec_is_open(),
            r is Ok ==> tester_present_spec(
                old(self).spec_status(),
                old(self).spec_config().s3_client_timeout_ms,
                old(self).sent_log(),
                final(self).spec_status(),
                final(self).sent_log(),
                final(self).rcvd_log().skip(old(self).rcvd_log().len() as int),
            ),
    {
        let now = now_millis();
        if !(self.status.session_type == UdsSessionType::Default) {
            if now > self.status.last_activity && now - self.status.last_activity
                > self.config.s3_client_timeout_ms as u64 {
                self.status = SessionStatus {
                    session_type: UdsSessionType::Default,
                    security_level: 0,
                    last_activity: now,
                    tester_present_sent: false,
                };
                proof {
                    let after = session_after_timing(
                        old(self).spec_status(),
                        old(self).spec_config().s3_client_timeout_ms,
                        now,
                    );
                    assert(after.session_type != old(self).spec_status().session_type);
                    assert(tester_present_outcome(
                        old(self).spec_status(),
                        old(self).spec_config().s3_client_timeout_ms,
                        old(self).sent_log(),
                        self.status,
                        self.transport.msgs_sent(),
                        self.transport.msgs_rcvd().skip(old(self).transport.msgs_rcvd().len() as int),
                        now,
                    ));
                    assert(tester_present_spec(
                        old(self).spec_status(),
                        old(self).spec_config().s3_client_timeout_ms,
                        old(self).sent_log(),
                        self.status,
                        self.transport.msgs_sent(),
                        self.transport.msgs_rcvd().skip(old(self).transport.msgs_rcvd().len() as int),
                    ));
                }
                return Ok(());
            }
        }
        let mut params: Vec<u8> = Vec::new();
        params.push(0x00);
        let request = UdsRequest { service_id: SID_TESTER_PRESENT, parameters: params };
        match self.send_request(&request) {
            Ok(_resp) => {
                proof {
                    assert(seq![request.service_id] + request.parameters@ =~= seq![
                        SID_TESTER_PRESENT,
                        0x00u8,
                    ]);
                }
                self.status.tester_present_sent = true;
                self.status.last_activity = now;
                proof {
                    let after = session_after_timing(
                        old(self).spec_status(),
                        old(self).spec_config().s3_client_timeout_ms,
                        now,
                    );
                    assert(after == old(self).spec_status());
                    assert(tester_present_outcome(
                        old(self).spec_status(),
                        old(self).spec_config().s3_client_timeout_ms,
                        old(self).sent_log(),
                        self.status,
                        self.transport.msgs_sent(),
                        self.transport.msgs_rcvd().skip(old(self).transport.msgs_rcvd().len() as int),
                        now,
                    ));
                    assert(tester_present_spec(
                        old(self).spec_status(),
                        old(self).spec_config().s3_client_timeout_ms,
                        old(self).sent_log(),
                        self.status,
                        self.transport.msgs_sent(),
                        self.transport.msgs_rcvd().skip(old(self).transport.msgs_rcvd().len() as int),
                    ));
                }
                Ok(())
            },
            Err(e) => Err(e),
        }
    }

    /// Unlocks a security level: requests the seed with sub-function
    /// `2·level − 1`, computes the key with the caller's function, sends it
    /// with sub-function `2·level`, and on an empty positive response grants
    /// the level.
    pub fn security_access<F: Fn(&[u8]) -> Vec<u8>>(
        &mut self,
        level: u8,
        key_fn: F,
    ) -> (r: core::result::Result<(), AutomotiveError>)
        requires
            1 <= level <= 0x7e,
            forall|s: &[u8]| #[trigger] call_requires(key_fn, (s,)),
        ensures
            final(self).spec_config() == old(self).spec_config(),
            final(self).spec_is_open() == old(self).spec_is_open(),
            !old(self).spec_is_open() ==> (r matches Err(AutomotiveError::NotInitialized)),
            r is Ok ==> {
                &&& final(self).spec_status().security_level == level
                &&& security_unlock_ok(
                    key_fn,
                    level,
                    old(self).sent_log(),
                    final(self).sent_log(),
                    final(self).rcvd_log().skip(old(self).rcvd_log().len() as int),
                )
            },
    {
        self.handle_session_timing();
        let ghost entry_rcvd = self.transport.msgs_rcvd();
        let mut params: Vec<u8> = Vec::new();
        params.push(2 * level - 1);
        let request = UdsRequest { service_id: SID_SECURITY_ACCESS, parameters: params };
        let seed_resp = match self.send_request(&request) {
            Ok(resp) => resp,
            Err(e) => return Err(e),
        };
        proof {
            assert(seq![request.service_id] + request.parameters@ =~= seq![
                SID_SECURITY_ACCESS,
                (2 * level - 1) as u8,
            ]);
        }
        if seed_resp.data.len() == 0 {
            return Err(AutomotiveError::UdsError("empty seed response".to_owned()));
        }
        let ghost mid_rcvd = self.transport.msgs_rcvd();
        let seed_slice = seed_resp.data.as_slice();
        let key = key_fn(seed_slice);
        let mut key_params: Vec<u8> = Vec::new();
        key_params.push(2 * level);
        append_range(&mut key_params, key.as_slice(), 0, key.len());
        let key_request = UdsRequest { service_id: SID_SECURITY_ACCESS, parameters: key_params };
        let key_resp = match self.send_request(&key_request) {
            Ok(resp) => resp,
            Err(e) => return Err(e),
        };
        proof {
            assert(key@.subrange(0, key@.len() as int) =~= key@);
            assert(seq![key_request.service_id] + key_request.parameters@ =~= seq![
                SID_SECURITY_ACCESS,
                (2 * level) as u8,
            ] + key@);
        }
        if key_resp.data.len() != 0 {
            return Err(AutomotiveError::UdsError("invalid key".to_owned()));
        }
        self.status.security_level = level;
        self.status.last_activity = now_millis();
        proof {
            assert(self.transport.msgs_sent() == security_dialog_sent(
                old(self).sent_log(),
                level,
                key@,
            ));
            let consumed = self.transport.msgs_rcvd().skip(entry_rcvd.len() as int);
            let i = mid_rcvd.len() - entry_rcvd.len();
            assert(self.transport.msgs_rcvd().take(mid_rcvd.len() as int) == mid_rcvd);
            assert(consumed.take(i as int) =~= mid_rcvd.skip(entry_rcvd.len() as int));
            assert(consumed.skip(i as int) =~= self.transport.msgs_rcvd().skip(
                mid_rcvd.len() as int,
            ));
            assert(key_resp.data@ =~= Seq::<u8>::empty());
            assert(seed_dialog(consumed, i as int, seed_slice@));
            assert(call_ensures(key_fn, (seed_slice,), key));
            assert(security_unlock_ok(
                key_fn,
                level,
                old(self).sent_log(),
                self.transport.msgs_sent(),
                consumed,
            ));
        }
        Ok(())
    }

    /// Starts or queries a routine: request `[0x31, sub, routine_id, data]`,
    /// returning the positive response bytes after the sub-function and
    /// identifier echo.
    pub fn routine_control(
        &mut self,
        routine_type: u8,
        routine_id: u16,
        data: &[u8],
    ) -> (r: core::result::Result<Vec<u8>, AutomotiveError>)
        ensures
            final(self).spec_config() == old(self).spec_config(),
            final(self).spec_is_open() == old(self).spec_is_open(),
            !old(self).spec_is_open() ==> (r matches Err(AutomotiveError::NotInitialized)),
            r matches Ok(v) ==> {
                &&& final(self).sent_log() == old(self).sent_log().push(
                    seq![SID_ROUTINE_CONTROL, routine_type] + u16_be(routine_id) + data@,
                )
                &&& {
                    let outcome = dialog_result(
                        final(self).rcvd_log().skip(old(self).rcvd_log().len() as int),
                        SID_ROUTINE_CONTROL,
                    );
                    &&& outcome is Some
                    &&& outcome->Some_0.len() >= 3
                    &&& v@ == outcome->Some_0.skip(3)
                }
            },
    {
        self.handle_session_timing();
        let mut params: Vec<u8> = Vec::new();
        params.push(routine_type);
        push_u16_be(&mut params, routine_id);
        append_range(&mut params, data, 0, data.len());
        let request = UdsRequest { service_id: SID_ROUTINE_CONTROL, parameters: params };
        let response = match self.send_request(&request) {
            Ok(resp) => resp,
            Err(e) => return Err(e),
        };
        proof {
            assert(data@.subrange(0, data@.len() as int) =~= data@);
            assert(seq![request.service_id] + request.parameters@ =~= seq![
                SID_ROUTINE_CONTROL,
                routine_type,
            ] + u16_be(routine_id) + data@);
        }
        if response.data.len() < 3 {
            return Err(AutomotiveError::UdsError("routine control failed".to_owned()));
        }
        let mut out: Vec<u8> = Vec::new();
        append_range(&mut out, response.data.as_slice(), 3, response.data.len());
        proof {
            assert(out@ =~= response.data@.skip(3));
        }
        Ok(out)
    }

    /// Controls an input/output: request `[0x2F, did, parameter, state]`,
    /// returning the positive response bytes after the identifier and
    /// parameter echo (empty when the response is empty).
    pub fn io_control(
        &mut self,
        did: u16,
        control_param: u8,
        control_state: &[u8],
    ) -> (r: core::result::Result<Vec<u8>, AutomotiveError>)
        ensures
            final(self).spec_config() == old(self).spec_config(),
            final(self).spec_is_open() == old(self).spec_is_open(),
            !old(self).spec_is_open() ==> (r matches Err(AutomotiveError::NotInitialized)),
            r matches Ok(v) ==> {
                &&& final(self).sent_log() == old(self).sent_log().push(
                    seq![SID_INPUT_OUTPUT_CONTROL_BY_ID] + u16_be(did) + seq![control_param]
                        + control_state@,
                )
                &&& {
                    let outcome = dialog_result(
                        final(self).rcvd_log().skip(old(self).rcvd_log().len() as int),
                        SID_INPUT_OUTPUT_CONTROL_BY_ID,
                    );
                    &&& outcome is Some
                    &&& (outcome->Some_0.len() == 0 ==> v@.len() == 0)
                    &&& (outcome->Some_0.len() >= 3 ==> v@ == outcome->Some_0.skip(3))
                }
            },
    {
        self.handle_session_timing();
        let mut params: Vec<u8> = Vec::new();
        push_u16_be(&mut params, did);
        params.push(control_param);
        append_range(&mut params, control_state, 0, control_state.len());
        let request = UdsRequest { service_id: SID_INPUT_OUTPUT_CONTROL_BY_ID, parameters: params };
        let response = match self.send_request(&request) {
            Ok(resp) => resp,
            Err(e) => return Err(e),
        };
        proof {
            assert(control_state@.subrange(0, control_state@.len() as int) =~= control_state@);
            assert(seq![request.service_id] + request.parameters@ =~= seq![
                SID_INPUT_OUTPUT_CONTROL_BY_ID,
            ] + u16_be(did) + seq![control_param] + control_state@);
        }
        if response.data.len() == 0 {
            return Ok(Vec::new());
        }
        if response.data.len() < 3 {
            return Err(AutomotiveError::InvalidParameter);
        }
        let mut out: Vec<u8> = Vec::new();
        append_range(&mut out, response.data.as_slice(), 3, response.data.len());
        proof {
            assert(out@ =~= response.data@.skip(3));
        }
        Ok(out)
    }

    /// Reads memory by address: request `[0x23, 4, 2, address, size]` with a
    /// 4-byte address and 2-byte size, both big-endian; the non-empty
    /// positive response bytes are the memory contents.
    pub fn read_memory(&mut self, address: u32, size: u16) -> (r: core::result::Result<
        Vec<u8>,
        AutomotiveError,
    >)
        ensures
            final(self).spec_config() == old(self).spec_config(),
            final(self).spec_is_open() == old(self).spec_is_open(),
            !old(self).spec_is_open() ==> (r matches Err(AutomotiveError::NotInitialized)),
            r matches Ok(v) ==> {
                &&& final(self).sent_log() == old(self).sent_log().push(
                    seq![SID_READ_MEMORY_BY_ADDRESS, 4u8, 2u8] + u32_be(address) + u16_be(size),
                )
                &&& dialog_result(
                    final(self).rcvd_log().skip(old(self).rcvd_log().len() as int),
                    SID_READ_MEMORY_BY_ADDRESS,
                ) == Some(v@)
                &&& v@.len() >= 1
            },
    {
        self.handle_session_timing();
        let mut params: Vec<u8> = Vec::new();
        params.push(4);
        params.push(2);
        push_u32_be(&mut params, address);
        push_u16_be(&mut params, size);
        let request = UdsRequest { service_id: SID_READ_MEMORY_BY_ADDRESS, parameters: params };
        let response = match self.send_request(&request) {
            Ok(resp) => resp,
            Err(e) => return Err(e),
        };
        proof {
            assert(seq![request.service_id] + request.parameters@ =~= seq![
                SID_READ_MEMORY_BY_ADDRESS,
                4u8,
                2u8,
            ] + u32_be(address) + u16_be(size));
        }
        if response.data.len() == 0 {
            return Err(AutomotiveError::UdsError("memory read failed".to_owned()));
        }
        Ok(response.data)
    }

    /// Writes memory by address: request `[0x3D, 4, 2, address, size, data]`
    /// with a 4-byte address and 2-byte size, both big-endian; any positive
    /// response accepts.
    pub fn write_memory(&mut self, address: u32, data: &[u8]) -> (r: core::result::Result<
        (),
        AutomotiveError,
    >)
        requires
            data@.len() <= 0xffff,
        ensures
            final(self).spec_config() == old(self).spec_config(),
            final(self).spec_is_open() == old(self).spec_is_open(),
            !old(self).spec_is_open() ==> (r matches Err(AutomotiveError::NotInitialized)),
            r is Ok ==> {
                &&& final(self).sent_log() == old(self).sent_log().push(
                    seq![SID_WRITE_MEMORY_BY_ADDRESS, 4u8, 2u8] + u32_be(address) + u16_be(
                        data@.len() as u16,
                    ) + data@,
                )
                &&& dialog_result(
                    final(self).rcvd_log().skip(old(self).rcvd_log().len() as int),
                    SID_WRITE_MEMORY_BY_ADDRESS,
                ) is Some
            },
    {
        self.handle_session_timing();
        let mut params: Vec<u8> = Vec::new();
        params.push(4);
        params.push(2);
        push_u32_be(&mut params, address);
        push_u16_be(&mut params, data.len() as u16);
        append_range(&mut params, data, 0, data.len());
        let request = UdsRequest { service_id: SID_WRITE_MEMORY_BY_ADDRESS, parameters: params };
        match self.send_request(&request) {
            Ok(_resp) => {
                proof {
                    assert(data@.subrange(0, data@.len() as int) =~= data@);
                    assert(seq![request.service_id] + request.parameters@ =~= seq![
                        SID_WRITE_MEMORY_BY_ADDRESS,
                        4u8,
                        2u8,
                    ] + u32_be(address) + u16_be(data@.len() as u16) + data@);
                }
                Ok(())
            },
            Err(e) => Err(e),
        }
    }
}


// ---------------------------------------------------------------------------
// Download: RequestDownload, TransferData, RequestTransferExit.
// ---------------------------------------------------------------------------

/// A value that can stand as the address or the size of a download request:
/// it contributes a fixed number of big-endian bytes.
pub trait TransferAddressOrSize {
    /// The big-endian bytes this value contributes to the request.
    spec fn spec_bytes(&self) -> Seq<u8>;

    /// The number of bytes contributed (1..=8).
    fn byte_count(&self) -> (n: u8)
        ensures
            n as int == self.spec_bytes().len(),
            1 <= n <= 8,
    ;

    /// Appends the value's bytes, big-endian.
    fn append_to_vec(&self, out: &mut Vec<u8>)
        ensures
            final(out)@ == old(out)@ + self.spec_bytes(),
    ;
}

impl TransferAddressOrSize for u8 {
    open spec fn spec_bytes(&self) -> Seq<u8> {
        seq![*self]
    }

    fn byte_count(&self) -> (n: u8) {
        1
    }

    fn append_to_vec(&self, out: &mut Vec<u8>) {
        out.push(*self);
        proof {
            assert(out@ =~= old(out)@ + self.spec_bytes());
        }
    }
}

impl TransferAddressOrSize for u16 {
    open spec fn spec_bytes(&self) -> Seq<u8> {
        u16_be(*self)
    }

    fn byte_count(&self) -> (n: u8) {
        2
    }

    fn append_to_vec(&self, out: &mut Vec<u8>) {
        push_u16_be(out, *self);
    }
}

impl TransferAddressOrSize for u32 {
    open spec fn spec_bytes(&self) -> Seq<u8> {
        u32_be(*self)
    }

    fn byte_count(&self) -> (n: u8) {
        4
    }

    fn append_to_vec(&self, out: &mut Vec<u8>) {
        push_u32_be(out, *self);
    }
}

impl TransferAddressOrSize for u64 {
    open spec fn spec_bytes(&self) -> Seq<u8> {
        crate::bytes::u64_be(*self)
    }

    fn byte_count(&self) -> (n: u8) {
        8
    }

    fn append_to_vec(&self, out: &mut Vec<u8>) {
        crate::bytes::push_u64_be(out, *self);
    }
}

/// Rejection returned by a transfer-data validator.
#[derive(Debug)]
pub struct ValidatonError;

/// The block sequence counter following `s`, wrapping at 255.
pub open spec fn wrap_inc(s: u8) -> u8 {
    if s == 255 {
        0
    } else {
        (s + 1) as u8
    }
}

/// The TransferData requests that carry `data` in blocks of `block` payload
/// bytes, with block sequence counters starting at `sn`.
pub open spec fn transfer_blocks(data: Seq<u8>, block: int, sn: u8) -> Seq<Seq<u8>>
    decreases data.len(),
    when block >= 1
{
    if data.len() == 0 {
        Seq::empty()
    } else if data.len() <= block {
        seq![seq![SID_TRANSFER_DATA, sn] + data]
    } else {
        seq![seq![SID_TRANSFER_DATA, sn] + data.take(block)] + transfer_blocks(
            data.skip(block),
            block,
            wrap_inc(sn),
        )
    }
}

/// One accepted TransferData exchange: the consumed responses form a
/// dialog whose positive outcome echoes the block counter, and the caller's
/// validator accepted the sent payload together with the response tail.
pub open spec fn transfer_step_ok<
    F: Fn(Vec<u8>, Vec<u8>) -> core::result::Result<(), ValidatonError>,
>(validator: F, chunk: Seq<u8>, sn: u8, consumed: Seq<Seq<u8>>) -> bool {
    match dialog_result(consumed, SID_TRANSFER_DATA) {
        Some(resp) => {
            &&& resp.len() >= 1
            &&& resp[0] == sn
            &&& exists|cv: Vec<u8>, tv: Vec<u8>, res: core::result::Result<(), ValidatonError>|
                #![trigger call_ensures(validator, (cv, tv), res)]
                {
                    &&& cv@ == chunk
                    &&& tv@ == resp.skip(1)
                    &&& res is Ok
                    &&& call_ensures(validator, (cv, tv), res)
                }
        },
        None => false,
    }
}

/// The whole download dialog over the consumed responses: block by block,
/// each exchange was accepted as [`transfer_step_ok`] prescribes, and the
/// closing transfer-exit dialog ended in an empty positive response.
pub open spec fn transfer_dialog_ok<
    F: Fn(Vec<u8>, Vec<u8>) -> core::result::Result<(), ValidatonError>,
>(validator: F, data: Seq<u8>, block: int, sn: u8, consumed: Seq<Seq<u8>>) -> bool
    decreases data.len(),
    when block >= 1
{
    if data.len() == 0 {
        dialog_result(consumed, SID_REQUEST_TRANSFER_EXIT) == Some(Seq::<u8>::empty())
    } else {
        let chunk_len = if data.len() <= block {
            data.len() as int
        } else {
            block
        };
        exists|i: int|
            {
                &&& 0 < i <= consumed.len()
                &&& transfer_step_ok(validator, data.take(chunk_len), sn, #[trigger] consumed.take(i))
                &&& transfer_dialog_ok(
                    validator,
                    data.skip(chunk_len),
                    block,
                    wrap_inc(sn),
                    consumed.skip(i),
                )
            }
    }
}

/// The payload bytes one TransferData block can carry for a negotiated
/// maximum message length: the length minus the SID and counter bytes,
/// clamped to the address space.
pub open spec fn block_payload_len(mbs: u64) -> int {
    if mbs - 2 > usize::MAX {
        usize::MAX as int
    } else {
        mbs - 2
    }
}

/// A download in progress: carries the maximum block length granted by
/// RequestDownload and drives TransferData over the engine.
#[derive(Debug, Clone, Copy)]
pub struct Downloader {
    max_block_size: u64,
}

impl Downloader {
    /// The maximum message length the server granted (SID and counter
    /// included).
    pub closed spec fn spec_max_block_size(&self) -> u64 {
        self.max_block_size
    }

    /// Wraps a granted maximum block length.
    pub fn new(max_block_size: u64) -> (r: Self)
        requires
            max_block_size > 2,
        ensures
            r.spec_max_block_size() == max_block_size,
    {
        Downloader { max_block_size }
    }

    /// The maximum message length the server granted.
    pub fn max_block_size(&self) -> (n: u64)
        ensures
            n == self.spec_max_block_size(),
    {
        self.max_block_size
    }

    /// Transfers `data` in blocks: each block is sent as
    /// `[0x36, counter, payload]` with the counter starting at 1 and
    /// wrapping, the response must echo the counter, and the caller's
    /// validator must accept each `(sent payload, response tail)` pair;
    /// when the data is exhausted, `[0x37]` ends the download and its
    /// positive response must be empty.
    pub fn transfer_data<T: IsoTpTransport, F: Fn(Vec<u8>, Vec<u8>) -> core::result::Result<
        (),
        ValidatonError,
    >>(
        self,
        uds: &mut Uds<T>,
        data: &[u8],
        validator: F,
    ) -> (r: core::result::Result<(), AutomotiveError>)
        requires
            self.spec_max_block_size() > 2,
            forall|a: (Vec<u8>, Vec<u8>)| #[trigger] call_requires(validator, a),
        ensures
            final(uds).spec_config() == old(uds).spec_config(),
            final(uds).spec_is_open() == old(uds).spec_is_open(),
            final(uds).spec_status() == old(uds).spec_status(),
            !old(uds).spec_is_open() ==> (r matches Err(AutomotiveError::NotInitialized)),
            r is Ok ==> final(uds).sent_log() == old(uds).sent_log() + transfer_blocks(
                data@,
                block_payload_len(self.spec_max_block_size()),
                1,
            ) + seq![seq![SID_REQUEST_TRANSFER_EXIT]],
            r is Ok ==> transfer_dialog_ok(
                validator,
                data@,
                block_payload_len(self.spec_max_block_size()),
                1,
                final(uds).rcvd_log().skip(old(uds).rcvd_log().len() as int),
            ),
    {
        let block: usize = if self.max_block_size - 2 > (usize::MAX as u64) {
            usize::MAX
        } else {
            (self.max_block_size - 2) as usize
        };
        let ghost blk = block_payload_len(self.max_block_size);
        proof {
            assert(blk == block as int);
        }
        let ghost entry_sent = uds.transport.msgs_sent();
        let ghost entry_rcvd = uds.transport.msgs_rcvd();
        let mut index: usize = 0;
        let mut sn: u8 = 1;
        proof {
            assert(data@.skip(0) =~= data@);
            assert(uds.transport.msgs_rcvd().skip(entry_rcvd.len() as int)
                =~= Seq::<Seq<u8>>::empty());
        }
        while index < data.len()
            invariant
                uds.is_open == old(uds).is_open,
                uds.config == old(uds).config,
                uds.status == old(uds).status,
                block >= 1,
                blk == block as int,
                index <= data@.len(),
                entry_sent == old(uds).transport.msgs_sent(),
                entry_rcvd == old(uds).transport.msgs_rcvd(),
                uds.transport.msgs_rcvd().len() >= entry_rcvd.len(),
                uds.transport.msgs_rcvd().take(entry_rcvd.len() as int) == entry_rcvd,
                uds.transport.msgs_sent() + transfer_blocks(data@.skip(index as int), blk, sn)
                    =~= entry_sent + transfer_blocks(data@, blk, 1),
                forall|rest: Seq<Seq<u8>>|
                    #[trigger] transfer_dialog_ok(validator, data@.skip(index as int), blk, sn, rest)
                        ==> transfer_dialog_ok(
                        validator,
                        data@,
                        blk,
                        1,
                        uds.transport.msgs_rcvd().skip(entry_rcvd.len() as int) + rest,
                    ),
                forall|a: (Vec<u8>, Vec<u8>)| #[trigger] call_requires(validator, a),
            decreases data@.len() - index,
        {
            let remaining = data.len() - index;
            let chunk = if remaining < block {
                remaining
            } else {
                block
            };
            let mut params: Vec<u8> = Vec::new();
            params.push(sn);
            append_range(&mut params, data, index, index + chunk);
            let request = UdsRequest { service_id: SID_TRANSFER_DATA, parameters: params };
            let ghost rest = data@.skip(index as int);
            proof {
                assert(seq![request.service_id] + request.parameters@ =~= seq![
                    SID_TRANSFER_DATA,
                    sn,
                ] + data@.subrange(index as int, (index + chunk) as int));
                if rest.len() <= blk {
                    assert(rest =~= data@.subrange(index as int, (index + chunk) as int));
                    assert(data@.skip((index + chunk) as int) =~= Seq::<u8>::empty());
                } else {
                    assert(rest.take(blk) =~= data@.subrange(index as int, (index + chunk) as int));
                    assert(rest.skip(blk) =~= data@.skip((index + chunk) as int));
                }
            }
            let ghost rcvd_before = uds.transport.msgs_rcvd();
            let resp = match uds.send_request(&request) {
                Ok(resp) => resp,
                Err(e) => return Err(e),
            };
            if resp.data.len() == 0 {
                return Err(AutomotiveError::UdsError("transfer data failed".to_owned()));
            }
            if resp.data[0] != sn {
                return Err(
                    AutomotiveError::UdsError("transfer data sequence mismatch".to_owned()),
                );
            }
            let mut sent_chunk: Vec<u8> = Vec::new();
            append_range(&mut sent_chunk, data, index, index + chunk);
            let mut tail: Vec<u8> = Vec::new();
            append_range(&mut tail, resp.data.as_slice(), 1, resp.data.len());
            let ghost gchunk = sent_chunk;
            let ghost gtail = tail;
            let vres = validator(sent_chunk, tail);
            match &vres {
                Ok(()) => (),
                Err(_) => {
                    return Err(AutomotiveError::UdsError("validation error".to_owned()));
                },
            }
            proof {
                let seg = uds.transport.msgs_rcvd().skip(rcvd_before.len() as int);
                let consumed_old_v = rcvd_before.skip(entry_rcvd.len() as int);
                let consumed_new_v = uds.transport.msgs_rcvd().skip(entry_rcvd.len() as int);
                assert(consumed_new_v =~= consumed_old_v + seg);
                assert(vres is Ok);
                assert(call_ensures(validator, (gchunk, gtail), vres));
                assert(gchunk@ =~= data@.subrange(index as int, (index + chunk) as int));
                assert(gtail@ =~= resp.data@.skip(1));
                let ghost chunk_len = if rest.len() <= blk {
                    rest.len() as int
                } else {
                    blk
                };
                assert(rest.take(chunk_len) =~= data@.subrange(
                    index as int,
                    (index + chunk) as int,
                ));
                assert(transfer_step_ok(validator, rest.take(chunk_len), sn, seg));
                assert(rest.skip(chunk_len) =~= data@.skip((index + chunk) as int));
                assert forall|r2: Seq<Seq<u8>>|
                    #[trigger] transfer_dialog_ok(
                        validator,
                        data@.skip((index + chunk) as int),
                        blk,
                        wrap_inc(sn),
                        r2,
                    ) implies transfer_dialog_ok(
                    validator,
                    data@,
                    blk,
                    1,
                    consumed_new_v + r2,
                ) by {
                    let mid = seg + r2;
                    assert(mid.take(seg.len() as int) =~= seg);
                    assert(mid.skip(seg.len() as int) =~= r2);
                    assert(transfer_dialog_ok(validator, rest.skip(chunk_len), blk, wrap_inc(sn), r2));
                    assert(transfer_dialog_ok(validator, rest, blk, sn, mid));
                    assert(consumed_old_v + mid =~= consumed_new_v + r2);
                }
            }
            proof {
                let blocks_rest = transfer_blocks(data@.skip((index + chunk) as int), blk, wrap_inc(sn));
                assert(transfer_blocks(rest, blk, sn) =~= seq![
                    seq![SID_TRANSFER_DATA, sn] + data@.subrange(
                        index as int,
                        (index + chunk) as int,
                    ),
                ] + blocks_rest);
                assert(uds.transport.msgs_sent() + blocks_rest =~= entry_sent + transfer_blocks(
                    data@,
                    blk,
                    1,
                ));
            }
            index += chunk;
            sn = if sn == 255 {
                0
            } else {
                sn + 1
            };
        }
        let request = UdsRequest { service_id: SID_REQUEST_TRANSFER_EXIT, parameters: Vec::new() };
        let ghost rcvd_before_exit = uds.transport.msgs_rcvd();
        let resp = match uds.send_request(&request) {
            Ok(resp) => resp,
            Err(e) => return Err(e),
        };
        if resp.data.len() != 0 {
            return Err(AutomotiveError::UdsError("request transfer exit failed".to_owned()));
        }
        proof {
            assert(data@.skip(index as int) =~= Seq::<u8>::empty());
            assert(transfer_blocks(Seq::<u8>::empty(), blk, sn) =~= Seq::<Seq<u8>>::empty());
            assert(seq![request.service_id] + request.parameters@ =~= seq![
                SID_REQUEST_TRANSFER_EXIT,
            ]);
            assert(uds.transport.msgs_sent() =~= entry_sent + transfer_blocks(data@, blk, 1)
                + seq![seq![SID_REQUEST_TRANSFER_EXIT]]);
            let seg_exit = uds.transport.msgs_rcvd().skip(rcvd_before_exit.len() as int);
            let consumed_old_v = rcvd_before_exit.skip(entry_rcvd.len() as int);
            let consumed_final = uds.transport.msgs_rcvd().skip(entry_rcvd.len() as int);
            assert(consumed_final =~= consumed_old_v + seg_exit);
            assert(resp.data@ =~= Seq::<u8>::empty());
            assert(transfer_dialog_ok(validator, data@.skip(index as int), blk, sn, seg_exit));
            assert(transfer_dialog_ok(validator, data@, blk, 1, consumed_final));
        }
        Ok(())
    }
}


impl<T: IsoTpTransport> Uds<T> {
    /// Requests a download: request `[0x34, 0x00, alf, address, size]`,
    /// where `alf` packs the address width low and the size width high and
    /// both values follow big-endian. The positive response carries a
    /// length-format byte whose high nibble counts the big-endian bytes of
    /// the maximum message length the server grants; a granted length of at
    /// most 2 (no room for a payload) is rejected as `UdsError`.
    pub fn request_download<A: TransferAddressOrSize, S: TransferAddressOrSize>(
        &mut self,
        address: A,
        size: S,
    ) -> (r: core::result::Result<Downloader, AutomotiveError>)
        ensures
            final(self).spec_config() == old(self).spec_config(),
            final(self).spec_is_open() == old(self).spec_is_open(),
            !old(self).spec_is_open() ==> (r matches Err(AutomotiveError::NotInitialized)),
            r matches Ok(dl) ==> {
                &&& final(self).sent_log() == old(self).sent_log().push(
                    seq![
                        SID_REQUEST_DOWNLOAD,
                        0u8,
                        (address.spec_bytes().len() + 16 * size.spec_bytes().len()) as u8,
                    ] + address.spec_bytes() + size.spec_bytes(),
                )
                &&& {
                    let outcome = dialog_result(
                        final(self).rcvd_log().skip(old(self).rcvd_log().len() as int),
                        SID_REQUEST_DOWNLOAD,
                    );
                    &&& outcome is Some
                    &&& outcome->Some_0.len() >= 1
                    &&& dl.spec_max_block_size() > 2
                    &&& dl.spec_max_block_size() as int == be_value(
                        outcome->Some_0.subrange(1, 1 + outcome->Some_0[0] / 16),
                    )
                }
            },
    {
        self.handle_session_timing();
        let data_format: u8 = 0;
        let a_count = address.byte_count();
        let s_count = size.byte_count();
        let alf: u8 = a_count + 16 * s_count;
        let mut params: Vec<u8> = Vec::new();
        params.push(data_format);
        params.push(alf);
        address.append_to_vec(&mut params);
        size.append_to_vec(&mut params);
        let request = UdsRequest { service_id: SID_REQUEST_DOWNLOAD, parameters: params };
        let response = match self.send_request(&request) {
            Ok(resp) => resp,
            Err(e) => return Err(e),
        };
        proof {
            assert(seq![request.service_id] + request.parameters@ =~= seq![
                SID_REQUEST_DOWNLOAD,
                0u8,
                (address.spec_bytes().len() + 16 * size.spec_bytes().len()) as u8,
            ] + address.spec_bytes() + size.spec_bytes());
        }
        if response.data.len() == 0 {
            return Err(AutomotiveError::UdsError("download refused".to_owned()));
        }
        let count = (response.data[0] / 16) as usize;
        if count == 0 || count > 8 {
            return Err(AutomotiveError::InvalidData);
        }
        if response.data.len() < 1 + count {
            return Err(AutomotiveError::InvalidData);
        }
        let val = be_value_of(response.data.as_slice(), 1, 1 + count);
        if val <= 2 {
            return Err(AutomotiveError::UdsError("invalid maximum block size".to_owned()));
        }
        Ok(Downloader { max_block_size: val })
    }
}


impl<T: IsoTpTransport> crate::application::ApplicationLayer for Uds<T> {
    type Config = UdsConfig;

    type Request = UdsRequest;

    type Response = UdsResponse;

    /// A UDS engine cannot exist without a transport; use `with_transport`.
    fn new(config: UdsConfig) -> (r: core::result::Result<Self, AutomotiveError>) {
        Err(AutomotiveError::NotInitialized)
    }

    fn open(&mut self) -> (r: core::result::Result<(), AutomotiveError>) {
        Uds::open(self)
    }

    fn close(&mut self) -> (r: core::result::Result<(), AutomotiveError>) {
        Uds::close(self)
    }

    fn send_request(&mut self, request: &UdsRequest) -> (r: core::result::Result<
        UdsResponse,
        AutomotiveError,
    >) {
        Uds::send_request(self, request)
    }

    fn set_timeout(&mut self, timeout_ms: u32) -> (r: core::result::Result<
        (),
        AutomotiveError,
    >) {
        Uds::set_timeout(self, timeout_ms)
    }
}

} // verus!
