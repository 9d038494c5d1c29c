//! OBD-II (ISO 15031): mode/PID requests and response decoding.
//!
//! A request is the two bytes `[mode, pid]`; a response echoes a mode and
//! PID byte and carries the reading after them. Mode 3 and mode 10
//! responses are arrays of 2-byte diagnostic trouble code words, decoded by
//! [`dtc_chars`] into five-character codes; [`lemma_dtc_shape`] proves every
//! word decodes to five characters headed by one of P, C, B, U.

use crate::application::ApplicationLayer;
use crate::bytes::append_range;
use crate::error::AutomotiveError;
use crate::transport::IsoTpTransport;
use crate::types::Config;
use vstd::prelude::*;
use vstd::string::StringExecFns;

verus! {

// OBD-II service identifiers (modes).
pub const SID_SHOW_CURRENT_DATA: u8 = 0x01;

pub const SID_SHOW_FREEZE_FRAME: u8 = 0x02;

pub const SID_SHOW_STORED_DTC: u8 = 0x03;

pub const SID_CLEAR_DTC: u8 = 0x04;

pub const SID_O2_TEST_RESULTS: u8 = 0x05;

pub const SID_TEST_RESULTS: u8 = 0x06;

pub const SID_SHOW_PENDING_DTC: u8 = 0x07;

pub const SID_CONTROL_OPERATIONS: u8 = 0x08;

pub const SID_REQUEST_VEHICLE_INFO: u8 = 0x09;

pub const SID_PERMANENT_DTC: u8 = 0x0A;

// OBD-II parameter identifiers.
pub const PID_SUPPORTED_PIDS_01_20: u8 = 0x00;

pub const PID_ENGINE_LOAD: u8 = 0x04;

pub const PID_ENGINE_COOLANT_TEMP: u8 = 0x05;

pub const PID_ENGINE_RPM: u8 = 0x0C;

pub const PID_VEHICLE_SPEED: u8 = 0x0D;

pub const PID_INTAKE_AIR_TEMP: u8 = 0x0F;

pub const PID_MAF_SENSOR: u8 = 0x10;

pub const PID_O2_VOLTAGE: u8 = 0x14;

pub const PID_OBD_STANDARDS: u8 = 0x1C;

pub const PID_FUEL_PRESSURE: u8 = 0x0A;

pub const PID_INTAKE_MAP: u8 = 0x0B;

pub const PID_TIMING_ADVANCE: u8 = 0x0E;

pub const PID_THROTTLE_POS: u8 = 0x11;

pub const PID_FUEL_TYPE: u8 = 0x51;

pub const PID_FUEL_RATE: u8 = 0x5E;

pub const PID_FUEL_PRESSURE_REL: u8 = 0x22;

pub const PID_EGR: u8 = 0x2C;

pub const PID_EVAP_PURGE: u8 = 0x2E;

pub const PID_WARMUPS_SINCE_CLR: u8 = 0x30;

pub const PID_DIST_SINCE_CLR: u8 = 0x31;

pub const PID_EVAP_PRESSURE: u8 = 0x32;

pub const PID_BARO_PRESSURE: u8 = 0x33;

pub const PID_CAT_TEMP_B1S1: u8 = 0x3C;

pub const PID_CAT_TEMP_B2S1: u8 = 0x3E;

pub const PID_CONTROL_MODULE_VOLTAGE: u8 = 0x42;

pub const PID_ABS_LOAD: u8 = 0x43;

pub const PID_COMMANDED_EQUIV_RATIO: u8 = 0x44;

pub const PID_REL_THROTTLE_POS: u8 = 0x45;

pub const PID_AMBIENT_TEMP: u8 = 0x46;

pub const PID_ABS_THROTTLE_POS_B: u8 = 0x47;

pub const PID_ABS_THROTTLE_POS_C: u8 = 0x48;

pub const PID_ACC_PEDAL_POS_D: u8 = 0x49;

pub const PID_ACC_PEDAL_POS_E: u8 = 0x4A;

pub const PID_ACC_PEDAL_POS_F: u8 = 0x4B;

/// An OBD-II request message.
#[derive(Debug, Clone, Copy, PartialEq, Eq, Structural)]
pub struct ObdRequest {
    pub mode: u8,
    pub pid: u8,
}

/// An OBD-II response message: the echoed mode and PID and the reading.
#[derive(Debug, Clone)]
pub struct ObdResponse {
    pub mode: u8,
    pub pid: u8,
    pub data: Vec<u8>,
}

/// OBD-II configuration.
#[derive(Debug, Clone, Copy)]
pub struct ObdConfig {
    /// Receive timeout in milliseconds.
    pub timeout_ms: u32,
    /// Whether readings are decoded into typed values.
    pub auto_format: bool,
}

impl Config for ObdConfig {
    fn validate(&self) -> (r: core::result::Result<(), AutomotiveError>)
        ensures
            r is Ok,
    {
        Ok(())
    }
}

impl Default for ObdConfig {
    fn default() -> (r: Self)
        ensures
            r.timeout_ms == 1000,
            r.auto_format,
    {
        ObdConfig { timeout_ms: 1000, auto_format: true }
    }
}

// ---------------------------------------------------------------------------
// Reading sizes and raw words.
// ---------------------------------------------------------------------------

/// How many reading bytes the decode table needs for a PID: two for the
/// word-sized readings, one otherwise.
pub open spec fn spec_pid_min_len(pid: u8) -> int {
    if pid == PID_ENGINE_RPM || pid == PID_MAF_SENSOR || pid == PID_O2_VOLTAGE || pid
        == PID_CAT_TEMP_B1S1 || pid == PID_CAT_TEMP_B2S1 || pid == PID_CONTROL_MODULE_VOLTAGE
        || pid == PID_ABS_LOAD || pid == PID_COMMANDED_EQUIV_RATIO {
        2
    } else {
        1
    }
}

/// Computes how many reading bytes the decode table needs for a PID.
pub fn pid_min_len(pid: u8) -> (n: usize)
    ensures
        n as int == spec_pid_min_len(pid),
{
    if pid == PID_ENGINE_RPM || pid == PID_MAF_SENSOR || pid == PID_O2_VOLTAGE || pid
        == PID_CAT_TEMP_B1S1 || pid == PID_CAT_TEMP_B2S1 || pid == PID_CONTROL_MODULE_VOLTAGE
        || pid == PID_ABS_LOAD || pid == PID_COMMANDED_EQUIV_RATIO {
        2
    } else {
        1
    }
}

/// Combines the two bytes of a word-sized reading, big-endian.
pub fn raw_word(hi: u8, lo: u8) -> (w: u16)
    ensures
        w as int == hi * 256 + lo,
{
    (hi as u16) * 256 + (lo as u16)
}

// ---------------------------------------------------------------------------
// Diagnostic trouble codes.
// ---------------------------------------------------------------------------

/// The hexadecimal digit character for a value below 16.
pub open spec fn hex_char(n: u8) -> char {
    if n == 0 {
        '0'
    } else if n == 1 {
        '1'
    } else if n == 2 {
        '2'
    } else if n == 3 {
        '3'
    } else if n == 4 {
        '4'
    } else if n == 5 {
        '5'
    } else if n == 6 {
        '6'
    } else if n == 7 {
        '7'
    } else if n == 8 {
        '8'
    } else if n == 9 {
        '9'
    } else if n == 10 {
        'A'
    } else if n == 11 {
        'B'
    } else if n == 12 {
        'C'
    } else if n == 13 {
        'D'
    } else if n == 14 {
        'E'
    } else {
        'F'
    }
}

/// The system letter of a trouble code: the top two bits of its first byte
/// select P, C, B or U.
pub open spec fn dtc_letter(b0: u8) -> char {
    if b0 / 64 == 0 {
        'P'
    } else if b0 / 64 == 1 {
        'C'
    } else if b0 / 64 == 2 {
        'B'
    } else {
        'U'
    }
}

/// The five characters a 2-byte trouble code word decodes to: the system
/// letter, then four hexadecimal digits (a 2-bit digit and three nibbles).
pub open spec fn dtc_chars(b0: u8, b1: u8) -> Seq<char> {
    seq![
        dtc_letter(b0),
        hex_char(((b0 / 16) % 4) as u8),
        hex_char((b0 % 16) as u8),
        hex_char((b1 / 16) as u8),
        hex_char((b1 % 16) as u8),
    ]
}

/// OBD DTC codec law: every 2-byte word decodes to a 5-character code whose
/// first character is one of P, C, B, U.
pub proof fn lemma_dtc_shape(b0: u8, b1: u8)
    ensures
        dtc_chars(b0, b1).len() == 5,
        dtc_chars(b0, b1)[0] == 'P' || dtc_chars(b0, b1)[0] == 'C' || dtc_chars(b0, b1)[0] == 'B'
            || dtc_chars(b0, b1)[0] == 'U',
{
}

/// The hexadecimal digit as a one-character string.
fn hex_char_str(n: u8) -> (r: &'static str)
    requires
        n < 16,
    ensures
        r@ == seq![hex_char(n)],
{
    if n == 0 {
        let s = "0";
        proof {
            reveal_strlit("0");
            assert(s@ =~= seq![hex_char(n)]);
        }
        s
    } else if n == 1 {
        let s = "1";
        proof {
            reveal_strlit("1");
            assert(s@ =~= seq![hex_char(n)]);
        }
        s
    } else if n == 2 {
        let s = "2";
        proof {
            reveal_strlit("2");
            assert(s@ =~= seq![hex_char(n)]);
        }
        s
    } else if n == 3 {
        let s = "3";
        proof {
            reveal_strlit("3");
            assert(s@ =~= seq![hex_char(n)]);
        }
        s
    } else if n == 4 {
        let s = "4";
        proof {
            reveal_strlit("4");
            assert(s@ =~= seq![hex_char(n)]);
        }
        s
    } else if n == 5 {
        let s = "5";
        proof {
            reveal_strlit("5");
            assert(s@ =~= seq![hex_char(n)]);
        }
        s
    } else if n == 6 {
        let s = "6";
        proof {
            reveal_strlit("6");
            assert(s@ =~= seq![hex_char(n)]);
        }
        s
    } else if n == 7 {
        let s = "7";
        proof {
            reveal_strlit("7");
            assert(s@ =~= seq![hex_char(n)]);
        }
        s
    } else if n == 8 {
        let s = "8";
        proof {
            reveal_strlit("8");
            assert(s@ =~= seq![hex_char(n)]);
        }
        s
    } else if n == 9 {
        let s = "9";
        proof {
            reveal_strlit("9");
            assert(s@ =~= seq![hex_char(n)]);
        }
        s
    } else if n == 10 {
        let s = "A";
        proof {
            reveal_strlit("A");
            assert(s@ =~= seq![hex_char(n)]);
        }
        s
    } else if n == 11 {
        let s = "B";
        proof {
            reveal_strlit("B");
            assert(s@ =~= seq![hex_char(n)]);
        }
        s
    } else if n == 12 {
        let s = "C";
        proof {
            reveal_strlit("C");
            assert(s@ =~= seq![hex_char(n)]);
        }
        s
    } else if n == 13 {
        let s = "D";
        proof {
            reveal_strlit("D");
            assert(s@ =~= seq![hex_char(n)]);
        }
        s
    } else if n == 14 {
        let s = "E";
        proof {
            reveal_strlit("E");
            assert(s@ =~= seq![hex_char(n)]);
        }
        s
    } else {
        let s = "F";
        proof {
            reveal_strlit("F");
            assert(s@ =~= seq![hex_char(n)]);
        }
        s
    }
}

/// The system letter as a one-character string.
fn dtc_letter_str(b0: u8) -> (r: &'static str)
    ensures
        r@ == seq![dtc_letter(b0)],
{
    let sel = b0 / 64;
    if sel == 0 {
        let s = "P";
        proof {
            reveal_strlit("P");
            assert(s@ =~= seq![dtc_letter(b0)]);
        }
        s
    } else if sel == 1 {
        let s = "C";
        proof {
            reveal_strlit("C");
            assert(s@ =~= seq![dtc_letter(b0)]);
        }
        s
    } else if sel == 2 {
        let s = "B";
        proof {
            reveal_strlit("B");
            assert(s@ =~= seq![dtc_letter(b0)]);
        }
        s
    } else {
        let s = "U";
        proof {
            reveal_strlit("U");
            assert(s@ =~= seq![dtc_letter(b0)]);
        }
        s
    }
}

/// Decodes one 2-byte trouble code word into its five-character code.
pub fn dtc_string(b0: u8, b1: u8) -> (s: String)
    ensures
        s@ == dtc_chars(b0, b1),
{
    let mut s = String::from_str(dtc_letter_str(b0));
    s.append(hex_char_str((b0 / 16) % 4));
    s.append(hex_char_str(b0 % 16));
    s.append(hex_char_str(b1 / 16));
    s.append(hex_char_str(b1 % 16));
    proof {
        assert(s@ =~= dtc_chars(b0, b1));
    }
    s
}

// ---------------------------------------------------------------------------
// The engine.
// ---------------------------------------------------------------------------

/// The OBD-II engine over a message transport `T`.
pub struct Obd<T: IsoTpTransport> {
    config: ObdConfig,
    transport: T,
    is_open: bool,
}

impl<T: IsoTpTransport> Obd<T> {
    /// The configuration this engine runs with.
    pub closed spec fn spec_config(&self) -> ObdConfig {
        self.config
    }

    /// Whether the engine has been opened.
    pub closed spec fn spec_is_open(&self) -> bool {
        self.is_open
    }

    /// All messages the transport has sent.
    pub closed spec fn sent_log(&self) -> Seq<Seq<u8>> {
        self.transport.msgs_sent()
    }

    /// All messages the transport has handed up.
    pub closed spec fn rcvd_log(&self) -> Seq<Seq<u8>> {
        self.transport.msgs_rcvd()
    }

    /// Creates a new OBD-II engine, still closed, over the given transport.
    pub fn with_transport(config: ObdConfig, transport: T) -> (r: Self)
        ensures
            r.spec_config() == config,
            !r.spec_is_open(),
            r.sent_log() == transport.msgs_sent(),
            r.rcvd_log() == transport.msgs_rcvd(),
    {
        Obd { config, transport, is_open: false }
    }

    /// Opens the engine and the transport beneath it.
    pub fn open(&mut self) -> (r: core::result::Result<(), AutomotiveError>)
        ensures
            final(self).spec_config() == old(self).spec_config(),
            final(self).sent_log() == old(self).sent_log(),
            final(self).rcvd_log() == old(self).rcvd_log(),
            r is Ok ==> final(self).spec_is_open(),
            r is Err ==> final(self).spec_is_open() == old(self).spec_is_open(),
    {
        if self.is_open {
            return Ok(());
        }
        match self.transport.open() {
            Ok(()) => (),
            Err(e) => return Err(e),
        }
        self.is_open = true;
        Ok(())
    }

    /// Closes the engine.
    pub fn close(&mut self) -> (r: core::result::Result<(), AutomotiveError>)
        ensures
            final(self).spec_config() == old(self).spec_config(),
            final(self).sent_log() == old(self).sent_log(),
            final(self).rcvd_log() == old(self).rcvd_log(),
            r is Ok && !final(self).spec_is_open(),
    {
        self.is_open = false;
        Ok(())
    }

    /// Sets the transport receive timeout.
    pub fn set_timeout(&mut self, timeout_ms: u32) -> (r: core::result::Result<
        (),
        AutomotiveError,
    >)
        ensures
            final(self).spec_config() == old(self).spec_config(),
            final(self).spec_is_open() == old(self).spec_is_open(),
            final(self).sent_log() == old(self).sent_log(),
            final(self).rcvd_log() == old(self).rcvd_log(),
            !old(self).spec_is_open() ==> (r matches Err(AutomotiveError::NotInitialized)),
    {
        if !self.is_open {
            return Err(AutomotiveError::NotInitialized);
        }
        self.transport.set_timeout(timeout_ms)
    }

    /// Sends one `[mode, pid]` request and takes one response message,
    /// which must carry at least the mode and PID echo; the reading is
    /// everything after those two bytes.
    pub fn send_request(&mut self, request: &ObdRequest) -> (r: core::result::Result<
        ObdResponse,
        AutomotiveError,
    >)
        ensures
            final(self).spec_config() == old(self).spec_config(),
            final(self).spec_is_open() == old(self).spec_is_open(),
            !old(self).spec_is_open() ==> (r matches Err(AutomotiveError::NotInitialized)),
            r is Ok ==> final(self).sent_log() == old(self).sent_log().push(
                seq![request.mode, request.pid],
            ),
            r matches Ok(resp) ==> {
                &&& final(self).rcvd_log().len() == old(self).rcvd_log().len() + 1
                &&& final(self).rcvd_log() == old(self).rcvd_log().push(
                    final(self).rcvd_log().last(),
                )
                &&& final(self).rcvd_log().last().len() >= 2
                &&& resp.mode == final(self).rcvd_log().last()[0]
                &&& resp.pid == final(self).rcvd_log().last()[1]
                &&& resp.data@ == final(self).rcvd_log().last().skip(2)
            },
    {
        if !self.is_open {
            return Err(AutomotiveError::NotInitialized);
        }
        let mut data: Vec<u8> = Vec::new();
        data.push(request.mode);
        data.push(request.pid);
        proof {
            assert(data@ =~= seq![request.mode, request.pid]);
        }
        match self.transport.send(data.as_slice()) {
            Ok(()) => (),
            Err(e) => return Err(e),
        }
        let msg = match self.transport.receive() {
            Ok(m) => m,
            Err(e) => return Err(e),
        };
        if msg.len() < 2 {
            return Err(AutomotiveError::InvalidParameter);
        }
        let mode = msg[0];
        let pid = msg[1];
        let mut rest: Vec<u8> = Vec::new();
        append_range(&mut rest, msg.as_slice(), 2, msg.len());
        proof {
            assert(rest@ =~= msg@.skip(2));
        }
        Ok(ObdResponse { mode, pid, data: rest })
    }

    /// Reads current sensor data: request `[0x01, pid]`, returning the raw
    /// reading bytes.
    pub fn read_sensor(&mut self, pid: u8) -> (r: core::result::Result<Vec<u8>, AutomotiveError>)
        ensures
            final(self).spec_config() == old(self).spec_config(),
            final(self).spec_is_open() == old(self).spec_is_open(),
            !old(self).spec_is_open() ==> (r matches Err(AutomotiveError::NotInitialized)),
            r matches Ok(v) ==> {
                &&& final(self).sent_log() == old(self).sent_log().push(
                    seq![SID_SHOW_CURRENT_DATA, pid],
                )
                &&& final(self).rcvd_log().len() == old(self).rcvd_log().len() + 1
                &&& final(self).rcvd_log().last().len() >= 2
                &&& v@ == final(self).rcvd_log().last().skip(2)
            },
    {
        let request = ObdRequest { mode: SID_SHOW_CURRENT_DATA, pid };
        match self.send_request(&request) {
            Ok(resp) => Ok(resp.data),
            Err(e) => Err(e),
        }
    }

    /// Reads freeze-frame data: request `[0x02, pid]`; the PID and frame
    /// number echo is skipped, and a reading shorter than the echo yields
    /// an empty result.
    pub fn read_freeze_frame(&mut self, pid: u8, frame: u8) -> (r: core::result::Result<
        Vec<u8>,
        AutomotiveError,
    >)
        ensures
            final(self).spec_config() == old(self).spec_config(),
            final(self).spec_is_open() == old(self).spec_is_open(),
            !old(self).spec_is_open() ==> (r matches Err(AutomotiveError::NotInitialized)),
            r matches Ok(v) ==> {
                &&& final(self).sent_log() == old(self).sent_log().push(
                    seq![SID_SHOW_FREEZE_FRAME, pid],
                )
                &&& final(self).rcvd_log().len() == old(self).rcvd_log().len() + 1
                &&& {
                    let reading = final(self).rcvd_log().last().skip(2);
                    if reading.len() >= 2 {
                        v@ == reading.skip(2)
                    } else {
                        v@.len() == 0
                    }
                }
            },
    {
        let request = ObdRequest { mode: SID_SHOW_FREEZE_FRAME, pid };
        let response = match self.send_request(&request) {
            Ok(resp) => resp,
            Err(e) => return Err(e),
        };
        if response.data.len() >= 2 {
            let mut out: Vec<u8> = Vec::new();
            append_range(&mut out, response.data.as_slice(), 2, response.data.len());
            proof {
                assert(out@ =~= response.data@.skip(2));
            }
            Ok(out)
        } else {
            Ok(Vec::new())
        }
    }

    /// Decodes a reading as 2-byte trouble code words.
    fn decode_dtcs(&self, data: &Vec<u8>) -> (v: Vec<String>)
        ensures
            v@.len() == data@.len() / 2,
            forall|j: int|
                0 <= j < v@.len() ==> v@[j]@ == dtc_chars(data@[2 * j], data@[2 * j + 1]),
    {
        let len = data.len();
        let n = len / 2;
        let mut out: Vec<String> = Vec::new();
        let mut k: usize = 0;
        while k < n
            invariant
                len == data@.len(),
                n == data@.len() / 2,
                k <= n,
                out@.len() == k,
                forall|j: int|
                    0 <= j < out@.len() ==> out@[j]@ == dtc_chars(data@[2 * j], data@[2 * j + 1]),
            decreases n - k,
        {
            proof {
                vstd::arithmetic::div_mod::lemma_fundamental_div_mod(len as int, 2);
                assert(2 * k + 1 < len);
            }
            let s = dtc_string(data[2 * k], data[2 * k + 1]);
            out.push(s);
            k += 1;
        }
        out
    }

    /// Reads the stored trouble codes: request `[0x03, 0x00]`; the reading
    /// is decoded as 2-byte words into five-character codes.
    pub fn read_dtc(&mut self) -> (r: core::result::Result<Vec<String>, AutomotiveError>)
        ensures
            final(self).spec_config() == old(self).spec_config(),
            final(self).spec_is_open() == old(self).spec_is_open(),
            !old(self).spec_is_open() ==> (r matches Err(AutomotiveError::NotInitialized)),
            r matches Ok(v) ==> {
                &&& final(self).sent_log() == old(self).sent_log().push(
                    seq![SID_SHOW_STORED_DTC, 0u8],
                )
                &&& final(self).rcvd_log().len() == old(self).rcvd_log().len() + 1
                &&& {
                    let reading = final(self).rcvd_log().last().skip(2);
                    &&& v@.len() == reading.len() / 2
                    &&& forall|j: int|
                        0 <= j < v@.len() ==> v@[j]@ == dtc_chars(
                            reading[2 * j],
                            reading[2 * j + 1],
                        )
                }
            },
    {
        let request = ObdRequest { mode: SID_SHOW_STORED_DTC, pid: 0 };
        let response = match self.send_request(&request) {
            Ok(resp) => resp,
            Err(e) => return Err(e),
        };
        Ok(self.decode_dtcs(&response.data))
    }

    /// Reads the permanent trouble codes: request `[0x0A, 0x00]`, decoded
    /// like the stored ones.
    pub fn read_permanent_dtc(&mut self) -> (r: core::result::Result<Vec<String>, AutomotiveError>)
        ensures
            final(self).spec_config() == old(self).spec_config(),
            final(self).spec_is_open() == old(self).spec_is_open(),
            !old(self).spec_is_open() ==> (r matches Err(AutomotiveError::NotInitialized)),
            r matches Ok(v) ==> {
                &&& final(self).sent_log() == old(self).sent_log().push(
                    seq![SID_PERMANENT_DTC, 0u8],
                )
                &&& final(self).rcvd_log().len() == old(self).rcvd_log().len() + 1
                &&& {
                    let reading = final(self).rcvd_log().last().skip(2);
                    &&& v@.len() == reading.len() / 2
                    &&& forall|j: int|
                        0 <= j < v@.len() ==> v@[j]@ == dtc_chars(
                            reading[2 * j],
                            reading[2 * j + 1],
                        )
                }
            },
    {
        let request = ObdRequest { mode: SID_PERMANENT_DTC, pid: 0 };
        let response = match self.send_request(&request) {
            Ok(resp) => resp,
            Err(e) => return Err(e),
        };
        Ok(self.decode_dtcs(&response.data))
    }

    /// Clears the stored trouble codes: request `[0x04, 0x00]`; any
    /// response accepts.
    pub fn clear_dtc(&mut self) -> (r: core::result::Result<(), AutomotiveError>)
        ensures
            final(self).spec_config() == old(self).spec_config(),
            final(self).spec_is_open() == old(self).spec_is_open(),
            !old(self).spec_is_open() ==> (r matches Err(AutomotiveError::NotInitialized)),
            r is Ok ==> final(self).sent_log() == old(self).sent_log().push(
                seq![SID_CLEAR_DTC, 0u8],
            ),
    {
        let request = ObdRequest { mode: SID_CLEAR_DTC, pid: 0 };
        match self.send_request(&request) {
            Ok(_resp) => Ok(()),
            Err(e) => Err(e),
        }
    }

    /// Reads vehicle information: request `[0x09, pid]`, returning the raw
    /// reading bytes.
    pub fn read_vehicle_info(&mut self, pid: u8) -> (r: core::result::Result<
        Vec<u8>,
        AutomotiveError,
    >)
        ensures
            final(self).spec_config() == old(self).spec_config(),
            final(self).spec_is_open() == old(self).spec_is_open(),
            !old(self).spec_is_open() ==> (r matches Err(AutomotiveError::NotInitialized)),
            r matches Ok(v) ==> {
                &&& final(self).sent_log() == old(self).sent_log().push(
                    seq![SID_REQUEST_VEHICLE_INFO, pid],
                )
                &&& final(self).rcvd_log().len() == old(self).rcvd_log().len() + 1
                &&& v@ == final(self).rcvd_log().last().skip(2)
            },
    {
        let request = ObdRequest { mode: SID_REQUEST_VEHICLE_INFO, pid };
        match self.send_request(&request) {
            Ok(resp) => Ok(resp.data),
            Err(e) => Err(e),
        }
    }

    /// Reads mode 6 test results: request `[0x06, tid]`, returning the raw
    /// reading bytes.
    pub fn read_test_results(&mut self, tid: u8) -> (r: core::result::Result<
        Vec<u8>,
        AutomotiveError,
    >)
        ensures
            final(self).spec_config() == old(self).spec_config(),
            final(self).spec_is_open() == old(self).spec_is_open(),
            !old(self).spec_is_open() ==> (r matches Err(AutomotiveError::NotInitialized)),
            r matches Ok(v) ==> {
                &&& final(self).sent_log() == old(self).sent_log().push(
                    seq![SID_TEST_RESULTS, tid],
                )
                &&& final(self).rcvd_log().len() == old(self).rcvd_log().len() + 1
                &&& v@ == final(self).rcvd_log().last().skip(2)
            },
    {
        let request = ObdRequest { mode: SID_TEST_RESULTS, pid: tid };
        match self.send_request(&request) {
            Ok(resp) => Ok(resp.data),
            Err(e) => Err(e),
        }
    }

    /// Reads mode 8 control-operation results: request `[0x08, tid]`,
    /// returning the raw reading bytes.
    pub fn read_control_operation(&mut self, tid: u8) -> (r: core::result::Result<
        Vec<u8>,
        AutomotiveError,
    >)
        ensures
            final(self).spec_config() == old(self).spec_config(),
            final(self).spec_is_open() == old(self).spec_is_open(),
            !old(self).spec_is_open() ==> (r matches Err(AutomotiveError::NotInitialized)),
            r matches Ok(v) ==> {
                &&& final(self).sent_log() == old(self).sent_log().push(
                    seq![SID_CONTROL_OPERATIONS, tid],
                )
                &&& final(self).rcvd_log().len() == old(self).rcvd_log().len() + 1
                &&& v@ == final(self).rcvd_log().last().skip(2)
            },
    {
        let request = ObdRequest { mode: SID_CONTROL_OPERATIONS, pid: tid };
        match self.send_request(&request) {
            Ok(resp) => Ok(resp.data),
            Err(e) => Err(e),
        }
    }
}

impl<T: IsoTpTransport> ApplicationLayer for Obd<T> {
    type Config = ObdConfig;

    type Request = ObdRequest;

    type Response = ObdResponse;

    /// An OBD-II engine cannot exist without a transport; use
    /// `with_transport`.
    fn new(config: ObdConfig) -> (r: core::result::Result<Self, AutomotiveError>) {
        Err(AutomotiveError::NotInitialized)
    }

    fn open(&mut self) -> (r: core::result::Result<(), AutomotiveError>) {
        Obd::open(self)
    }

    fn close(&mut self) -> (r: core::result::Result<(), AutomotiveError>) {
        Obd::close(self)
    }

    fn send_request(&mut self, request: &ObdRequest) -> (r: core::result::Result<
        ObdResponse,
        AutomotiveError,
    >) {
        Obd::send_request(self, request)
    }

    fn set_timeout(&mut self, timeout_ms: u32) -> (r: core::result::Result<
        (),
        AutomotiveError,
    >) {
        Obd::set_timeout(self, timeout_ms)
    }
}

} // verus!
