//! LIN: header/response framing with protected identifiers and the classic
//! and enhanced checksums.
//!
//! The parity and checksum rules are captured by [`spec_parity`],
//! [`classic_checksum`] and [`enhanced_checksum`], and the executable
//! functions are proved to compute exactly those values.

use crate::error::AutomotiveError;
use crate::physical::PhysicalLayer;
use crate::transport::TransportLayer;
use crate::types::{Config, Frame, FrameView};
use vstd::prelude::*;

verus! {

/// The LIN synchronisation byte.
pub const LIN_SYNC_BYTE: u8 = 0x55;

/// Mask of the identifier bits within a protected identifier.
pub const LIN_ID_MASK: u8 = 0x3F;

/// Bit position of the first parity bit.
pub const LIN_P0_FLAG: u8 = 6;

/// Bit position of the second parity bit.
pub const LIN_P1_FLAG: u8 = 7;

/// The byte standing for the break field.
pub const LIN_BREAK_BYTE: u8 = 0x00;

/// LIN checksum flavours.
#[derive(Debug, Clone, Copy, PartialEq, Eq, Structural)]
pub enum LinFrameType {
    /// Checksum over the data bytes only.
    Classic,
    /// Checksum over the protected identifier and the data bytes.
    Enhanced,
}

/// LIN schedule slot kinds.
#[derive(Debug, Clone, Copy, PartialEq, Eq, Structural)]
pub enum LinFrameSlot {
    Unconditional,
    Event,
    Sporadic,
    Diagnostic,
}

/// LIN configuration.
#[derive(Debug, Clone, Copy)]
pub struct LinConfig {
    /// Receive timeout in milliseconds.
    pub timeout_ms: u32,
    /// Which checksum the bus uses.
    pub frame_type: LinFrameType,
}

impl Config for LinConfig {
    fn validate(&self) -> (r: core::result::Result<(), AutomotiveError>)
        ensures
            r is Ok,
    {
        Ok(())
    }
}

impl Default for LinConfig {
    fn default() -> (r: Self)
        ensures
            r.timeout_ms == 1000,
            r.frame_type is Classic,
    {
        LinConfig { timeout_ms: 1000, frame_type: LinFrameType::Classic }
    }
}

// ---------------------------------------------------------------------------
// Parity and checksums.
// ---------------------------------------------------------------------------

/// The two parity bits of a protected identifier, in bit positions 6 and 7.
pub open spec fn spec_parity(pid: u8) -> u8 {
    (((pid ^ (pid >> 1) ^ (pid >> 2) ^ (pid >> 4)) & 1) << 6) | ((!((pid >> 1) ^ (pid >> 3) ^ (pid
        >> 4) ^ (pid >> 5)) & 1) << 7)
}

/// The LIN running sum: bytes are added with the carry folded back in.
pub open spec fn lin_sum(s: Seq<u8>, acc: int) -> int
    decreases s.len(),
{
    if s.len() == 0 {
        acc
    } else {
        let x = acc + s[0];
        lin_sum(s.skip(1), if x > 0xFF { x - 0xFF } else { x })
    }
}

/// The classic checksum: the inverted running sum of the data bytes.
pub open spec fn classic_checksum(s: Seq<u8>) -> u8 {
    (255 - (lin_sum(s, 0) % 256)) as u8
}

/// The enhanced checksum: the inverted running sum seeded with the
/// protected identifier.
pub open spec fn enhanced_checksum(pid: u8, s: Seq<u8>) -> u8 {
    (255 - (lin_sum(s, pid as int) % 256)) as u8
}

/// The running sum stays within a byte plus carry.
proof fn lemma_lin_sum_bound(s: Seq<u8>, acc: int)
    requires
        0 <= acc <= 0x100,
    ensures
        0 <= lin_sum(s, acc) <= 0x100,
    decreases s.len(),
{
    if s.len() > 0 {
        let x = acc + s[0];
        lemma_lin_sum_bound(
            s.skip(1),
            if x > 0xFF {
                x - 0xFF
            } else {
                x
            },
        );
    }
}

/// Computes the parity bits of a protected identifier.
pub fn calculate_parity(pid: u8) -> (r: u8)
    ensures
        r == spec_parity(pid),
{
    let p0 = (pid ^ (pid >> 1) ^ (pid >> 2) ^ (pid >> 4)) & 1;
    let p1 = !((pid >> 1) ^ (pid >> 3) ^ (pid >> 4) ^ (pid >> 5)) & 1;
    (p0 << 6) | (p1 << 7)
}

/// The running sum of a byte slice, seeded with `init`.
fn lin_sum_of(data: &[u8], init: u16) -> (sum: u16)
    requires
        init <= 0x100,
    ensures
        sum as int == lin_sum(data@, init as int),
        sum <= 0x100,
{
    let mut sum: u16 = init;
    let mut i: usize = 0;
    proof {
        assert(data@.skip(0) =~= data@);
    }
    while i < data.len()
        invariant
            i <= data@.len(),
            sum <= 0x100,
            lin_sum(data@.skip(i as int), sum as int) == lin_sum(data@, init as int),
        decreases data@.len() - i,
    {
        let ghost pre = data@.skip(i as int);
        let b = data[i];
        sum = sum + (b as u16);
        if sum > 0xFF {
            sum = sum - 0xFF;
        }
        proof {
            assert(pre[0] == data@[i as int]);
            assert(pre.skip(1) =~= data@.skip(i as int + 1));
        }
        i += 1;
    }
    proof {
        assert(data@.skip(data@.len() as int) =~= Seq::<u8>::empty());
    }
    sum
}

/// Computes the classic checksum of the data bytes.
pub fn calculate_classic_checksum(data: &[u8]) -> (r: u8)
    ensures
        r == classic_checksum(data@),
{
    proof {
        lemma_lin_sum_bound(data@, 0);
    }
    let sum = lin_sum_of(data, 0);
    let low = (sum % 256) as u8;
    255 - low
}

/// Computes the enhanced checksum of the protected identifier and the data
/// bytes.
pub fn calculate_enhanced_checksum(pid: u8, data: &[u8]) -> (r: u8)
    ensures
        r == enhanced_checksum(pid, data@),
{
    proof {
        lemma_lin_sum_bound(data@, pid as int);
    }
    let sum = lin_sum_of(data, pid as u16);
    let low = (sum % 256) as u8;
    255 - low
}

/// Concatenation of the payloads of a frame sequence.
pub open spec fn concat_data(frames: Seq<FrameView>) -> Seq<u8>
    decreases frames.len(),
{
    if frames.len() == 0 {
        Seq::empty()
    } else {
        frames[0].data + concat_data(frames.skip(1))
    }
}

proof fn lemma_concat_data_push(frames: Seq<FrameView>, f: FrameView)
    ensures
        concat_data(frames.push(f)) == concat_data(frames) + f.data,
    decreases frames.len(),
{
    let p = frames.push(f);
    if frames.len() == 0 {
        assert(p[0] == f);
        assert(p.skip(1) =~= Seq::<FrameView>::empty());
        assert(concat_data(p) == f.data + concat_data(Seq::<FrameView>::empty()));
        assert(f.data + Seq::<u8>::empty() =~= Seq::<u8>::empty() + f.data);
    } else {
        assert(p[0] == frames[0]);
        assert(p.skip(1) =~= frames.skip(1).push(f));
        lemma_concat_data_push(frames.skip(1), f);
        assert(concat_data(p) == frames[0].data + (concat_data(frames.skip(1)) + f.data));
        assert(frames[0].data + (concat_data(frames.skip(1)) + f.data) =~= (frames[0].data
            + concat_data(frames.skip(1))) + f.data);
    }
}

// ---------------------------------------------------------------------------
// The transport.
// ---------------------------------------------------------------------------

/// One acceptable outcome of `read_response`: the returned bytes are the
/// concatenated payloads of the first `k` consumed frames, and when a
/// non-empty frame followed them, its first byte is their checksum.
pub open spec fn lin_response_ok(
    consumed: Seq<FrameView>,
    ft: LinFrameType,
    v: Seq<u8>,
    k: int,
) -> bool {
    &&& 0 <= k <= consumed.len()
    &&& v == concat_data(consumed.take(k))
    &&& (k < consumed.len() && consumed[k].data.len() > 0 ==> consumed[k].data[0] == (
    if ft is Enhanced {
        enhanced_checksum(0, v)
    } else {
        classic_checksum(v)
    }))
}

/// The full outcome relation of `read_response`: some split of the consumed
/// frames explains the returned bytes.
pub open spec fn lin_response_spec(consumed: Seq<FrameView>, ft: LinFrameType, v: Seq<u8>) -> bool {
    exists|k: int| lin_response_ok(consumed, ft, v, k)
}

/// A single-byte LIN wire frame.
pub open spec fn lin_byte_frame(b: u8) -> FrameView {
    FrameView { id: 0, data: seq![b], timestamp: 0, is_extended: false, is_fd: false }
}

/// The LIN transport over a physical layer `P`.
pub struct Lin<P: PhysicalLayer> {
    config: LinConfig,
    physical: P,
    is_open: bool,
}

impl<P: PhysicalLayer> Lin<P> {
    /// The configuration this transport runs with.
    pub closed spec fn spec_config(&self) -> LinConfig {
        self.config
    }

    /// Whether the transport has been opened.
    pub closed spec fn spec_is_open(&self) -> bool {
        self.is_open
    }

    /// All frames the underlying physical layer has sent.
    pub closed spec fn wire_sent(&self) -> Seq<FrameView> {
        self.physical.frames_sent()
    }

    /// All frames the underlying physical layer has handed up.
    pub closed spec fn wire_rcvd(&self) -> Seq<FrameView> {
        self.physical.frames_rcvd()
    }

    /// Creates a new LIN transport, still closed, over the given physical
    /// layer.
    pub fn with_physical(config: LinConfig, physical: P) -> (r: Self)
        ensures
            r.spec_config() == config,
            !r.spec_is_open(),
            r.wire_sent() == physical.frames_sent(),
            r.wire_rcvd() == physical.frames_rcvd(),
    {
        Lin { config, physical, is_open: false }
    }

    /// Opens the transport: configures the receive timeout.
    pub fn open(&mut self) -> (r: core::result::Result<(), AutomotiveError>)
        ensures
            final(self).spec_config() == old(self).spec_config(),
            final(self).wire_sent() == old(self).wire_sent(),
            final(self).wire_rcvd() == old(self).wire_rcvd(),
            r is Ok ==> final(self).spec_is_open(),
    {
        if self.is_open {
            return Ok(());
        }
        match self.physical.set_timeout(self.config.timeout_ms) {
            Ok(()) => (),
            Err(e) => return Err(e),
        }
        self.is_open = true;
        Ok(())
    }

    /// Closes the transport.
    pub fn close(&mut self) -> (r: core::result::Result<(), AutomotiveError>)
        ensures
            final(self).spec_config() == old(self).spec_config(),
            final(self).wire_sent() == old(self).wire_sent(),
            final(self).wire_rcvd() == old(self).wire_rcvd(),
            r is Ok && !final(self).spec_is_open(),
    {
        self.is_open = false;
        Ok(())
    }

    /// Sends a LIN header: the break byte, the synchronisation byte, and
    /// the identifier protected with its parity bits.
    pub fn send_header(&mut self, pid: u8) -> (r: core::result::Result<(), AutomotiveError>)
        ensures
            final(self).spec_config() == old(self).spec_config(),
            final(self).spec_is_open() == old(self).spec_is_open(),
            final(self).wire_rcvd() == old(self).wire_rcvd(),
            !old(self).spec_is_open() ==> (r matches Err(AutomotiveError::NotInitialized)),
            r is Ok ==> final(self).wire_sent() == old(self).wire_sent() + seq![
                lin_byte_frame(LIN_BREAK_BYTE),
                lin_byte_frame(LIN_SYNC_BYTE),
                lin_byte_frame(pid | spec_parity(pid)),
            ],
    {
        if !self.is_open {
            return Err(AutomotiveError::NotInitialized);
        }
        let ghost entry = self.physical.frames_sent();
        let mut brk: Vec<u8> = Vec::new();
        brk.push(LIN_BREAK_BYTE);
        let brk_frame = Frame { id: 0, data: brk, timestamp: 0, is_extended: false, is_fd: false };
        proof {
            assert(brk_frame@ == lin_byte_frame(LIN_BREAK_BYTE));
        }
        match self.physical.send_frame(&brk_frame) {
            Ok(()) => (),
            Err(e) => return Err(e),
        }
        let mut sync: Vec<u8> = Vec::new();
        sync.push(LIN_SYNC_BYTE);
        let sync_frame = Frame {
            id: 0,
            data: sync,
            timestamp: 0,
            is_extended: false,
            is_fd: false,
        };
        proof {
            assert(sync_frame@ == lin_byte_frame(LIN_SYNC_BYTE));
        }
        match self.physical.send_frame(&sync_frame) {
            Ok(()) => (),
            Err(e) => return Err(e),
        }
        let parity = calculate_parity(pid);
        let protected = pid | parity;
        let mut pv: Vec<u8> = Vec::new();
        pv.push(protected);
        let pid_frame = Frame { id: 0, data: pv, timestamp: 0, is_extended: false, is_fd: false };
        proof {
            assert(pid_frame@ == lin_byte_frame(pid | spec_parity(pid)));
        }
        match self.physical.send_frame(&pid_frame) {
            Ok(()) => (),
            Err(e) => return Err(e),
        }
        proof {
            assert(self.physical.frames_sent() =~= entry + seq![
                lin_byte_frame(LIN_BREAK_BYTE),
                lin_byte_frame(LIN_SYNC_BYTE),
                lin_byte_frame(pid | spec_parity(pid)),
            ]);
        }
        Ok(())
    }

    /// Sends a LIN response: the data bytes (at most 8), then the checksum
    /// the configured flavour prescribes.
    pub fn send_response(&mut self, pid: u8, data: &[u8]) -> (r: core::result::Result<
        (),
        AutomotiveError,
    >)
        ensures
            final(self).spec_config() == old(self).spec_config(),
            final(self).spec_is_open() == old(self).spec_is_open(),
            final(self).wire_rcvd() == old(self).wire_rcvd(),
            !old(self).spec_is_open() ==> (r matches Err(AutomotiveError::NotInitialized)),
            old(self).spec_is_open() && data@.len() > 8 ==> (r matches Err(
            AutomotiveError::InvalidParameter)),
            r is Ok ==> final(self).wire_sent() == old(self).wire_sent() + seq![
                (FrameView { id: 0, data: data@, timestamp: 0, is_extended: false, is_fd: false }),
                lin_byte_frame(
                    if old(self).spec_config().frame_type is Enhanced {
                        enhanced_checksum(pid, data@)
                    } else {
                        classic_checksum(data@)
                    },
                ),
            ],
    {
        if !self.is_open {
            return Err(AutomotiveError::NotInitialized);
        }
        if data.len() > 8 {
            return Err(AutomotiveError::InvalidParameter);
        }
        let ghost entry = self.physical.frames_sent();
        let mut payload: Vec<u8> = Vec::new();
        crate::bytes::append_range(&mut payload, data, 0, data.len());
        proof {
            assert(payload@ =~= data@);
        }
        let data_frame = Frame {
            id: 0,
            data: payload,
            timestamp: 0,
            is_extended: false,
            is_fd: false,
        };
        match self.physical.send_frame(&data_frame) {
            Ok(()) => (),
            Err(e) => return Err(e),
        }
        let checksum = if self.config.frame_type == LinFrameType::Enhanced {
            calculate_enhanced_checksum(pid, data)
        } else {
            calculate_classic_checksum(data)
        };
        let mut cv: Vec<u8> = Vec::new();
        cv.push(checksum);
        let checksum_frame = Frame {
            id: 0,
            data: cv,
            timestamp: 0,
            is_extended: false,
            is_fd: false,
        };
        match self.physical.send_frame(&checksum_frame) {
            Ok(()) => (),
            Err(e) => return Err(e),
        }
        proof {
            assert(self.physical.frames_sent() =~= entry + seq![
                (FrameView { id: 0, data: data@, timestamp: 0, is_extended: false, is_fd: false }),
                lin_byte_frame(
                    if self.config.frame_type is Enhanced {
                        enhanced_checksum(pid, data@)
                    } else {
                        classic_checksum(data@)
                    },
                ),
            ]);
        }
        Ok(())
    }

    /// Reads a LIN response: collects up to eight data frames (stopping at
    /// an empty frame or a timeout), then reads the checksum frame and
    /// verifies it — with the classic rule, or the enhanced rule seeded
    /// with the null identifier, since the header is not visible here.
    ///
    /// On success the returned bytes are the concatenated payloads of a
    /// prefix of the consumed frames, and when a non-empty frame followed
    /// that prefix, its first byte matched the checksum of those bytes.
    pub fn read_response(&mut self, timeout_ms: u32) -> (r: core::result::Result<
        Vec<u8>,
        AutomotiveError,
    >)
        ensures
            final(self).spec_config() == old(self).spec_config(),
            final(self).spec_is_open() == old(self).spec_is_open(),
            final(self).wire_sent() == old(self).wire_sent(),
            !old(self).spec_is_open() ==> (r matches Err(AutomotiveError::NotInitialized)),
            r matches Ok(v) ==> lin_response_spec(
                final(self).wire_rcvd().skip(old(self).wire_rcvd().len() as int),
                old(self).spec_config().frame_type,
                v@,
            ),
    {
        if !self.is_open {
            return Err(AutomotiveError::NotInitialized);
        }
        let ghost entry = self.physical.frames_rcvd();
        let mut response: Vec<u8> = Vec::new();
        let mut reads: usize = 0;
        let mut stopped = false;
        proof {
            assert(self.physical.frames_rcvd().skip(entry.len() as int)
                =~= Seq::<FrameView>::empty());
        }
        while reads < 8 && !stopped
            invariant
                self.config == old(self).config,
                self.is_open == old(self).is_open,
                self.is_open,
                self.physical.frames_sent() == old(self).physical.frames_sent(),
                entry == old(self).physical.frames_rcvd(),
                entry.len() <= self.physical.frames_rcvd().len(),
                response@ == concat_data(
                    self.physical.frames_rcvd().skip(entry.len() as int),
                ),
            decreases 8 - reads,
        {
            let ghost consumed_old = self.physical.frames_rcvd().skip(entry.len() as int);
            match self.physical.receive_frame() {
                Ok(frame) => {
                    if frame.data.len() == 0 {
                        stopped = true;
                    } else {
                        crate::bytes::append_range(
                            &mut response,
                            frame.data.as_slice(),
                            0,
                            frame.data.len(),
                        );
                    }
                    proof {
                        let consumed_new = self.physical.frames_rcvd().skip(entry.len() as int);
                        assert(consumed_new =~= consumed_old.push(frame@));
                        lemma_concat_data_push(consumed_old, frame@);
                        assert(response@ =~= concat_data(consumed_new));
                    }
                },
                Err(AutomotiveError::Timeout) => {
                    stopped = true;
                },
                Err(e) => {
                    return Err(e);
                },
            }
            reads += 1;
        }
        let ghost data_consumed = self.physical.frames_rcvd().skip(entry.len() as int);
        let ghost kk = data_consumed.len() as int;

        // Read and verify the checksum, if one arrives.
        match self.physical.receive_frame() {
            Ok(frame) => {
                proof {
                    assert(self.physical.frames_rcvd().skip(entry.len() as int)
                        =~= data_consumed.push(frame@));
                }
                if frame.data.len() > 0 {
                    let received = frame.data[0];
                    let expected = if self.config.frame_type == LinFrameType::Enhanced {
                        calculate_enhanced_checksum(0, response.as_slice())
                    } else {
                        calculate_classic_checksum(response.as_slice())
                    };
                    if received != expected {
                        return Err(AutomotiveError::ChecksumError);
                    }
                    proof {
                        let consumed = self.physical.frames_rcvd().skip(entry.len() as int);
                        assert(consumed.take(kk) =~= data_consumed);
                        assert(consumed[kk] == frame@);
                        assert(lin_response_ok(consumed, self.config.frame_type, response@, kk));
                        assert(lin_response_ok(
                            self.physical.frames_rcvd().skip(
                                old(self).physical.frames_rcvd().len() as int,
                            ),
                            old(self).config.frame_type,
                            response@,
                            kk,
                        ));
                        assert(lin_response_spec(
                            self.physical.frames_rcvd().skip(
                                old(self).physical.frames_rcvd().len() as int,
                            ),
                            old(self).config.frame_type,
                            response@,
                        ));
                    }
                    Ok(response)
                } else {
                    proof {
                        let consumed = self.physical.frames_rcvd().skip(entry.len() as int);
                        assert(consumed.take(kk) =~= data_consumed);
                        assert(consumed[kk] == frame@);
                        assert(lin_response_ok(consumed, self.config.frame_type, response@, kk));
                        assert(lin_response_ok(
                            self.physical.frames_rcvd().skip(
                                old(self).physical.frames_rcvd().len() as int,
                            ),
                            old(self).config.frame_type,
                            response@,
                            kk,
                        ));
                        assert(lin_response_spec(
                            self.physical.frames_rcvd().skip(
                                old(self).physical.frames_rcvd().len() as int,
                            ),
                            old(self).config.frame_type,
                            response@,
                        ));
                    }
                    Ok(response)
                }
            },
            Err(AutomotiveError::Timeout) => {
                proof {
                    let consumed = self.physical.frames_rcvd().skip(entry.len() as int);
                    assert(consumed =~= data_consumed);
                    assert(consumed.take(kk) =~= data_consumed);
                    assert(lin_response_ok(consumed, self.config.frame_type, response@, kk));
                        assert(lin_response_ok(
                            self.physical.frames_rcvd().skip(
                                old(self).physical.frames_rcvd().len() as int,
                            ),
                            old(self).config.frame_type,
                            response@,
                            kk,
                        ));
                        assert(lin_response_spec(
                            self.physical.frames_rcvd().skip(
                                old(self).physical.frames_rcvd().len() as int,
                            ),
                            old(self).config.frame_type,
                            response@,
                        ));
                }
                Ok(response)
            },
            Err(e) => Err(e),
        }
    }

    /// Passes a single frame down to the physical layer.
    pub fn write_frame(&mut self, frame: &Frame) -> (r: core::result::Result<(), AutomotiveError>)
        ensures
            final(self).spec_config() == old(self).spec_config(),
            final(self).spec_is_open() == old(self).spec_is_open(),
            final(self).wire_rcvd() == old(self).wire_rcvd(),
            !old(self).spec_is_open() ==> (r matches Err(AutomotiveError::NotInitialized)),
            r is Ok ==> final(self).wire_sent() == old(self).wire_sent().push(frame@),
            r is Err ==> final(self).wire_sent() == old(self).wire_sent(),
    {
        if !self.is_open {
            return Err(AutomotiveError::NotInitialized);
        }
        self.physical.send_frame(frame)
    }

    /// Reads a single frame from the physical layer.
    pub fn read_frame(&mut self) -> (r: core::result::Result<Frame, AutomotiveError>)
        ensures
            final(self).spec_config() == old(self).spec_config(),
            final(self).spec_is_open() == old(self).spec_is_open(),
            final(self).wire_sent() == old(self).wire_sent(),
            !old(self).spec_is_open() ==> (r matches Err(AutomotiveError::NotInitialized)),
            r matches Ok(f) ==> final(self).wire_rcvd() == old(self).wire_rcvd().push(f@),
            r is Err ==> final(self).wire_rcvd() == old(self).wire_rcvd(),
    {
        if !self.is_open {
            return Err(AutomotiveError::NotInitialized);
        }
        self.physical.receive_frame()
    }

    /// Sets the physical receive timeout.
    pub fn set_timeout(&mut self, timeout_ms: u32) -> (r: core::result::Result<
        (),
        AutomotiveError,
    >)
        ensures
            final(self).spec_config() == old(self).spec_config(),
            final(self).spec_is_open() == old(self).spec_is_open(),
            final(self).wire_sent() == old(self).wire_sent(),
            final(self).wire_rcvd() == old(self).wire_rcvd(),
            !old(self).spec_is_open() ==> (r matches Err(AutomotiveError::NotInitialized)),
    {
        if !self.is_open {
            return Err(AutomotiveError::NotInitialized);
        }
        self.physical.set_timeout(timeout_ms)
    }
}

impl<P: PhysicalLayer> TransportLayer for Lin<P> {
    type Config = LinConfig;

    /// A LIN transport cannot exist without a physical layer; use
    /// `with_physical`.
    fn new(config: LinConfig) -> (r: core::result::Result<Self, AutomotiveError>) {
        Err(AutomotiveError::NotInitialized)
    }

    fn open(&mut self) -> (r: core::result::Result<(), AutomotiveError>) {
        Lin::open(self)
    }

    fn close(&mut self) -> (r: core::result::Result<(), AutomotiveError>) {
        Lin::close(self)
    }

    fn write_frame(&mut self, frame: &Frame) -> (r: core::result::Result<(), AutomotiveError>) {
        Lin::write_frame(self, frame)
    }

    fn read_frame(&mut self) -> (r: core::result::Result<Frame, AutomotiveError>) {
        Lin::read_frame(self)
    }

    fn set_timeout(&mut self, timeout_ms: u32) -> (r: core::result::Result<
        (),
        AutomotiveError,
    >) {
        Lin::set_timeout(self, timeout_ms)
    }
}

} // verus!
