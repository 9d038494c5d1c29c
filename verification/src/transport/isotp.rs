//! ISO-TP (ISO 15765-2): segmentation and reassembly of messages of 1..4095
//! bytes over 8-byte CAN frames, under flow control, sequence numbering and
//! padding rules.
//!
//! The wire format is captured by spec functions: [`segment_views`] gives the
//! exact frames a send emits, and [`reassemble`] gives the unique payload a
//! sequence of received frames yields (or `None` when the sequence is
//! faulty). `send` is proved to emit exactly `segment_views`, `receive` is
//! proved to return exactly `reassemble` of the frames it consumed, and
//! [`lemma_isotp_round_trip`] proves the two compose to the identity.

use crate::error::AutomotiveError;
use crate::physical::PhysicalLayer;
use crate::transport::{IsoTpTransport, TransportLayer};
use crate::types::{Config, Frame, FrameView};
use vstd::prelude::*;

verus! {

/// How many flow-control WAIT frames the sender tolerates before giving up
/// with `Timeout`.
pub const MAX_FC_WAIT_FRAMES: u32 = 4096;

/// ISO-TP address modes.
#[derive(Debug, Clone, Copy, PartialEq, Eq, Structural)]
pub enum AddressMode {
    /// The protocol control information starts at byte 0.
    Normal,
    /// Byte 0 of every frame carries the address extension.
    Extended,
    /// The low byte of the CAN identifier carries the address extension.
    Mixed,
}

/// ISO-TP timing parameters, in milliseconds.
#[derive(Debug, Clone, Copy)]
pub struct IsoTpTiming {
    /// Sender timeout for handing a frame to the layer below.
    pub n_as: u32,
    /// Receiver timeout for handing a frame to the layer below.
    pub n_ar: u32,
    /// Sender timeout while waiting for a flow-control frame.
    pub n_bs: u32,
    /// Receiver timeout between consecutive frames.
    pub n_cr: u32,
}

impl Default for IsoTpTiming {
    /// One second for each of the four timers.
    fn default() -> (r: Self)
        ensures
            r.n_as == 1000,
            r.n_ar == 1000,
            r.n_bs == 1000,
            r.n_cr == 1000,
    {
        IsoTpTiming { n_as: 1000, n_ar: 1000, n_bs: 1000, n_cr: 1000 }
    }
}

/// ISO-TP configuration.
#[derive(Debug, Clone, Copy)]
pub struct IsoTpConfig {
    /// CAN identifier used for outgoing frames.
    pub tx_id: u32,
    /// CAN identifier the peer sends on.
    pub rx_id: u32,
    /// Block size offered in outgoing flow control (0 = no limit).
    pub block_size: u8,
    /// Separation time offered in outgoing flow control.
    pub st_min: u8,
    /// Addressing mode.
    pub address_mode: AddressMode,
    /// Address extension byte for Extended and Mixed modes.
    pub address_extension: u8,
    /// Whether outgoing frames are right-padded to 8 bytes.
    pub use_padding: bool,
    /// The padding byte value.
    pub padding_value: u8,
    /// Protocol timers.
    pub timing: IsoTpTiming,
    /// General receive timeout, in milliseconds.
    pub timeout_ms: u32,
}

impl Config for IsoTpConfig {
    fn validate(&self) -> (r: core::result::Result<(), AutomotiveError>)
        ensures
            r is Ok,
    {
        Ok(())
    }
}

impl Default for IsoTpConfig {
    /// Normal addressing on identifier 0, no padding, no flow-control
    /// limits, one-second timers.
    fn default() -> (r: Self)
        ensures
            r.tx_id == 0,
            r.rx_id == 0,
            r.block_size == 0,
            r.st_min == 0,
            r.address_mode is Normal,
            r.address_extension == 0,
            !r.use_padding,
            r.padding_value == 0,
            r.timing.n_as == 1000,
            r.timing.n_bs == 1000,
            r.timing.n_cr == 1000,
            r.timeout_ms == 1000,
    {
        IsoTpConfig {
            tx_id: 0,
            rx_id: 0,
            block_size: 0,
            st_min: 0,
            address_mode: AddressMode::Normal,
            address_extension: 0,
            use_padding: false,
            padding_value: 0x00,
            timing: IsoTpTiming::default(),
            timeout_ms: 1000,
        }
    }
}

// ---------------------------------------------------------------------------
// The wire model.
// ---------------------------------------------------------------------------

/// Index of the protocol control information byte within a frame: 1 in
/// Extended mode (byte 0 is the address extension), 0 otherwise.
pub open spec fn pci_offset(c: IsoTpConfig) -> int {
    if c.address_mode is Extended {
        1
    } else {
        0
    }
}

/// Payload bytes a single frame can carry.
pub open spec fn sf_budget(c: IsoTpConfig) -> int {
    7 - pci_offset(c)
}

/// Payload bytes the first frame of a multi-frame transfer carries.
pub open spec fn ff_budget(c: IsoTpConfig) -> int {
    6 - pci_offset(c)
}

/// Payload bytes a consecutive frame can carry.
pub open spec fn cf_budget(c: IsoTpConfig) -> int {
    7 - pci_offset(c)
}

/// The address-extension prefix of every outgoing frame body.
pub open spec fn ext_prefix(c: IsoTpConfig) -> Seq<u8> {
    if c.address_mode is Extended {
        seq![c.address_extension]
    } else {
        Seq::empty()
    }
}

/// The CAN identifier outgoing frames carry.
pub open spec fn tx_can_id(c: IsoTpConfig) -> u32 {
    if c.address_mode is Mixed {
        c.tx_id | (c.address_extension as u32)
    } else {
        c.tx_id
    }
}

/// Right-pads a frame body to 8 bytes when padding is enabled.
pub open spec fn padded(c: IsoTpConfig, s: Seq<u8>) -> Seq<u8> {
    if c.use_padding && s.len() < 8 {
        s + Seq::new((8 - s.len()) as nat, |i: int| c.padding_value)
    } else {
        s
    }
}

/// The complete outgoing frame carrying the given body (after the address
/// extension, before padding).
pub open spec fn tx_frame_view(c: IsoTpConfig, body: Seq<u8>) -> FrameView {
    FrameView {
        id: tx_can_id(c),
        data: padded(c, ext_prefix(c) + body),
        timestamp: 0,
        is_extended: false,
        is_fd: false,
    }
}

/// The single frame carrying a whole payload `d` (`1 <= |d| <= sf_budget`).
pub open spec fn sf_view(c: IsoTpConfig, d: Seq<u8>) -> FrameView {
    tx_frame_view(c, seq![d.len() as u8] + d)
}

/// The first frame of a multi-frame transfer of payload `d`: the 12-bit
/// length split over two bytes, then the first `ff_budget` payload bytes.
pub open spec fn ff_view(c: IsoTpConfig, d: Seq<u8>) -> FrameView {
    tx_frame_view(
        c,
        seq![(0x10 + d.len() / 256) as u8, (d.len() % 256) as u8] + d.take(ff_budget(c)),
    )
}

/// The sequence number following `sn`, wrapping 15 to 0.
pub open spec fn next_sn(sn: u8) -> u8 {
    if sn == 15 {
        0
    } else {
        (sn + 1) as u8
    }
}

/// One consecutive frame: PCI byte `0x20 | sn`, then the chunk.
pub open spec fn cf_view(c: IsoTpConfig, chunk: Seq<u8>, sn: u8) -> FrameView {
    tx_frame_view(c, seq![(0x20 + sn) as u8] + chunk)
}

/// The consecutive frames carrying `rest`, with sequence numbers starting at
/// `sn` and wrapping modulo 16.
pub open spec fn cf_views(c: IsoTpConfig, rest: Seq<u8>, sn: u8) -> Seq<FrameView>
    decreases rest.len(),
{
    if rest.len() == 0 {
        Seq::empty()
    } else if rest.len() <= cf_budget(c) {
        seq![cf_view(c, rest, sn)]
    } else {
        seq![cf_view(c, rest.take(cf_budget(c)), sn)] + cf_views(
            c,
            rest.skip(cf_budget(c)),
            next_sn(sn),
        )
    }
}

/// Exactly the frames `send` emits for payload `d`: one single frame when it
/// fits, else a first frame followed by consecutive frames numbered from 1.
pub open spec fn segment_views(c: IsoTpConfig, d: Seq<u8>) -> Seq<FrameView> {
    if d.len() <= sf_budget(c) {
        seq![sf_view(c, d)]
    } else {
        seq![ff_view(c, d)] + cf_views(c, d.skip(ff_budget(c)), 1)
    }
}

/// Reassembly of the consecutive frames `frames` onto the bytes `acc`
/// already collected, expecting sequence number `sn` next: `None` on any
/// sequence or length fault, or when the frames do not end the transfer
/// exactly.
pub open spec fn reassemble_cfs(
    c: IsoTpConfig,
    frames: Seq<FrameView>,
    acc: Seq<u8>,
    total: int,
    sn: u8,
) -> Option<Seq<u8>>
    decreases frames.len(),
{
    if acc.len() >= total {
        if frames.len() == 0 {
            Some(acc.take(total))
        } else {
            None
        }
    } else if frames.len() == 0 {
        None
    } else {
        let d = frames[0].data;
        if d.len() < pci_offset(c) + 2 {
            None
        } else if d[pci_offset(c)] / 16 != 2 || d[pci_offset(c)] % 16 != sn {
            None
        } else {
            reassemble_cfs(
                c,
                frames.skip(1),
                acc + d.skip(pci_offset(c) + 1),
                total,
                next_sn(sn),
            )
        }
    }
}

/// The unique payload a received frame sequence yields: `Some(payload)` when
/// the frames form one complete, correctly numbered transfer, and `None` on
/// any PCI, sequence or length fault.
pub open spec fn reassemble(c: IsoTpConfig, frames: Seq<FrameView>) -> Option<Seq<u8>> {
    if frames.len() == 0 {
        None
    } else {
        let d0 = frames[0].data;
        if d0.len() < pci_offset(c) + 1 {
            None
        } else {
            let pci = d0[pci_offset(c)];
            if pci / 16 == 0 {
                let l = pci % 16;
                if frames.len() == 1 && 1 <= l && l <= d0.len() - pci_offset(c) - 1 {
                    Some(d0.subrange(pci_offset(c) + 1, pci_offset(c) + 1 + l))
                } else {
                    None
                }
            } else if pci / 16 == 1 {
                if d0.len() < pci_offset(c) + 2 {
                    None
                } else {
                    reassemble_cfs(
                        c,
                        frames.skip(1),
                        d0.skip(pci_offset(c) + 2),
                        (pci % 16) * 256 + d0[pci_offset(c) + 1],
                        1,
                    )
                }
            } else {
                None
            }
        }
    }
}

/// The separation time a flow-control STmin byte decodes to, in
/// microseconds: `0x00..=0x7F` are milliseconds, `0xF1..=0xF9` are hundreds
/// of microseconds, everything else falls back to 1 ms.
pub open spec fn spec_st_min_us(st: u8) -> int {
    if st <= 0x7f {
        st * 1000
    } else if 0xf1 <= st && st <= 0xf9 {
        (st - 0xf0) * 100
    } else {
        1000
    }
}

/// The flow-control frame this receiver announces its window with:
/// `[0x30, block_size, st_min]` under the configured transmit identity.
pub open spec fn fc_frame_view(c: IsoTpConfig) -> FrameView {
    tx_frame_view(c, seq![0x30u8, c.block_size, c.st_min])
}

/// A left part of a concatenation is the take of the whole.
proof fn lemma_take_of_concat(a: Seq<FrameView>, b: Seq<FrameView>, c: Seq<FrameView>)
    requires
        a + b == c,
    ensures
        a == c.take(a.len() as int),
{
    assert(a =~= c.take(a.len() as int));
}

/// How many payload bytes are still missing; never negative.
pub open spec fn missing(total: int, got: int) -> int {
    if got >= total {
        0
    } else {
        total - got
    }
}

// ---------------------------------------------------------------------------
// Executable helpers.
// ---------------------------------------------------------------------------

/// Index of the PCI byte for this configuration.
fn pci_index(config: &IsoTpConfig) -> (r: usize)
    ensures
        r as int == pci_offset(*config),
{
    if config.address_mode == AddressMode::Extended {
        1
    } else {
        0
    }
}

/// Appends `src[from..to]` to `dst`.
fn append_range(dst: &mut Vec<u8>, src: &[u8], from: usize, to: usize)
    requires
        from <= to <= src@.len(),
    ensures
        final(dst)@ == old(dst)@ + src@.subrange(from as int, to as int),
{
    let ghost base = dst@;
    let mut i = from;
    while i < to
        invariant
            from <= i <= to <= src@.len(),
            dst@ == base + src@.subrange(from as int, i as int),
        decreases to - i,
    {
        let b = src[i];
        dst.push(b);
        proof {
            assert(dst@ =~= base + src@.subrange(from as int, (i + 1) as int));
        }
        i += 1;
    }
    proof {
        assert(dst@ =~= base + src@.subrange(from as int, to as int));
    }
}

/// Builds the outgoing frame for `body`: address-extension prefix, body,
/// padding, and the configured CAN identifier.
fn make_frame(config: &IsoTpConfig, body: &[u8]) -> (f: Frame)
    requires
        body@.len() <= 64,
    ensures
        f@ == tx_frame_view(*config, body@),
{
    let ghost base = ext_prefix(*config) + body@;
    let mut data: Vec<u8> = Vec::new();
    if config.address_mode == AddressMode::Extended {
        data.push(config.address_extension);
    }
    proof {
        assert(data@ =~= ext_prefix(*config));
    }
    append_range(&mut data, body, 0, body.len());
    proof {
        assert(body@.subrange(0, body@.len() as int) =~= body@);
        assert(data@ =~= base);
    }
    if config.use_padding {
        while data.len() < 8
            invariant
                data@.len() >= base.len(),
                base.len() < 8 ==> data@.len() <= 8,
                data@.take(base.len() as int) == base,
                forall|i: int| base.len() <= i < data@.len() ==> data@[i] == config.padding_value,
                base.len() >= 8 ==> data@ == base,
            decreases 8 - data@.len(),
        {
            data.push(config.padding_value);
            proof {
                assert(data@.take(base.len() as int) =~= base);
            }
        }
    }
    proof {
        if config.use_padding && base.len() < 8 {
            assert forall|i: int| 0 <= i < base.len() implies data@[i] == base[i] by {
                assert(data@.take(base.len() as int)[i] == data@[i]);
            }
            assert(data@ =~= base + Seq::new((8 - base.len()) as nat, |i: int| config.padding_value));
        } else {
            assert(data@ =~= base);
        }
        assert(data@ == padded(*config, base));
    }
    Frame {
        id: if config.address_mode == AddressMode::Mixed {
            config.tx_id | (config.address_extension as u32)
        } else {
            config.tx_id
        },
        data,
        timestamp: 0,
        is_extended: false,
        is_fd: false,
    }
}

/// Decodes an STmin byte to microseconds.
fn st_min_to_us(st: u8) -> (r: u32)
    ensures
        r as int == spec_st_min_us(st),
{
    if st <= 0x7f {
        (st as u32) * 1000
    } else if 0xf1 <= st && st <= 0xf9 {
        ((st - 0xf0) as u32) * 100
    } else {
        1000
    }
}

// ---------------------------------------------------------------------------
// The transport.
// ---------------------------------------------------------------------------

/// The ISO-TP transport over a physical layer `P`.
pub struct IsoTp<P: PhysicalLayer> {
    config: IsoTpConfig,
    physical: P,
    is_open: bool,
    sent_msgs: Ghost<Seq<Seq<u8>>>,
    rcvd_msgs: Ghost<Seq<Seq<u8>>>,
}

impl<P: PhysicalLayer> IsoTp<P> {
    /// The configuration this transport runs with.
    pub closed spec fn spec_config(&self) -> IsoTpConfig {
        self.config
    }

    /// Whether the transport has been opened.
    pub closed spec fn spec_is_open(&self) -> bool {
        self.is_open
    }

    /// All frames the underlying physical layer has sent.
    pub closed spec fn wire_sent(&self) -> Seq<FrameView> {
        self.physical.frames_sent()
    }

    /// All frames the underlying physical layer has handed up.
    pub closed spec fn wire_rcvd(&self) -> Seq<FrameView> {
        self.physical.frames_rcvd()
    }

    /// Creates a new ISO-TP instance, still closed, over the given physical
    /// layer.
    pub fn with_physical(config: IsoTpConfig, physical: P) -> (r: Self)
        ensures
            r.spec_config() == config,
            !r.spec_is_open(),
            r.wire_sent() == physical.frames_sent(),
            r.wire_rcvd() == physical.frames_rcvd(),
            r.msgs_sent() == Seq::<Seq<u8>>::empty(),
            r.msgs_rcvd() == Seq::<Seq<u8>>::empty(),
    {
        IsoTp {
            config,
            physical,
            is_open: false,
            sent_msgs: Ghost(Seq::empty()),
            rcvd_msgs: Ghost(Seq::empty()),
        }
    }

    /// Opens the transport: configures the physical receive timeout and
    /// marks the transport usable. Exchanges no frames.
    pub fn open(&mut self) -> (r: core::result::Result<(), AutomotiveError>)
        ensures
            final(self).spec_config() == old(self).spec_config(),
            final(self).msgs_sent() == old(self).msgs_sent(),
            final(self).msgs_rcvd() == old(self).msgs_rcvd(),
            final(self).wire_sent() == old(self).wire_sent(),
            final(self).wire_rcvd() == old(self).wire_rcvd(),
            r is Ok ==> final(self).spec_is_open(),
            r is Err ==> final(self).spec_is_open() == old(self).spec_is_open(),
    {
        if self.is_open {
            return Ok(());
        }
        match self.physical.set_timeout(self.config.timing.n_as) {
            Ok(()) => (),
            Err(e) => return Err(e),
        }
        self.is_open = true;
        Ok(())
    }

    /// Closes the transport. Exchanges no frames.
    pub fn close(&mut self) -> (r: core::result::Result<(), AutomotiveError>)
        ensures
            final(self).spec_config() == old(self).spec_config(),
            final(self).msgs_sent() == old(self).msgs_sent(),
            final(self).msgs_rcvd() == old(self).msgs_rcvd(),
            final(self).wire_sent() == old(self).wire_sent(),
            final(self).wire_rcvd() == old(self).wire_rcvd(),
            r is Ok && !final(self).spec_is_open(),
    {
        self.is_open = false;
        Ok(())
    }

    /// Passes a single frame down to the physical layer.
    pub fn write_frame(&mut self, frame: &Frame) -> (r: core::result::Result<(), AutomotiveError>)
        ensures
            final(self).spec_config() == old(self).spec_config(),
            final(self).spec_is_open() == old(self).spec_is_open(),
            final(self).msgs_sent() == old(self).msgs_sent(),
            final(self).msgs_rcvd() == old(self).msgs_rcvd(),
            final(self).wire_rcvd() == old(self).wire_rcvd(),
            !old(self).spec_is_open() ==> (r matches Err(AutomotiveError::NotInitialized)),
            r is Ok ==> old(self).spec_is_open()
                && final(self).wire_sent() == old(self).wire_sent().push(frame@),
            r is Err ==> final(self).wire_sent() == old(self).wire_sent(),
    {
        if !self.is_open {
            return Err(AutomotiveError::NotInitialized);
        }
        self.physical.send_frame(frame)
    }

    /// Reads a single frame from the physical layer.
    pub fn read_frame(&mut self) -> (r: core::result::Result<Frame, AutomotiveError>)
        ensures
            final(self).spec_config() == old(self).spec_config(),
            final(self).spec_is_open() == old(self).spec_is_open(),
            final(self).msgs_sent() == old(self).msgs_sent(),
            final(self).msgs_rcvd() == old(self).msgs_rcvd(),
            final(self).wire_sent() == old(self).wire_sent(),
            !old(self).spec_is_open() ==> (r matches Err(AutomotiveError::NotInitialized)),
            r matches Ok(f) ==> old(self).spec_is_open()
                && final(self).wire_rcvd() == old(self).wire_rcvd().push(f@),
            r is Err ==> final(self).wire_rcvd() == old(self).wire_rcvd(),
    {
        if !self.is_open {
            return Err(AutomotiveError::NotInitialized);
        }
        self.physical.receive_frame()
    }

    /// Sets the physical receive timeout.
    pub fn set_timeout(&mut self, timeout_ms: u32) -> (r: core::result::Result<
        (),
        AutomotiveError,
    >)
        ensures
            final(self).spec_config() == old(self).spec_config(),
            final(self).spec_is_open() == old(self).spec_is_open(),
            final(self).msgs_sent() == old(self).msgs_sent(),
            final(self).msgs_rcvd() == old(self).msgs_rcvd(),
            final(self).wire_sent() == old(self).wire_sent(),
            final(self).wire_rcvd() == old(self).wire_rcvd(),
            !old(self).spec_is_open() ==> (r matches Err(AutomotiveError::NotInitialized)),
    {
        if !self.is_open {
            return Err(AutomotiveError::NotInitialized);
        }
        self.physical.set_timeout(timeout_ms)
    }

    /// Waits for a flow-control frame and returns its `(BS, STmin)` pair.
    ///
    /// WAIT frames renew the wait up to [`MAX_FC_WAIT_FRAMES`] times; an
    /// overflow status, an unexpected PCI or a short frame abort the
    /// transfer, and a `0x7F` byte in PCI position (a negative response
    /// leaking down from the application layer) is reported as
    /// `InvalidParameter`.
    fn wait_for_fc(&mut self) -> (r: core::result::Result<(u8, u8), AutomotiveError>)
        ensures
            final(self).spec_config() == old(self).spec_config(),
            final(self).spec_is_open() == old(self).spec_is_open(),
            final(self).msgs_sent() == old(self).msgs_sent(),
            final(self).msgs_rcvd() == old(self).msgs_rcvd(),
            final(self).wire_sent() == old(self).wire_sent(),
            final(self).wire_rcvd().len() >= old(self).wire_rcvd().len(),
            r matches Ok(p) ==> ({
                let last = final(self).wire_rcvd().last();
                &&& final(self).wire_rcvd().len() > old(self).wire_rcvd().len()
                &&& last.data.len() >= pci_offset(old(self).spec_config()) + 3
                &&& last.data[pci_offset(old(self).spec_config())] == 0x30
                &&& last.data[pci_offset(old(self).spec_config()) + 1] == p.0
                &&& last.data[pci_offset(old(self).spec_config()) + 2] == p.1
            }),
    {
        let ds = pci_index(&self.config);
        let mut waits: u32 = 0;
        while waits < MAX_FC_WAIT_FRAMES
            invariant
                self.config == old(self).config,
                self.is_open == old(self).is_open,
                self.sent_msgs == old(self).sent_msgs,
                self.rcvd_msgs == old(self).rcvd_msgs,
                self.physical.frames_sent() == old(self).physical.frames_sent(),
                self.physical.frames_rcvd().len() >= old(self).physical.frames_rcvd().len(),
                ds as int == pci_offset(self.config),
            decreases MAX_FC_WAIT_FRAMES - waits,
        {
            let f = match self.physical.receive_frame() {
                Ok(f) => f,
                Err(e) => return Err(e),
            };
            if f.data.len() < ds + 1 {
                return Err(AutomotiveError::IsoTpError("flow control frame too short".to_owned()));
            }
            let pci = f.data[ds];
            if pci == 0x7f {
                return Err(AutomotiveError::InvalidParameter);
            }
            if pci / 16 != 3 {
                return Err(
                    AutomotiveError::IsoTpError(
                        "unexpected PCI while waiting for flow control".to_owned(),
                    ),
                );
            }
            let fs = pci % 16;
            if fs == 0 {
                if f.data.len() < ds + 3 {
                    return Err(
                        AutomotiveError::IsoTpError("flow control frame too short".to_owned()),
                    );
                }
                proof {
                    assert(self.physical.frames_rcvd().last() == f@);
                    assert(pci == 0x30) by {
                        vstd::arithmetic::div_mod::lemma_fundamental_div_mod(pci as int, 16);
                    }
                }
                return Ok((f.data[ds + 1], f.data[ds + 2]));
            } else if fs == 1 {
                waits += 1;
            } else if fs == 2 {
                return Err(AutomotiveError::IsoTpError("peer buffer overflow".to_owned()));
            } else {
                return Err(AutomotiveError::IsoTpError("invalid flow control status".to_owned()));
            }
        }
        Err(AutomotiveError::Timeout)
    }

    /// Emits the single frame carrying the whole payload.
    fn send_single_frame(&mut self, data: &[u8]) -> (r: core::result::Result<
        (),
        AutomotiveError,
    >)
        requires
            old(self).spec_is_open(),
            1 <= data@.len() <= sf_budget(old(self).spec_config()),
        ensures
            final(self).spec_config() == old(self).spec_config(),
            final(self).spec_is_open() == old(self).spec_is_open(),
            final(self).msgs_sent() == old(self).msgs_sent(),
            final(self).msgs_rcvd() == old(self).msgs_rcvd(),
            final(self).wire_rcvd() == old(self).wire_rcvd(),
            r is Ok ==> final(self).wire_sent() == old(self).wire_sent().push(
                sf_view(old(self).spec_config(), data@),
            ),
            r is Err ==> final(self).wire_sent() == old(self).wire_sent(),
    {
        let mut body: Vec<u8> = Vec::new();
        body.push(data.len() as u8);
        append_range(&mut body, data, 0, data.len());
        proof {
            assert(data@.subrange(0, data@.len() as int) =~= data@);
            assert(body@ =~= seq![data@.len() as u8] + data@);
        }
        let f = make_frame(&self.config, body.as_slice());
        self.physical.send_frame(&f)
    }

    /// Emits the first frame, obeys flow control, and emits the consecutive
    /// frames with wrapping sequence numbers and STmin pacing.
    fn send_multi_frame(&mut self, data: &[u8]) -> (r: core::result::Result<(), AutomotiveError>)
        requires
            old(self).spec_is_open(),
            sf_budget(old(self).spec_config()) < data@.len() <= 4095,
        ensures
            final(self).spec_config() == old(self).spec_config(),
            final(self).spec_is_open() == old(self).spec_is_open(),
            final(self).msgs_sent() == old(self).msgs_sent(),
            final(self).msgs_rcvd() == old(self).msgs_rcvd(),
            r is Ok ==> final(self).wire_sent() == old(self).wire_sent() + segment_views(
                old(self).spec_config(),
                data@,
            ),
            ({
                let emitted = final(self).wire_sent().skip(old(self).wire_sent().len() as int);
                emitted == segment_views(old(self).spec_config(), data@).take(emitted.len() as int)
            }),
    {
        let ghost c = self.config;
        let ghost entry_sent = self.physical.frames_sent();
        let ds = pci_index(&self.config);
        let ffb: usize = 6 - ds;
        let cfb: usize = 7 - ds;
        let len = data.len();

        // First frame: 12-bit length, then the first ffb payload bytes.
        let mut body: Vec<u8> = Vec::new();
        body.push((0x10 + len / 256) as u8);
        body.push((len % 256) as u8);
        append_range(&mut body, data, 0, ffb);
        proof {
            assert(data@.subrange(0, ffb as int) =~= data@.take(ff_budget(c)));
            assert(body@ =~= seq![(0x10 + data@.len() / 256) as u8, (data@.len() % 256) as u8]
                + data@.take(ff_budget(c)));
        }
        let ff = make_frame(&self.config, body.as_slice());
        proof {
            assert(ff@ == ff_view(c, data@));
        }
        match self.physical.send_frame(&ff) {
            Ok(()) => (),
            Err(e) => {
                proof {
                    assert(self.physical.frames_sent().skip(entry_sent.len() as int)
                        =~= Seq::<FrameView>::empty());
                    assert(Seq::<FrameView>::empty() =~= segment_views(c, data@).take(0));
                }
                return Err(e);
            },
        }
        proof {
            assert(self.physical.frames_sent().skip(entry_sent.len() as int) =~= seq![ff@]);
            assert(seq![ff@] =~= segment_views(c, data@).take(1));
        }

        // Wait for the first flow control under the N_Bs timeout.
        match self.physical.set_timeout(self.config.timing.n_bs) {
            Ok(()) => (),
            Err(e) => return Err(e),
        }
        let (mut bs, mut st) = match self.wait_for_fc() {
            Ok(p) => p,
            Err(e) => return Err(e),
        };

        // Consecutive frames.
        let mut index: usize = ffb;
        let mut sn: u8 = 1;
        let mut in_block: usize = 0;
        while index < len
            invariant
                self.config == old(self).config,
                self.is_open == old(self).is_open,
                self.sent_msgs == old(self).sent_msgs,
                self.rcvd_msgs == old(self).rcvd_msgs,
                c == old(self).config,
                ds as int == pci_offset(c),
                ffb as int == ff_budget(c),
                cfb as int == cf_budget(c),
                len == data@.len(),
                ff_budget(c) <= index <= len,
                sf_budget(c) < len <= 4095,
                sn < 16,
                in_block <= index,
                entry_sent == old(self).physical.frames_sent(),
                self.physical.frames_sent().len() >= entry_sent.len(),
                self.physical.frames_sent().take(entry_sent.len() as int) == entry_sent,
                self.physical.frames_sent().skip(entry_sent.len() as int) + cf_views(
                    c,
                    data@.skip(index as int),
                    sn,
                ) =~= segment_views(c, data@),
            decreases len - index,
        {
            if index > ffb {
                let us = st_min_to_us(st);
                self.physical.wait_us(us);
            }
            let remaining = len - index;
            let chunk = if remaining < cfb {
                remaining
            } else {
                cfb
            };
            let mut cf_body: Vec<u8> = Vec::new();
            cf_body.push(0x20 + sn);
            append_range(&mut cf_body, data, index, index + chunk);
            let cf = make_frame(&self.config, cf_body.as_slice());
            let ghost rest = data@.skip(index as int);
            proof {
                assert(cf_body@ =~= seq![(0x20 + sn) as u8] + data@.subrange(
                    index as int,
                    (index + chunk) as int,
                ));
                if remaining <= cfb {
                    assert(rest =~= data@.subrange(index as int, (index + chunk) as int));
                    assert(cf@ == cf_view(c, rest, sn));
                    assert(data@.skip((index + chunk) as int) =~= Seq::<u8>::empty());
                    assert(cf_views(c, rest, sn) =~= seq![cf_view(c, rest, sn)]);
                } else {
                    assert(rest.take(cf_budget(c)) =~= data@.subrange(
                        index as int,
                        (index + chunk) as int,
                    ));
                    assert(cf@ == cf_view(c, rest.take(cf_budget(c)), sn));
                    assert(rest.skip(cf_budget(c)) =~= data@.skip((index + chunk) as int));
                }
            }
            match self.physical.send_frame(&cf) {
                Ok(()) => (),
                Err(e) => {
                    proof {
                        lemma_take_of_concat(
                            self.physical.frames_sent().skip(entry_sent.len() as int),
                            cf_views(c, data@.skip(index as int), sn),
                            segment_views(c, data@),
                        );
                    }
                    return Err(e);
                },
            }
            proof {
                assert(cf_views(c, rest, sn) =~= seq![cf@] + cf_views(
                    c,
                    data@.skip((index + chunk) as int),
                    next_sn(sn),
                ));
                assert(self.physical.frames_sent().take(entry_sent.len() as int) =~= entry_sent);
                assert(self.physical.frames_sent().skip(entry_sent.len() as int) + cf_views(
                    c,
                    data@.skip((index + chunk) as int),
                    next_sn(sn),
                ) =~= segment_views(c, data@));
            }
            index += chunk;
            sn = if sn == 15 {
                0
            } else {
                sn + 1
            };
            // After every BS consecutive frames (when BS > 0), wait for a
            // fresh flow control.
            if bs > 0 && index < len {
                if in_block + 1 >= bs as usize {
                    in_block = 0;
                    let (nbs, nst) = match self.wait_for_fc() {
                        Ok(p) => p,
                        Err(e) => {
                            proof {
                                lemma_take_of_concat(
                                    self.physical.frames_sent().skip(entry_sent.len() as int),
                                    cf_views(c, data@.skip(index as int), sn),
                                    segment_views(c, data@),
                                );
                            }
                            return Err(e);
                        },
                    };
                    bs = nbs;
                    st = nst;
                } else {
                    in_block += 1;
                }
            }
        }
        proof {
            assert(data@.skip(index as int) =~= Seq::<u8>::empty());
            assert(cf_views(c, Seq::<u8>::empty(), sn) =~= Seq::<FrameView>::empty());
            assert(self.physical.frames_sent().skip(entry_sent.len() as int)
                + Seq::<FrameView>::empty() =~= self.physical.frames_sent().skip(
                entry_sent.len() as int,
            ));
            assert(self.physical.frames_sent().skip(entry_sent.len() as int) =~= segment_views(
                c,
                data@,
            ));
            assert(self.physical.frames_sent() =~= entry_sent + segment_views(c, data@));
            lemma_take_of_concat(
                self.physical.frames_sent().skip(entry_sent.len() as int),
                Seq::<FrameView>::empty(),
                segment_views(c, data@),
            );
        }
        Ok(())
    }

    /// Sends one message of 1..=4095 bytes, segmenting as the wire format
    /// demands. On success, exactly the frames of [`segment_views`] were
    /// emitted, in order.
    pub fn send(&mut self, data: &[u8]) -> (r: core::result::Result<(), AutomotiveError>)
        ensures
            final(self).spec_config() == old(self).spec_config(),
            final(self).spec_is_open() == old(self).spec_is_open(),
            final(self).msgs_rcvd() == old(self).msgs_rcvd(),
            !old(self).spec_is_open() ==> (r matches Err(AutomotiveError::NotInitialized)),
            old(self).spec_is_open() && (data@.len() == 0 || data@.len() > 4095) ==> (
            r matches Err(AutomotiveError::InvalidParameter)),
            r is Ok ==> old(self).spec_is_open() && 1 <= data@.len() <= 4095
                && final(self).wire_sent() == old(self).wire_sent()
                    + segment_views(old(self).spec_config(), data@)
                && final(self).msgs_sent() == old(self).msgs_sent().push(data@),
            r is Err ==> final(self).msgs_sent() == old(self).msgs_sent(),
            ({
                let emitted = final(self).wire_sent().skip(old(self).wire_sent().len() as int);
                emitted == segment_views(old(self).spec_config(), data@).take(emitted.len() as int)
            }),
    {
        if !self.is_open {
            proof {
                assert(self.physical.frames_sent().skip(self.physical.frames_sent().len() as int)
                    =~= segment_views(self.config, data@).take(0));
            }
            return Err(AutomotiveError::NotInitialized);
        }
        if data.len() == 0 {
            proof {
                assert(self.physical.frames_sent().skip(self.physical.frames_sent().len() as int)
                    =~= segment_views(self.config, data@).take(0));
            }
            return Err(AutomotiveError::InvalidParameter);
        }
        if data.len() > 4095 {
            proof {
                assert(self.physical.frames_sent().skip(self.physical.frames_sent().len() as int)
                    =~= segment_views(self.config, data@).take(0));
            }
            return Err(AutomotiveError::InvalidParameter);
        }
        let ds = pci_index(&self.config);
        let sfb = 7 - ds;
        let r = if data.len() <= sfb {
            self.send_single_frame(data)
        } else {
            self.send_multi_frame(data)
        };
        match r {
            Ok(()) => {
                proof {
                    self.sent_msgs@ = self.sent_msgs@.push(data@);
                    if data@.len() <= sf_budget(self.config) {
                        assert(segment_views(self.config, data@) =~= seq![
                            sf_view(self.config, data@),
                        ]);
                        assert(self.physical.frames_sent() =~= old(self).physical.frames_sent()
                            + segment_views(self.config, data@));
                    }
                    let emitted = self.physical.frames_sent().skip(
                        old(self).physical.frames_sent().len() as int,
                    );
                    assert(emitted =~= segment_views(self.config, data@));
                    assert(emitted =~= segment_views(self.config, data@).take(
                        emitted.len() as int,
                    ));
                }
                Ok(())
            },
            Err(e) => {
                proof {
                    if data@.len() <= sf_budget(self.config) {
                        // A failed single-frame write left the wire alone.
                        assert(self.physical.frames_sent().skip(
                            old(self).physical.frames_sent().len() as int,
                        ) =~= segment_views(self.config, data@).take(0));
                    }
                }
                Err(e)
            },
        }
    }

    /// Extracts the payload of a single frame.
    fn receive_single_frame(&self, frame: &Frame) -> (r: core::result::Result<
        Vec<u8>,
        AutomotiveError,
    >)
        requires
            frame@.data.len() >= pci_offset(self.spec_config()) + 1,
            frame@.data[pci_offset(self.spec_config())] / 16 == 0,
        ensures
            r matches Ok(v) ==> reassemble(self.spec_config(), seq![frame@]) == Some(v@),
            r is Err ==> reassemble(self.spec_config(), seq![frame@]) is None,
    {
        let ds = pci_index(&self.config);
        let l = (frame.data[ds] % 16) as usize;
        if l == 0 {
            return Err(AutomotiveError::IsoTpError("single frame with zero length".to_owned()));
        }
        if l > frame.data.len() - ds - 1 {
            return Err(
                AutomotiveError::IsoTpError("single frame length exceeds frame".to_owned()),
            );
        }
        let mut v: Vec<u8> = Vec::new();
        append_range(&mut v, frame.data.as_slice(), ds + 1, ds + 1 + l);
        proof {
            assert(v@ =~= frame@.data.subrange(
                pci_offset(self.config) + 1,
                pci_offset(self.config) + 1 + (frame@.data[pci_offset(self.config)] % 16),
            ));
            assert(seq![frame@].len() == 1);
            assert(seq![frame@][0] == frame@);
        }
        Ok(v)
    }

    /// Reassembles a multi-frame transfer headed by `first`: emits flow
    /// control, accepts consecutive frames in sequence, re-emits flow
    /// control after every block, and truncates to the announced length.
    fn receive_multi_frame(&mut self, first: &Frame) -> (r: core::result::Result<
        Vec<u8>,
        AutomotiveError,
    >)
        requires
            old(self).spec_is_open(),
            first@.data.len() >= pci_offset(old(self).spec_config()) + 2,
            first@.data[pci_offset(old(self).spec_config())] / 16 == 1,
        ensures
            final(self).spec_config() == old(self).spec_config(),
            final(self).spec_is_open() == old(self).spec_is_open(),
            final(self).msgs_sent() == old(self).msgs_sent(),
            final(self).msgs_rcvd() == old(self).msgs_rcvd(),
            final(self).wire_rcvd().len() >= old(self).wire_rcvd().len(),
            final(self).wire_rcvd().take(old(self).wire_rcvd().len() as int) == old(
                self,
            ).wire_rcvd(),
            final(self).wire_sent().len() >= old(self).wire_sent().len(),
            forall|i: int|
                old(self).wire_sent().len() <= i < final(self).wire_sent().len()
                    ==> #[trigger] final(self).wire_sent()[i] == fc_frame_view(
                    old(self).spec_config(),
                ),
            r is Ok ==> final(self).wire_sent().len() > old(self).wire_sent().len(),
            r matches Ok(v) ==> reassemble(
                old(self).spec_config(),
                seq![first@] + final(self).wire_rcvd().skip(old(self).wire_rcvd().len() as int),
            ) == Some(v@),
    {
        let ghost c = self.config;
        let ghost entry_sent = self.physical.frames_sent();
        let ghost entry_rcvd = self.physical.frames_rcvd();
        let ds = pci_index(&self.config);
        let total: usize = ((first.data[ds] as usize) % 16) * 256 + (first.data[ds + 1] as usize);
        let ghost ffp = first@.data.skip(pci_offset(c) + 2);

        let mut acc: Vec<u8> = Vec::new();
        append_range(&mut acc, first.data.as_slice(), ds + 2, first.data.len());
        proof {
            assert(first@.data.subrange(ds + 2, first@.data.len() as int) =~= ffp);
            assert(acc@ =~= ffp);
        }

        // Announce our receive window.
        let mut fc_body: Vec<u8> = Vec::new();
        fc_body.push(0x30);
        fc_body.push(self.config.block_size);
        fc_body.push(self.config.st_min);
        let fc = make_frame(&self.config, fc_body.as_slice());
        proof {
            assert(fc_body@ =~= seq![0x30u8, c.block_size, c.st_min]);
            assert(fc@ == fc_frame_view(c));
        }
        match self.physical.send_frame(&fc) {
            Ok(()) => (),
            Err(e) => return Err(e),
        }
        proof {
            assert forall|i: int|
                entry_sent.len() <= i < self.physical.frames_sent().len()
                    implies #[trigger] self.physical.frames_sent()[i] == fc_frame_view(c) by {
                assert(self.physical.frames_sent()[i] == fc@);
            }
        }

        // Consecutive frames arrive under the N_Cr timeout.
        match self.physical.set_timeout(self.config.timing.n_cr) {
            Ok(()) => (),
            Err(e) => return Err(e),
        }

        let mut sn: u8 = 1;
        let mut in_block: usize = 0;
        while acc.len() < total
            invariant
                self.config == old(self).config,
                self.is_open == old(self).is_open,
                self.sent_msgs == old(self).sent_msgs,
                self.rcvd_msgs == old(self).rcvd_msgs,
                c == old(self).config,
                ds as int == pci_offset(c),
                entry_sent == old(self).physical.frames_sent(),
                entry_rcvd == old(self).physical.frames_rcvd(),
                self.physical.frames_sent().len() > entry_sent.len(),
                forall|i: int|
                    entry_sent.len() <= i < self.physical.frames_sent().len()
                        ==> #[trigger] self.physical.frames_sent()[i] == fc_frame_view(c),
                ffp == first@.data.skip(pci_offset(c) + 2),
                first@.data.len() >= pci_offset(c) + 2,
                first@.data[pci_offset(c)] / 16 == 1,
                total as int == (first@.data[pci_offset(c)] % 16) * 256 + first@.data[pci_offset(
                    c,
                ) + 1],
                total <= 4095,
                sn < 16,
                in_block <= 4096,
                self.physical.frames_rcvd().len() >= entry_rcvd.len(),
                self.physical.frames_rcvd().take(entry_rcvd.len() as int) == entry_rcvd,
                forall|rest: Seq<FrameView>|
                    #[trigger] reassemble_cfs(c, rest, acc@, total as int, sn) == reassemble_cfs(
                        c,
                        self.physical.frames_rcvd().skip(entry_rcvd.len() as int) + rest,
                        ffp,
                        total as int,
                        1,
                    ),
            decreases missing(total as int, acc@.len() as int),
        {
            let ghost old_cfs = self.physical.frames_rcvd().skip(entry_rcvd.len() as int);
            let ghost old_acc = acc@;
            let ghost old_sn = sn;
            let f = match self.physical.receive_frame() {
                Ok(f) => f,
                Err(e) => return Err(e),
            };
            proof {
                assert(self.physical.frames_rcvd().take(entry_rcvd.len() as int) =~= entry_rcvd);
            }
            if f.data.len() < ds + 2 {
                return Err(AutomotiveError::IsoTpError("consecutive frame too short".to_owned()));
            }
            let pci = f.data[ds];
            if pci / 16 != 2 {
                return Err(
                    AutomotiveError::IsoTpError(
                        "unexpected PCI during reassembly".to_owned(),
                    ),
                );
            }
            if pci % 16 != sn {
                return Err(AutomotiveError::IsoTpError("sequence mismatch".to_owned()));
            }
            append_range(&mut acc, f.data.as_slice(), ds + 1, f.data.len());
            proof {
                assert(acc@ =~= old_acc + f@.data.skip(pci_offset(c) + 1));
                assert(self.physical.frames_rcvd().take(entry_rcvd.len() as int) =~= entry_rcvd);
                let new_cfs = self.physical.frames_rcvd().skip(entry_rcvd.len() as int);
                assert(new_cfs =~= old_cfs.push(f@));
                assert forall|rest: Seq<FrameView>|
                    #[trigger] reassemble_cfs(c, rest, acc@, total as int, next_sn(old_sn))
                        == reassemble_cfs(c, new_cfs + rest, ffp, total as int, 1) by {
                    let prev = seq![f@] + rest;
                    assert(reassemble_cfs(c, prev, old_acc, total as int, old_sn)
                        == reassemble_cfs(c, old_cfs + prev, ffp, total as int, 1));
                    assert(prev[0] == f@);
                    assert(prev.skip(1) =~= rest);
                    assert(reassemble_cfs(c, prev, old_acc, total as int, old_sn)
                        == reassemble_cfs(
                        c,
                        rest,
                        old_acc + f@.data.skip(pci_offset(c) + 1),
                        total as int,
                        next_sn(old_sn),
                    ));
                    assert(old_cfs + prev =~= new_cfs + rest);
                }
            }
            sn = if sn == 15 {
                0
            } else {
                sn + 1
            };
            // Re-announce the window after every full block.
            if self.config.block_size > 0 {
                if in_block + 1 >= self.config.block_size as usize {
                    in_block = 0;
                    if acc.len() < total {
                        let mut fcb: Vec<u8> = Vec::new();
                        fcb.push(0x30);
                        fcb.push(self.config.block_size);
                        fcb.push(self.config.st_min);
                        let fcf = make_frame(&self.config, fcb.as_slice());
                        proof {
                            assert(fcb@ =~= seq![0x30u8, c.block_size, c.st_min]);
                            assert(fcf@ == fc_frame_view(c));
                        }
                        match self.physical.send_frame(&fcf) {
                            Ok(()) => (),
                            Err(e) => return Err(e),
                        }
                    }
                } else if in_block < 4096 {
                    in_block += 1;
                }
            }
        }
        proof {
            let consumed = self.physical.frames_rcvd().skip(entry_rcvd.len() as int);
            assert(consumed + Seq::<FrameView>::empty() =~= consumed);
            assert(reassemble_cfs(c, Seq::<FrameView>::empty(), acc@, total as int, sn)
                == reassemble_cfs(c, consumed, ffp, total as int, 1));
            assert(reassemble_cfs(c, Seq::<FrameView>::empty(), acc@, total as int, sn)
                == Some(acc@.take(total as int)));
            let all = seq![first@] + consumed;
            assert(all[0] == first@);
            assert(all.skip(1) =~= consumed);
            assert(reassemble(c, all) == Some(acc@.take(total as int)));
        }
        acc.truncate(total);
        Ok(acc)
    }

    /// Receives one message: classifies the first frame's PCI and returns
    /// the payload of a single frame, or reassembles a multi-frame transfer.
    ///
    /// On success the frames consumed from the wire reassemble, under
    /// [`reassemble`], to exactly the returned payload; any PCI, sequence or
    /// length fault aborts with an error and delivers nothing.
    pub fn receive(&mut self) -> (r: core::result::Result<Vec<u8>, AutomotiveError>)
        ensures
            final(self).spec_config() == old(self).spec_config(),
            final(self).spec_is_open() == old(self).spec_is_open(),
            final(self).msgs_sent() == old(self).msgs_sent(),
            !old(self).spec_is_open() ==> (r matches Err(AutomotiveError::NotInitialized)),
            final(self).wire_sent().len() >= old(self).wire_sent().len(),
            forall|i: int|
                old(self).wire_sent().len() <= i < final(self).wire_sent().len()
                    ==> #[trigger] final(self).wire_sent()[i] == fc_frame_view(
                    old(self).spec_config(),
                ),
            r is Ok ==> ({
                let consumed = final(self).wire_rcvd().skip(old(self).wire_rcvd().len() as int);
                consumed.len() > 0 && (consumed[0].data.len() > pci_offset(old(self).spec_config())
                    && consumed[0].data[pci_offset(old(self).spec_config())] / 16 == 1
                    ==> final(self).wire_sent().len() > old(self).wire_sent().len())
            }),
            r matches Ok(v) ==> {
                &&& old(self).spec_is_open()
                &&& final(self).wire_rcvd().len() > old(self).wire_rcvd().len()
                &&& reassemble(
                    old(self).spec_config(),
                    final(self).wire_rcvd().skip(old(self).wire_rcvd().len() as int),
                ) == Some(v@)
                &&& final(self).msgs_rcvd() == old(self).msgs_rcvd().push(v@)
            },
            r is Err ==> final(self).msgs_rcvd() == old(self).msgs_rcvd(),
    {
        if !self.is_open {
            return Err(AutomotiveError::NotInitialized);
        }
        let ghost entry_rcvd = self.physical.frames_rcvd();
        let f0 = match self.physical.receive_frame() {
            Ok(f) => f,
            Err(e) => return Err(e),
        };
        let ds = pci_index(&self.config);
        if f0.data.len() < ds + 1 {
            return Err(AutomotiveError::IsoTpError("frame too short".to_owned()));
        }
        let pci = f0.data[ds];
        let out = if pci / 16 == 0 {
            let v = match self.receive_single_frame(&f0) {
                Ok(v) => v,
                Err(e) => return Err(e),
            };
            proof {
                assert(self.physical.frames_rcvd().skip(entry_rcvd.len() as int) =~= seq![f0@]);
            }
            v
        } else if pci / 16 == 1 {
            if f0.data.len() < ds + 2 {
                return Err(AutomotiveError::IsoTpError("first frame too short".to_owned()));
            }
            let ghost mid_rcvd = self.physical.frames_rcvd();
            let v = match self.receive_multi_frame(&f0) {
                Ok(v) => v,
                Err(e) => return Err(e),
            };
            proof {
                let fin = self.physical.frames_rcvd();
                assert(mid_rcvd[entry_rcvd.len() as int] == f0@);
                assert(fin[entry_rcvd.len() as int] == fin.take(mid_rcvd.len() as int)[entry_rcvd.len() as int]);
                assert(fin.skip(entry_rcvd.len() as int) =~= seq![f0@]
                    + fin.skip(mid_rcvd.len() as int));
            }
            v
        } else {
            return Err(AutomotiveError::IsoTpError("unexpected PCI".to_owned()));
        };
        proof {
            self.rcvd_msgs@ = self.rcvd_msgs@.push(out@);
        }
        Ok(out)
    }
}

impl<P: PhysicalLayer> TransportLayer for IsoTp<P> {
    type Config = IsoTpConfig;

    /// An ISO-TP transport cannot exist without a physical layer; use
    /// `with_physical`.
    fn new(config: IsoTpConfig) -> (r: core::result::Result<Self, AutomotiveError>) {
        Err(AutomotiveError::NotInitialized)
    }

    fn open(&mut self) -> (r: core::result::Result<(), AutomotiveError>) {
        IsoTp::open(self)
    }

    fn close(&mut self) -> (r: core::result::Result<(), AutomotiveError>) {
        IsoTp::close(self)
    }

    fn write_frame(&mut self, frame: &Frame) -> (r: core::result::Result<(), AutomotiveError>) {
        IsoTp::write_frame(self, frame)
    }

    fn read_frame(&mut self) -> (r: core::result::Result<Frame, AutomotiveError>) {
        IsoTp::read_frame(self)
    }

    fn set_timeout(&mut self, timeout_ms: u32) -> (r: core::result::Result<
        (),
        AutomotiveError,
    >) {
        IsoTp::set_timeout(self, timeout_ms)
    }
}

impl<P: PhysicalLayer> IsoTpTransport for IsoTp<P> {
    closed spec fn msgs_sent(&self) -> Seq<Seq<u8>> {
        self.sent_msgs@
    }

    closed spec fn msgs_rcvd(&self) -> Seq<Seq<u8>> {
        self.rcvd_msgs@
    }

    fn open(&mut self) -> (r: core::result::Result<(), AutomotiveError>) {
        IsoTp::open(self)
    }

    fn close(&mut self) -> (r: core::result::Result<(), AutomotiveError>) {
        IsoTp::close(self)
    }

    fn send(&mut self, data: &[u8]) -> (r: core::result::Result<(), AutomotiveError>) {
        IsoTp::send(self, data)
    }

    fn receive(&mut self) -> (r: core::result::Result<Vec<u8>, AutomotiveError>) {
        IsoTp::receive(self)
    }

    fn set_timeout(&mut self, timeout_ms: u32) -> (r: core::result::Result<
        (),
        AutomotiveError,
    >) {
        IsoTp::set_timeout(self, timeout_ms)
    }

    fn wait_us(&mut self, micros: u32) {
        self.physical.wait_us(micros);
    }
}


// ---------------------------------------------------------------------------
// Transfer-level laws.
// ---------------------------------------------------------------------------

/// The sequence number the n-th consecutive frame after one numbered `sn`
/// carries: counting wraps modulo 16.
pub open spec fn sn_at(sn: u8, i: int) -> u8 {
    ((sn + i) % 16) as u8
}

/// A frame is a well-formed consecutive frame carrying sequence number `s`.
pub open spec fn cf_pci_ok(c: IsoTpConfig, f: FrameView, s: u8) -> bool {
    &&& f.data.len() >= pci_offset(c) + 2
    &&& f.data[pci_offset(c)] / 16 == 2
    &&& f.data[pci_offset(c)] % 16 == s
}

proof fn lemma_sn_step(sn: u8, i: int)
    requires
        sn < 16,
        i >= 0,
    ensures
        sn_at(sn, i + 1) == sn_at(next_sn(sn), i),
{
    if sn == 15 {
        vstd::arithmetic::div_mod::lemma_mod_add_multiples_vanish(i, 16);
        assert((15 + (i + 1)) % 16 == i % 16);
    }
}

/// Indexing below the unpadded length is unaffected by padding.
proof fn lemma_padded_prefix(c: IsoTpConfig, s: Seq<u8>, i: int)
    requires
        0 <= i < s.len(),
    ensures
        padded(c, s).len() >= s.len(),
        padded(c, s)[i] == s[i],
{
}

/// The PCI byte of the i-th frame of `cf_views(c, rest, sn)` is
/// `0x20 + sn_at(sn, i)`, and its data is long enough to hold a payload.
proof fn lemma_cf_views_pci(c: IsoTpConfig, rest: Seq<u8>, sn: u8, i: int)
    requires
        sn < 16,
        rest.len() > 0,
        0 <= i < cf_views(c, rest, sn).len(),
    ensures
        cf_views(c, rest, sn)[i].data.len() >= pci_offset(c) + 2,
        cf_views(c, rest, sn)[i].data[pci_offset(c)] == 0x20 + sn_at(sn, i),
    decreases rest.len(),
{
    if i == 0 {
        let chunk = if rest.len() <= cf_budget(c) {
            rest
        } else {
            rest.take(cf_budget(c))
        };
        let body = ext_prefix(c) + seq![(0x20 + sn) as u8] + chunk;
        assert(cf_views(c, rest, sn)[0] == cf_view(c, chunk, sn));
        assert(ext_prefix(c).len() == pci_offset(c));
        assert((ext_prefix(c) + (seq![(0x20 + sn) as u8] + chunk))[pci_offset(c)] == (0x20
            + sn) as u8);
        lemma_padded_prefix(c, ext_prefix(c) + (seq![(0x20 + sn) as u8] + chunk), pci_offset(c));
        assert(sn_at(sn, 0) == sn);
    } else {
        assert(rest.len() > cf_budget(c));
        lemma_cf_views_pci(c, rest.skip(cf_budget(c)), next_sn(sn), i - 1);
        lemma_sn_step(sn, i - 1);
        assert(cf_views(c, rest, sn)[i] == cf_views(c, rest.skip(cf_budget(c)), next_sn(sn))[i
            - 1]);
    }
}

/// ISO-TP sequence invariant: in one first-frame-bounded transfer, the n-th
/// consecutive frame (counting from 1) carries sequence number `n mod 16`,
/// starting with 1.
pub proof fn lemma_isotp_sequence_numbers(c: IsoTpConfig, d: Seq<u8>, n: int)
    requires
        sf_budget(c) < d.len() <= 4095,
        1 <= n < segment_views(c, d).len(),
    ensures
        segment_views(c, d)[n].data[pci_offset(c)] / 16 == 2,
        segment_views(c, d)[n].data[pci_offset(c)] % 16 == n % 16,
{
    let rest = d.skip(ff_budget(c));
    assert(segment_views(c, d)[n] == cf_views(c, rest, 1)[n - 1]);
    lemma_cf_views_pci(c, rest, 1, n - 1);
    assert(cf_views(c, rest, 1)[n - 1].data[pci_offset(c)] == 0x20 + sn_at(1, n - 1));
    assert(sn_at(1, n - 1) == ((n % 16) as u8)) by {
        assert((1 + (n - 1)) % 16 == n % 16);
    }
    assert((0x20 + ((n % 16) as u8)) / 16 == 2);
    assert((0x20 + ((n % 16) as u8)) % 16 == n % 16);
}

/// Reassembling the consecutive frames that carry `rest` onto `acc` yields
/// exactly `acc + rest` once the transfer length is reached.
proof fn lemma_cfs_reassemble(c: IsoTpConfig, acc: Seq<u8>, rest: Seq<u8>, total: int, sn: u8)
    requires
        sn < 16,
        rest.len() >= 1,
        acc.len() + rest.len() == total,
    ensures
        reassemble_cfs(c, cf_views(c, rest, sn), acc, total, sn) == Some(acc + rest),
    decreases rest.len(),
{
    let po = pci_offset(c);
    if rest.len() <= cf_budget(c) {
        let body = ext_prefix(c) + (seq![(0x20 + sn) as u8] + rest);
        let f = cf_view(c, rest, sn);
        assert(cf_views(c, rest, sn) =~= seq![f]);
        assert(ext_prefix(c).len() == po);
        lemma_padded_prefix(c, body, po);
        assert(f.data[po] == (0x20 + sn) as u8);
        assert(f.data.len() >= po + 2) by {
            lemma_padded_prefix(c, body, po + 1);
        }
        assert(f.data[po] / 16 == 2 && f.data[po] % 16 == sn);
        let payload = f.data.skip(po + 1);
        assert forall|j: int| 0 <= j < rest.len() implies payload[j] == rest[j] by {
            lemma_padded_prefix(c, body, po + 1 + j);
            assert(body[po + 1 + j] == rest[j]);
        }
        assert(payload.len() >= rest.len());
        assert(forall|j: int| rest.len() <= j < payload.len() ==> payload[j] == c.padding_value
            || true);
        let acc2 = acc + payload;
        assert(acc2.len() >= total);
        assert(seq![f].skip(1) =~= Seq::<FrameView>::empty());
        assert(reassemble_cfs(c, cf_views(c, rest, sn), acc, total, sn) == reassemble_cfs(
            c,
            Seq::<FrameView>::empty(),
            acc2,
            total,
            next_sn(sn),
        ));
        assert(acc2.take(total) =~= acc + rest);
    } else {
        let cb = cf_budget(c);
        let chunk = rest.take(cb);
        let body = ext_prefix(c) + (seq![(0x20 + sn) as u8] + chunk);
        let f = cf_view(c, chunk, sn);
        assert(ext_prefix(c).len() == po);
        assert(body.len() == po + 1 + cb);
        assert(body.len() == 8);
        assert(f.data == body);
        assert(f.data[po] == (0x20 + sn) as u8);
        assert(f.data[po] / 16 == 2 && f.data[po] % 16 == sn);
        let payload = f.data.skip(po + 1);
        assert(payload =~= chunk);
        assert(cf_views(c, rest, sn) =~= seq![f] + cf_views(c, rest.skip(cb), next_sn(sn)));
        assert((seq![f] + cf_views(c, rest.skip(cb), next_sn(sn))).skip(1) =~= cf_views(
            c,
            rest.skip(cb),
            next_sn(sn),
        ));
        assert(acc.len() < total);
        lemma_cfs_reassemble(c, acc + chunk, rest.skip(cb), total, next_sn(sn));
        assert((acc + chunk) + rest.skip(cb) =~= acc + rest);
    }
}

/// ISO-TP round trip: for every payload of 1..=4095 bytes, the frames the
/// sender emits reassemble, on a receiver with the same address
/// configuration, to exactly that payload — whatever the block size,
/// separation time and padding settings.
pub proof fn lemma_isotp_round_trip(c: IsoTpConfig, d: Seq<u8>)
    requires
        1 <= d.len() <= 4095,
    ensures
        reassemble(c, segment_views(c, d)) == Some(d),
{
    let po = pci_offset(c);
    if d.len() <= sf_budget(c) {
        let body = ext_prefix(c) + (seq![d.len() as u8] + d);
        let f = sf_view(c, d);
        assert(segment_views(c, d) =~= seq![f]);
        assert(ext_prefix(c).len() == po);
        lemma_padded_prefix(c, body, po);
        assert(f.data[po] == d.len() as u8);
        assert(d.len() < 16);
        assert(f.data[po] / 16 == 0);
        let l = f.data[po] % 16;
        assert(l == d.len());
        assert(f.data.len() >= po + 1 + d.len());
        assert(f.data.subrange(po + 1, po + 1 + l) =~= d) by {
            assert forall|j: int| 0 <= j < d.len() implies f.data[po + 1 + j] == d[j] by {
                lemma_padded_prefix(c, body, po + 1 + j);
                assert(body[po + 1 + j] == d[j]);
            }
        }
    } else {
        let hi = (0x10 + d.len() / 256) as u8;
        let lo = (d.len() % 256) as u8;
        let body = ext_prefix(c) + (seq![hi, lo] + d.take(ff_budget(c)));
        let ff = ff_view(c, d);
        assert(body.len() == po + 2 + ff_budget(c));
        assert(body.len() == 8);
        assert(ff.data == body);
        assert(ext_prefix(c).len() == po);
        assert(ff.data[po] == hi);
        assert(ff.data[po + 1] == lo);
        assert(d.len() / 256 <= 15) by (nonlinear_arith)
            requires
                d.len() <= 4095,
        ;
        assert(hi / 16 == 1);
        assert(hi % 16 == d.len() / 256);
        let total = (hi % 16) * 256 + lo;
        assert(total == d.len()) by {
            vstd::arithmetic::div_mod::lemma_fundamental_div_mod(d.len() as int, 256);
        }
        let rest = d.skip(ff_budget(c));
        let cfs = cf_views(c, rest, 1);
        assert(segment_views(c, d) =~= seq![ff] + cfs);
        assert((seq![ff] + cfs)[0] == ff);
        assert((seq![ff] + cfs).skip(1) =~= cfs);
        let ffp = ff.data.skip(po + 2);
        assert(ffp =~= d.take(ff_budget(c)));
        assert(rest.len() >= 1);
        lemma_cfs_reassemble(c, d.take(ff_budget(c)), rest, total, 1);
        assert(d.take(ff_budget(c)) + rest =~= d);
    }
}

/// Receiving rejects out-of-order consecutive frames: when the k-th
/// consecutive frame of a transfer carries any sequence number other than
/// the expected one (the earlier frames being in order and the transfer
/// still incomplete), reassembly yields no payload at all — and by the
/// contract of `receive`, no bytes are delivered to the caller.
pub proof fn lemma_isotp_rejects_bad_sequence(
    c: IsoTpConfig,
    frames: Seq<FrameView>,
    acc: Seq<u8>,
    total: int,
    sn: u8,
    k: int,
)
    requires
        sn < 16,
        0 <= k < frames.len(),
        forall|i: int| 0 <= i < k ==> cf_pci_ok(c, frames[i], sn_at(sn, i)),
        frames[k].data.len() >= pci_offset(c) + 2,
        frames[k].data[pci_offset(c)] / 16 == 2,
        frames[k].data[pci_offset(c)] % 16 != sn_at(sn, k),
    ensures
        reassemble_cfs(c, frames, acc, total, sn) is None,
    decreases k,
{
    if acc.len() >= total {
        assert(frames.len() != 0);
    } else if k == 0 {
        assert(sn_at(sn, 0) == sn);
    } else {
        assert(cf_pci_ok(c, frames[0], sn_at(sn, 0)));
        assert(sn_at(sn, 0) == sn);
        let acc2 = acc + frames[0].data.skip(pci_offset(c) + 1);
        assert forall|i: int| 0 <= i < k - 1 implies cf_pci_ok(
            c,
            frames.skip(1)[i],
            sn_at(next_sn(sn), i),
        ) by {
            assert(frames.skip(1)[i] == frames[i + 1]);
            lemma_sn_step(sn, i);
        }
        lemma_sn_step(sn, k - 1);
        assert(frames.skip(1)[k - 1] == frames[k]);
        lemma_isotp_rejects_bad_sequence(c, frames.skip(1), acc2, total, next_sn(sn), k - 1);
    }
}


} // verus!
