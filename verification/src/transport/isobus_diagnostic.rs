//! The ISOBUS diagnostic protocol (SAE J1939-73): stores of active and
//! previously active diagnostic trouble codes, the DM clear/control
//! messages that manage them, and the periodic DM1 broadcast.
//!
//! Each store holds at most one code per (SPN, FMI) pair — the
//! well-formedness [`ISOBUSDiagnosticProtocol::wf`] that the constructor
//! establishes and every method preserves.

use crate::bytes::{append_range, u32_be};
use crate::clock::now_millis;
use crate::error::AutomotiveError;
use crate::network::j1939::parse_pgn;
use crate::types::{Frame, FrameView};
use vstd::prelude::*;

verus! {

/// DM1: active diagnostic trouble codes.
pub const PGN_DM1: u32 = 0xFECA;

/// DM2: previously active diagnostic trouble codes.
pub const PGN_DM2: u32 = 0xFECB;

/// DM3: clear all previously active diagnostic trouble codes together with
/// the active ones.
pub const PGN_DM3: u32 = 0xFECC;

/// DM11: clear the active diagnostic trouble codes only.
pub const PGN_DM11: u32 = 0xFED4;

/// DM13: start or stop the DM1 broadcast.
pub const PGN_DM13: u32 = 0xFED6;

/// DM22: clear one specific diagnostic trouble code.
pub const PGN_DM22: u32 = 0xFEE3;

/// Interval between DM1 broadcasts, in milliseconds.
pub const DM1_BROADCAST_INTERVAL_MS: u64 = 1000;

/// Malfunction indicator lamp status.
#[derive(Debug, Clone, Copy, PartialEq, Eq, Structural)]
pub enum LampStatus {
    /// Lamp is turned off.
    Off,
    /// Lamp is continuously on.
    On,
    /// Lamp is flashing slowly.
    SlowFlash,
    /// Lamp is flashing rapidly.
    FastFlash,
}

/// A single diagnostic trouble code.
#[derive(Debug, Clone, Copy, PartialEq, Eq, Structural)]
pub struct DiagnosticTroubleCode {
    /// Suspect parameter number (19 bits).
    pub spn: u32,
    /// Failure mode identifier (5 bits).
    pub fmi: u8,
    /// How often this code occurred (7 bits).
    pub occurrence_count: u8,
    /// Status of the malfunction indicator lamp.
    pub lamp_status: LampStatus,
    /// Whether the code is currently active.
    pub active: bool,
}

/// The 32-bit word a trouble code packs into: SPN in bits 5..24, FMI in
/// bits 0..5, occurrence count in bits 24..31.
pub open spec fn dtc_word(d: DiagnosticTroubleCode) -> u32 {
    ((d.spn & 0x7FFFF) << 5) | (((d.fmi & 0x1F) as u32)) | (((d.occurrence_count
        & 0x7F) as u32) << 24)
}

/// The 32-bit word four big-endian bytes recombine into.
pub open spec fn dtc_combined(s: Seq<u8>) -> u32 {
    ((((s[0] * 256 + s[1]) * 256 + s[2]) * 256 + s[3])) as u32
}

impl DiagnosticTroubleCode {
    /// A fresh, active trouble code seen once, lamp off.
    pub fn new(spn: u32, fmi: u8) -> (r: Self)
        ensures
            r.spn == spn,
            r.fmi == fmi,
            r.occurrence_count == 1,
            r.lamp_status is Off,
            r.active,
    {
        DiagnosticTroubleCode {
            spn,
            fmi,
            occurrence_count: 1,
            lamp_status: LampStatus::Off,
            active: true,
        }
    }

    /// Packs the code into its four big-endian bytes.
    pub fn to_bytes(&self) -> (v: Vec<u8>)
        ensures
            v@ == u32_be(dtc_word(*self)),
    {
        let combined: u32 = ((self.spn & 0x7FFFF) << 5) | ((self.fmi & 0x1F) as u32) | (((
        self.occurrence_count & 0x7F) as u32) << 24);
        let mut v: Vec<u8> = Vec::new();
        crate::bytes::push_u32_be(&mut v, combined);
        proof {
            assert(v@ =~= u32_be(dtc_word(*self)));
        }
        v
    }

    /// Unpacks a code from four big-endian bytes: the lamp is reported off
    /// and the code active.
    pub fn from_bytes(data: &[u8]) -> (r: core::result::Result<Self, AutomotiveError>)
        ensures
            data@.len() < 4 ==> (r matches Err(AutomotiveError::InvalidData)),
            data@.len() >= 4 ==> (r matches Ok(d) && {
                let c = dtc_combined(data@);
                &&& d.spn == (c >> 5) & 0x7FFFF
                &&& d.fmi == (c & 0x1F) as u8
                &&& d.occurrence_count == (c >> 24) as u8
                &&& d.lamp_status is Off
                &&& d.active
            }),
    {
        if data.len() < 4 {
            return Err(AutomotiveError::InvalidData);
        }
        let combined: u32 = (((data[0] as u32) * 256 + (data[1] as u32)) * 256 + (
        data[2] as u32)) * 256 + (data[3] as u32);
        let spn = (combined >> 5) & 0x7FFFF;
        let fmi = (combined & 0x1F) as u8;
        let occurrence_count = (combined >> 24) as u8;
        Ok(
            DiagnosticTroubleCode {
                spn,
                fmi,
                occurrence_count,
                lamp_status: LampStatus::Off,
                active: true,
            },
        )
    }
}

/// Trouble code codec law: unpacking a packed code recovers its SPN, FMI
/// and occurrence count, for every code within the field widths.
pub proof fn lemma_dtc_word_round_trip(d: DiagnosticTroubleCode)
    requires
        d.spn <= 0x7FFFF,
        d.fmi <= 0x1F,
        d.occurrence_count <= 0x7F,
    ensures
        (dtc_word(d) >> 5) & 0x7FFFF == d.spn,
        (dtc_word(d) & 0x1F) as u8 == d.fmi,
        (dtc_word(d) >> 24) as u8 == d.occurrence_count,
{
    let s = d.spn;
    let f = d.fmi;
    let c = d.occurrence_count;
    let w = dtc_word(d);
    assert(((w >> 5) & 0x7FFFF) == s && (w & 0x1F) == (f as u32) && (w >> 24) == (c as u32))
        by (bit_vector)
        requires
            s <= 0x7FFFF,
            f <= 0x1F,
            c <= 0x7F,
            w == ((s & 0x7FFFF) << 5) | ((f & 0x1F) as u32) | (((c & 0x7F) as u32) << 24),
    ;
}

/// Two codes name the same fault.
pub open spec fn same_key(a: DiagnosticTroubleCode, b: DiagnosticTroubleCode) -> bool {
    a.spn == b.spn && a.fmi == b.fmi
}

/// No two codes in the store name the same fault.
pub open spec fn keys_unique(s: Seq<DiagnosticTroubleCode>) -> bool {
    forall|i: int, j: int| 0 <= i < j < s.len() ==> !same_key(s[i], s[j])
}

/// The code with its occurrence count bumped, saturating.
pub open spec fn bumped(d: DiagnosticTroubleCode) -> DiagnosticTroubleCode {
    DiagnosticTroubleCode {
        occurrence_count: if d.occurrence_count == 255 {
            255
        } else {
            (d.occurrence_count + 1) as u8
        },
        ..d
    }
}

/// The store with every code naming the given fault removed.
pub open spec fn removed_key(s: Seq<DiagnosticTroubleCode>, spn: u32, fmi: u8) -> Seq<
    DiagnosticTroubleCode,
>
    decreases s.len(),
{
    if s.len() == 0 {
        s
    } else if s[0].spn == spn && s[0].fmi == fmi {
        removed_key(s.skip(1), spn, fmi)
    } else {
        seq![s[0]] + removed_key(s.skip(1), spn, fmi)
    }
}

/// Codes another fault keeps are untouched by a removal.
proof fn lemma_removed_key_no_key(s: Seq<DiagnosticTroubleCode>, spn: u32, fmi: u8, a: u32, b: u8)
    requires
        forall|i: int| 0 <= i < s.len() ==> !(s[i].spn == a && s[i].fmi == b),
    ensures
        forall|i: int|
            0 <= i < removed_key(s, spn, fmi).len() ==> !((#[trigger] removed_key(s, spn, fmi)[i]).spn
                == a && removed_key(s, spn, fmi)[i].fmi == b),
    decreases s.len(),
{
    if s.len() > 0 {
        assert forall|i: int| 0 <= i < s.skip(1).len() implies !((#[trigger] s.skip(1)[i]).spn == a
            && s.skip(1)[i].fmi == b) by {
            assert(s.skip(1)[i] == s[i + 1]);
        }
        lemma_removed_key_no_key(s.skip(1), spn, fmi, a, b);
        if !(s[0].spn == spn && s[0].fmi == fmi) {
            assert forall|i: int| 0 <= i < removed_key(s, spn, fmi).len() implies !((
            #[trigger] removed_key(s, spn, fmi)[i]).spn == a && removed_key(s, spn, fmi)[i].fmi
                == b) by {
                if i > 0 {
                    assert(removed_key(s, spn, fmi)[i] == removed_key(s.skip(1), spn, fmi)[i - 1]);
                }
            }
        }
    }
}

/// Removal keeps the store free of duplicate keys.
proof fn lemma_removed_key_unique(s: Seq<DiagnosticTroubleCode>, spn: u32, fmi: u8)
    requires
        keys_unique(s),
    ensures
        keys_unique(removed_key(s, spn, fmi)),
    decreases s.len(),
{
    if s.len() > 0 {
        assert forall|a: int, b: int| 0 <= a < b < s.skip(1).len() implies !same_key(
            s.skip(1)[a],
            s.skip(1)[b],
        ) by {
            assert(s.skip(1)[a] == s[a + 1] && s.skip(1)[b] == s[b + 1]);
        }
        lemma_removed_key_unique(s.skip(1), spn, fmi);
        if !(s[0].spn == spn && s[0].fmi == fmi) {
            assert forall|i: int| 0 <= i < s.skip(1).len() implies !(s.skip(1)[i].spn == s[0].spn
                && s.skip(1)[i].fmi == s[0].fmi) by {
                assert(s.skip(1)[i] == s[i + 1]);
                assert(!same_key(s[0], s[i + 1]));
            }
            lemma_removed_key_no_key(s.skip(1), spn, fmi, s[0].spn, s[0].fmi);
            let r = removed_key(s, spn, fmi);
            let rt = removed_key(s.skip(1), spn, fmi);
            assert forall|a: int, b: int| 0 <= a < b < r.len() implies !same_key(r[a], r[b]) by {
                assert(r[b] == rt[b - 1]);
                if a == 0 {
                    assert(r[a] == s[0]);
                } else {
                    assert(r[a] == rt[a - 1]);
                }
            }
        }
    }
}

/// The DM1 payload: two lamp status bytes, then the packed active codes.
pub open spec fn dtc_bytes_concat(s: Seq<DiagnosticTroubleCode>) -> Seq<u8>
    decreases s.len(),
{
    if s.len() == 0 {
        Seq::empty()
    } else {
        u32_be(dtc_word(s[0])) + dtc_bytes_concat(s.skip(1))
    }
}

proof fn lemma_dtc_bytes_push(s: Seq<DiagnosticTroubleCode>, d: DiagnosticTroubleCode)
    ensures
        dtc_bytes_concat(s.push(d)) == dtc_bytes_concat(s) + u32_be(dtc_word(d)),
    decreases s.len(),
{
    let p = s.push(d);
    if s.len() == 0 {
        assert(p[0] == d);
        assert(p.skip(1) =~= Seq::<DiagnosticTroubleCode>::empty());
        assert(dtc_bytes_concat(p) == u32_be(dtc_word(d)) + dtc_bytes_concat(
            Seq::<DiagnosticTroubleCode>::empty(),
        ));
        assert(u32_be(dtc_word(d)) + Seq::<u8>::empty() =~= Seq::<u8>::empty() + u32_be(
            dtc_word(d),
        ));
    } else {
        assert(p[0] == s[0]);
        assert(p.skip(1) =~= s.skip(1).push(d));
        lemma_dtc_bytes_push(s.skip(1), d);
        assert(dtc_bytes_concat(p) == u32_be(dtc_word(s[0])) + (dtc_bytes_concat(s.skip(1))
            + u32_be(dtc_word(d))));
        assert(u32_be(dtc_word(s[0])) + (dtc_bytes_concat(s.skip(1)) + u32_be(dtc_word(d))) =~= (
        u32_be(dtc_word(s[0])) + dtc_bytes_concat(s.skip(1))) + u32_be(dtc_word(d)));
    }
}

/// The diagnostic protocol state: the two trouble-code stores and the DM1
/// broadcast clock.
pub struct ISOBUSDiagnosticProtocol {
    active_dtcs: Vec<DiagnosticTroubleCode>,
    inactive_dtcs: Vec<DiagnosticTroubleCode>,
    last_dm1_broadcast: u64,
    broadcast_enabled: bool,
}

impl ISOBUSDiagnosticProtocol {
    /// The currently active codes, in insertion order.
    pub closed spec fn active(&self) -> Seq<DiagnosticTroubleCode> {
        self.active_dtcs@
    }

    /// The previously active codes, in insertion order.
    pub closed spec fn inactive(&self) -> Seq<DiagnosticTroubleCode> {
        self.inactive_dtcs@
    }

    /// Clock reading of the last DM1 broadcast.
    pub closed spec fn spec_last_broadcast(&self) -> u64 {
        self.last_dm1_broadcast
    }

    /// Whether DM1 broadcasting is on.
    pub closed spec fn spec_broadcast_enabled(&self) -> bool {
        self.broadcast_enabled
    }

    /// Well-formedness: each store holds at most one code per fault.
    pub open spec fn wf(&self) -> bool {
        keys_unique(self.active()) && keys_unique(self.inactive())
    }

    /// An empty protocol state with broadcasting on.
    pub fn new() -> (r: Self)
        ensures
            r.wf(),
            r.active() == Seq::<DiagnosticTroubleCode>::empty(),
            r.inactive() == Seq::<DiagnosticTroubleCode>::empty(),
            r.spec_last_broadcast() == 0,
            r.spec_broadcast_enabled(),
    {
        ISOBUSDiagnosticProtocol {
            active_dtcs: Vec::new(),
            inactive_dtcs: Vec::new(),
            last_dm1_broadcast: 0,
            broadcast_enabled: true,
        }
    }

    /// Looks for a code naming the same fault and returns its index.
    fn find_key(store: &Vec<DiagnosticTroubleCode>, spn: u32, fmi: u8) -> (r: Option<usize>)
        ensures
            match r {
                Some(i) => i < store@.len() && store@[i as int].spn == spn && store@[i as int].fmi
                    == fmi,
                None => forall|i: int|
                    0 <= i < store@.len() ==> !(store@[i].spn == spn && store@[i].fmi == fmi),
            },
    {
        let mut i: usize = 0;
        while i < store.len()
            invariant
                i <= store@.len(),
                forall|j: int| 0 <= j < i ==> !(store@[j].spn == spn && store@[j].fmi == fmi),
            decreases store@.len() - i,
        {
            if store[i].spn == spn && store[i].fmi == fmi {
                return Some(i);
            }
            i += 1;
        }
        None
    }

    /// Adds a code to the store its activity selects: a code already known
    /// there has its occurrence count bumped (saturating); a new one is
    /// appended.
    pub fn add_dtc(&mut self, dtc: DiagnosticTroubleCode)
        requires
            old(self).wf(),
        ensures
            final(self).wf(),
            final(self).spec_last_broadcast() == old(self).spec_last_broadcast(),
            final(self).spec_broadcast_enabled() == old(self).spec_broadcast_enabled(),
            dtc.active ==> final(self).inactive() == old(self).inactive(),
            !dtc.active ==> final(self).active() == old(self).active(),
            dtc.active ==> {
                ||| (exists|i: int|
                    0 <= i < old(self).active().len() && same_key(
                        #[trigger] old(self).active()[i],
                        dtc,
                    ) && final(self).active() == old(self).active().update(
                        i,
                        bumped(old(self).active()[i]),
                    ))
                ||| ((forall|i: int|
                    0 <= i < old(self).active().len() ==> !same_key(
                        #[trigger] old(self).active()[i],
                        dtc,
                    )) && final(self).active() == old(self).active().push(dtc))
            },
            !dtc.active ==> {
                ||| (exists|i: int|
                    0 <= i < old(self).inactive().len() && same_key(
                        #[trigger] old(self).inactive()[i],
                        dtc,
                    ) && final(self).inactive() == old(self).inactive().update(
                        i,
                        bumped(old(self).inactive()[i]),
                    ))
                ||| ((forall|i: int|
                    0 <= i < old(self).inactive().len() ==> !same_key(
                        #[trigger] old(self).inactive()[i],
                        dtc,
                    )) && final(self).inactive() == old(self).inactive().push(dtc))
            },
    {
        if dtc.active {
            match Self::find_key(&self.active_dtcs, dtc.spn, dtc.fmi) {
                Some(i) => {
                    let mut existing = self.active_dtcs[i];
                    existing.occurrence_count = if existing.occurrence_count == 255 {
                        255
                    } else {
                        existing.occurrence_count + 1
                    };
                    self.active_dtcs.set(i, existing);
                    proof {
                        let so = old(self).active();
                        let s = self.active_dtcs@;
                        assert(existing == bumped(so[i as int]));
                        assert forall|a: int, b: int| 0 <= a < b < s.len() implies !same_key(
                            s[a],
                            s[b],
                        ) by {
                            assert(s[a].spn == so[a].spn && s[a].fmi == so[a].fmi);
                            assert(s[b].spn == so[b].spn && s[b].fmi == so[b].fmi);
                            assert(!same_key(so[a], so[b]));
                        }
                    }
                },
                None => {
                    self.active_dtcs.push(dtc);
                    proof {
                        let so = old(self).active();
                        let s = self.active_dtcs@;
                        assert forall|a: int, b: int| 0 <= a < b < s.len() implies !same_key(
                            s[a],
                            s[b],
                        ) by {
                            if b == so.len() {
                                assert(s[a] == so[a] && s[b] == dtc);
                            } else {
                                assert(s[a] == so[a] && s[b] == so[b]);
                                assert(!same_key(so[a], so[b]));
                            }
                        }
                    }
                },
            }
        } else {
            match Self::find_key(&self.inactive_dtcs, dtc.spn, dtc.fmi) {
                Some(i) => {
                    let mut existing = self.inactive_dtcs[i];
                    existing.occurrence_count = if existing.occurrence_count == 255 {
                        255
                    } else {
                        existing.occurrence_count + 1
                    };
                    self.inactive_dtcs.set(i, existing);
                    proof {
                        let so = old(self).inactive();
                        let s = self.inactive_dtcs@;
                        assert(existing == bumped(so[i as int]));
                        assert forall|a: int, b: int| 0 <= a < b < s.len() implies !same_key(
                            s[a],
                            s[b],
                        ) by {
                            assert(s[a].spn == so[a].spn && s[a].fmi == so[a].fmi);
                            assert(s[b].spn == so[b].spn && s[b].fmi == so[b].fmi);
                            assert(!same_key(so[a], so[b]));
                        }
                    }
                },
                None => {
                    self.inactive_dtcs.push(dtc);
                    proof {
                        let so = old(self).inactive();
                        let s = self.inactive_dtcs@;
                        assert forall|a: int, b: int| 0 <= a < b < s.len() implies !same_key(
                            s[a],
                            s[b],
                        ) by {
                            if b == so.len() {
                                assert(s[a] == so[a] && s[b] == dtc);
                            } else {
                                assert(s[a] == so[a] && s[b] == so[b]);
                                assert(!same_key(so[a], so[b]));
                            }
                        }
                    }
                },
            }
        }
    }

    /// Clears all active codes.
    pub fn clear_active_dtcs(&mut self)
        ensures
            final(self).wf() == keys_unique(final(self).inactive()),
            final(self).active() == Seq::<DiagnosticTroubleCode>::empty(),
            final(self).inactive() == old(self).inactive(),
            final(self).spec_last_broadcast() == old(self).spec_last_broadcast(),
            final(self).spec_broadcast_enabled() == old(self).spec_broadcast_enabled(),
    {
        self.active_dtcs.clear();
    }

    /// Clears all previously active codes.
    pub fn clear_inactive_dtcs(&mut self)
        ensures
            final(self).wf() == keys_unique(final(self).active()),
            final(self).inactive() == Seq::<DiagnosticTroubleCode>::empty(),
            final(self).active() == old(self).active(),
            final(self).spec_last_broadcast() == old(self).spec_last_broadcast(),
            final(self).spec_broadcast_enabled() == old(self).spec_broadcast_enabled(),
    {
        self.inactive_dtcs.clear();
    }

    /// Removes every code naming the given fault from a store.
    fn remove_key_from(store: &mut Vec<DiagnosticTroubleCode>, spn: u32, fmi: u8)
        ensures
            final(store)@ == removed_key(old(store)@, spn, fmi),
    {
        let mut out: Vec<DiagnosticTroubleCode> = Vec::new();
        let mut i: usize = 0;
        proof {
            assert(old(store)@.skip(0) =~= old(store)@);
        }
        while i < store.len()
            invariant
                i <= store@.len(),
                store@ == old(store)@,
                out@ + removed_key(store@.skip(i as int), spn, fmi) == removed_key(
                    old(store)@,
                    spn,
                    fmi,
                ),
            decreases store@.len() - i,
        {
            let ghost pre = store@.skip(i as int);
            let d = store[i];
            proof {
                assert(pre[0] == store@[i as int]);
                assert(pre.skip(1) =~= store@.skip(i as int + 1));
            }
            if !(d.spn == spn && d.fmi == fmi) {
                out.push(d);
                proof {
                    assert(removed_key(pre, spn, fmi) == seq![pre[0]] + removed_key(
                        pre.skip(1),
                        spn,
                        fmi,
                    ));
                    assert(out@ + removed_key(store@.skip(i as int + 1), spn, fmi)
                        =~= removed_key(old(store)@, spn, fmi));
                }
            } else {
                proof {
                    assert(removed_key(pre, spn, fmi) == removed_key(pre.skip(1), spn, fmi));
                    assert(out@ + removed_key(store@.skip(i as int + 1), spn, fmi)
                        =~= removed_key(old(store)@, spn, fmi));
                }
            }
            i += 1;
        }
        proof {
            assert(store@.skip(store@.len() as int) =~= Seq::<DiagnosticTroubleCode>::empty());
            assert(out@ =~= removed_key(old(store)@, spn, fmi));
        }
        *store = out;
    }

    /// Clears one specific fault from both stores.
    pub fn clear_dtc(&mut self, spn: u32, fmi: u8)
        ensures
            old(self).wf() ==> final(self).wf(),
            final(self).active() == removed_key(old(self).active(), spn, fmi),
            final(self).inactive() == removed_key(old(self).inactive(), spn, fmi),
            final(self).spec_last_broadcast() == old(self).spec_last_broadcast(),
            final(self).spec_broadcast_enabled() == old(self).spec_broadcast_enabled(),
    {
        Self::remove_key_from(&mut self.active_dtcs, spn, fmi);
        Self::remove_key_from(&mut self.inactive_dtcs, spn, fmi);
        proof {
            if old(self).wf() {
                lemma_removed_key_unique(old(self).active(), spn, fmi);
                lemma_removed_key_unique(old(self).inactive(), spn, fmi);
            }
        }
    }

    /// Switches the DM1 broadcast on or off.
    pub fn set_broadcast_enabled(&mut self, enabled: bool)
        ensures
            final(self).active() == old(self).active(),
            final(self).inactive() == old(self).inactive(),
            final(self).spec_last_broadcast() == old(self).spec_last_broadcast(),
            final(self).spec_broadcast_enabled() == enabled,
    {
        self.broadcast_enabled = enabled;
    }

    /// Applies one incoming diagnostic message: DM3 clears both stores,
    /// DM11 the active one, DM13 switches broadcasting, DM22 clears the
    /// fault its payload names; everything else is ignored. No reply is
    /// generated here.
    pub fn process_message(&mut self, frame: &Frame) -> (r: core::result::Result<
        Option<Frame>,
        AutomotiveError,
    >)
        ensures
            r matches Ok(o) && o is None,
            old(self).wf() ==> final(self).wf(),
            ({
                let pgn = parse_pgn(frame@.id);
                &&& pgn == PGN_DM3 ==> final(self).active()
                    == Seq::<DiagnosticTroubleCode>::empty() && final(self).inactive()
                    == Seq::<DiagnosticTroubleCode>::empty()
                &&& pgn == PGN_DM11 ==> final(self).active()
                    == Seq::<DiagnosticTroubleCode>::empty() && final(self).inactive() == old(self).inactive()
                &&& pgn == PGN_DM13 && frame@.data.len() >= 1 ==> final(self).spec_broadcast_enabled() == (frame@.data[0] != 0) && final(self).active() == old(self).active() && final(self).inactive() == old(self).inactive()
                &&& pgn == PGN_DM22 && frame@.data.len() >= 4 ==> ({
                    let c = dtc_combined(frame@.data);
                    &&& final(self).active() == removed_key(
                        old(self).active(),
                        (c >> 5) & 0x7FFFF,
                        (c & 0x1F) as u8,
                    )
                    &&& final(self).inactive() == removed_key(
                        old(self).inactive(),
                        (c >> 5) & 0x7FFFF,
                        (c & 0x1F) as u8,
                    )
                })
                &&& !(pgn == PGN_DM3 || pgn == PGN_DM11 || pgn == PGN_DM13 || pgn == PGN_DM22)
                    ==> final(self).active() == old(self).active() && final(self).inactive()
                    == old(self).inactive() && final(self).spec_broadcast_enabled() == old(self).spec_broadcast_enabled()
            }),
    {
        let pgn = (frame.id >> 8) & 0x3FFFF;
        if pgn == PGN_DM3 {
            self.clear_active_dtcs();
            self.clear_inactive_dtcs();
            Ok(None)
        } else if pgn == PGN_DM11 {
            self.clear_active_dtcs();
            Ok(None)
        } else if pgn == PGN_DM13 {
            if frame.data.len() >= 1 {
                let on = frame.data[0] != 0;
                self.set_broadcast_enabled(on);
            }
            Ok(None)
        } else if pgn == PGN_DM22 {
            if frame.data.len() >= 4 {
                match DiagnosticTroubleCode::from_bytes(frame.data.as_slice()) {
                    Ok(dtc) => {
                        self.clear_dtc(dtc.spn, dtc.fmi);
                    },
                    Err(_) => (),
                }
            }
            Ok(None)
        } else {
            Ok(None)
        }
    }

    /// The frame a due DM1 broadcast carries: the DM1 PGN in the
    /// identifier, two lamp status bytes, then every active code.
    pub open spec fn dm1_frame(active: Seq<DiagnosticTroubleCode>, now: u64) -> FrameView {
        FrameView {
            id: PGN_DM1 << 8,
            data: seq![0u8, 0u8] + dtc_bytes_concat(active),
            timestamp: now,
            is_extended: true,
            is_fd: false,
        }
    }

    /// Advances the broadcast clock to the reading `now`: when broadcasting
    /// is on, the interval has elapsed and active codes exist, the DM1
    /// broadcast frame is produced and the clock is reset.
    pub fn update_at(&mut self, now: u64) -> (r: core::result::Result<
        Option<Frame>,
        AutomotiveError,
    >)
        ensures
            final(self).active() == old(self).active(),
            final(self).inactive() == old(self).inactive(),
            final(self).spec_broadcast_enabled() == old(self).spec_broadcast_enabled(),
            r is Ok,
            ({
                let due = old(self).spec_broadcast_enabled() && now >= old(self).spec_last_broadcast() && now - old(self).spec_last_broadcast()
                    >= DM1_BROADCAST_INTERVAL_MS;
                &&& !due ==> (r matches Ok(o) && o is None) && final(self).spec_last_broadcast()
                    == old(self).spec_last_broadcast()
                &&& due ==> final(self).spec_last_broadcast() == now && (if old(self).active().len() > 0 {
                    r matches Ok(o) && o matches Some(f) && f@ == Self::dm1_frame(
                        old(self).active(),
                        now,
                    )
                } else {
                    r matches Ok(o) && o is None
                })
            }),
    {
        if !self.broadcast_enabled {
            return Ok(None);
        }
        if !(now >= self.last_dm1_broadcast && now - self.last_dm1_broadcast
            >= DM1_BROADCAST_INTERVAL_MS) {
            return Ok(None);
        }
        self.last_dm1_broadcast = now;
        if self.active_dtcs.len() == 0 {
            return Ok(None);
        }
        let mut data: Vec<u8> = Vec::new();
        data.push(0x00);
        data.push(0x00);
        let mut i: usize = 0;
        proof {
            assert(self.active_dtcs@.take(0) =~= Seq::<DiagnosticTroubleCode>::empty());
            assert(data@ =~= seq![0u8, 0u8] + dtc_bytes_concat(self.active_dtcs@.take(0)));
        }
        while i < self.active_dtcs.len()
            invariant
                i <= self.active_dtcs@.len(),
                data@ == seq![0u8, 0u8] + dtc_bytes_concat(self.active_dtcs@.take(i as int)),
            decreases self.active_dtcs@.len() - i,
        {
            let bytes = self.active_dtcs[i].to_bytes();
            append_range(&mut data, bytes.as_slice(), 0, bytes.len());
            proof {
                assert(bytes@.subrange(0, bytes@.len() as int) =~= bytes@);
                assert(self.active_dtcs@.take(i as int + 1) =~= self.active_dtcs@.take(
                    i as int,
                ).push(self.active_dtcs@[i as int]));
                lemma_dtc_bytes_push(self.active_dtcs@.take(i as int), self.active_dtcs@[i as int]);
                assert(data@ =~= seq![0u8, 0u8] + dtc_bytes_concat(
                    self.active_dtcs@.take(i as int + 1),
                ));
            }
            i += 1;
        }
        let frame = Frame {
            id: PGN_DM1 << 8,
            data,
            timestamp: now,
            is_extended: true,
            is_fd: false,
        };
        proof {
            assert(self.active_dtcs@.take(self.active_dtcs@.len() as int) =~= self.active_dtcs@);
            assert(frame@ == Self::dm1_frame(self.active_dtcs@, now));
        }
        Ok(Some(frame))
    }

    /// Reads the wall clock and advances the broadcast state with it.
    pub fn update(&mut self) -> (r: core::result::Result<Option<Frame>, AutomotiveError>)
        ensures
            final(self).active() == old(self).active(),
            final(self).inactive() == old(self).inactive(),
            final(self).spec_broadcast_enabled() == old(self).spec_broadcast_enabled(),
            r is Ok,
            !old(self).spec_broadcast_enabled() ==> ((r matches Ok(o) && o is None) && final(self).spec_last_broadcast() == old(self).spec_last_broadcast()),
            r matches Ok(o) ==> (o matches Some(f) ==> (old(self).active().len() > 0
                && old(self).spec_broadcast_enabled() && f@ == Self::dm1_frame(
                old(self).active(),
                final(self).spec_last_broadcast(),
            ))),
    {
        let now = now_millis();
        self.update_at(now)
    }

    /// Returns a copy of the active codes.
    pub fn get_active_dtcs(&self) -> (v: Vec<DiagnosticTroubleCode>)
        ensures
            v@ == self.active(),
    {
        let mut v: Vec<DiagnosticTroubleCode> = Vec::new();
        let mut i: usize = 0;
        while i < self.active_dtcs.len()
            invariant
                i <= self.active_dtcs@.len(),
                v@ == self.active_dtcs@.take(i as int),
            decreases self.active_dtcs@.len() - i,
        {
            v.push(self.active_dtcs[i]);
            proof {
                assert(v@ =~= self.active_dtcs@.take(i as int + 1));
            }
            i += 1;
        }
        proof {
            assert(v@ =~= self.active());
        }
        v
    }

    /// Returns a copy of the previously active codes.
    pub fn get_inactive_dtcs(&self) -> (v: Vec<DiagnosticTroubleCode>)
        ensures
            v@ == self.inactive(),
    {
        let mut v: Vec<DiagnosticTroubleCode> = Vec::new();
        let mut i: usize = 0;
        while i < self.inactive_dtcs.len()
            invariant
                i <= self.inactive_dtcs@.len(),
                v@ == self.inactive_dtcs@.take(i as int),
            decreases self.inactive_dtcs@.len() - i,
        {
            v.push(self.inactive_dtcs[i]);
            proof {
                assert(v@ =~= self.inactive_dtcs@.take(i as int + 1));
            }
            i += 1;
        }
        proof {
            assert(v@ =~= self.inactive());
        }
        v
    }
}

/// Whether a DM1 broadcast is due at the clock reading `now`.
pub open spec fn broadcast_due(last: u64, now: u64) -> bool {
    now >= last && now - last >= DM1_BROADCAST_INTERVAL_MS
}

} // verus!
