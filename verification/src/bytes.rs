//! Byte-sequence helpers shared by the protocol layers: big-endian integer
//! encoding and slice copying, each with an exact model.

use vstd::prelude::*;

verus! {

/// The two big-endian bytes of a 16-bit value.
pub open spec fn u16_be(x: u16) -> Seq<u8> {
    seq![(x / 256) as u8, (x % 256) as u8]
}

/// The four big-endian bytes of a 32-bit value.
pub open spec fn u32_be(x: u32) -> Seq<u8> {
    seq![
        (x / 0x1000000) as u8,
        ((x / 0x10000) % 256) as u8,
        ((x / 256) % 256) as u8,
        (x % 256) as u8,
    ]
}

/// The eight big-endian bytes of a 64-bit value.
pub open spec fn u64_be(x: u64) -> Seq<u8> {
    u32_be((x / 0x100000000) as u32) + u32_be((x % 0x100000000) as u32)
}

/// Appends the two big-endian bytes of `x`.
pub fn push_u16_be(out: &mut Vec<u8>, x: u16)
    ensures
        final(out)@ == old(out)@ + u16_be(x),
{
    out.push((x / 256) as u8);
    out.push((x % 256) as u8);
    proof {
        assert(out@ =~= old(out)@ + u16_be(x));
    }
}

/// Appends the four big-endian bytes of `x`.
pub fn push_u32_be(out: &mut Vec<u8>, x: u32)
    ensures
        final(out)@ == old(out)@ + u32_be(x),
{
    out.push((x / 0x1000000) as u8);
    out.push(((x / 0x10000) % 256) as u8);
    out.push(((x / 256) % 256) as u8);
    out.push((x % 256) as u8);
    proof {
        assert(out@ =~= old(out)@ + u32_be(x));
    }
}

/// Appends the eight big-endian bytes of `x`.
pub fn push_u64_be(out: &mut Vec<u8>, x: u64)
    ensures
        final(out)@ == old(out)@ + u64_be(x),
{
    push_u32_be(out, (x / 0x100000000) as u32);
    push_u32_be(out, (x % 0x100000000) as u32);
    proof {
        assert(out@ =~= old(out)@ + u64_be(x));
    }
}

/// Appends `src[from..to]` to `dst`.
pub fn append_range(dst: &mut Vec<u8>, src: &[u8], from: usize, to: usize)
    requires
        from <= to <= src@.len(),
    ensures
        final(dst)@ == old(dst)@ + src@.subrange(from as int, to as int),
{
    let ghost base = dst@;
    let mut i = from;
    while i < to
        invariant
            from <= i <= to <= src@.len(),
            dst@ == base + src@.subrange(from as int, i as int),
        decreases to - i,
    {
        let b = src[i];
        dst.push(b);
        proof {
            assert(dst@ =~= base + src@.subrange(from as int, (i + 1) as int));
        }
        i += 1;
    }
    proof {
        assert(dst@ =~= base + src@.subrange(from as int, to as int));
    }
}


/// Big-endian value of a byte sequence.
pub open spec fn be_value(s: Seq<u8>) -> int
    decreases s.len(),
{
    if s.len() == 0 {
        0
    } else {
        be_value(s.drop_last()) * 256 + s.last()
    }
}

/// 256 to the n-th power.
pub open spec fn pow256(n: nat) -> int
    decreases n,
{
    if n == 0 {
        1
    } else {
        256 * pow256((n - 1) as nat)
    }
}

/// The powers of 256 that bound 7- and 8-byte values.
pub proof fn lemma_pow256_values()
    ensures
        pow256(7) == 0x100000000000000,
        pow256(8) == 0x10000000000000000,
{
    assert(pow256(0) == 1);
    assert(pow256(1) == 256);
    assert(pow256(2) == 0x10000);
    assert(pow256(3) == 0x1000000);
    assert(pow256(4) == 0x100000000);
    assert(pow256(5) == 0x10000000000);
    assert(pow256(6) == 0x1000000000000);
    assert(pow256(7) == 0x100000000000000);
    assert(pow256(8) == 0x10000000000000000);
}

/// Powers of 256 are positive and monotonic.
pub proof fn lemma_pow256_le(a: nat, b: nat)
    requires
        a <= b,
    ensures
        1 <= pow256(a) <= pow256(b),
    decreases b,
{
    if b > 0 {
        if a == b {
            lemma_pow256_le((a - 1) as nat, (b - 1) as nat);
        } else {
            lemma_pow256_le(a, (b - 1) as nat);
        }
    }
}

/// Reads the big-endian value of `src[from..to]` (at most 8 bytes).
pub fn be_value_of(src: &[u8], from: usize, to: usize) -> (v: u64)
    requires
        from <= to <= src@.len(),
        to - from <= 8,
    ensures
        v as int == be_value(src@.subrange(from as int, to as int)),
{
    let mut v: u64 = 0;
    let mut j = from;
    proof {
        assert(src@.subrange(from as int, from as int) =~= Seq::<u8>::empty());
    }
    while j < to
        invariant
            from <= j <= to <= src@.len(),
            to - from <= 8,
            v as int == be_value(src@.subrange(from as int, j as int)),
            (v as int) < pow256((j - from) as nat),
        decreases to - j,
    {
        proof {
            lemma_pow256_le((j - from) as nat, 7);
            lemma_pow256_values();
        }
        let b = src[j];
        v = v * 256 + (b as u64);
        proof {
            let sub = src@.subrange(from as int, (j + 1) as int);
            assert(sub.drop_last() =~= src@.subrange(from as int, j as int));
            assert(sub.last() == b);
        }
        j += 1;
    }
    v
}

} // verus!
