//! Big-endian integers and runs of bytes in byte sequences.

use vstd::prelude::*;

verus! {

/// The 16-bit integer whose big-endian encoding is the first two bytes of `s`.
#[verifier::opaque]
pub open spec fn be_u16(s: Seq<u8>) -> u16
    recommends
        s.len() >= 2,
{
    (s[0] as int * 0x100 + s[1] as int) as u16
}

/// The 32-bit integer whose big-endian encoding is the first four bytes of `s`.
#[verifier::opaque]
pub open spec fn be_u32(s: Seq<u8>) -> u32
    recommends
        s.len() >= 4,
{
    (s[0] as int * 0x100_0000 + s[1] as int * 0x1_0000 + s[2] as int * 0x100 + s[3] as int) as u32
}

/// The 64-bit integer whose big-endian encoding is the first eight bytes of `s`.
#[verifier::opaque]
pub open spec fn be_u64(s: Seq<u8>) -> u64
    recommends
        s.len() >= 8,
{
    (be_u32(s.subrange(0, 4)) as int * 0x1_0000_0000 + be_u32(s.subrange(4, 8)) as int) as u64
}

/// The two bytes of `v`, most significant first.
#[verifier::opaque]
pub open spec fn u16_be(v: u16) -> Seq<u8> {
    seq![(v / 0x100) as u8, (v % 0x100) as u8]
}

/// The four bytes of `v`, most significant first.
#[verifier::opaque]
pub open spec fn u32_be(v: u32) -> Seq<u8> {
    seq![
        (v / 0x100_0000) as u8,
        (v / 0x1_0000 % 0x100) as u8,
        (v / 0x100 % 0x100) as u8,
        (v % 0x100) as u8,
    ]
}

/// The eight bytes of `v`, most significant first.
#[verifier::opaque]
pub open spec fn u64_be(v: u64) -> Seq<u8> {
    u32_be((v / 0x1_0000_0000) as u32) + u32_be((v % 0x1_0000_0000) as u32)
}

/// Decoding undoes encoding for 16-bit integers.
pub proof fn lemma_u16_decode_encode(v: u16)
    ensures
        u16_be(v).len() == 2,
        be_u16(u16_be(v)) == v,
{
    reveal(be_u16);
    reveal(u16_be);
}

/// Decoding undoes encoding for 32-bit integers.
pub proof fn lemma_u32_decode_encode(v: u32)
    ensures
        u32_be(v).len() == 4,
        be_u32(u32_be(v)) == v,
{
    reveal(be_u32);
    reveal(u32_be);
    let q1 = v as int / 0x100;
    let q2 = q1 / 0x100;
    let q3 = q2 / 0x100;
    assert(q2 == v as int / 0x1_0000);
    assert(q3 == v as int / 0x100_0000);
    assert(v == q1 * 0x100 + v as int % 0x100);
    assert(q1 == q2 * 0x100 + q1 % 0x100);
    assert(q2 == q3 * 0x100 + q2 % 0x100);
    assert(0 <= q3 < 0x100);
}

/// Decoding undoes encoding for 64-bit integers.
pub proof fn lemma_u64_decode_encode(v: u64)
    ensures
        u64_be(v).len() == 8,
        be_u64(u64_be(v)) == v,
{
    reveal(be_u64);
    reveal(u64_be);
    let hi = (v / 0x1_0000_0000) as u32;
    let lo = (v % 0x1_0000_0000) as u32;
    lemma_u32_decode_encode(hi);
    lemma_u32_decode_encode(lo);
    assert(u64_be(v).subrange(4, 8) =~= u32_be(lo));
    assert(u64_be(v).subrange(0, 4) =~= u32_be(hi));
}

/// Encoding undoes decoding for two bytes.
pub proof fn lemma_u16_encode_decode(s: Seq<u8>)
    requires
        s.len() == 2,
    ensures
        u16_be(be_u16(s)) == s,
{
    reveal(be_u16);
    reveal(u16_be);
    assert(u16_be(be_u16(s)) =~= s);
}

/// Encoding undoes decoding for four bytes.
pub proof fn lemma_u32_encode_decode(s: Seq<u8>)
    requires
        s.len() == 4,
    ensures
        u32_be(be_u32(s)) == s,
{
    reveal(be_u32);
    reveal(u32_be);
    let v = be_u32(s);
    let (b0, b1, b2, b3) = (s[0] as int, s[1] as int, s[2] as int, s[3] as int);
    assert(v == b0 * 0x100_0000 + b1 * 0x1_0000 + b2 * 0x100 + b3);
    assert(v % 0x100 == b3);
    assert(v / 0x100 == b0 * 0x1_0000 + b1 * 0x100 + b2);
    assert(v / 0x100 % 0x100 == b2);
    assert(v / 0x1_0000 == b0 * 0x100 + b1);
    assert(v / 0x1_0000 % 0x100 == b1);
    assert(v / 0x100_0000 == b0);
    assert(u32_be(v) =~= s);
}

/// Encoding undoes decoding for eight bytes.
pub proof fn lemma_u64_encode_decode(s: Seq<u8>)
    requires
        s.len() == 8,
    ensures
        u64_be(be_u64(s)) == s,
{
    reveal(be_u64);
    reveal(u64_be);
    let hi = s.subrange(0, 4);
    let lo = s.subrange(4, 8);
    lemma_u32_encode_decode(hi);
    lemma_u32_encode_decode(lo);
    let v = be_u64(s);
    assert(v == be_u32(hi) * 0x1_0000_0000 + be_u32(lo));
    assert(v / 0x1_0000_0000 == be_u32(hi));
    assert(v % 0x1_0000_0000 == be_u32(lo));
    assert(u64_be(v) =~= hi + lo);
    assert(hi + lo =~= s);
}

/// Reads the big-endian 16-bit integer at `off`.
pub fn read_be_u16(bytes: &[u8], off: usize) -> (v: u16)
    requires
        off + 2 <= bytes.len(),
    ensures
        v == be_u16(bytes@.subrange(off as int, off + 2)),
{
    proof {
        reveal(be_u16);
    }
    (bytes[off] as u16) * 0x100 + (bytes[off + 1] as u16)
}

/// Reads the big-endian 32-bit integer at `off`.
pub fn read_be_u32(bytes: &[u8], off: usize) -> (v: u32)
    requires
        off + 4 <= bytes.len(),
    ensures
        v == be_u32(bytes@.subrange(off as int, off + 4)),
{
    proof {
        reveal(be_u32);
    }
    (bytes[off] as u32) * 0x100_0000 + (bytes[off + 1] as u32) * 0x1_0000 + (bytes[off + 2] as u32)
        * 0x100 + (bytes[off + 3] as u32)
}

/// Reads the big-endian 64-bit integer at `off`.
pub fn read_be_u64(bytes: &[u8], off: usize) -> (v: u64)
    requires
        off + 8 <= bytes.len(),
    ensures
        v == be_u64(bytes@.subrange(off as int, off + 8)),
{
    proof {
        reveal(be_u64);
    }
    let hi: u32 = read_be_u32(bytes, off);
    let lo: u32 = read_be_u32(bytes, off + 4);
    proof {
        let s = bytes@.subrange(off as int, off + 8);
        assert(s.subrange(4, 8) =~= bytes@.subrange(off + 4, off + 8));
        assert(s.subrange(0, 4) =~= bytes@.subrange(off as int, off + 4));
    }
    (hi as u64) * 0x1_0000_0000 + (lo as u64)
}

/// Appends the two big-endian bytes of `v` to `out`.
pub fn write_be_u16(out: &mut Vec<u8>, v: u16)
    ensures
        final(out)@ == old(out)@ + u16_be(v),
{
    proof {
        reveal(u16_be);
    }
    out.push((v / 0x100) as u8);
    out.push((v % 0x100) as u8);
    assert(out@ =~= old(out)@ + u16_be(v));
}

/// Appends the four big-endian bytes of `v` to `out`.
pub fn write_be_u32(out: &mut Vec<u8>, v: u32)
    ensures
        final(out)@ == old(out)@ + u32_be(v),
{
    proof {
        reveal(u32_be);
    }
    out.push((v / 0x100_0000) as u8);
    out.push((v / 0x1_0000 % 0x100) as u8);
    out.push((v / 0x100 % 0x100) as u8);
    out.push((v % 0x100) as u8);
    assert(out@ =~= old(out)@ + u32_be(v));
}

/// Appends the eight big-endian bytes of `v` to `out`.
pub fn write_be_u64(out: &mut Vec<u8>, v: u64)
    ensures
        final(out)@ == old(out)@ + u64_be(v),
{
    proof {
        reveal(u64_be);
    }
    write_be_u32(out, (v / 0x1_0000_0000) as u32);
    write_be_u32(out, (v % 0x1_0000_0000) as u32);
    assert(out@ =~= old(out)@ + u64_be(v));
}

/// Copies `N` bytes at `off` into an array.
pub fn read_array<const N: usize>(bytes: &[u8], off: usize) -> (a: [u8; N])
    requires
        off + N <= bytes.len(),
    ensures
        a@ == bytes@.subrange(off as int, off + N),
{
    let mut a = [0u8; N];
    let mut i: usize = 0;
    while i < N
        invariant
            i <= N,
            off + N <= bytes.len(),
            forall|j: int| 0 <= j < i ==> a@[j] == bytes@[off + j],
        decreases N - i,
    {
        a[i] = bytes[off + i];
        i += 1;
    }
    assert(a@ =~= bytes@.subrange(off as int, off + N));
    a
}

/// Appends the bytes of `src` to `out`.
pub fn append_bytes(out: &mut Vec<u8>, src: &[u8])
    ensures
        final(out)@ == old(out)@ + src@,
{
    let mut i: usize = 0;
    while i < src.len()
        invariant
            i <= src.len(),
            out@ == old(out)@ + src@.subrange(0, i as int),
        decreases src.len() - i,
    {
        out.push(src[i]);
        i += 1;
        assert(out@ =~= old(out)@ + src@.subrange(0, i as int));
    }
    assert(src@.subrange(0, src.len() as int) =~= src@);
}

} // verus!
