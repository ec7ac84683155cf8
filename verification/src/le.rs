//! Little-endian byte encodings of fixed-width integers, and the helpers that
//! read and write them inside byte buffers.
use vstd::prelude::*;

verus! {

/// The two bytes of `v`, least significant first.
pub open spec fn le16(v: u16) -> Seq<u8> {
    seq![v as u8, (v >> 8u16) as u8]
}

/// The four bytes of `v`, least significant first.
pub open spec fn le32(v: u32) -> Seq<u8> {
    seq![v as u8, (v >> 8u32) as u8, (v >> 16u32) as u8, (v >> 24u32) as u8]
}

/// The eight bytes of `v`, least significant first.
pub open spec fn le64(v: u64) -> Seq<u8> {
    seq![
        v as u8,
        (v >> 8u64) as u8,
        (v >> 16u64) as u8,
        (v >> 24u64) as u8,
        (v >> 32u64) as u8,
        (v >> 40u64) as u8,
        (v >> 48u64) as u8,
        (v >> 56u64) as u8,
    ]
}

/// The `u16` stored little-endian at `s[i..i + 2]`.
pub open spec fn get16(s: Seq<u8>, i: int) -> u16 {
    (s[i] as u16) | ((s[i + 1] as u16) << 8u16)
}

/// The `u32` stored little-endian at `s[i..i + 4]`.
pub open spec fn get32(s: Seq<u8>, i: int) -> u32 {
    (s[i] as u32) | ((s[i + 1] as u32) << 8u32) | ((s[i + 2] as u32) << 16u32) | ((s[i + 3] as u32)
        << 24u32)
}

/// The `u64` stored little-endian at `s[i..i + 8]`.
pub open spec fn get64(s: Seq<u8>, i: int) -> u64 {
    (s[i] as u64) | ((s[i + 1] as u64) << 8u64) | ((s[i + 2] as u64) << 16u64) | ((s[i + 3] as u64)
        << 24u64) | ((s[i + 4] as u64) << 32u64) | ((s[i + 5] as u64) << 40u64) | ((s[i + 6] as u64)
        << 48u64) | ((s[i + 7] as u64) << 56u64)
}

/// `s` with the bytes of `b` written over it from index `off` on.
pub open spec fn write_at(s: Seq<u8>, off: int, b: Seq<u8>) -> Seq<u8> {
    Seq::new(s.len(), |i: int| if off <= i < off + b.len() { b[i - off] } else { s[i] })
}

/// Reading back a written `u16` gives the value.
pub proof fn lemma_get16_le16(s: Seq<u8>, i: int, v: u16)
    requires
        0 <= i,
        i + 2 <= s.len(),
        s[i] == le16(v)[0],
        s[i + 1] == le16(v)[1],
    ensures
        get16(s, i) == v,
{
    assert(((v as u8) as u16 | (((v >> 8u16) as u8) as u16) << 8u16) == v) by (bit_vector);
}

/// Reading back a written `u32` gives the value.
pub proof fn lemma_get32_le32(s: Seq<u8>, i: int, v: u32)
    requires
        0 <= i,
        i + 4 <= s.len(),
        s[i] == le32(v)[0],
        s[i + 1] == le32(v)[1],
        s[i + 2] == le32(v)[2],
        s[i + 3] == le32(v)[3],
    ensures
        get32(s, i) == v,
{
    assert(((v as u8) as u32 | (((v >> 8u32) as u8) as u32) << 8u32 | (((v >> 16u32) as u8) as u32)
        << 16u32 | (((v >> 24u32) as u8) as u32) << 24u32) == v) by (bit_vector);
}

/// Reading back a written `u64` gives the value.
pub proof fn lemma_get64_le64(s: Seq<u8>, i: int, v: u64)
    requires
        0 <= i,
        i + 8 <= s.len(),
        s[i] == le64(v)[0],
        s[i + 1] == le64(v)[1],
        s[i + 2] == le64(v)[2],
        s[i + 3] == le64(v)[3],
        s[i + 4] == le64(v)[4],
        s[i + 5] == le64(v)[5],
        s[i + 6] == le64(v)[6],
        s[i + 7] == le64(v)[7],
    ensures
        get64(s, i) == v,
{
    assert(((v as u8) as u64 | (((v >> 8u64) as u8) as u64) << 8u64 | (((v >> 16u64) as u8) as u64)
        << 16u64 | (((v >> 24u64) as u8) as u64) << 24u64 | (((v >> 32u64) as u8) as u64) << 32u64
        | (((v >> 40u64) as u8) as u64) << 40u64 | (((v >> 48u64) as u8) as u64) << 48u64 | (((v
        >> 56u64) as u8) as u64) << 56u64) == v) by (bit_vector);
}

/// Writes `v` little-endian at `out[off..off + 2]`.
pub fn put16(out: &mut [u8], off: usize, v: u16)
    requires
        off + 2 <= old(out)@.len(),
    ensures
        final(out)@ == write_at(old(out)@, off as int, le16(v)),
{
    out[off] = v as u8;
    out[off + 1] = (v >> 8u16) as u8;
    assert(out@ =~= write_at(old(out)@, off as int, le16(v)));
}

/// Writes `v` little-endian at `out[off..off + 4]`.
pub fn put32(out: &mut [u8], off: usize, v: u32)
    requires
        off + 4 <= old(out)@.len(),
    ensures
        final(out)@ == write_at(old(out)@, off as int, le32(v)),
{
    out[off] = v as u8;
    out[off + 1] = (v >> 8u32) as u8;
    out[off + 2] = (v >> 16u32) as u8;
    out[off + 3] = (v >> 24u32) as u8;
    assert(out@ =~= write_at(old(out)@, off as int, le32(v)));
}

/// Writes `v` little-endian at `out[off..off + 8]`.
pub fn put64(out: &mut [u8], off: usize, v: u64)
    requires
        off + 8 <= old(out)@.len(),
    ensures
        final(out)@ == write_at(old(out)@, off as int, le64(v)),
{
    out[off] = v as u8;
    out[off + 1] = (v >> 8u64) as u8;
    out[off + 2] = (v >> 16u64) as u8;
    out[off + 3] = (v >> 24u64) as u8;
    out[off + 4] = (v >> 32u64) as u8;
    out[off + 5] = (v >> 40u64) as u8;
    out[off + 6] = (v >> 48u64) as u8;
    out[off + 7] = (v >> 56u64) as u8;
    assert(out@ =~= write_at(old(out)@, off as int, le64(v)));
}

/// Reads the `u16` stored little-endian at `s[i..i + 2]`.
pub fn read16(s: &[u8], i: usize) -> (v: u16)
    requires
        i + 2 <= s@.len(),
    ensures
        v == get16(s@, i as int),
{
    (s[i] as u16) | ((s[i + 1] as u16) << 8u16)
}

/// Reads the `u32` stored little-endian at `s[i..i + 4]`.
pub fn read32(s: &[u8], i: usize) -> (v: u32)
    requires
        i + 4 <= s@.len(),
    ensures
        v == get32(s@, i as int),
{
    (s[i] as u32) | ((s[i + 1] as u32) << 8u32) | ((s[i + 2] as u32) << 16u32) | ((s[i + 3] as u32)
        << 24u32)
}

/// Reads the `u64` stored little-endian at `s[i..i + 8]`.
pub fn read64(s: &[u8], i: usize) -> (v: u64)
    requires
        i + 8 <= s@.len(),
    ensures
        v == get64(s@, i as int),
{
    (s[i] as u64) | ((s[i + 1] as u64) << 8u64) | ((s[i + 2] as u64) << 16u64) | ((s[i + 3] as u64)
        << 24u64) | ((s[i + 4] as u64) << 32u64) | ((s[i + 5] as u64) << 40u64) | ((s[i + 6] as u64)
        << 48u64) | ((s[i + 7] as u64) << 56u64)
}

/// Writes `n` zero bytes at `out[off..off + n]`.
pub fn fill_zero(out: &mut [u8], off: usize, n: usize)
    requires
        off + n <= old(out)@.len(),
    ensures
        final(out)@ == write_at(old(out)@, off as int, Seq::new(n as nat, |i: int| 0u8)),
{
    let len = out.len();
    let mut k: usize = 0;
    while k < n
        invariant
            k <= n,
            off + n <= len,
            len == out@.len(),
            out@ == write_at(old(out)@, off as int, Seq::new(k as nat, |i: int| 0u8)),
        decreases n - k,
    {
        out[off + k] = 0;
        k = k + 1;
        assert(out@ =~= write_at(old(out)@, off as int, Seq::new(k as nat, |i: int| 0u8)));
    }
}

/// Copies `src` into `out[off..off + src.len()]`.
pub fn copy_into(out: &mut [u8], off: usize, src: &[u8])
    requires
        off + src@.len() <= old(out)@.len(),
    ensures
        final(out)@ == write_at(old(out)@, off as int, src@),
{
    let n = src.len();
    let len = out.len();
    let mut k: usize = 0;
    while k < n
        invariant
            k <= n,
            n == src@.len(),
            off + n <= len,
            len == out@.len(),
            out@ == write_at(old(out)@, off as int, src@.subrange(0, k as int)),
        decreases n - k,
    {
        out[off + k] = src[k];
        k = k + 1;
        assert(out@ =~= write_at(old(out)@, off as int, src@.subrange(0, k as int)));
    }
    assert(src@.subrange(0, n as int) =~= src@);
}

} // verus!
