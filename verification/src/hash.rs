//! The 32-bit FNV-1a hash, used for track identifiers and artwork checksums.
use vstd::prelude::*;
use vstd::string::StringSliceAdditionalSpecFns;

verus! {

/// The FNV-1a 32-bit offset basis.
pub const FNV1A32_INIT: u32 = 0x811C_9DC5;

/// The FNV-1a 32-bit prime.
pub const FNV1A32_PRIME: u32 = 0x0100_0193;

/// One FNV-1a step: xor the byte in, then multiply by the prime modulo 2^32.
pub open spec fn fnv_byte(h: u32, b: u8) -> u32 {
    (((h ^ (b as u32)) as int * 0x0100_0193int) % 0x1_0000_0000int) as u32
}

/// The hash state after feeding the bytes of `s` in order, starting from `h`.
pub open spec fn fnv_fold(h: u32, s: Seq<u8>) -> u32
    decreases s.len(),
{
    if s.len() == 0 {
        h
    } else {
        fnv_byte(fnv_fold(h, s.drop_last()), s.last())
    }
}

/// The FNV-1a hash of `s`.
pub open spec fn fnv1a(s: Seq<u8>) -> u32 {
    fnv_fold(FNV1A32_INIT, s)
}

/// Feeding `a` then `b` is feeding `a + b`.
pub proof fn lemma_fnv_fold_append(h: u32, a: Seq<u8>, b: Seq<u8>)
    ensures
        fnv_fold(fnv_fold(h, a), b) == fnv_fold(h, a + b),
    decreases b.len(),
{
    if b.len() == 0 {
        assert(a + b =~= a);
    } else {
        lemma_fnv_fold_append(h, a, b.drop_last());
        assert((a + b).drop_last() =~= a + b.drop_last());
        assert((a + b).last() == b.last());
    }
}

/// The eight bytes of `v`, least significant first.
pub open spec fn u64_bytes(v: u64) -> Seq<u8> {
    crate::le::le64(v)
}

/// The bytes hashed for a track: title, artist and album, each followed by
/// the separator byte 0xFF, then the duration as eight little-endian bytes.
pub open spec fn track_bytes(title: Seq<u8>, artist: Seq<u8>, album: Seq<u8>, duration_ms: u64) -> Seq<
    u8,
> {
    title + seq![0xFFu8] + artist + seq![0xFFu8] + album + seq![0xFFu8] + u64_bytes(duration_ms)
}

/// The track identifier of the given metadata.
pub open spec fn track_id_spec(title: Seq<u8>, artist: Seq<u8>, album: Seq<u8>, duration_ms: u64) -> u32 {
    fnv1a(track_bytes(title, artist, album, duration_ms))
}

/// An FNV-1a hash in progress.
#[derive(Debug, Clone, Copy, PartialEq, Eq, Structural)]
pub struct Fnv32(u32);

impl View for Fnv32 {
    type V = u32;

    closed spec fn view(&self) -> u32 {
        self.0
    }
}

impl Fnv32 {
    /// A fresh hash, holding the offset basis.
    pub fn new() -> (h: Fnv32)
        ensures
            h@ == FNV1A32_INIT,
    {
        Fnv32(FNV1A32_INIT)
    }

    /// The hash of everything fed so far.
    pub fn finish(self) -> (v: u32)
        ensures
            v == self@,
    {
        self.0
    }

    /// Feeds one byte.
    pub fn feed_byte(&mut self, byte: u8)
        ensures
            final(self)@ == fnv_byte(old(self)@, byte),
    {
        self.0 = self.0 ^ (byte as u32);
        self.0 = self.0.wrapping_mul(FNV1A32_PRIME);
    }

    /// Feeds the bytes of `bytes` in order.
    pub fn feed_bytes(&mut self, bytes: &[u8])
        ensures
            final(self)@ == fnv_fold(old(self)@, bytes@),
    {
        let n = bytes.len();
        let mut k: usize = 0;
        while k < n
            invariant
                k <= n,
                n == bytes@.len(),
                self@ == fnv_fold(old(self)@, bytes@.subrange(0, k as int)),
            decreases n - k,
        {
            proof {
                assert(bytes@.subrange(0, k + 1).drop_last() =~= bytes@.subrange(0, k as int));
            }
            self.feed_byte(bytes[k]);
            k = k + 1;
        }
        assert(bytes@.subrange(0, n as int) =~= bytes@);
    }

    /// Feeds the UTF-8 bytes of `value`.
    pub fn feed_str(&mut self, value: &str)
        ensures
            final(self)@ == fnv_fold(old(self)@, value.spec_bytes()),
    {
        self.feed_bytes(value.as_bytes());
    }

    /// Feeds the eight little-endian bytes of `value`.
    pub fn feed_u64(&mut self, value: u64)
        ensures
            final(self)@ == fnv_fold(old(self)@, u64_bytes(value)),
    {
        let ghost h0 = self@;
        self.feed_byte(value as u8);
        self.feed_byte((value >> 8u64) as u8);
        self.feed_byte((value >> 16u64) as u8);
        self.feed_byte((value >> 24u64) as u8);
        self.feed_byte((value >> 32u64) as u8);
        self.feed_byte((value >> 40u64) as u8);
        self.feed_byte((value >> 48u64) as u8);
        self.feed_byte((value >> 56u64) as u8);
        proof {
            let s = u64_bytes(value);
            reveal_with_fuel(fnv_fold, 9);
            assert(s.drop_last().drop_last().drop_last().drop_last().drop_last().drop_last().drop_last().drop_last() =~= Seq::<u8>::empty());
            assert(s.drop_last().drop_last().drop_last().drop_last().drop_last().drop_last().drop_last() =~= seq![value as u8]);
            assert(s.drop_last().drop_last().drop_last().drop_last().drop_last().drop_last() =~= seq![value as u8, (value >> 8u64) as u8]);
            assert(s.drop_last().drop_last().drop_last().drop_last().drop_last() =~= s.subrange(0, 3));
            assert(s.drop_last().drop_last().drop_last().drop_last() =~= s.subrange(0, 4));
            assert(s.drop_last().drop_last().drop_last() =~= s.subrange(0, 5));
            assert(s.drop_last().drop_last() =~= s.subrange(0, 6));
            assert(s.drop_last() =~= s.subrange(0, 7));
        }
    }

    /// Feeds the separator byte 0xFF.
    pub fn separator(&mut self)
        ensures
            final(self)@ == fnv_byte(old(self)@, 0xFFu8),
    {
        self.feed_byte(0xFF);
    }
}

impl Default for Fnv32 {
    fn default() -> (h: Fnv32)
        ensures
            h@ == FNV1A32_INIT,
    {
        Fnv32::new()
    }
}

/// The track identifier of a title, artist, album and duration: the FNV-1a
/// hash of [`track_bytes`].
pub fn track_id_from_parts(title: &str, artist: &str, album: &str, duration_ms: u64) -> (id: u32)
    ensures
        id == track_id_spec(title.spec_bytes(), artist.spec_bytes(), album.spec_bytes(), duration_ms),
{
    let mut hash = Fnv32::new();
    hash.feed_str(title);
    hash.separator();
    hash.feed_str(artist);
    hash.separator();
    hash.feed_str(album);
    hash.separator();
    hash.feed_u64(duration_ms);
    proof {
        let t = title.spec_bytes();
        let a = artist.spec_bytes();
        let b = album.spec_bytes();
        let sep = seq![0xFFu8];
        let i = FNV1A32_INIT;
        assert(fnv_fold(fnv_fold(i, t), sep) == fnv_byte(fnv_fold(i, t), 0xFFu8)) by {
            reveal_with_fuel(fnv_fold, 2);
            assert(sep.drop_last() =~= Seq::<u8>::empty());
        }
        lemma_fnv_fold_append(i, t, sep);
        lemma_fnv_fold_append(i, t + sep, a);
        assert(fnv_fold(fnv_fold(i, t + sep + a), sep) == fnv_byte(fnv_fold(i, t + sep + a), 0xFFu8)) by {
            reveal_with_fuel(fnv_fold, 2);
            assert(sep.drop_last() =~= Seq::<u8>::empty());
        }
        lemma_fnv_fold_append(i, t + sep + a, sep);
        lemma_fnv_fold_append(i, t + sep + a + sep, b);
        assert(fnv_fold(fnv_fold(i, t + sep + a + sep + b), sep) == fnv_byte(fnv_fold(i, t + sep + a + sep + b), 0xFFu8)) by {
            reveal_with_fuel(fnv_fold, 2);
            assert(sep.drop_last() =~= Seq::<u8>::empty());
        }
        lemma_fnv_fold_append(i, t + sep + a + sep + b, sep);
        lemma_fnv_fold_append(i, t + sep + a + sep + b + sep, u64_bytes(duration_ms));
    }
    hash.finish()
}

} // verus!
