//! The `Handshake` payload: protocol versions, capabilities and epoch.
use vstd::prelude::*;
use crate::le::{get16, get32, le16, le32, lemma_get16_le16, lemma_get32_le32, put16, put32, read16, read32, write_at};
use crate::wire::ProtocolError;

verus! {

/// The peer can receive artwork.
pub const CAPS_ARTWORK: u16 = 1;

/// The peer can receive commands.
pub const CAPS_COMMANDS: u16 = 2;

/// The peer can receive state deltas.
pub const CAPS_DELTA: u16 = 4;

/// Capability bits that must be zero.
pub const RESERVED_CAPS_MASK: u16 = 0xFFF8;

/// A handshake.
#[derive(Debug, Clone, Copy, PartialEq, Eq, Structural)]
pub struct HandshakePayload {
    pub proto_version: u8,
    pub min_proto_version: u8,
    pub caps: u16,
    pub epoch: u32,
}

/// The eight payload bytes of a handshake.
pub open spec fn handshake_bytes(h: HandshakePayload) -> Seq<u8> {
    seq![h.proto_version, h.min_proto_version] + le16(h.caps) + le32(h.epoch)
}

/// The handshake read from eight payload bytes.
pub open spec fn handshake_of(p: Seq<u8>) -> HandshakePayload {
    HandshakePayload {
        proto_version: p[0],
        min_proto_version: p[1],
        caps: get16(p, 2),
        epoch: get32(p, 4),
    }
}

impl HandshakePayload {
    /// The payload length.
    pub const LEN: usize = 8;

    /// Writes the payload at the start of `out` and returns its length. A
    /// short buffer is reported before reserved capability bits.
    pub fn encode(&self, out: &mut [u8]) -> (r: Result<usize, ProtocolError>)
        ensures
            old(out)@.len() < 8 ==> r == Err::<usize, ProtocolError>(ProtocolError::InvalidLength),
            old(out)@.len() >= 8 && self.caps & 0xFFF8u16 != 0 ==> r == Err::<usize, ProtocolError>(
                ProtocolError::ReservedNonZero,
            ),
            r is Err ==> final(out)@ == old(out)@,
            old(out)@.len() >= 8 && self.caps & 0xFFF8u16 == 0 ==> r == Ok::<usize, ProtocolError>(8)
                && final(out)@ == write_at(old(out)@, 0, handshake_bytes(*self)),
    {
        self.encode_at(out, 0)
    }

    /// Writes the payload at `out[off..]` and returns its length.
    pub(crate) fn encode_at(&self, out: &mut [u8], off: usize) -> (r: Result<usize, ProtocolError>)
        requires
            off <= old(out)@.len(),
        ensures
            old(out)@.len() - off < 8 ==> r == Err::<usize, ProtocolError>(
                ProtocolError::InvalidLength,
            ),
            old(out)@.len() - off >= 8 && self.caps & 0xFFF8u16 != 0 ==> r == Err::<
                usize,
                ProtocolError,
            >(ProtocolError::ReservedNonZero),
            r is Err ==> final(out)@ == old(out)@,
            old(out)@.len() - off >= 8 && self.caps & 0xFFF8u16 == 0 ==> r == Ok::<
                usize,
                ProtocolError,
            >(8) && final(out)@ == write_at(old(out)@, off as int, handshake_bytes(*self)),
    {
        if out.len() - off < Self::LEN {
            return Err(ProtocolError::InvalidLength);
        }
        if self.caps & RESERVED_CAPS_MASK != 0 {
            return Err(ProtocolError::ReservedNonZero);
        }
        let ghost o = out@;
        out[off] = self.proto_version;
        out[off + 1] = self.min_proto_version;
        put16(out, off + 2, self.caps);
        put32(out, off + 4, self.epoch);
        assert(out@ =~= write_at(o, off as int, handshake_bytes(*self)));
        Ok(Self::LEN)
    }

    /// Reads a handshake, which must be exactly eight bytes with no reserved
    /// capability bit set.
    pub fn decode(payload: &[u8]) -> (r: Result<HandshakePayload, ProtocolError>)
        ensures
            payload@.len() != 8 ==> r == Err::<HandshakePayload, ProtocolError>(
                ProtocolError::InvalidLength,
            ),
            payload@.len() == 8 && get16(payload@, 2) & 0xFFF8u16 != 0 ==> r == Err::<
                HandshakePayload,
                ProtocolError,
            >(ProtocolError::ReservedNonZero),
            payload@.len() == 8 && get16(payload@, 2) & 0xFFF8u16 == 0 ==> r == Ok::<
                HandshakePayload,
                ProtocolError,
            >(handshake_of(payload@)),
    {
        if payload.len() != Self::LEN {
            return Err(ProtocolError::InvalidLength);
        }
        let caps = read16(payload, 2);
        if caps & RESERVED_CAPS_MASK != 0 {
            return Err(ProtocolError::ReservedNonZero);
        }
        Ok(
            HandshakePayload {
                proto_version: payload[0],
                min_proto_version: payload[1],
                caps,
                epoch: read32(payload, 4),
            },
        )
    }

    /// Whether the artwork capability bit is set.
    pub fn supports_artwork(&self) -> (b: bool)
        ensures
            b <==> self.caps & 1u16 != 0,
    {
        self.caps & CAPS_ARTWORK != 0
    }

    /// Whether the commands capability bit is set.
    pub fn supports_commands(&self) -> (b: bool)
        ensures
            b <==> self.caps & 2u16 != 0,
    {
        self.caps & CAPS_COMMANDS != 0
    }

    /// Whether the delta capability bit is set.
    pub fn supports_delta(&self) -> (b: bool)
        ensures
            b <==> self.caps & 4u16 != 0,
    {
        self.caps & CAPS_DELTA != 0
    }
}

/// Decoding the bytes of a handshake gives it back.
pub proof fn lemma_handshake_roundtrip(h: HandshakePayload)
    ensures
        handshake_bytes(h).len() == 8,
        handshake_of(handshake_bytes(h)) == h,
{
    let s = handshake_bytes(h);
    lemma_get16_le16(s, 2, h.caps);
    lemma_get32_le32(s, 4, h.epoch);
}

} // verus!
