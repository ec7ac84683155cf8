//! `Ack` and `Nack` payloads.
use vstd::prelude::*;
use crate::le::{get16, le16, lemma_get16_le16, put16, read16, write_at};
use crate::wire::ProtocolError;

verus! {

/// Acknowledges the frame with sequence number `acked_seq`.
#[derive(Debug, Clone, Copy, PartialEq, Eq, Structural)]
pub struct AckPayload {
    pub acked_seq: u16,
}

/// The four payload bytes of an `Ack`: the sequence number, then two bytes
/// of zero padding.
pub open spec fn ack_bytes(acked_seq: u16) -> Seq<u8> {
    le16(acked_seq) + seq![0u8, 0u8]
}

/// Rejects the frame with sequence number `nacked_seq`, giving the error
/// code and the message type of the rejected frame.
#[derive(Debug, Clone, Copy, PartialEq, Eq, Structural)]
pub struct NackPayload {
    pub nacked_seq: u16,
    pub error_code: u8,
    pub context_type: u8,
}

/// The four payload bytes of a `Nack`.
pub open spec fn nack_bytes(n: NackPayload) -> Seq<u8> {
    le16(n.nacked_seq) + seq![n.error_code, n.context_type]
}

impl AckPayload {
    /// The payload length.
    pub const LEN: usize = 4;

    /// Writes the payload at the start of `out` and returns its length.
    pub fn encode(&self, out: &mut [u8]) -> (r: Result<usize, ProtocolError>)
        ensures
            old(out)@.len() < 4 ==> r == Err::<usize, ProtocolError>(ProtocolError::InvalidLength)
                && final(out)@ == old(out)@,
            old(out)@.len() >= 4 ==> r == Ok::<usize, ProtocolError>(4) && final(out)@ == write_at(
                old(out)@,
                0,
                ack_bytes(self.acked_seq),
            ),
    {
        self.encode_at(out, 0)
    }

    /// Writes the payload at `out[off..]` and returns its length.
    pub(crate) fn encode_at(&self, out: &mut [u8], off: usize) -> (r: Result<usize, ProtocolError>)
        requires
            off <= old(out)@.len(),
        ensures
            old(out)@.len() - off < 4 ==> r == Err::<usize, ProtocolError>(
                ProtocolError::InvalidLength,
            ) && final(out)@ == old(out)@,
            old(out)@.len() - off >= 4 ==> r == Ok::<usize, ProtocolError>(4) && final(out)@
                == write_at(old(out)@, off as int, ack_bytes(self.acked_seq)),
    {
        if out.len() - off < Self::LEN {
            return Err(ProtocolError::InvalidLength);
        }
        let ghost o = out@;
        put16(out, off, self.acked_seq);
        out[off + 2] = 0;
        out[off + 3] = 0;
        assert(out@ =~= write_at(o, off as int, ack_bytes(self.acked_seq)));
        Ok(Self::LEN)
    }

    /// Reads an `Ack` payload, which must be exactly four bytes.
    pub fn decode(payload: &[u8]) -> (r: Result<AckPayload, ProtocolError>)
        ensures
            payload@.len() != 4 ==> r == Err::<AckPayload, ProtocolError>(
                ProtocolError::InvalidLength,
            ),
            payload@.len() == 4 ==> r == Ok::<AckPayload, ProtocolError>(
                AckPayload { acked_seq: get16(payload@, 0) },
            ),
    {
        if payload.len() != Self::LEN {
            return Err(ProtocolError::InvalidLength);
        }
        Ok(AckPayload { acked_seq: read16(payload, 0) })
    }
}

impl NackPayload {
    /// The payload length.
    pub const LEN: usize = 4;

    /// Writes the payload at the start of `out` and returns its length.
    pub fn encode(&self, out: &mut [u8]) -> (r: Result<usize, ProtocolError>)
        ensures
            old(out)@.len() < 4 ==> r == Err::<usize, ProtocolError>(ProtocolError::InvalidLength)
                && final(out)@ == old(out)@,
            old(out)@.len() >= 4 ==> r == Ok::<usize, ProtocolError>(4) && final(out)@ == write_at(
                old(out)@,
                0,
                nack_bytes(*self),
            ),
    {
        self.encode_at(out, 0)
    }

    /// Writes the payload at `out[off..]` and returns its length.
    pub(crate) fn encode_at(&self, out: &mut [u8], off: usize) -> (r: Result<usize, ProtocolError>)
        requires
            off <= old(out)@.len(),
        ensures
            old(out)@.len() - off < 4 ==> r == Err::<usize, ProtocolError>(
                ProtocolError::InvalidLength,
            ) && final(out)@ == old(out)@,
            old(out)@.len() - off >= 4 ==> r == Ok::<usize, ProtocolError>(4) && final(out)@
                == write_at(old(out)@, off as int, nack_bytes(*self)),
    {
        if out.len() - off < Self::LEN {
            return Err(ProtocolError::InvalidLength);
        }
        let ghost o = out@;
        put16(out, off, self.nacked_seq);
        out[off + 2] = self.error_code;
        out[off + 3] = self.context_type;
        assert(out@ =~= write_at(o, off as int, nack_bytes(*self)));
        Ok(Self::LEN)
    }

    /// Reads a `Nack` payload, which must be exactly four bytes.
    pub fn decode(payload: &[u8]) -> (r: Result<NackPayload, ProtocolError>)
        ensures
            payload@.len() != 4 ==> r == Err::<NackPayload, ProtocolError>(
                ProtocolError::InvalidLength,
            ),
            payload@.len() == 4 ==> r == Ok::<NackPayload, ProtocolError>(
                NackPayload {
                    nacked_seq: get16(payload@, 0),
                    error_code: payload@[2],
                    context_type: payload@[3],
                },
            ),
    {
        if payload.len() != Self::LEN {
            return Err(ProtocolError::InvalidLength);
        }
        Ok(
            NackPayload {
                nacked_seq: read16(payload, 0),
                error_code: payload[2],
                context_type: payload[3],
            },
        )
    }
}

/// Decoding an encoded `Ack` gives it back.
pub proof fn lemma_ack_roundtrip(a: AckPayload)
    ensures
        get16(ack_bytes(a.acked_seq), 0) == a.acked_seq,
        ack_bytes(a.acked_seq).len() == 4,
{
    lemma_get16_le16(ack_bytes(a.acked_seq), 0, a.acked_seq);
}

/// Decoding an encoded `Nack` gives it back.
pub proof fn lemma_nack_roundtrip(n: NackPayload)
    ensures
        get16(nack_bytes(n), 0) == n.nacked_seq,
        nack_bytes(n)[2] == n.error_code,
        nack_bytes(n)[3] == n.context_type,
        nack_bytes(n).len() == 4,
{
    lemma_get16_le16(nack_bytes(n), 0, n.nacked_seq);
}

} // verus!
