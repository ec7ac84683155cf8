//! Builds whole frames, header and payload, in a caller's buffer.
use vstd::prelude::*;
use crate::delta::{diff_mask, diff_state};
use crate::frame::{compute_frame_crc, frame_bytes, header_prefix, FrameHeader};
use crate::le::{put16, write_at};
use crate::payload::ack::{ack_bytes, nack_bytes, AckPayload, NackPayload};
use crate::payload::artwork::{
    abort_bytes, begin_bytes, chunk_bytes, end_bytes, valid_abort_reason, valid_dimensions,
    ArtworkAbortPayload, ArtworkBeginPayload, ArtworkChunkPayload, ArtworkEndPayload,
};
use crate::payload::handshake::{handshake_bytes, HandshakePayload};
use crate::payload::state::{delta_bytes, delta_written, encode_state_delta_at};
use crate::state::UiState;
use crate::wire::{
    error_code, msg_code, MessageType, ProtocolError, FLAG_IS_RESP, HEADER_LEN,
};

verus! {

/// Writing a frame over a buffer whose payload area was written first gives
/// the frame, whatever was written there.
proof fn lemma_frame_over_payload(s: Seq<u8>, p: Seq<u8>, f: Seq<u8>)
    requires
        12 + p.len() <= s.len(),
        f.len() == 12 + p.len(),
    ensures
        write_at(write_at(s, 12, p), 0, f) == write_at(s, 0, f),
{
    assert(write_at(write_at(s, 12, p), 0, f) =~= write_at(s, 0, f));
}

/// The two flag values that the builder writes carry no reserved bit.
proof fn lemma_builder_flags()
    ensures
        0u8 & 0xC1u8 == 0,
        4u8 & 0xC1u8 == 0,
{
    assert(0u8 & 0xC1u8 == 0) by (bit_vector);
    assert(4u8 & 0xC1u8 == 0) by (bit_vector);
}

/// The frame built by a [`FrameBuilder`] function, at the start of the
/// buffer `o`, when it fits.
pub open spec fn built(o: Seq<u8>, t: MessageType, flags: u8, seq: u16, payload: Seq<u8>) -> Seq<u8> {
    write_at(o, 0, frame_bytes(t, flags, seq, payload))
}

/// Builds frames in caller-provided buffers.
pub struct FrameBuilder;

impl FrameBuilder {
    /// An empty `Ping` frame.
    pub fn ping(out: &mut [u8], seq: u16) -> (r: Result<usize, ProtocolError>)
        ensures
            old(out)@.len() < 12 ==> r == Err::<usize, ProtocolError>(ProtocolError::InvalidLength)
                && final(out)@ == old(out)@,
            old(out)@.len() >= 12 ==> r == Ok::<usize, ProtocolError>(12) && final(out)@ == built(
                old(out)@,
                MessageType::Ping,
                0,
                seq,
                Seq::empty(),
            ),
    {
        Self::empty(out, MessageType::Ping, seq)
    }

    /// An empty `Pong` frame.
    pub fn pong(out: &mut [u8], seq: u16) -> (r: Result<usize, ProtocolError>)
        ensures
            old(out)@.len() < 12 ==> r == Err::<usize, ProtocolError>(ProtocolError::InvalidLength)
                && final(out)@ == old(out)@,
            old(out)@.len() >= 12 ==> r == Ok::<usize, ProtocolError>(12) && final(out)@ == built(
                old(out)@,
                MessageType::Pong,
                0,
                seq,
                Seq::empty(),
            ),
    {
        Self::empty(out, MessageType::Pong, seq)
    }

    /// An empty `Resync` frame.
    pub fn resync(out: &mut [u8], seq: u16) -> (r: Result<usize, ProtocolError>)
        ensures
            old(out)@.len() < 12 ==> r == Err::<usize, ProtocolError>(ProtocolError::InvalidLength)
                && final(out)@ == old(out)@,
            old(out)@.len() >= 12 ==> r == Ok::<usize, ProtocolError>(12) && final(out)@ == built(
                old(out)@,
                MessageType::Resync,
                0,
                seq,
                Seq::empty(),
            ),
    {
        Self::empty(out, MessageType::Resync, seq)
    }

    /// A `StateDelta` frame carrying the fields of `new_state` that
    /// [`diff_state`] selects against `old_state`.
    pub fn state_delta(out: &mut [u8], seq: u16, old_state: &UiState, new_state: &UiState) -> (r:
        Result<usize, ProtocolError>)
        ensures
            ({
                let p = delta_bytes(new_state@, diff_mask(*old_state, *new_state));
                &&& old(out)@.len() < 12 + p.len() ==> r == Err::<usize, ProtocolError>(
                    ProtocolError::InvalidLength,
                )
                &&& old(out)@.len() >= 12 + p.len() ==> r == Ok::<usize, ProtocolError>(
                    (12 + p.len()) as usize,
                ) && final(out)@ == built(old(out)@, MessageType::StateDelta, 0, seq, p)
                &&& old(out)@.len() < 44 ==> final(out)@ == old(out)@
                &&& 44 <= old(out)@.len() < 12 + p.len() ==> final(out)@ == write_at(
                    old(out)@,
                    12,
                    delta_written(
                        new_state@,
                        diff_mask(*old_state, *new_state),
                        old(out)@.len() - 12,
                    ),
                )
                &&& p.len() <= 32 + 4 * 64
            }),
            final(out)@.len() == old(out)@.len(),
    {
        let tl = new_state.title.len();
        let al = new_state.artist.len();
        let bl = new_state.album.len();
        let nl = new_state.app_name.len();
        let ghost p = delta_bytes(new_state@, diff_mask(*old_state, *new_state));
        assert(p.len() <= 32 + tl + al + bl + nl);
        if out.len() < HEADER_LEN {
            return Err(ProtocolError::InvalidLength);
        }
        let ghost o = out@;
        let field_mask = diff_state(old_state, new_state);
        let payload_len = encode_state_delta_at(new_state, field_mask, out, HEADER_LEN)?;
        let ghost w = out@;
        proof {
            lemma_builder_flags();
        }
        let r = Self::finish_frame(out, MessageType::StateDelta, 0, seq, payload_len);
        proof {
            assert(w.subrange(12, (12 + p.len()) as int) =~= p);
            lemma_frame_over_payload(o, p, frame_bytes(MessageType::StateDelta, 0, seq, p));
        }
        r
    }

    /// An `Ack` frame, flagged as a response.
    pub fn ack(out: &mut [u8], seq: u16, acked_seq: u16) -> (r: Result<usize, ProtocolError>)
        ensures
            old(out)@.len() < 16 ==> r == Err::<usize, ProtocolError>(ProtocolError::InvalidLength)
                && final(out)@ == old(out)@,
            old(out)@.len() >= 16 ==> r == Ok::<usize, ProtocolError>(16) && final(out)@ == built(
                old(out)@,
                MessageType::Ack,
                4,
                seq,
                ack_bytes(acked_seq),
            ),
    {
        if out.len() < HEADER_LEN {
            return Err(ProtocolError::InvalidLength);
        }
        let ghost o = out@;
        let payload_len = AckPayload { acked_seq }.encode_at(out, HEADER_LEN)?;
        let ghost w = out@;
        proof {
            lemma_builder_flags();
        }
        let r = Self::finish_frame(out, MessageType::Ack, FLAG_IS_RESP, seq, payload_len);
        proof {
            let p = ack_bytes(acked_seq);
            assert(w.subrange(12, (12 + p.len()) as int) =~= p);
            lemma_frame_over_payload(o, p, frame_bytes(MessageType::Ack, 4, seq, p));
        }
        r
    }

    /// A `Handshake` frame.
    pub fn handshake(out: &mut [u8], seq: u16, payload: HandshakePayload) -> (r: Result<
        usize,
        ProtocolError,
    >)
        ensures
            old(out)@.len() < 20 ==> r == Err::<usize, ProtocolError>(ProtocolError::InvalidLength),
            old(out)@.len() >= 20 && payload.caps & 0xFFF8u16 != 0 ==> r == Err::<
                usize,
                ProtocolError,
            >(ProtocolError::ReservedNonZero),
            r is Err ==> final(out)@ == old(out)@,
            old(out)@.len() >= 20 && payload.caps & 0xFFF8u16 == 0 ==> r == Ok::<
                usize,
                ProtocolError,
            >(20) && final(out)@ == built(
                old(out)@,
                MessageType::Handshake,
                0,
                seq,
                handshake_bytes(payload),
            ),
    {
        if out.len() < HEADER_LEN {
            return Err(ProtocolError::InvalidLength);
        }
        let ghost o = out@;
        let payload_len = payload.encode_at(out, HEADER_LEN)?;
        let ghost w = out@;
        proof {
            lemma_builder_flags();
        }
        let r = Self::finish_frame(out, MessageType::Handshake, 0, seq, payload_len);
        proof {
            let p = handshake_bytes(payload);
            assert(w.subrange(12, (12 + p.len()) as int) =~= p);
            lemma_frame_over_payload(o, p, frame_bytes(MessageType::Handshake, 0, seq, p));
        }
        r
    }

    /// An `ArtworkBegin` frame.
    pub fn artwork_begin(out: &mut [u8], seq: u16, payload: ArtworkBeginPayload) -> (r: Result<
        usize,
        ProtocolError,
    >)
        ensures
            old(out)@.len() < 36 || !valid_dimensions(payload.width, payload.height, payload.total_bytes)
                || payload.format != 0 ==> r == Err::<usize, ProtocolError>(
                ProtocolError::InvalidLength,
            ) && final(out)@ == old(out)@,
            old(out)@.len() >= 36 && valid_dimensions(payload.width, payload.height, payload.total_bytes)
                && payload.format == 0 ==> r == Ok::<usize, ProtocolError>(36) && final(out)@
                == built(old(out)@, MessageType::ArtworkBegin, 0, seq, begin_bytes(payload)),
    {
        if out.len() < HEADER_LEN {
            return Err(ProtocolError::InvalidLength);
        }
        let ghost o = out@;
        let payload_len = payload.encode_at(out, HEADER_LEN)?;
        let ghost w = out@;
        proof {
            lemma_builder_flags();
        }
        let r = Self::finish_frame(out, MessageType::ArtworkBegin, 0, seq, payload_len);
        proof {
            let p = begin_bytes(payload);
            assert(w.subrange(12, (12 + p.len()) as int) =~= p);
            lemma_frame_over_payload(o, p, frame_bytes(MessageType::ArtworkBegin, 0, seq, p));
        }
        r
    }

    /// An `ArtworkChunk` frame. Chunk data that does not fit a frame is
    /// rejected as `OversizedPayload` after the payload area was written.
    pub fn artwork_chunk(out: &mut [u8], seq: u16, payload: ArtworkChunkPayload<'_>) -> (r: Result<
        usize,
        ProtocolError,
    >)
        ensures
            ({
                let n = payload.data@.len();
                let p = chunk_bytes(payload.artwork_id, payload.chunk_index, payload.data@);
                &&& old(out)@.len() < 12 ==> r == Err::<usize, ProtocolError>(
                    ProtocolError::InvalidLength,
                )
                &&& old(out)@.len() >= 12 && n > 0xFFFF ==> r == Err::<usize, ProtocolError>(
                    ProtocolError::InvalidLength,
                )
                &&& old(out)@.len() >= 12 && n <= 0xFFFF && n % 2 != 0 ==> r == Err::<
                    usize,
                    ProtocolError,
                >(ProtocolError::InvalidAlignment)
                &&& old(out)@.len() >= 12 && n <= 0xFFFF && n % 2 == 0 && old(out)@.len() < 20 + n
                    ==> r == Err::<usize, ProtocolError>(ProtocolError::InvalidLength)
                &&& old(out)@.len() >= 20 + n && n <= 0xFFFF && n % 2 == 0 && n > 504 ==> r == Err::<
                    usize,
                    ProtocolError,
                >(ProtocolError::OversizedPayload) && final(out)@ == write_at(old(out)@, 12, p)
                &&& !(old(out)@.len() >= 20 + n && n <= 0xFFFF && n % 2 == 0) ==> final(out)@ == old(
                    out,
                )@
                &&& old(out)@.len() >= 20 + n && n % 2 == 0 && n <= 504 ==> r == Ok::<
                    usize,
                    ProtocolError,
                >((20 + n) as usize) && final(out)@ == built(
                    old(out)@,
                    MessageType::ArtworkChunk,
                    0,
                    seq,
                    p,
                )
            }),
            final(out)@.len() == old(out)@.len(),
    {
        if out.len() < HEADER_LEN {
            return Err(ProtocolError::InvalidLength);
        }
        let ghost o = out@;
        let payload_len = payload.encode_at(out, HEADER_LEN)?;
        let ghost w = out@;
        proof {
            lemma_builder_flags();
        }
        let r = Self::finish_frame(out, MessageType::ArtworkChunk, 0, seq, payload_len);
        proof {
            let p = chunk_bytes(payload.artwork_id, payload.chunk_index, payload.data@);
            assert(w.subrange(12, (12 + p.len()) as int) =~= p);
            if p.len() <= 512 {
                lemma_frame_over_payload(o, p, frame_bytes(MessageType::ArtworkChunk, 0, seq, p));
            }
        }
        r
    }

    /// An `ArtworkEnd` frame.
    pub fn artwork_end(out: &mut [u8], seq: u16, payload: ArtworkEndPayload) -> (r: Result<
        usize,
        ProtocolError,
    >)
        ensures
            old(out)@.len() < 20 ==> r == Err::<usize, ProtocolError>(ProtocolError::InvalidLength)
                && final(out)@ == old(out)@,
            old(out)@.len() >= 20 ==> r == Ok::<usize, ProtocolError>(20) && final(out)@ == built(
                old(out)@,
                MessageType::ArtworkEnd,
                0,
                seq,
                end_bytes(payload),
            ),
    {
        if out.len() < HEADER_LEN {
            return Err(ProtocolError::InvalidLength);
        }
        let ghost o = out@;
        let payload_len = payload.encode_at(out, HEADER_LEN)?;
        let ghost w = out@;
        proof {
            lemma_builder_flags();
        }
        let r = Self::finish_frame(out, MessageType::ArtworkEnd, 0, seq, payload_len);
        proof {
            let p = end_bytes(payload);
            assert(w.subrange(12, (12 + p.len()) as int) =~= p);
            lemma_frame_over_payload(o, p, frame_bytes(MessageType::ArtworkEnd, 0, seq, p));
        }
        r
    }

    /// An `ArtworkAbort` frame.
    pub fn artwork_abort(out: &mut [u8], seq: u16, payload: ArtworkAbortPayload) -> (r: Result<
        usize,
        ProtocolError,
    >)
        ensures
            old(out)@.len() < 20 || !valid_abort_reason(payload.reason) ==> r == Err::<
                usize,
                ProtocolError,
            >(ProtocolError::InvalidLength) && final(out)@ == old(out)@,
            old(out)@.len() >= 20 && valid_abort_reason(payload.reason) ==> r == Ok::<
                usize,
                ProtocolError,
            >(20) && final(out)@ == built(
                old(out)@,
                MessageType::ArtworkAbort,
                0,
                seq,
                abort_bytes(payload),
            ),
    {
        if out.len() < HEADER_LEN {
            return Err(ProtocolError::InvalidLength);
        }
        let ghost o = out@;
        let payload_len = payload.encode_at(out, HEADER_LEN)?;
        let ghost w = out@;
        proof {
            lemma_builder_flags();
        }
        let r = Self::finish_frame(out, MessageType::ArtworkAbort, 0, seq, payload_len);
        proof {
            let p = abort_bytes(payload);
            assert(w.subrange(12, (12 + p.len()) as int) =~= p);
            lemma_frame_over_payload(o, p, frame_bytes(MessageType::ArtworkAbort, 0, seq, p));
        }
        r
    }

    /// A `Nack` frame, flagged as a response, carrying the error's code and
    /// the rejected frame's message type.
    pub fn nack(
        out: &mut [u8],
        seq: u16,
        nacked_seq: u16,
        error: ProtocolError,
        context: MessageType,
    ) -> (r: Result<usize, ProtocolError>)
        ensures
            old(out)@.len() < 16 ==> r == Err::<usize, ProtocolError>(ProtocolError::InvalidLength)
                && final(out)@ == old(out)@,
            old(out)@.len() >= 16 ==> r == Ok::<usize, ProtocolError>(16) && final(out)@ == built(
                old(out)@,
                MessageType::Nack,
                4,
                seq,
                nack_bytes(
                    NackPayload {
                        nacked_seq,
                        error_code: error_code(error),
                        context_type: msg_code(context),
                    },
                ),
            ),
    {
        if out.len() < HEADER_LEN {
            return Err(ProtocolError::InvalidLength);
        }
        let ghost o = out@;
        let n = NackPayload { nacked_seq, error_code: error.code(), context_type: context.to_u8() };
        let payload_len = n.encode_at(out, HEADER_LEN)?;
        let ghost w = out@;
        proof {
            lemma_builder_flags();
        }
        let r = Self::finish_frame(out, MessageType::Nack, FLAG_IS_RESP, seq, payload_len);
        proof {
            let p = nack_bytes(n);
            assert(w.subrange(12, (12 + p.len()) as int) =~= p);
            lemma_frame_over_payload(o, p, frame_bytes(MessageType::Nack, 4, seq, p));
        }
        r
    }

    /// A frame with no payload.
    fn empty(out: &mut [u8], msg_type: MessageType, seq: u16) -> (r: Result<usize, ProtocolError>)
        ensures
            old(out)@.len() < 12 ==> r == Err::<usize, ProtocolError>(ProtocolError::InvalidLength)
                && final(out)@ == old(out)@,
            old(out)@.len() >= 12 ==> r == Ok::<usize, ProtocolError>(12) && final(out)@ == built(
                old(out)@,
                msg_type,
                0,
                seq,
                Seq::empty(),
            ),
    {
        proof {
            lemma_builder_flags();
        }
        let r = Self::finish_frame(out, msg_type, 0, seq, 0);
        proof {
            if old(out)@.len() >= 12 {
                assert(old(out)@.subrange(12, 12) =~= Seq::<u8>::empty());
            }
        }
        r
    }

    /// Writes the header and CRC of a frame whose `payload_len` payload bytes
    /// already stand at `out[12..]`.
    fn finish_frame(out: &mut [u8], msg_type: MessageType, flags: u8, seq: u16, payload_len: usize) -> (r:
        Result<usize, ProtocolError>)
        ensures
            old(out)@.len() < 12 + payload_len ==> r == Err::<usize, ProtocolError>(
                ProtocolError::InvalidLength,
            ),
            old(out)@.len() >= 12 + payload_len && payload_len > 512 ==> r == Err::<
                usize,
                ProtocolError,
            >(ProtocolError::OversizedPayload),
            old(out)@.len() >= 12 + payload_len && payload_len <= 512 && flags & 0xC1u8 != 0 ==> r
                == Err::<usize, ProtocolError>(ProtocolError::ReservedNonZero),
            r is Err ==> final(out)@ == old(out)@,
            old(out)@.len() >= 12 + payload_len && payload_len <= 512 && flags & 0xC1u8 == 0 ==> r
                == Ok::<usize, ProtocolError>((12 + payload_len) as usize) && final(out)@ == built(
                old(out)@,
                msg_type,
                flags,
                seq,
                old(out)@.subrange(12, 12 + payload_len),
            ),
    {
        let olen = out.len();
        if olen < HEADER_LEN || olen - HEADER_LEN < payload_len {
            return Err(ProtocolError::InvalidLength);
        }
        let total_len = HEADER_LEN + payload_len;
        let ghost o = out@;
        let ghost payload = o.subrange(12, 12 + payload_len);
        FrameHeader::write_without_crc(out, msg_type, flags, payload_len, seq)?;
        let mut header = [0u8; 12];
        let mut i: usize = 0;
        while i < 12
            invariant
                i <= 12,
                out@.len() == olen,
                olen >= 12,
                forall|k: int| 0 <= k < i ==> header@[k] == out@[k],
            decreases 12 - i,
        {
            header[i] = out[i];
            i = i + 1;
        }
        let body = vstd::slice::slice_subrange(out, HEADER_LEN, total_len);
        assert(body@ =~= payload);
        let ghost prefix = header_prefix(msg_type, flags, payload_len as u16, seq);
        assert(header@.subrange(0, 10) =~= prefix.subrange(0, 10));
        let crc = compute_frame_crc(&header, body);
        put16(out, 10, crc.raw());
        assert(out@ =~= built(o, msg_type, flags, seq, payload));
        Ok(total_len)
    }
}

} // verus!
