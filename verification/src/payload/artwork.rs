//! Artwork stream payloads: `ArtworkBegin`, `ArtworkChunk`, `ArtworkEnd` and
//! `ArtworkAbort`.
use vstd::prelude::*;
use crate::le::{
    copy_into, fill_zero, get16, get32, le16, le32, lemma_get16_le16, lemma_get32_le32, put16,
    put32, read16, read32, write_at,
};
use crate::wire::ProtocolError;

verus! {

/// Pixel format: RGB565, two bytes per pixel.
pub const ARTWORK_FORMAT_RGB565: u8 = 0;

/// Abort reason: the track changed.
pub const ARTWORK_ABORT_TRACK_CHANGED: u8 = 0;

/// Abort reason: the sender's encoder failed.
pub const ARTWORK_ABORT_ENCODER_ERROR: u8 = 1;

/// Abort reason: the sender gave up.
pub const ARTWORK_ABORT_SENDER_REQUEST: u8 = 2;

/// `width` and `height` are non-zero and `total_bytes` is exactly two bytes
/// per pixel, computed without overflowing 32 bits.
pub open spec fn valid_dimensions(width: u16, height: u16, total_bytes: u32) -> bool {
    &&& width != 0
    &&& height != 0
    &&& width * height * 2 <= u32::MAX
    &&& total_bytes == width * height * 2
}

/// The abort reasons the protocol knows.
pub open spec fn valid_abort_reason(reason: u8) -> bool {
    reason <= 2
}

/// Starts an artwork stream.
#[derive(Debug, Clone, Copy, PartialEq, Eq, Structural)]
pub struct ArtworkBeginPayload {
    pub artwork_id: u32,
    pub width: u16,
    pub height: u16,
    pub total_bytes: u32,
    pub format: u8,
}

/// The 24 payload bytes of an `ArtworkBegin`: id, width, height, total
/// bytes, format, then eleven reserved zero bytes.
pub open spec fn begin_bytes(b: ArtworkBeginPayload) -> Seq<u8> {
    le32(b.artwork_id) + le16(b.width) + le16(b.height) + le32(b.total_bytes) + seq![b.format]
        + Seq::new(11, |i: int| 0u8)
}

/// The `ArtworkBegin` read from 24 payload bytes.
pub open spec fn begin_of(p: Seq<u8>) -> ArtworkBeginPayload {
    ArtworkBeginPayload {
        artwork_id: get32(p, 0),
        width: get16(p, 4),
        height: get16(p, 6),
        total_bytes: get32(p, 8),
        format: p[12],
    }
}

/// One chunk of artwork data.
#[derive(Debug, Clone, Copy, PartialEq, Eq)]
pub struct ArtworkChunkPayload<'a> {
    pub artwork_id: u32,
    pub chunk_index: u16,
    pub data: &'a [u8],
}

/// The payload bytes of an `ArtworkChunk`: id, index, data length, data.
pub open spec fn chunk_bytes(artwork_id: u32, chunk_index: u16, data: Seq<u8>) -> Seq<u8> {
    le32(artwork_id) + le16(chunk_index) + le16(data.len() as u16) + data
}

/// Ends an artwork stream, giving the checksum of all chunk data.
#[derive(Debug, Clone, Copy, PartialEq, Eq, Structural)]
pub struct ArtworkEndPayload {
    pub artwork_id: u32,
    pub checksum: u32,
}

/// The eight payload bytes of an `ArtworkEnd`.
pub open spec fn end_bytes(e: ArtworkEndPayload) -> Seq<u8> {
    le32(e.artwork_id) + le32(e.checksum)
}

/// Cancels an artwork stream.
#[derive(Debug, Clone, Copy, PartialEq, Eq, Structural)]
pub struct ArtworkAbortPayload {
    pub artwork_id: u32,
    pub reason: u8,
}

/// The eight payload bytes of an `ArtworkAbort`: id, reason, three reserved
/// zero bytes.
pub open spec fn abort_bytes(a: ArtworkAbortPayload) -> Seq<u8> {
    le32(a.artwork_id) + seq![a.reason, 0u8, 0u8, 0u8]
}

/// Checks [`valid_dimensions`].
fn validate_dimensions(width: u16, height: u16, total_bytes: u32) -> (r: Result<(), ProtocolError>)
    ensures
        valid_dimensions(width, height, total_bytes) ==> r is Ok,
        !valid_dimensions(width, height, total_bytes) ==> r == Err::<(), ProtocolError>(
            ProtocolError::InvalidLength,
        ),
{
    if width == 0 || height == 0 {
        return Err(ProtocolError::InvalidLength);
    }
    let pixels = match (width as u32).checked_mul(height as u32) {
        Some(p) => p,
        None => return Err(ProtocolError::InvalidLength),
    };
    let expected = match pixels.checked_mul(2) {
        Some(e) => e,
        None => return Err(ProtocolError::InvalidLength),
    };
    if total_bytes != expected {
        return Err(ProtocolError::InvalidLength);
    }
    Ok(())
}

/// Only RGB565 is accepted.
fn validate_format(format: u8) -> (r: Result<(), ProtocolError>)
    ensures
        format == 0 ==> r is Ok,
        format != 0 ==> r == Err::<(), ProtocolError>(ProtocolError::InvalidLength),
{
    if format != ARTWORK_FORMAT_RGB565 {
        return Err(ProtocolError::InvalidLength);
    }
    Ok(())
}

/// Chunk data must fit a 16-bit length and be a whole number of pixels.
fn validate_chunk_data_len(data_len: usize) -> (r: Result<(), ProtocolError>)
    ensures
        data_len > 0xFFFF ==> r == Err::<(), ProtocolError>(ProtocolError::InvalidLength),
        data_len <= 0xFFFF && data_len % 2 != 0 ==> r == Err::<(), ProtocolError>(
            ProtocolError::InvalidAlignment,
        ),
        data_len <= 0xFFFF && data_len % 2 == 0 ==> r is Ok,
{
    if data_len > 0xFFFF {
        return Err(ProtocolError::InvalidLength);
    }
    if data_len % 2 != 0 {
        return Err(ProtocolError::InvalidAlignment);
    }
    Ok(())
}

/// Only the known abort reasons are accepted.
fn validate_abort_reason(reason: u8) -> (r: Result<(), ProtocolError>)
    ensures
        valid_abort_reason(reason) ==> r is Ok,
        !valid_abort_reason(reason) ==> r == Err::<(), ProtocolError>(ProtocolError::InvalidLength),
{
    match reason {
        ARTWORK_ABORT_TRACK_CHANGED | ARTWORK_ABORT_ENCODER_ERROR | ARTWORK_ABORT_SENDER_REQUEST => Ok(
            (),
        ),
        _ => Err(ProtocolError::InvalidLength),
    }
}

impl ArtworkBeginPayload {
    /// The payload length.
    pub const LEN: usize = 24;

    /// Writes the payload at the start of `out` and returns its length. A
    /// short buffer is reported first, then bad dimensions, then a bad format.
    pub fn encode(&self, out: &mut [u8]) -> (r: Result<usize, ProtocolError>)
        ensures
            old(out)@.len() < 24 || !valid_dimensions(self.width, self.height, self.total_bytes)
                || self.format != 0 ==> r == Err::<usize, ProtocolError>(
                ProtocolError::InvalidLength,
            ),
            r is Err ==> final(out)@ == old(out)@,
            old(out)@.len() >= 24 && valid_dimensions(self.width, self.height, self.total_bytes)
                && self.format == 0 ==> r == Ok::<usize, ProtocolError>(24) && final(out)@
                == write_at(old(out)@, 0, begin_bytes(*self)),
    {
        self.encode_at(out, 0)
    }

    /// Writes the payload at `out[off..]` and returns its length.
    pub(crate) fn encode_at(&self, out: &mut [u8], off: usize) -> (r: Result<usize, ProtocolError>)
        requires
            off <= old(out)@.len(),
        ensures
            old(out)@.len() - off < 24 || !valid_dimensions(self.width, self.height, self.total_bytes)
                || self.format != 0 ==> r == Err::<usize, ProtocolError>(
                ProtocolError::InvalidLength,
            ),
            r is Err ==> final(out)@ == old(out)@,
            old(out)@.len() - off >= 24 && valid_dimensions(self.width, self.height, self.total_bytes)
                && self.format == 0 ==> r == Ok::<usize, ProtocolError>(24) && final(out)@
                == write_at(old(out)@, off as int, begin_bytes(*self)),
    {
        if out.len() - off < Self::LEN {
            return Err(ProtocolError::InvalidLength);
        }
        validate_dimensions(self.width, self.height, self.total_bytes)?;
        validate_format(self.format)?;
        let ghost o = out@;
        fill_zero(out, off, Self::LEN);
        put32(out, off, self.artwork_id);
        put16(out, off + 4, self.width);
        put16(out, off + 6, self.height);
        put32(out, off + 8, self.total_bytes);
        out[off + 12] = self.format;
        assert(out@ =~= write_at(o, off as int, begin_bytes(*self)));
        Ok(Self::LEN)
    }

    /// Reads an `ArtworkBegin`: exactly 24 bytes, reserved bytes zero, valid
    /// dimensions, RGB565 format.
    pub fn decode(payload: &[u8]) -> (r: Result<ArtworkBeginPayload, ProtocolError>)
        ensures
            payload@.len() != 24 ==> r == Err::<ArtworkBeginPayload, ProtocolError>(
                ProtocolError::InvalidLength,
            ),
            payload@.len() == 24 && !(forall|i: int| 13 <= i < 24 ==> payload@[i] == 0) ==> r
                == Err::<ArtworkBeginPayload, ProtocolError>(ProtocolError::ReservedNonZero),
            payload@.len() == 24 && (forall|i: int| 13 <= i < 24 ==> payload@[i] == 0) ==> {
                let b = begin_of(payload@);
                if valid_dimensions(b.width, b.height, b.total_bytes) && b.format == 0 {
                    r == Ok::<ArtworkBeginPayload, ProtocolError>(b)
                } else {
                    r == Err::<ArtworkBeginPayload, ProtocolError>(ProtocolError::InvalidLength)
                }
            },
    {
        if payload.len() != Self::LEN {
            return Err(ProtocolError::InvalidLength);
        }
        let mut i: usize = 13;
        while i < 24
            invariant
                13 <= i <= 24,
                payload@.len() == 24,
                forall|k: int| 13 <= k < i ==> payload@[k] == 0,
            decreases 24 - i,
        {
            if payload[i] != 0 {
                return Err(ProtocolError::ReservedNonZero);
            }
            i = i + 1;
        }
        let out = ArtworkBeginPayload {
            artwork_id: read32(payload, 0),
            width: read16(payload, 4),
            height: read16(payload, 6),
            total_bytes: read32(payload, 8),
            format: payload[12],
        };
        validate_dimensions(out.width, out.height, out.total_bytes)?;
        validate_format(out.format)?;
        Ok(out)
    }
}

impl<'a> ArtworkChunkPayload<'a> {
    /// Length of the chunk header that precedes the data.
    pub const HEADER_LEN: usize = 8;

    /// Writes the payload at the start of `out` and returns its length. Bad
    /// data length is reported before a short buffer.
    pub fn encode(&self, out: &mut [u8]) -> (r: Result<usize, ProtocolError>)
        ensures
            self.data@.len() > 0xFFFF ==> r == Err::<usize, ProtocolError>(
                ProtocolError::InvalidLength,
            ),
            self.data@.len() <= 0xFFFF && self.data@.len() % 2 != 0 ==> r == Err::<
                usize,
                ProtocolError,
            >(ProtocolError::InvalidAlignment),
            self.data@.len() <= 0xFFFF && self.data@.len() % 2 == 0 && old(out)@.len() < 8
                + self.data@.len() ==> r == Err::<usize, ProtocolError>(ProtocolError::InvalidLength),
            r is Err ==> final(out)@ == old(out)@,
            self.data@.len() <= 0xFFFF && self.data@.len() % 2 == 0 && old(out)@.len() >= 8
                + self.data@.len() ==> r == Ok::<usize, ProtocolError>(
                (8 + self.data@.len()) as usize,
            ) && final(out)@ == write_at(
                old(out)@,
                0,
                chunk_bytes(self.artwork_id, self.chunk_index, self.data@),
            ),
    {
        self.encode_at(out, 0)
    }

    /// Writes the payload at `out[off..]` and returns its length.
    pub(crate) fn encode_at(&self, out: &mut [u8], off: usize) -> (r: Result<usize, ProtocolError>)
        requires
            off <= old(out)@.len(),
        ensures
            self.data@.len() > 0xFFFF ==> r == Err::<usize, ProtocolError>(
                ProtocolError::InvalidLength,
            ),
            self.data@.len() <= 0xFFFF && self.data@.len() % 2 != 0 ==> r == Err::<
                usize,
                ProtocolError,
            >(ProtocolError::InvalidAlignment),
            self.data@.len() <= 0xFFFF && self.data@.len() % 2 == 0 && old(out)@.len() - off < 8
                + self.data@.len() ==> r == Err::<usize, ProtocolError>(ProtocolError::InvalidLength),
            r is Err ==> final(out)@ == old(out)@,
            self.data@.len() <= 0xFFFF && self.data@.len() % 2 == 0 && old(out)@.len() - off >= 8
                + self.data@.len() ==> r == Ok::<usize, ProtocolError>(
                (8 + self.data@.len()) as usize,
            ) && final(out)@ == write_at(
                old(out)@,
                off as int,
                chunk_bytes(self.artwork_id, self.chunk_index, self.data@),
            ),
    {
        validate_chunk_data_len(self.data.len())?;
        let len = Self::HEADER_LEN + self.data.len();
        if out.len() - off < len {
            return Err(ProtocolError::InvalidLength);
        }
        let ghost o = out@;
        put32(out, off, self.artwork_id);
        put16(out, off + 4, self.chunk_index);
        put16(out, off + 6, self.data.len() as u16);
        copy_into(out, off + Self::HEADER_LEN, self.data);
        assert(out@ =~= write_at(
            o,
            off as int,
            chunk_bytes(self.artwork_id, self.chunk_index, self.data@),
        ));
        Ok(len)
    }

    /// Reads an `ArtworkChunk`: an eight-byte header whose length field is
    /// even and matches the data that follows exactly.
    pub fn decode(payload: &'a [u8]) -> (r: Result<ArtworkChunkPayload<'a>, ProtocolError>)
        ensures
            payload@.len() < 8 ==> r == Err::<ArtworkChunkPayload, ProtocolError>(
                ProtocolError::InvalidLength,
            ),
            payload@.len() >= 8 && get16(payload@, 6) % 2 != 0 ==> r == Err::<
                ArtworkChunkPayload,
                ProtocolError,
            >(ProtocolError::InvalidAlignment),
            payload@.len() >= 8 && get16(payload@, 6) % 2 == 0 && payload@.len() != 8 + get16(
                payload@,
                6,
            ) ==> r == Err::<ArtworkChunkPayload, ProtocolError>(ProtocolError::InvalidLength),
            payload@.len() >= 8 && get16(payload@, 6) % 2 == 0 && payload@.len() == 8 + get16(
                payload@,
                6,
            ) ==> (r matches Ok(c) && c.artwork_id == get32(payload@, 0) && c.chunk_index == get16(
                payload@,
                4,
            ) && c.data@ == payload@.subrange(8, payload@.len() as int)),
    {
        if payload.len() < Self::HEADER_LEN {
            return Err(ProtocolError::InvalidLength);
        }
        let data_len = read16(payload, 6) as usize;
        validate_chunk_data_len(data_len)?;
        let expected_len = Self::HEADER_LEN + data_len;
        if payload.len() != expected_len {
            return Err(ProtocolError::InvalidLength);
        }
        Ok(
            ArtworkChunkPayload {
                artwork_id: read32(payload, 0),
                chunk_index: read16(payload, 4),
                data: vstd::slice::slice_subrange(payload, Self::HEADER_LEN, payload.len()),
            },
        )
    }
}

impl ArtworkEndPayload {
    /// The payload length.
    pub const LEN: usize = 8;

    /// Writes the payload at the start of `out` and returns its length.
    pub fn encode(&self, out: &mut [u8]) -> (r: Result<usize, ProtocolError>)
        ensures
            old(out)@.len() < 8 ==> r == Err::<usize, ProtocolError>(ProtocolError::InvalidLength)
                && final(out)@ == old(out)@,
            old(out)@.len() >= 8 ==> r == Ok::<usize, ProtocolError>(8) && final(out)@ == write_at(
                old(out)@,
                0,
                end_bytes(*self),
            ),
    {
        self.encode_at(out, 0)
    }

    /// Writes the payload at `out[off..]` and returns its length.
    pub(crate) fn encode_at(&self, out: &mut [u8], off: usize) -> (r: Result<usize, ProtocolError>)
        requires
            off <= old(out)@.len(),
        ensures
            old(out)@.len() - off < 8 ==> r == Err::<usize, ProtocolError>(
                ProtocolError::InvalidLength,
            ) && final(out)@ == old(out)@,
            old(out)@.len() - off >= 8 ==> r == Ok::<usize, ProtocolError>(8) && final(out)@
                == write_at(old(out)@, off as int, end_bytes(*self)),
    {
        if out.len() - off < Self::LEN {
            return Err(ProtocolError::InvalidLength);
        }
        let ghost o = out@;
        put32(out, off, self.artwork_id);
        put32(out, off + 4, self.checksum);
        assert(out@ =~= write_at(o, off as int, end_bytes(*self)));
        Ok(Self::LEN)
    }

    /// Reads an `ArtworkEnd`, which must be exactly eight bytes.
    pub fn decode(payload: &[u8]) -> (r: Result<ArtworkEndPayload, ProtocolError>)
        ensures
            payload@.len() != 8 ==> r == Err::<ArtworkEndPayload, ProtocolError>(
                ProtocolError::InvalidLength,
            ),
            payload@.len() == 8 ==> r == Ok::<ArtworkEndPayload, ProtocolError>(
                ArtworkEndPayload { artwork_id: get32(payload@, 0), checksum: get32(payload@, 4) },
            ),
    {
        if payload.len() != Self::LEN {
            return Err(ProtocolError::InvalidLength);
        }
        Ok(ArtworkEndPayload { artwork_id: read32(payload, 0), checksum: read32(payload, 4) })
    }
}

impl ArtworkAbortPayload {
    /// The payload length.
    pub const LEN: usize = 8;

    /// Writes the payload at the start of `out` and returns its length. A
    /// short buffer is reported before an unknown reason.
    pub fn encode(&self, out: &mut [u8]) -> (r: Result<usize, ProtocolError>)
        ensures
            old(out)@.len() < 8 || !valid_abort_reason(self.reason) ==> r == Err::<
                usize,
                ProtocolError,
            >(ProtocolError::InvalidLength) && final(out)@ == old(out)@,
            old(out)@.len() >= 8 && valid_abort_reason(self.reason) ==> r == Ok::<
                usize,
                ProtocolError,
            >(8) && final(out)@ == write_at(old(out)@, 0, abort_bytes(*self)),
    {
        self.encode_at(out, 0)
    }

    /// Writes the payload at `out[off..]` and returns its length.
    pub(crate) fn encode_at(&self, out: &mut [u8], off: usize) -> (r: Result<usize, ProtocolError>)
        requires
            off <= old(out)@.len(),
        ensures
            old(out)@.len() - off < 8 || !valid_abort_reason(self.reason) ==> r == Err::<
                usize,
                ProtocolError,
            >(ProtocolError::InvalidLength) && final(out)@ == old(out)@,
            old(out)@.len() - off >= 8 && valid_abort_reason(self.reason) ==> r == Ok::<
                usize,
                ProtocolError,
            >(8) && final(out)@ == write_at(old(out)@, off as int, abort_bytes(*self)),
    {
        if out.len() - off < Self::LEN {
            return Err(ProtocolError::InvalidLength);
        }
        validate_abort_reason(self.reason)?;
        let ghost o = out@;
        fill_zero(out, off, Self::LEN);
        put32(out, off, self.artwork_id);
        out[off + 4] = self.reason;
        assert(out@ =~= write_at(o, off as int, abort_bytes(*self)));
        Ok(Self::LEN)
    }

    /// Reads an `ArtworkAbort`: exactly eight bytes, reserved bytes zero, a
    /// known reason.
    pub fn decode(payload: &[u8]) -> (r: Result<ArtworkAbortPayload, ProtocolError>)
        ensures
            payload@.len() != 8 ==> r == Err::<ArtworkAbortPayload, ProtocolError>(
                ProtocolError::InvalidLength,
            ),
            payload@.len() == 8 && (payload@[5] != 0 || payload@[6] != 0 || payload@[7] != 0)
                ==> r == Err::<ArtworkAbortPayload, ProtocolError>(ProtocolError::ReservedNonZero),
            payload@.len() == 8 && payload@[5] == 0 && payload@[6] == 0 && payload@[7] == 0
                && !valid_abort_reason(payload@[4]) ==> r == Err::<
                ArtworkAbortPayload,
                ProtocolError,
            >(ProtocolError::InvalidLength),
            payload@.len() == 8 && payload@[5] == 0 && payload@[6] == 0 && payload@[7] == 0
                && valid_abort_reason(payload@[4]) ==> r == Ok::<ArtworkAbortPayload, ProtocolError>(
                ArtworkAbortPayload { artwork_id: get32(payload@, 0), reason: payload@[4] },
            ),
    {
        if payload.len() != Self::LEN {
            return Err(ProtocolError::InvalidLength);
        }
        if payload[5] != 0 || payload[6] != 0 || payload[7] != 0 {
            return Err(ProtocolError::ReservedNonZero);
        }
        let out = ArtworkAbortPayload { artwork_id: read32(payload, 0), reason: payload[4] };
        validate_abort_reason(out.reason)?;
        Ok(out)
    }
}

/// Decoding the bytes of a valid `ArtworkBegin` gives it back.
pub proof fn lemma_begin_roundtrip(b: ArtworkBeginPayload)
    ensures
        begin_bytes(b).len() == 24,
        begin_of(begin_bytes(b)) == b,
        forall|i: int| 13 <= i < 24 ==> begin_bytes(b)[i] == 0,
{
    let s = begin_bytes(b);
    lemma_get32_le32(s, 0, b.artwork_id);
    lemma_get16_le16(s, 4, b.width);
    lemma_get16_le16(s, 6, b.height);
    lemma_get32_le32(s, 8, b.total_bytes);
}

/// Decoding the bytes of a chunk gives back its id, index and data.
pub proof fn lemma_chunk_roundtrip(artwork_id: u32, chunk_index: u16, data: Seq<u8>)
    requires
        data.len() <= 0xFFFF,
    ensures
        chunk_bytes(artwork_id, chunk_index, data).len() == 8 + data.len(),
        get32(chunk_bytes(artwork_id, chunk_index, data), 0) == artwork_id,
        get16(chunk_bytes(artwork_id, chunk_index, data), 4) == chunk_index,
        get16(chunk_bytes(artwork_id, chunk_index, data), 6) == data.len(),
        chunk_bytes(artwork_id, chunk_index, data).subrange(8, 8 + data.len() as int) == data,
{
    let s = chunk_bytes(artwork_id, chunk_index, data);
    lemma_get32_le32(s, 0, artwork_id);
    lemma_get16_le16(s, 4, chunk_index);
    lemma_get16_le16(s, 6, data.len() as u16);
    assert(s.subrange(8, 8 + data.len() as int) =~= data);
}

/// Decoding the bytes of an `ArtworkEnd` gives it back.
pub proof fn lemma_end_roundtrip(e: ArtworkEndPayload)
    ensures
        end_bytes(e).len() == 8,
        get32(end_bytes(e), 0) == e.artwork_id,
        get32(end_bytes(e), 4) == e.checksum,
{
    lemma_get32_le32(end_bytes(e), 0, e.artwork_id);
    lemma_get32_le32(end_bytes(e), 4, e.checksum);
}

/// Decoding the bytes of an `ArtworkAbort` gives it back.
pub proof fn lemma_abort_roundtrip(a: ArtworkAbortPayload)
    ensures
        abort_bytes(a).len() == 8,
        get32(abort_bytes(a), 0) == a.artwork_id,
        abort_bytes(a)[4] == a.reason,
        abort_bytes(a)[5] == 0 && abort_bytes(a)[6] == 0 && abort_bytes(a)[7] == 0,
{
    lemma_get32_le32(abort_bytes(a), 0, a.artwork_id);
}

} // verus!
