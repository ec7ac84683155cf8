//! Frame headers, the frame CRC, and whole-frame encoding.
//!
//! ```text
//! +0   u8[2] magic      "HU"
//! +2   u8    version    0
//! +3   u8    msg_type
//! +4   u8    flags
//! +5   u8    reserved   must be 0
//! +6   u16   len        payload length in bytes
//! +8   u16   seq        wrapping sequence number
//! +10  u16   crc        CRC-CCITT over header with crc zeroed + payload
//! ```
use vstd::prelude::*;
use crate::le::{copy_into, get16, le16, lemma_get16_le16, put16, read16, write_at};
use crate::wire::{
    crc_ccitt, msg_code, msg_of_code, Crc, MessageType, ProtocolError, CRC_INIT,
    HEADER_LEN, MAGIC0, MAGIC1, MAX_PAYLOAD_SIZE, RESERVED_FLAG_MASK, VERSION_V0,
};

verus! {

/// A parsed frame header.
#[derive(Debug, Clone, Copy)]
pub struct FrameHeader {
    pub version: u8,
    pub msg_type: MessageType,
    pub flags: u8,
    pub len: u16,
    pub seq: u16,
    pub crc: u16,
}

/// A frame: its header and a view of its payload.
#[derive(Debug, Clone, Copy)]
pub struct FrameView<'a> {
    pub header: FrameHeader,
    pub payload: &'a [u8],
}

/// The first ten header bytes: magic, version 0, type, flags, the reserved
/// zero byte, payload length and sequence number.
pub open spec fn header_prefix(t: MessageType, flags: u8, len: u16, seq: u16) -> Seq<u8> {
    seq![0x48u8, 0x55u8, 0u8, msg_code(t), flags, 0u8] + le16(len) + le16(seq)
}

/// The CRC of a frame: CRC-CCITT over the first ten header bytes, two zero
/// bytes in place of the CRC field, and the payload.
pub open spec fn frame_crc(prefix: Seq<u8>, payload: Seq<u8>) -> u16 {
    crc_ccitt(prefix.subrange(0, 10) + seq![0u8, 0u8] + payload)
}

/// The bytes of a whole frame.
pub open spec fn frame_bytes(t: MessageType, flags: u8, seq: u16, payload: Seq<u8>) -> Seq<u8> {
    let prefix = header_prefix(t, flags, payload.len() as u16, seq);
    prefix + le16(frame_crc(prefix, payload)) + payload
}

/// The header read from twelve bytes, or the first rule it breaks: magic,
/// version, message type, reserved flag bits or reserved byte, payload length.
pub open spec fn parse_header(h: Seq<u8>) -> Result<FrameHeader, ProtocolError> {
    if h[0] != 0x48 || h[1] != 0x55 {
        Err(ProtocolError::InvalidMagic)
    } else if h[2] != 0 {
        Err(ProtocolError::InvalidVersion)
    } else if msg_of_code(h[3]).is_none() {
        Err(ProtocolError::UnknownMessageType)
    } else if h[4] & 0xC1u8 != 0 || h[5] != 0 {
        Err(ProtocolError::ReservedNonZero)
    } else if get16(h, 6) > 512 {
        Err(ProtocolError::OversizedPayload)
    } else {
        Ok(
            FrameHeader {
                version: h[2],
                msg_type: msg_of_code(h[3])->Some_0,
                flags: h[4],
                len: get16(h, 6),
                seq: get16(h, 8),
                crc: get16(h, 10),
            },
        )
    }
}

/// Whether the CRC field of header `h` matches the frame's bytes.
pub open spec fn crc_matches(h: Seq<u8>, payload: Seq<u8>) -> bool {
    get16(h, 10) == frame_crc(h, payload)
}

impl FrameHeader {
    /// Parses a twelve-byte header (see [`parse_header`]).
    pub fn parse(header: &[u8; 12]) -> (r: Result<FrameHeader, ProtocolError>)
        ensures
            r == parse_header(header@),
    {
        if header[0] != MAGIC0 || header[1] != MAGIC1 {
            return Err(ProtocolError::InvalidMagic);
        }
        let version = header[2];
        if version != VERSION_V0 {
            return Err(ProtocolError::InvalidVersion);
        }
        let raw_type = header[3];
        let msg_type = MessageType::from_u8(raw_type)?;
        let flags = header[4];
        if flags & RESERVED_FLAG_MASK != 0 || header[5] != 0 {
            return Err(ProtocolError::ReservedNonZero);
        }
        let len = read16(header.as_slice(), 6);
        if len as usize > MAX_PAYLOAD_SIZE {
            return Err(ProtocolError::OversizedPayload);
        }
        let seq = read16(header.as_slice(), 8);
        let crc = read16(header.as_slice(), 10);
        Ok(FrameHeader { version, msg_type, flags, len, seq, crc })
    }

    /// Writes a header with a zero CRC field at the start of `out`. A short
    /// buffer is reported first, then an oversized payload, then reserved
    /// flag bits.
    pub fn write_without_crc(
        out: &mut [u8],
        msg_type: MessageType,
        flags: u8,
        payload_len: usize,
        seq: u16,
    ) -> (r: Result<(), ProtocolError>)
        ensures
            old(out)@.len() < 12 ==> r == Err::<(), ProtocolError>(ProtocolError::InvalidLength),
            old(out)@.len() >= 12 && payload_len > 512 ==> r == Err::<(), ProtocolError>(
                ProtocolError::OversizedPayload,
            ),
            old(out)@.len() >= 12 && payload_len <= 512 && flags & 0xC1u8 != 0 ==> r == Err::<
                (),
                ProtocolError,
            >(ProtocolError::ReservedNonZero),
            r is Err ==> final(out)@ == old(out)@,
            old(out)@.len() >= 12 && payload_len <= 512 && flags & 0xC1u8 == 0 ==> r is Ok
                && final(out)@ == write_at(
                old(out)@,
                0,
                header_prefix(msg_type, flags, payload_len as u16, seq) + seq![0u8, 0u8],
            ),
    {
        if out.len() < HEADER_LEN {
            return Err(ProtocolError::InvalidLength);
        }
        if payload_len > MAX_PAYLOAD_SIZE {
            return Err(ProtocolError::OversizedPayload);
        }
        if flags & RESERVED_FLAG_MASK != 0 {
            return Err(ProtocolError::ReservedNonZero);
        }
        let ghost o = out@;
        out[0] = MAGIC0;
        out[1] = MAGIC1;
        out[2] = VERSION_V0;
        out[3] = msg_type.to_u8();
        out[4] = flags;
        out[5] = 0;
        let len = payload_len as u16;
        put16(out, 6, len);
        put16(out, 8, seq);
        out[10] = 0;
        out[11] = 0;
        assert(out@ =~= write_at(
            o,
            0,
            header_prefix(msg_type, flags, payload_len as u16, seq) + seq![0u8, 0u8],
        ));
        Ok(())
    }
}

/// Computes the frame CRC of `header` (whose CRC field is ignored) and
/// `payload`.
pub fn compute_frame_crc(header: &[u8; 12], payload: &[u8]) -> (c: Crc)
    ensures
        c@ == frame_crc(header@, payload@),
{
    let mut crc = Crc::new(CRC_INIT);
    let head = vstd::slice::slice_subrange(header.as_slice(), 0, 10);
    crc.feed(head);
    let zero: [u8; 2] = [0u8, 0u8];
    crc.feed(zero.as_slice());
    crc.feed(payload);
    proof {
        crate::wire::lemma_crc_fold_append(0xFFFFu16, head@, zero@);
        crate::wire::lemma_crc_fold_append(0xFFFFu16, head@ + zero@, payload@);
        assert(zero@ =~= seq![0u8, 0u8]);
    }
    crc
}

/// Checks the CRC field of `header` against the frame's bytes.
pub fn validate_frame_crc(header: &[u8; 12], payload: &[u8]) -> (r: Result<(), ProtocolError>)
    ensures
        crc_matches(header@, payload@) ==> r is Ok,
        !crc_matches(header@, payload@) ==> r == Err::<(), ProtocolError>(
            ProtocolError::CrcMismatch,
        ),
{
    let expected = Crc::new(read16(header.as_slice(), 10));
    let actual = compute_frame_crc(header, payload);
    if expected.raw() != actual.raw() {
        return Err(ProtocolError::CrcMismatch);
    }
    Ok(())
}

/// Encodes a whole frame at the start of `out` and returns its length. A
/// short buffer is reported first, then an oversized payload, then reserved
/// flag bits.
pub fn encode_frame(out: &mut [u8], msg_type: MessageType, flags: u8, seq: u16, payload: &[u8]) -> (r:
    Result<usize, ProtocolError>)
    ensures
        old(out)@.len() < 12 + payload@.len() ==> r == Err::<usize, ProtocolError>(
            ProtocolError::InvalidLength,
        ),
        old(out)@.len() >= 12 + payload@.len() && payload@.len() > 512 ==> r == Err::<
            usize,
            ProtocolError,
        >(ProtocolError::OversizedPayload),
        old(out)@.len() >= 12 + payload@.len() && payload@.len() <= 512 && flags & 0xC1u8 != 0
            ==> r == Err::<usize, ProtocolError>(ProtocolError::ReservedNonZero),
        r is Err ==> final(out)@ == old(out)@,
        old(out)@.len() >= 12 + payload@.len() && payload@.len() <= 512 && flags & 0xC1u8 == 0
            ==> r == Ok::<usize, ProtocolError>((12 + payload@.len()) as usize) && final(out)@
            == write_at(old(out)@, 0, frame_bytes(msg_type, flags, seq, payload@)),
{
    let olen = out.len();
    if olen < HEADER_LEN || olen - HEADER_LEN < payload.len() {
        return Err(ProtocolError::InvalidLength);
    }
    let total_len = HEADER_LEN + payload.len();
    let ghost o = out@;
    FrameHeader::write_without_crc(out, msg_type, flags, payload.len(), seq)?;
    copy_into(out, HEADER_LEN, payload);
    let mut header = [0u8; 12];
    let mut i: usize = 0;
    while i < 12
        invariant
            i <= 12,
            out@.len() == olen,
            olen >= 12,
            forall|k: int| 0 <= k < i ==> header@[k] == out@[k],
        decreases 12 - i,
    {
        header[i] = out[i];
        i = i + 1;
    }
    let ghost prefix = header_prefix(msg_type, flags, payload@.len() as u16, seq);
    assert(header@.subrange(0, 10) =~= prefix.subrange(0, 10));
    let crc = compute_frame_crc(&header, payload);
    put16(out, 10, crc.raw());
    assert(out@ =~= write_at(o, 0, frame_bytes(msg_type, flags, seq, payload@)));
    Ok(total_len)
}

/// Parsing the header of an encoded frame gives back its type, flags, length
/// and sequence number, and its CRC field matches.
pub proof fn lemma_frame_header_roundtrip(t: MessageType, flags: u8, seq: u16, payload: Seq<u8>)
    requires
        payload.len() <= 512,
        flags & 0xC1u8 == 0,
    ensures
        ({
            let f = frame_bytes(t, flags, seq, payload);
            let h = f.subrange(0, 12);
            &&& f.len() == 12 + payload.len()
            &&& parse_header(h) matches Ok(hd) && hd.msg_type == t && hd.flags == flags && hd.len
                == payload.len() && hd.seq == seq && hd.version == 0
            &&& crc_matches(h, f.subrange(12, f.len() as int))
        }),
{
    let f = frame_bytes(t, flags, seq, payload);
    let prefix = header_prefix(t, flags, payload.len() as u16, seq);
    let crc = frame_crc(prefix, payload);
    let h = f.subrange(0, 12);
    lemma_get16_le16(h, 6, payload.len() as u16);
    lemma_get16_le16(h, 8, seq);
    lemma_get16_le16(h, 10, crc);
    crate::wire::lemma_msg_code_roundtrip(t);
    assert(h.subrange(0, 10) =~= prefix.subrange(0, 10));
    assert(f.subrange(12, f.len() as int) =~= payload);
}

} // verus!
