//! Wire-level definitions: frame constants, message types, protocol errors
//! and the CRC-CCITT checksum that guards every frame.
use vstd::prelude::*;

verus! {

/// The two magic bytes `"HU"` that open every frame.
pub const MAGIC: [u8; 2] = [0x48u8, 0x55u8];

/// The first magic byte, `'H'`.
pub const MAGIC0: u8 = 0x48;

/// The second magic byte, `'U'`.
pub const MAGIC1: u8 = 0x55;

/// Protocol version 0, the only version this crate speaks.
pub const VERSION_V0: u8 = 0;

/// Length of the fixed frame header in bytes.
pub const HEADER_LEN: usize = 12;

/// Largest payload length a frame may declare.
pub const MAX_PAYLOAD_SIZE: usize = 512;

/// The sender asks for an acknowledgement.
pub const FLAG_ACK_REQ: u8 = 2;

/// The frame answers an earlier frame.
pub const FLAG_IS_RESP: u8 = 4;

/// The frame starts a new epoch.
pub const FLAG_EPOCH: u8 = 8;

/// The frame is a fragment.
pub const FLAG_FRAG: u8 = 16;

/// The frame is the last fragment.
pub const FLAG_LAST_FRAG: u8 = 32;

/// Flag bits that must be zero.
pub const RESERVED_FLAG_MASK: u8 = 0xC1;

/// The CRC-CCITT generator polynomial.
pub const CRC_POLY: u16 = 0x1021;

/// The CRC-CCITT initial register value.
pub const CRC_INIT: u16 = 0xFFFF;

/// Errors of the wire protocol. Each has a one-byte code on the wire (see
/// [`ProtocolError::code`]).
#[derive(Debug, Clone, Copy, PartialEq, Eq, Structural)]
pub enum ProtocolError {
    InvalidMagic,
    InvalidVersion,
    UnknownMessageType,
    InvalidLength,
    OversizedPayload,
    InvalidUtf8,
    CrcMismatch,
    InvalidFieldMask,
    ReservedNonZero,
    ArtworkIdMismatch,
    ChunkIndexMismatch,
    ChecksumMismatch,
    EpochOverflow,
    InvalidAlignment,
}

/// The wire code of an error.
pub open spec fn error_code(e: ProtocolError) -> u8 {
    match e {
        ProtocolError::InvalidMagic => 0x01,
        ProtocolError::InvalidVersion => 0x02,
        ProtocolError::UnknownMessageType => 0x03,
        ProtocolError::InvalidLength => 0x04,
        ProtocolError::OversizedPayload => 0x05,
        ProtocolError::InvalidUtf8 => 0x06,
        ProtocolError::CrcMismatch => 0x07,
        ProtocolError::InvalidFieldMask => 0x08,
        ProtocolError::ReservedNonZero => 0x09,
        ProtocolError::ArtworkIdMismatch => 0x0A,
        ProtocolError::ChunkIndexMismatch => 0x0B,
        ProtocolError::ChecksumMismatch => 0x0C,
        ProtocolError::EpochOverflow => 0x0D,
        ProtocolError::InvalidAlignment => 0x0E,
    }
}

impl ProtocolError {
    /// The one-byte wire code of this error.
    pub fn code(self) -> (c: u8)
        ensures
            c == error_code(self),
    {
        match self {
            ProtocolError::InvalidMagic => 0x01,
            ProtocolError::InvalidVersion => 0x02,
            ProtocolError::UnknownMessageType => 0x03,
            ProtocolError::InvalidLength => 0x04,
            ProtocolError::OversizedPayload => 0x05,
            ProtocolError::InvalidUtf8 => 0x06,
            ProtocolError::CrcMismatch => 0x07,
            ProtocolError::InvalidFieldMask => 0x08,
            ProtocolError::ReservedNonZero => 0x09,
            ProtocolError::ArtworkIdMismatch => 0x0A,
            ProtocolError::ChunkIndexMismatch => 0x0B,
            ProtocolError::ChecksumMismatch => 0x0C,
            ProtocolError::EpochOverflow => 0x0D,
            ProtocolError::InvalidAlignment => 0x0E,
        }
    }
}

/// The kinds of frame. The wire code of each is its position in this list,
/// from `Ping` = 0x00 to `Handshake` = 0x0D.
#[derive(Debug, Clone, Copy, PartialEq, Eq, Structural)]
pub enum MessageType {
    Ping,
    Pong,
    StateFull,
    StateDelta,
    ArtworkBegin,
    ArtworkChunk,
    ArtworkEnd,
    ArtworkAbort,
    Command,
    Ack,
    Nack,
    Error,
    Resync,
    Handshake,
}

/// The wire code of a message type.
pub open spec fn msg_code(t: MessageType) -> u8 {
    match t {
        MessageType::Ping => 0x00,
        MessageType::Pong => 0x01,
        MessageType::StateFull => 0x02,
        MessageType::StateDelta => 0x03,
        MessageType::ArtworkBegin => 0x04,
        MessageType::ArtworkChunk => 0x05,
        MessageType::ArtworkEnd => 0x06,
        MessageType::ArtworkAbort => 0x07,
        MessageType::Command => 0x08,
        MessageType::Ack => 0x09,
        MessageType::Nack => 0x0A,
        MessageType::Error => 0x0B,
        MessageType::Resync => 0x0C,
        MessageType::Handshake => 0x0D,
    }
}

/// The message type whose wire code is `v`, if there is one.
pub open spec fn msg_of_code(v: u8) -> Option<MessageType> {
    if v == 0x00 {
        Some(MessageType::Ping)
    } else if v == 0x01 {
        Some(MessageType::Pong)
    } else if v == 0x02 {
        Some(MessageType::StateFull)
    } else if v == 0x03 {
        Some(MessageType::StateDelta)
    } else if v == 0x04 {
        Some(MessageType::ArtworkBegin)
    } else if v == 0x05 {
        Some(MessageType::ArtworkChunk)
    } else if v == 0x06 {
        Some(MessageType::ArtworkEnd)
    } else if v == 0x07 {
        Some(MessageType::ArtworkAbort)
    } else if v == 0x08 {
        Some(MessageType::Command)
    } else if v == 0x09 {
        Some(MessageType::Ack)
    } else if v == 0x0A {
        Some(MessageType::Nack)
    } else if v == 0x0B {
        Some(MessageType::Error)
    } else if v == 0x0C {
        Some(MessageType::Resync)
    } else if v == 0x0D {
        Some(MessageType::Handshake)
    } else {
        None
    }
}

/// Every message type is found again from its code.
pub proof fn lemma_msg_code_roundtrip(t: MessageType)
    ensures
        msg_of_code(msg_code(t)) == Some(t),
{
}

impl MessageType {
    /// Decodes a message type from its wire code.
    pub fn from_u8(value: u8) -> (r: Result<MessageType, ProtocolError>)
        ensures
            value <= 0x0D ==> (r matches Ok(t) && msg_code(t) == value && msg_of_code(value) == Some(
                t,
            )),
            value > 0x0D ==> r == Err::<MessageType, ProtocolError>(
                ProtocolError::UnknownMessageType,
            ) && msg_of_code(value).is_none(),
    {
        match value {
            0x00 => Ok(MessageType::Ping),
            0x01 => Ok(MessageType::Pong),
            0x02 => Ok(MessageType::StateFull),
            0x03 => Ok(MessageType::StateDelta),
            0x04 => Ok(MessageType::ArtworkBegin),
            0x05 => Ok(MessageType::ArtworkChunk),
            0x06 => Ok(MessageType::ArtworkEnd),
            0x07 => Ok(MessageType::ArtworkAbort),
            0x08 => Ok(MessageType::Command),
            0x09 => Ok(MessageType::Ack),
            0x0A => Ok(MessageType::Nack),
            0x0B => Ok(MessageType::Error),
            0x0C => Ok(MessageType::Resync),
            0x0D => Ok(MessageType::Handshake),
            _ => Err(ProtocolError::UnknownMessageType),
        }
    }

    /// The wire code of this message type.
    pub fn to_u8(self) -> (v: u8)
        ensures
            v == msg_code(self),
    {
        match self {
            MessageType::Ping => 0x00,
            MessageType::Pong => 0x01,
            MessageType::StateFull => 0x02,
            MessageType::StateDelta => 0x03,
            MessageType::ArtworkBegin => 0x04,
            MessageType::ArtworkChunk => 0x05,
            MessageType::ArtworkEnd => 0x06,
            MessageType::ArtworkAbort => 0x07,
            MessageType::Command => 0x08,
            MessageType::Ack => 0x09,
            MessageType::Nack => 0x0A,
            MessageType::Error => 0x0B,
            MessageType::Resync => 0x0C,
            MessageType::Handshake => 0x0D,
        }
    }
}

/// One step of the CRC-CCITT shift register: shift left one bit, and fold in
/// the polynomial when the bit shifted out was set.
pub open spec fn crc_shift(c: u16) -> u16 {
    if c & 0x8000u16 != 0 {
        ((c << 1u16) ^ 0x1021u16) as u16
    } else {
        (c << 1u16) as u16
    }
}

/// `n` steps of the shift register.
pub open spec fn crc_shifts(c: u16, n: nat) -> u16
    decreases n,
{
    if n == 0 {
        c
    } else {
        crc_shift(crc_shifts(c, (n - 1) as nat))
    }
}

/// The register after one byte: the byte is folded into the top eight bits,
/// then the register is shifted eight times (CRC-CCITT, MSB first).
pub open spec fn crc_byte(c: u16, b: u8) -> u16 {
    crc_shifts(c ^ ((b as u16) << 8u16), 8)
}

/// The register after feeding the bytes of `s` in order, starting from `c`.
pub open spec fn crc_fold(c: u16, s: Seq<u8>) -> u16
    decreases s.len(),
{
    if s.len() == 0 {
        c
    } else {
        crc_byte(crc_fold(c, s.drop_last()), s.last())
    }
}

/// The CRC-CCITT (initial value 0xFFFF) of `s`.
pub open spec fn crc_ccitt(s: Seq<u8>) -> u16 {
    crc_fold(0xFFFFu16, s)
}

/// Entry `i` of the byte-wise lookup table.
pub open spec fn crc_table_entry(i: int) -> u16 {
    crc_shifts(((i as u16) << 8u16) as u16, 8)
}

/// Feeding `a` then `b` is feeding `a + b`.
pub proof fn lemma_crc_fold_append(c: u16, a: Seq<u8>, b: Seq<u8>)
    ensures
        crc_fold(crc_fold(c, a), b) == crc_fold(c, a + b),
    decreases b.len(),
{
    if b.len() == 0 {
        assert(a + b =~= a);
    } else {
        lemma_crc_fold_append(c, a, b.drop_last());
        assert((a + b).drop_last() =~= a + b.drop_last());
        assert((a + b).last() == b.last());
    }
}

/// The table-driven update agrees with the bit-wise definition.
proof fn lemma_crc_table_step(c: u16, b: u8)
    ensures
        crc_byte(c, b) == (((c << 8u16) as u16) ^ crc_table_entry(((((c >> 8u16) ^ (b as u16))
            & 0xffu16) as u16) as int)) as u16,
{
    reveal_with_fuel(crc_shifts, 9);
    let i: u16 = ((c >> 8u16) ^ (b as u16)) & 0xffu16;
    assert(((i as int) as u16) == i);
    let x: u16 = c ^ ((b as u16) << 8u16);
    let y: u16 = (i << 8u16) as u16;
    assert(crc_shift(crc_shift(crc_shift(crc_shift(crc_shift(crc_shift(crc_shift(crc_shift(x))))))))
        == (((c << 8u16) as u16) ^ crc_shift(
        crc_shift(crc_shift(crc_shift(crc_shift(crc_shift(crc_shift(crc_shift(y)))))),
    ))) as u16) by (bit_vector)
        requires
            x == c ^ ((b as u16) << 8u16),
            y == (((c >> 8u16) ^ (b as u16)) & 0xffu16) << 8u16,
    ;
}

/// A CRC-CCITT register value.
#[derive(Debug, Clone, Copy, PartialEq, Eq, Structural, Hash)]
pub struct Crc(u16);

impl View for Crc {
    type V = u16;

    closed spec fn view(&self) -> u16 {
        self.0
    }
}

/// Builds the byte-wise lookup table: entry `i` is the register after
/// shifting `i << 8` eight times.
pub fn make_crc_table() -> (table: [Crc; 256])
    ensures
        forall|i: int| 0 <= i < 256 ==> (#[trigger] table@[i])@ == crc_table_entry(i),
{
    let mut table = [Crc(0); 256];
    let mut i: usize = 0;
    while i < 256
        invariant
            i <= 256,
            forall|k: int| 0 <= k < i ==> (#[trigger] table@[k])@ == crc_table_entry(k),
        decreases 256 - i,
    {
        let mut crc: u16 = (i as u16) << 8u16;
        let mut j: usize = 0;
        while j < 8
            invariant
                j <= 8,
                i < 256,
                crc == crc_shifts(((i as u16) << 8u16) as u16, j as nat),
            decreases 8 - j,
        {
            crc = if crc & 0x8000u16 != 0 {
                (crc << 1u16) ^ CRC_POLY
            } else {
                crc << 1u16
            };
            j = j + 1;
        }
        assert(((i as int) as u16) == i as u16);
        table[i] = Crc(crc);
        i = i + 1;
    }
    table
}

impl Crc {
    /// A register holding `raw`.
    pub fn new(raw: u16) -> (c: Crc)
        ensures
            c@ == raw,
    {
        Crc(raw)
    }

    /// The register's value.
    pub fn raw(self) -> (v: u16)
        ensures
            v == self@,
    {
        self.0
    }

    /// Feeds `data` into the register, byte by byte.
    pub fn feed(&mut self, data: &[u8])
        ensures
            final(self)@ == crc_fold(old(self)@, data@),
    {
        let table = make_crc_table();
        let n = data.len();
        let mut k: usize = 0;
        while k < n
            invariant
                k <= n,
                n == data@.len(),
                forall|i: int| 0 <= i < 256 ==> (#[trigger] table@[i])@ == crc_table_entry(i),
                self@ == crc_fold(old(self)@, data@.subrange(0, k as int)),
            decreases n - k,
        {
            let byte = data[k];
            let reg = self.0;
            let idx = ((reg >> 8u16) ^ (byte as u16)) & 0xffu16;
            assert(idx < 256) by (bit_vector)
                requires
                    idx == ((reg >> 8u16) ^ (byte as u16)) & 0xffu16,
            ;
            proof {
                lemma_crc_table_step(self.0, byte);
                assert(data@.subrange(0, k + 1).drop_last() =~= data@.subrange(0, k as int));
                assert(data@.subrange(0, k + 1).last() == byte);
            }
            let entry = table[idx as usize];
            self.0 = (self.0 << 8u16) ^ entry.0;
            k = k + 1;
        }
        assert(data@.subrange(0, n as int) =~= data@);
    }
}

} // verus!
