//! The `StateDelta` payload: a field mask, a 32-byte fixed section, then the
//! selected strings.
//!
//! ```text
//! +0   u16 field_mask
//! +2   u32 track_id
//! +6   u64 position_ms
//! +14  u64 duration_ms
//! +22  u8  playing
//! +23  u8  title_len
//! +24  u8  artist_len
//! +25  u8  album_len
//! +26  u8  app_name_len
//! +27  u8  reserved
//! +28  u32 artwork_id
//! +32  string bytes in title/artist/album/app_name order
//! ```
use vstd::prelude::*;
use vstd::utf8::valid_utf8;
use crate::hstr::HStrError;
use crate::le::{
    copy_into, get16, get32, get64, le16, le32, le64, lemma_get16_le16, lemma_get32_le32,
    lemma_get64_le64, put16, put32, put64, read16, read32, read64, write_at,
};
use crate::state::{UiModel, UiState};
use crate::wire::ProtocolError;

verus! {

/// Length of the fixed section.
pub const STATE_DELTA_FIXED_LEN: usize = 32;

pub const FIELD_TRACK_ID: u16 = 1;

pub const FIELD_TITLE: u16 = 2;

pub const FIELD_ARTIST: u16 = 4;

pub const FIELD_ALBUM: u16 = 8;

pub const FIELD_APP_NAME: u16 = 16;

pub const FIELD_POSITION: u16 = 32;

pub const FIELD_DURATION: u16 = 64;

pub const FIELD_PLAYING: u16 = 128;

pub const FIELD_ARTWORK_ID: u16 = 256;

/// All field bits.
pub const VALID_STATE_FIELDS: u16 = 0x01FF;

/// Mask bits that must be zero.
pub const RESERVED_STATE_FIELDS: u16 = 0xFE00;

/// Whether `mask` selects the field `bit`.
pub open spec fn selects(mask: u16, bit: u16) -> bool {
    mask & bit != 0
}

/// `n` zero bytes.
pub open spec fn zeros(n: nat) -> Seq<u8> {
    Seq::new(n, |i: int| 0u8)
}

/// `bytes` when the field is selected, else nothing.
pub open spec fn sel(mask: u16, bit: u16, bytes: Seq<u8>) -> Seq<u8> {
    if selects(mask, bit) {
        bytes
    } else {
        Seq::empty()
    }
}

/// The string length byte of a field: its length when selected, else zero.
pub open spec fn len_byte(mask: u16, bit: u16, s: Seq<u8>) -> u8 {
    if selects(mask, bit) {
        s.len() as u8
    } else {
        0
    }
}

/// Byte `i` of the fixed section encoding the fields of `s` that `mask`
/// selects; an unselected field is written as zeros.
pub open spec fn fixed_byte(s: UiModel, mask: u16, i: int) -> u8 {
    if i < 2 {
        le16(mask)[i]
    } else if i < 6 {
        if selects(mask, 1) {
            le32(s.track_id)[i - 2]
        } else {
            0
        }
    } else if i < 14 {
        if selects(mask, 32) {
            le64(s.position_ms)[i - 6]
        } else {
            0
        }
    } else if i < 22 {
        if selects(mask, 64) {
            le64(s.duration_ms)[i - 14]
        } else {
            0
        }
    } else if i == 22 {
        if selects(mask, 128) && s.playing {
            1
        } else {
            0
        }
    } else if i == 23 {
        len_byte(mask, 2, s.title)
    } else if i == 24 {
        len_byte(mask, 4, s.artist)
    } else if i == 25 {
        len_byte(mask, 8, s.album)
    } else if i == 26 {
        len_byte(mask, 16, s.app_name)
    } else if i == 27 {
        0
    } else if selects(mask, 256) {
        le32(s.artwork_id)[i - 28]
    } else {
        0
    }
}

/// The 32-byte fixed section.
pub open spec fn delta_fixed(s: UiModel, mask: u16) -> Seq<u8> {
    Seq::new(32, |i: int| fixed_byte(s, mask, i))
}

/// The selected strings, in title/artist/album/app_name order.
pub open spec fn delta_strings(s: UiModel, mask: u16) -> Seq<u8> {
    sel(mask, 2, s.title) + sel(mask, 4, s.artist) + sel(mask, 8, s.album) + sel(
        mask,
        16,
        s.app_name,
    )
}

/// The whole `StateDelta` payload for the fields of `s` that `mask` selects.
pub open spec fn delta_bytes(s: UiModel, mask: u16) -> Seq<u8> {
    delta_fixed(s, mask) + delta_strings(s, mask)
}

/// What the encoder has written when the selected strings do not all fit
/// in `room` bytes: the fixed section, then the selected strings in order
/// up to the first one that does not fit.
pub open spec fn delta_written(s: UiModel, mask: u16, room: int) -> Seq<u8> {
    let f = delta_fixed(s, mask);
    let p1 = f + sel(mask, 2, s.title);
    let p2 = p1 + sel(mask, 4, s.artist);
    let p3 = p2 + sel(mask, 8, s.album);
    if p1.len() > room {
        f
    } else if p2.len() > room {
        p1
    } else if p3.len() > room {
        p2
    } else {
        p3
    }
}

/// The values a `StateDelta` payload carries.
pub struct DeltaFields {
    pub mask: u16,
    pub track_id: u32,
    pub position_ms: u64,
    pub duration_ms: u64,
    pub playing: bool,
    pub artwork_id: u32,
    pub title: Seq<u8>,
    pub artist: Seq<u8>,
    pub album: Seq<u8>,
    pub app_name: Seq<u8>,
}

/// The string of `len` bytes at `p[cur..]`, or why it cannot be taken: it
/// runs past the payload, it is longer than a state string holds (64 bytes),
/// or it is not valid UTF-8.
pub open spec fn take_str(p: Seq<u8>, cur: int, len: int) -> Result<Seq<u8>, ProtocolError> {
    if cur + len > p.len() {
        Err(ProtocolError::InvalidLength)
    } else if len > 64 {
        Err(ProtocolError::OversizedPayload)
    } else if !valid_utf8(p.subrange(cur, cur + len)) {
        Err(ProtocolError::InvalidUtf8)
    } else {
        Ok(p.subrange(cur, cur + len))
    }
}

/// Takes the string of field `bit` (length at `p[idx]`) when selected.
pub open spec fn take_sel(p: Seq<u8>, mask: u16, bit: u16, cur: int, idx: int) -> Result<
    Seq<u8>,
    ProtocolError,
> {
    if selects(mask, bit) {
        take_str(p, cur, p[idx] as int)
    } else {
        Ok(Seq::empty())
    }
}

/// The length field `bit` takes up in the string section.
pub open spec fn sel_len(p: Seq<u8>, mask: u16, bit: u16, idx: int) -> int {
    if selects(mask, bit) {
        p[idx] as int
    } else {
        0
    }
}

/// What a `StateDelta` payload decodes to, or the first error in it. The
/// checks come in this order: length of the fixed section, reserved mask
/// bits, the reserved byte, the playing byte, then each selected string in
/// order.
pub open spec fn delta_decode(p: Seq<u8>) -> Result<DeltaFields, ProtocolError> {
    if p.len() < 32 {
        Err(ProtocolError::InvalidLength)
    } else {
        let mask = get16(p, 0);
        let c1 = 32 + sel_len(p, mask, 2, 23);
        let c2 = c1 + sel_len(p, mask, 4, 24);
        let c3 = c2 + sel_len(p, mask, 8, 25);
        let t = take_sel(p, mask, 2, 32, 23);
        let a = take_sel(p, mask, 4, c1, 24);
        let b = take_sel(p, mask, 8, c2, 25);
        let n = take_sel(p, mask, 16, c3, 26);
        if mask & 0xFE00u16 != 0 {
            Err(ProtocolError::InvalidFieldMask)
        } else if p[27] != 0 {
            Err(ProtocolError::ReservedNonZero)
        } else if selects(mask, 128) && p[22] > 1 {
            Err(ProtocolError::InvalidLength)
        } else if t is Err {
            Err(t->Err_0)
        } else if a is Err {
            Err(a->Err_0)
        } else if b is Err {
            Err(b->Err_0)
        } else if n is Err {
            Err(n->Err_0)
        } else {
            Ok(
                DeltaFields {
                    mask,
                    track_id: get32(p, 2),
                    position_ms: get64(p, 6),
                    duration_ms: get64(p, 14),
                    playing: p[22] == 1,
                    artwork_id: get32(p, 28),
                    title: t->Ok_0,
                    artist: a->Ok_0,
                    album: b->Ok_0,
                    app_name: n->Ok_0,
                },
            )
        }
    }
}

/// `s` with the fields that `f.mask` selects taken from `f`.
pub open spec fn apply_delta(s: UiModel, f: DeltaFields) -> UiModel {
    UiModel {
        track_id: if selects(f.mask, 1) {
            f.track_id
        } else {
            s.track_id
        },
        title: if selects(f.mask, 2) {
            f.title
        } else {
            s.title
        },
        artist: if selects(f.mask, 4) {
            f.artist
        } else {
            s.artist
        },
        album: if selects(f.mask, 8) {
            f.album
        } else {
            s.album
        },
        app_name: if selects(f.mask, 16) {
            f.app_name
        } else {
            s.app_name
        },
        position_ms: if selects(f.mask, 32) {
            f.position_ms
        } else {
            s.position_ms
        },
        duration_ms: if selects(f.mask, 64) {
            f.duration_ms
        } else {
            s.duration_ms
        },
        playing: if selects(f.mask, 128) {
            f.playing
        } else {
            s.playing
        },
        artwork_id: if selects(f.mask, 256) {
            f.artwork_id
        } else {
            s.artwork_id
        },
    }
}

/// The protocol error of a rejected string.
fn map_hstr_error(err: HStrError) -> (e: ProtocolError)
    ensures
        err == HStrError::UTF8Error ==> e == ProtocolError::InvalidUtf8,
        err == HStrError::TooLong ==> e == ProtocolError::OversizedPayload,
{
    match err {
        HStrError::UTF8Error => ProtocolError::InvalidUtf8,
        HStrError::TooLong => ProtocolError::OversizedPayload,
    }
}

/// The `len` bytes at `payload[*cursor..]`, advancing the cursor past them.
fn take_bytes<'a>(payload: &'a [u8], cursor: &mut usize, len: usize) -> (r: Result<
    &'a [u8],
    ProtocolError,
>)
    ensures
        *old(cursor) + len > payload@.len() ==> r == Err::<&[u8], ProtocolError>(
            ProtocolError::InvalidLength,
        ) && *final(cursor) == *old(cursor),
        *old(cursor) + len <= payload@.len() ==> (r matches Ok(b) && b@ == payload@.subrange(
            *old(cursor) as int,
            *old(cursor) + len,
        )) && *final(cursor) == *old(cursor) + len,
{
    let plen = payload.len();
    let end = match cursor.checked_add(len) {
        Some(e) => e,
        None => return Err(ProtocolError::InvalidLength),
    };
    if end > plen {
        return Err(ProtocolError::InvalidLength);
    }
    let bytes = vstd::slice::slice_subrange(payload, *cursor, end);
    *cursor = end;
    Ok(bytes)
}

/// `after` is `before` with the decoded fields `f` applied: its view is
/// [`apply_delta`]; each string that `f` does not select is untouched, and
/// each one it selects was written over the start of its buffer.
pub open spec fn delta_applied(before: UiState, after: UiState, f: DeltaFields) -> bool {
    let m = f.mask;
    &&& after@ == apply_delta(before@, f)
    &&& !selects(m, 2) ==> after.title == before.title
    &&& !selects(m, 4) ==> after.artist == before.artist
    &&& !selects(m, 8) ==> after.album == before.album
    &&& !selects(m, 16) ==> after.app_name == before.app_name
    &&& selects(m, 2) ==> after.title.raw_buf() == write_at(before.title.raw_buf(), 0, after.title@)
    &&& selects(m, 4) ==> after.artist.raw_buf() == write_at(before.artist.raw_buf(), 0, after.artist@)
    &&& selects(m, 8) ==> after.album.raw_buf() == write_at(before.album.raw_buf(), 0, after.album@)
    &&& selects(m, 16) ==> after.app_name.raw_buf() == write_at(
        before.app_name.raw_buf(),
        0,
        after.app_name@,
    )
}

/// Decodes a `StateDelta` into `out` and returns its field mask. Decoding is
/// atomic: on any error `out` is left exactly as it was.
pub fn decode_state_delta(payload: &[u8], out: &mut UiState) -> (r: Result<u16, ProtocolError>)
    ensures
        r is Ok <==> delta_decode(payload@) is Ok,
        r matches Err(e) ==> delta_decode(payload@) == Err::<DeltaFields, ProtocolError>(e)
            && *final(out) == *old(out),
        r matches Ok(m) ==> {
            let f = delta_decode(payload@)->Ok_0;
            &&& m == f.mask
            &&& delta_applied(*old(out), *final(out), f)
        },
{
    if payload.len() < STATE_DELTA_FIXED_LEN {
        return Err(ProtocolError::InvalidLength);
    }
    let ghost p = payload@;
    let mut next = *out;
    let field_mask = read16(payload, 0);
    if field_mask & RESERVED_STATE_FIELDS != 0 {
        return Err(ProtocolError::InvalidFieldMask);
    }
    if payload[27] != 0 {
        return Err(ProtocolError::ReservedNonZero);
    }
    if field_mask & FIELD_TRACK_ID != 0 {
        next.track_id = read32(payload, 2);
    }
    if field_mask & FIELD_POSITION != 0 {
        next.position_ms = read64(payload, 6);
    }
    if field_mask & FIELD_DURATION != 0 {
        next.duration_ms = read64(payload, 14);
    }
    if field_mask & FIELD_PLAYING != 0 {
        next.playing = match payload[22] {
            0 => false,
            1 => true,
            _ => return Err(ProtocolError::InvalidLength),
        };
    }
    if field_mask & FIELD_ARTWORK_ID != 0 {
        next.artwork_id = read32(payload, 28);
    }
    let title_len = payload[23] as usize;
    let artist_len = payload[24] as usize;
    let album_len = payload[25] as usize;
    let app_name_len = payload[26] as usize;
    let mut cursor = STATE_DELTA_FIXED_LEN;
    if field_mask & FIELD_TITLE != 0 {
        let bytes = take_bytes(payload, &mut cursor, title_len)?;
        match next.title.set(bytes) {
            Ok(()) => {},
            Err(e) => return Err(map_hstr_error(e)),
        }
    }
    assert(cursor == 32 + sel_len(p, field_mask, 2, 23));
    if field_mask & FIELD_ARTIST != 0 {
        let bytes = take_bytes(payload, &mut cursor, artist_len)?;
        match next.artist.set(bytes) {
            Ok(()) => {},
            Err(e) => return Err(map_hstr_error(e)),
        }
    }
    if field_mask & FIELD_ALBUM != 0 {
        let bytes = take_bytes(payload, &mut cursor, album_len)?;
        match next.album.set(bytes) {
            Ok(()) => {},
            Err(e) => return Err(map_hstr_error(e)),
        }
    }
    if field_mask & FIELD_APP_NAME != 0 {
        let bytes = take_bytes(payload, &mut cursor, app_name_len)?;
        match next.app_name.set(bytes) {
            Ok(()) => {},
            Err(e) => return Err(map_hstr_error(e)),
        }
    }
    *out = next;
    Ok(field_mask)
}

/// Copies `bytes` to `out[*cursor..]`, advancing the cursor past them.
fn write_bytes(out: &mut [u8], cursor: &mut usize, bytes: &[u8]) -> (r: Result<(), ProtocolError>)
    ensures
        *old(cursor) + bytes@.len() > old(out)@.len() ==> r == Err::<(), ProtocolError>(
            ProtocolError::InvalidLength,
        ) && final(out)@ == old(out)@ && *final(cursor) == *old(cursor),
        *old(cursor) + bytes@.len() <= old(out)@.len() ==> r is Ok && final(out)@ == write_at(
            old(out)@,
            *old(cursor) as int,
            bytes@,
        ) && *final(cursor) == *old(cursor) + bytes@.len(),
{
    let olen = out.len();
    let end = match cursor.checked_add(bytes.len()) {
        Some(e) => e,
        None => return Err(ProtocolError::InvalidLength),
    };
    if end > olen {
        return Err(ProtocolError::InvalidLength);
    }
    copy_into(out, *cursor, bytes);
    *cursor = end;
    Ok(())
}

/// Writing `b` right after `a` writes `a + b`.
proof fn lemma_write_at_append(s: Seq<u8>, off: int, a: Seq<u8>, b: Seq<u8>)
    requires
        0 <= off,
        off + a.len() + b.len() <= s.len(),
    ensures
        write_at(write_at(s, off, a), off + a.len(), b) == write_at(s, off, a + b),
{
    assert(write_at(write_at(s, off, a), off + a.len(), b) =~= write_at(s, off, a + b));
}

/// The fixed section for the fields of `state` that `field_mask` selects.
#[verifier::rlimit(50)]
fn encode_fixed(state: &UiState, field_mask: u16) -> (f: [u8; 32])
    ensures
        f@ == delta_fixed(state@, field_mask),
{
    let title_len = state.title.len();
    let artist_len = state.artist.len();
    let album_len = state.album.len();
    let app_name_len = state.app_name.len();
    let mut f = [0u8; 32];
    let ghost z = f@;
    assert(z =~= zeros(32));
    put16(&mut f, 0, field_mask);
    if field_mask & FIELD_TRACK_ID != 0 {
        put32(&mut f, 2, state.track_id);
    }
    if field_mask & FIELD_POSITION != 0 {
        put64(&mut f, 6, state.position_ms);
    }
    if field_mask & FIELD_DURATION != 0 {
        put64(&mut f, 14, state.duration_ms);
    }
    if field_mask & FIELD_PLAYING != 0 {
        f[22] = if state.playing {
            1
        } else {
            0
        };
    }
    if field_mask & FIELD_TITLE != 0 {
        f[23] = title_len as u8;
    }
    if field_mask & FIELD_ARTIST != 0 {
        f[24] = artist_len as u8;
    }
    if field_mask & FIELD_ALBUM != 0 {
        f[25] = album_len as u8;
    }
    if field_mask & FIELD_APP_NAME != 0 {
        f[26] = app_name_len as u8;
    }
    if field_mask & FIELD_ARTWORK_ID != 0 {
        put32(&mut f, 28, state.artwork_id);
    }
    assert(f@ =~= delta_fixed(state@, field_mask));
    f
}

/// Writes the string of a field when it is selected, extending what has been
/// written so far (`done`, at `o[off..]`).
fn write_field(
    out: &mut [u8],
    cursor: &mut usize,
    selected: bool,
    bytes: &[u8],
    Ghost(o): Ghost<Seq<u8>>,
    Ghost(off): Ghost<int>,
    Ghost(done): Ghost<Seq<u8>>,
) -> (r: Result<(), ProtocolError>)
    requires
        0 <= off,
        old(out)@ == write_at(o, off, done),
        *old(cursor) == off + done.len(),
        off + done.len() <= o.len(),
    ensures
        ({
            let w = if selected {
                bytes@
            } else {
                Seq::<u8>::empty()
            };
            &&& off + (done + w).len() > o.len() ==> r == Err::<(), ProtocolError>(
                ProtocolError::InvalidLength,
            ) && final(out)@ == old(out)@
            &&& off + (done + w).len() <= o.len() ==> r is Ok && final(out)@ == write_at(
                o,
                off,
                done + w,
            ) && *final(cursor) == off + (done + w).len()
        }),
        final(out)@.len() == old(out)@.len(),
{
    if selected {
        write_bytes(out, cursor, bytes)?;
        proof {
            lemma_write_at_append(o, off, done, bytes@);
        }
    } else {
        assert(done + Seq::<u8>::empty() =~= done);
    }
    Ok(())
}

/// Encodes the fields of `state` that `field_mask` selects as a `StateDelta`
/// payload at the start of `out`, and returns its length. Reserved mask bits
/// are reported first, then a buffer too short for the fixed section, then
/// one too short for the strings.
pub fn encode_state_delta(state: &UiState, field_mask: u16, out: &mut [u8]) -> (r: Result<
    usize,
    ProtocolError,
>)
    ensures
        field_mask & 0xFE00u16 != 0 ==> r == Err::<usize, ProtocolError>(
            ProtocolError::InvalidFieldMask,
        ) && final(out)@ == old(out)@,
        field_mask & 0xFE00u16 == 0 && old(out)@.len() < 32 ==> r == Err::<usize, ProtocolError>(
            ProtocolError::InvalidLength,
        ) && final(out)@ == old(out)@,
        field_mask & 0xFE00u16 == 0 && old(out)@.len() >= 32 && delta_bytes(state@, field_mask).len()
            > old(out)@.len() ==> r == Err::<usize, ProtocolError>(ProtocolError::InvalidLength)
            && final(out)@ == write_at(
            old(out)@,
            0,
            delta_written(state@, field_mask, old(out)@.len() as int),
        ),
        field_mask & 0xFE00u16 == 0 && delta_bytes(state@, field_mask).len() <= old(out)@.len()
            ==> r == Ok::<usize, ProtocolError>(delta_bytes(state@, field_mask).len() as usize)
            && final(out)@ == write_at(old(out)@, 0, delta_bytes(state@, field_mask)),
        final(out)@.len() == old(out)@.len(),
{
    encode_state_delta_at(state, field_mask, out, 0)
}

/// Encodes the payload at `out[off..]`, as [`encode_state_delta`] does at the
/// start of a buffer.
pub(crate) fn encode_state_delta_at(state: &UiState, field_mask: u16, out: &mut [u8], off: usize) -> (r:
    Result<usize, ProtocolError>)
    requires
        off <= old(out)@.len(),
    ensures
        field_mask & 0xFE00u16 != 0 ==> r == Err::<usize, ProtocolError>(
            ProtocolError::InvalidFieldMask,
        ) && final(out)@ == old(out)@,
        field_mask & 0xFE00u16 == 0 && old(out)@.len() - off < 32 ==> r == Err::<
            usize,
            ProtocolError,
        >(ProtocolError::InvalidLength) && final(out)@ == old(out)@,
        field_mask & 0xFE00u16 == 0 && old(out)@.len() - off >= 32 && delta_bytes(
            state@,
            field_mask,
        ).len() > old(out)@.len() - off ==> r == Err::<usize, ProtocolError>(
            ProtocolError::InvalidLength,
        ) && final(out)@ == write_at(
            old(out)@,
            off as int,
            delta_written(state@, field_mask, old(out)@.len() - off),
        ),
        field_mask & 0xFE00u16 == 0 && delta_bytes(state@, field_mask).len() <= old(out)@.len() - off
            ==> r == Ok::<usize, ProtocolError>(delta_bytes(state@, field_mask).len() as usize)
            && final(out)@ == write_at(old(out)@, off as int, delta_bytes(state@, field_mask)),
        final(out)@.len() == old(out)@.len(),
{
    if field_mask & RESERVED_STATE_FIELDS != 0 {
        return Err(ProtocolError::InvalidFieldMask);
    }
    if out.len() - off < STATE_DELTA_FIXED_LEN {
        return Err(ProtocolError::InvalidLength);
    }
    let ghost o = out@;
    let ghost m = state@;
    let title = state.title.as_bytes();
    let artist = state.artist.as_bytes();
    let album = state.album.as_bytes();
    let app_name = state.app_name.as_bytes();
    let fixed_bytes = encode_fixed(state, field_mask);
    copy_into(out, off, fixed_bytes.as_slice());
    let ghost fixed = delta_fixed(m, field_mask);
    let mut cursor = off + STATE_DELTA_FIXED_LEN;
    let ghost t = sel(field_mask, 2, m.title);
    let ghost a = sel(field_mask, 4, m.artist);
    let ghost b = sel(field_mask, 8, m.album);
    let ghost n = sel(field_mask, 16, m.app_name);
    proof {
        assert(fixed + t + a + b + n =~= delta_bytes(m, field_mask));
    }
    write_field(out, &mut cursor, field_mask & FIELD_TITLE != 0, title, Ghost(o), Ghost(off as int), Ghost(fixed))?;
    write_field(out, &mut cursor, field_mask & FIELD_ARTIST != 0, artist, Ghost(o), Ghost(off as int), Ghost(fixed + t))?;
    write_field(out, &mut cursor, field_mask & FIELD_ALBUM != 0, album, Ghost(o), Ghost(off as int), Ghost(fixed + t + a))?;
    write_field(out, &mut cursor, field_mask & FIELD_APP_NAME != 0, app_name, Ghost(o), Ghost(off as int), Ghost(fixed + t + a + b))?;
    Ok(cursor - off)
}

/// The state with the fields that `mask` selects taken from `new`, and the
/// others from `base`.
pub open spec fn merge(base: UiModel, new: UiModel, mask: u16) -> UiModel {
    UiModel {
        track_id: if selects(mask, 1) {
            new.track_id
        } else {
            base.track_id
        },
        title: if selects(mask, 2) {
            new.title
        } else {
            base.title
        },
        artist: if selects(mask, 4) {
            new.artist
        } else {
            base.artist
        },
        album: if selects(mask, 8) {
            new.album
        } else {
            base.album
        },
        app_name: if selects(mask, 16) {
            new.app_name
        } else {
            base.app_name
        },
        position_ms: if selects(mask, 32) {
            new.position_ms
        } else {
            base.position_ms
        },
        duration_ms: if selects(mask, 64) {
            new.duration_ms
        } else {
            base.duration_ms
        },
        playing: if selects(mask, 128) {
            new.playing
        } else {
            base.playing
        },
        artwork_id: if selects(mask, 256) {
            new.artwork_id
        } else {
            base.artwork_id
        },
    }
}

/// The strings of a state are what a `StateDelta` can carry: valid UTF-8 of
/// at most 64 bytes each.
pub open spec fn strings_fit(s: UiModel) -> bool {
    &&& valid_utf8(s.title) && s.title.len() <= 64
    &&& valid_utf8(s.artist) && s.artist.len() <= 64
    &&& valid_utf8(s.album) && s.album.len() <= 64
    &&& valid_utf8(s.app_name) && s.app_name.len() <= 64
}

/// The fixed section of an encoded delta reads back as the selected fields.
proof fn lemma_delta_fixed_reads(s: UiModel, mask: u16, p: Seq<u8>)
    requires
        p.len() >= 32,
        forall|i: int| 0 <= i < 32 ==> p[i] == #[trigger] fixed_byte(s, mask, i),
        strings_fit(s),
    ensures
        get16(p, 0) == mask,
        p[27] == 0,
        p[22] <= 1,
        p[22] == 1 <==> selects(mask, 128) && s.playing,
        selects(mask, 1) ==> get32(p, 2) == s.track_id,
        selects(mask, 32) ==> get64(p, 6) == s.position_ms,
        selects(mask, 64) ==> get64(p, 14) == s.duration_ms,
        selects(mask, 256) ==> get32(p, 28) == s.artwork_id,
        sel_len(p, mask, 2, 23) == sel(mask, 2, s.title).len(),
        sel_len(p, mask, 4, 24) == sel(mask, 4, s.artist).len(),
        sel_len(p, mask, 8, 25) == sel(mask, 8, s.album).len(),
        sel_len(p, mask, 16, 26) == sel(mask, 16, s.app_name).len(),
{
    assert(p[0] == fixed_byte(s, mask, 0));
    assert(p[1] == fixed_byte(s, mask, 1));
    lemma_get16_le16(p, 0, mask);
    assert(p[22] == fixed_byte(s, mask, 22));
    assert(p[23] == fixed_byte(s, mask, 23));
    assert(p[24] == fixed_byte(s, mask, 24));
    assert(p[25] == fixed_byte(s, mask, 25));
    assert(p[26] == fixed_byte(s, mask, 26));
    assert(p[27] == fixed_byte(s, mask, 27));
    if selects(mask, 1) {
        assert(p[2] == fixed_byte(s, mask, 2));
        assert(p[3] == fixed_byte(s, mask, 3));
        assert(p[4] == fixed_byte(s, mask, 4));
        assert(p[5] == fixed_byte(s, mask, 5));
        lemma_get32_le32(p, 2, s.track_id);
    }
    if selects(mask, 32) {
        assert(p[6] == fixed_byte(s, mask, 6));
        assert(p[7] == fixed_byte(s, mask, 7));
        assert(p[8] == fixed_byte(s, mask, 8));
        assert(p[9] == fixed_byte(s, mask, 9));
        assert(p[10] == fixed_byte(s, mask, 10));
        assert(p[11] == fixed_byte(s, mask, 11));
        assert(p[12] == fixed_byte(s, mask, 12));
        assert(p[13] == fixed_byte(s, mask, 13));
        lemma_get64_le64(p, 6, s.position_ms);
    }
    if selects(mask, 64) {
        assert(p[14] == fixed_byte(s, mask, 14));
        assert(p[15] == fixed_byte(s, mask, 15));
        assert(p[16] == fixed_byte(s, mask, 16));
        assert(p[17] == fixed_byte(s, mask, 17));
        assert(p[18] == fixed_byte(s, mask, 18));
        assert(p[19] == fixed_byte(s, mask, 19));
        assert(p[20] == fixed_byte(s, mask, 20));
        assert(p[21] == fixed_byte(s, mask, 21));
        lemma_get64_le64(p, 14, s.duration_ms);
    }
    if selects(mask, 256) {
        assert(p[28] == fixed_byte(s, mask, 28));
        assert(p[29] == fixed_byte(s, mask, 29));
        assert(p[30] == fixed_byte(s, mask, 30));
        assert(p[31] == fixed_byte(s, mask, 31));
        lemma_get32_le32(p, 28, s.artwork_id);
    }
}

/// The string section of an encoded delta reads back as the selected strings.
proof fn lemma_delta_strings_read(s: UiModel, mask: u16, p: Seq<u8>)
    requires
        p == delta_bytes(s, mask),
        strings_fit(s),
        sel_len(p, mask, 2, 23) == sel(mask, 2, s.title).len(),
        sel_len(p, mask, 4, 24) == sel(mask, 4, s.artist).len(),
        sel_len(p, mask, 8, 25) == sel(mask, 8, s.album).len(),
        sel_len(p, mask, 16, 26) == sel(mask, 16, s.app_name).len(),
    ensures
        ({
            let c1 = 32 + sel_len(p, mask, 2, 23);
            let c2 = c1 + sel_len(p, mask, 4, 24);
            let c3 = c2 + sel_len(p, mask, 8, 25);
            &&& take_sel(p, mask, 2, 32, 23) == Ok::<Seq<u8>, ProtocolError>(sel(mask, 2, s.title))
            &&& take_sel(p, mask, 4, c1, 24) == Ok::<Seq<u8>, ProtocolError>(sel(mask, 4, s.artist))
            &&& take_sel(p, mask, 8, c2, 25) == Ok::<Seq<u8>, ProtocolError>(sel(mask, 8, s.album))
            &&& take_sel(p, mask, 16, c3, 26) == Ok::<Seq<u8>, ProtocolError>(
                sel(mask, 16, s.app_name),
            )
        }),
{
    let fx = delta_fixed(s, mask);
    let t = sel(mask, 2, s.title);
    let a = sel(mask, 4, s.artist);
    let b = sel(mask, 8, s.album);
    let n = sel(mask, 16, s.app_name);
    assert(p =~= fx + t + a + b + n);
    let c1 = 32 + t.len();
    let c2 = c1 + a.len();
    let c3 = c2 + b.len();
    assert(p.subrange(32, c1 as int) =~= t);
    assert(p.subrange(c1 as int, c2 as int) =~= a);
    assert(p.subrange(c2 as int, c3 as int) =~= b);
    assert(p.subrange(c3 as int, (c3 + n.len()) as int) =~= n);
}

/// Round trip of state deltas: decoding the payload that encodes the fields
/// of `s` selected by `mask` succeeds, reports `mask`, and applied to any
/// state `base` gives the fields that `mask` selects from `s` and the others
/// from `base`.
pub proof fn lemma_state_delta_roundtrip(s: UiModel, mask: u16, base: UiModel)
    requires
        mask & 0xFE00u16 == 0,
        strings_fit(s),
    ensures
        delta_decode(delta_bytes(s, mask)) is Ok,
        delta_decode(delta_bytes(s, mask))->Ok_0.mask == mask,
        apply_delta(base, delta_decode(delta_bytes(s, mask))->Ok_0) == merge(base, s, mask),
{
    let p = delta_bytes(s, mask);
    assert(forall|i: int| 0 <= i < 32 ==> p[i] == #[trigger] fixed_byte(s, mask, i)) by {
        assert forall|i: int| 0 <= i < 32 implies p[i] == #[trigger] fixed_byte(s, mask, i) by {
            assert(p[i] == delta_fixed(s, mask)[i]);
        }
    }
    lemma_delta_fixed_reads(s, mask, p);
    lemma_delta_strings_read(s, mask, p);
    assert(valid_utf8(Seq::<u8>::empty()));
}

} // verus!
