//! The display side of the link: what the device does with each frame it
//! receives, and the numbers and texts it draws from its state. Drawing and
//! USB I/O belong to the device's firmware, which carries out the actions
//! decided here.
use vstd::prelude::*;
use crate::builder::{built, FrameBuilder};
use crate::hstr::str_from_utf8;
use crate::parser::ParsedFrame;
use crate::payload::artwork::ArtworkChunkPayload;
use crate::payload::state::{
    decode_state_delta, delta_applied, delta_decode, selects, FIELD_ARTIST, FIELD_ARTWORK_ID,
    FIELD_DURATION, FIELD_PLAYING, FIELD_POSITION, FIELD_TITLE,
};
use crate::le::get16;
use crate::state::{empty_model, UiState};
use crate::wire::MessageType;
use vstd::string::StringSliceAdditionalSpecFns;
use vstd::utf8::{valid_utf8, length_of_first_scalar, pop_first_scalar};

verus! {

/// Width in pixels of the progress bar.
pub const BAR_W: u32 = 200;

/// Data bytes of one cover row (160 RGB565 pixels).
pub const COVER_ROW_BYTES: usize = 320;

/// The ASCII digit of `d`, for `d < 10`.
pub open spec fn digit(d: int) -> u8 {
    (48 + d) as u8
}

/// `ms` as `MM:SS` of whole seconds, the minutes taken modulo 100.
pub open spec fn clock_text(ms: u64) -> Seq<u8> {
    let total = ms as int / 1000;
    let min = total / 60;
    let sec = total % 60;
    seq![digit((min / 10) % 10), digit(min % 10), 58u8, digit(sec / 10), digit(sec % 10)]
}

/// Bytes below 0x80 form valid UTF-8.
proof fn lemma_ascii_valid_utf8(s: Seq<u8>)
    requires
        forall|i: int| 0 <= i < s.len() ==> #[trigger] s[i] < 0x80,
    ensures
        valid_utf8(s),
    decreases s.len(),
{
    if s.len() > 0 {
        assert(length_of_first_scalar(s) == 1);
        let rest = pop_first_scalar(s);
        assert(rest =~= s.subrange(1, s.len() as int));
        assert forall|i: int| 0 <= i < rest.len() implies #[trigger] rest[i] < 0x80 by {
            assert(rest[i] == s[i + 1]);
        }
        lemma_ascii_valid_utf8(rest);
    }
}

/// Writes `ms` as `MM:SS` into the first five bytes of `out`, a NUL after
/// them, and returns the five bytes as text.
pub fn seconds_text(ms: u64, out: &mut [u8; 6]) -> (s: &str)
    ensures
        s.spec_bytes() == clock_text(ms),
        final(out)@ == clock_text(ms).push(0u8),
{
    let total = ms / 1000;
    let min = total / 60;
    let sec = total % 60;
    out[0] = 48u8 + ((min / 10) % 10) as u8;
    out[1] = 48u8 + (min % 10) as u8;
    out[2] = 58u8;
    out[3] = 48u8 + (sec / 10) as u8;
    out[4] = 48u8 + (sec % 10) as u8;
    out[5] = 0;
    let text = vstd::slice::slice_subrange(out.as_slice(), 0, 5);
    assert(text@ =~= clock_text(ms));
    assert(out@ =~= clock_text(ms).push(0u8));
    proof {
        lemma_ascii_valid_utf8(text@);
    }
    match str_from_utf8(text) {
        Some(s) => s,
        None => {
            let e = "";
            e
        },
    }
}

/// The filled width of the progress bar: `position * 200 / duration`, cut
/// to 32 bits and then to at most 200; zero when the duration is unknown.
pub open spec fn bar_width(position_ms: u64, duration_ms: u64) -> u32 {
    if duration_ms == 0 {
        0
    } else {
        let w = ((position_ms * 200) as int / duration_ms as int) as u32;
        if w < 200 {
            w
        } else {
            200
        }
    }
}

/// The filled width of the progress bar (see [`bar_width`]).
pub fn progress_width(position_ms: u64, duration_ms: u64) -> (w: u32)
    requires
        position_ms * 200 <= u64::MAX,
    ensures
        w == bar_width(position_ms, duration_ms),
{
    let progress = if duration_ms == 0 {
        0
    } else {
        ((position_ms * BAR_W as u64) / duration_ms) as u32
    };
    if progress < BAR_W {
        progress
    } else {
        BAR_W
    }
}

/// The areas of the screen to redraw after a state update.
#[derive(Debug, Clone, Copy, PartialEq, Eq, Structural)]
pub struct Redraw {
    pub cover: bool,
    pub text: bool,
    pub progress: bool,
    pub play: bool,
}

/// The areas that depend on the fields of `mask`: the cover on the artwork
/// id, the text on title and artist, the bar and times on position and
/// duration, the play button on the playing flag.
pub open spec fn redraw_spec(mask: u16) -> Redraw {
    Redraw {
        cover: mask & 256 != 0,
        text: mask & 6 != 0,
        progress: mask & 96 != 0,
        play: mask & 128 != 0,
    }
}

/// The areas to redraw for the fields of `mask`.
pub fn redraw_for(mask: u16) -> (r: Redraw)
    ensures
        r == redraw_spec(mask),
{
    assert(2u16 | 4u16 == 6u16) by (bit_vector);
    assert(32u16 | 64u16 == 96u16) by (bit_vector);
    Redraw {
        cover: mask & FIELD_ARTWORK_ID != 0,
        text: mask & (FIELD_TITLE | FIELD_ARTIST) != 0,
        progress: mask & (FIELD_POSITION | FIELD_DURATION) != 0,
        play: mask & FIELD_PLAYING != 0,
    }
}

/// What the device does after a frame.
#[derive(Debug, Clone, Copy, PartialEq, Eq)]
pub enum DisplayAction<'a> {
    /// Nothing.
    Ignore,
    /// Send the first `len` bytes of the transmit buffer.
    Reply { len: usize },
    /// The state changed: redraw these areas from it.
    Redraw(Redraw),
    /// Draw one row of the cover from these pixels.
    CoverRow { row: u16, pixels: &'a [u8] },
}

/// The device's state: what it shows and the sequence number of its next
/// frame.
#[derive(Debug, Clone, Copy)]
pub struct Device {
    pub ui: UiState,
    pub tx_seq: u16,
}

impl Device {
    /// A device showing the empty state, whose first frame will carry
    /// sequence number 1.
    pub fn new() -> (d: Device)
        ensures
            d.ui@ == empty_model(),
            d.ui.title.raw_buf() == Seq::new(64, |i: int| 0u8),
            d.ui.album.raw_buf() == Seq::new(64, |i: int| 0u8),
            d.ui.artist.raw_buf() == Seq::new(64, |i: int| 0u8),
            d.ui.app_name.raw_buf() == Seq::new(64, |i: int| 0u8),
            d.tx_seq == 1,
    {
        Device { ui: UiState::default(), tx_seq: 1 }
    }

    /// Handles one received frame. A `Ping` is answered by a `Pong` written
    /// into `tx`; a `StateDelta` that decodes updates the state; an
    /// `ArtworkChunk` that decodes and holds exactly one cover row is
    /// drawn. Everything else, and every frame that fails to decode, is
    /// ignored and changes nothing.
    pub fn on_frame<'a>(&mut self, frame: &ParsedFrame<'a>, tx: &mut [u8]) -> (a: DisplayAction<'a>)
        ensures
            frame.header.msg_type == MessageType::Ping ==> (if old(tx)@.len() >= 12 {
                &&& a == DisplayAction::Reply { len: 12 }
                &&& final(tx)@ == built(old(tx)@, MessageType::Pong, 0, old(self).tx_seq, Seq::empty())
                &&& final(self).tx_seq == (old(self).tx_seq + 1) % 65536
                &&& final(self).ui == old(self).ui
            } else {
                a == DisplayAction::Ignore && *final(self) == *old(self) && final(tx)@ == old(tx)@
            }),
            frame.header.msg_type == MessageType::StateDelta ==> (match delta_decode(
                frame.payload@,
            ) {
                Ok(f) => a == DisplayAction::Redraw(redraw_spec(f.mask)) && delta_applied(
                    old(self).ui,
                    final(self).ui,
                    f,
                ) && final(self).tx_seq == old(self).tx_seq,
                Err(_) => a == DisplayAction::Ignore && *final(self) == *old(self),
            }) && final(tx)@ == old(tx)@,
            frame.header.msg_type == MessageType::ArtworkChunk ==> ({
                let p = frame.payload@;
                let ok = p.len() >= 8 && get16(p, 6) % 2 == 0 && p.len() == 8 + get16(p, 6);
                &&& ok && get16(p, 6) == 320 ==> (a matches DisplayAction::CoverRow { row, pixels }
                    && row == get16(p, 4) && pixels@ == p.subrange(8, p.len() as int))
                &&& !(ok && get16(p, 6) == 320) ==> a == DisplayAction::Ignore
                &&& *final(self) == *old(self)
                &&& final(tx)@ == old(tx)@
            }),
            frame.header.msg_type != MessageType::Ping && frame.header.msg_type
                != MessageType::StateDelta && frame.header.msg_type != MessageType::ArtworkChunk
                ==> a == DisplayAction::Ignore && *final(self) == *old(self) && final(tx)@ == old(
                tx,
            )@,
    {
        match frame.header.msg_type {
            MessageType::Ping => {
                match FrameBuilder::pong(tx, self.tx_seq) {
                    Ok(len) => {
                        self.tx_seq = self.tx_seq.wrapping_add(1);
                        DisplayAction::Reply { len }
                    },
                    Err(_) => DisplayAction::Ignore,
                }
            },
            MessageType::StateDelta => {
                match decode_state_delta(frame.payload, &mut self.ui) {
                    Ok(mask) => DisplayAction::Redraw(redraw_for(mask)),
                    Err(_) => DisplayAction::Ignore,
                }
            },
            MessageType::ArtworkChunk => {
                match ArtworkChunkPayload::decode(frame.payload) {
                    Ok(chunk) => {
                        if chunk.data.len() == COVER_ROW_BYTES {
                            DisplayAction::CoverRow { row: chunk.chunk_index, pixels: chunk.data }
                        } else {
                            DisplayAction::Ignore
                        }
                    },
                    Err(_) => DisplayAction::Ignore,
                }
            },
            _ => DisplayAction::Ignore,
        }
    }
}

/// Every area of the screen that shows a field is redrawn exactly when that
/// field is in the mask: the cover for the artwork id, the text for the
/// title or the artist, the progress bar and times for the position or the
/// duration, the play button for the playing flag.
pub proof fn lemma_redraw_follows_fields(mask: u16)
    ensures
        redraw_spec(mask).cover <==> selects(mask, 256),
        redraw_spec(mask).text <==> selects(mask, 2) || selects(mask, 4),
        redraw_spec(mask).progress <==> selects(mask, 32) || selects(mask, 64),
        redraw_spec(mask).play <==> selects(mask, 128),
{
    assert((mask & 6u16 != 0) <==> (mask & 2u16 != 0 || mask & 4u16 != 0)) by (bit_vector);
    assert((mask & 96u16 != 0) <==> (mask & 32u16 != 0 || mask & 64u16 != 0)) by (bit_vector);
}

/// A `StateDelta` that the device decodes makes it redraw every area whose
/// field the delta carries, and only those.
pub proof fn lemma_device_redraws_what_changed(payload: Seq<u8>)
    requires
        delta_decode(payload) is Ok,
    ensures
        ({
            let m = delta_decode(payload)->Ok_0.mask;
            let r = redraw_spec(m);
            &&& r.cover <==> selects(m, 256)
            &&& r.text <==> selects(m, 2) || selects(m, 4)
            &&& r.progress <==> selects(m, 32) || selects(m, 64)
            &&& r.play <==> selects(m, 128)
        }),
{
    lemma_redraw_follows_fields(delta_decode(payload)->Ok_0.mask);
}

} // verus!
