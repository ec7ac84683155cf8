//! Which fields of the media state to send when it changes.
use vstd::prelude::*;
use crate::payload::state::{
    apply_delta, delta_bytes, delta_decode, lemma_state_delta_roundtrip, merge, selects,
    strings_fit, FIELD_ALBUM, FIELD_APP_NAME, FIELD_ARTIST, FIELD_ARTWORK_ID, FIELD_DURATION,
    FIELD_PLAYING, FIELD_POSITION, FIELD_TITLE, FIELD_TRACK_ID,
};
use crate::state::UiState;

verus! {

/// `b` when `c` holds, else zero.
pub open spec fn bit(c: bool, b: u16) -> u16 {
    if c {
        b
    } else {
        0
    }
}

/// The field mask selecting exactly the fields whose flags are set.
pub open spec fn mask_of(
    track: bool,
    title: bool,
    artist: bool,
    album: bool,
    app: bool,
    pos: bool,
    dur: bool,
    play: bool,
    art: bool,
) -> u16 {
    bit(track, 1) | bit(title, 2) | bit(artist, 4) | bit(album, 8) | bit(app, 16) | bit(pos, 32)
        | bit(dur, 64) | bit(play, 128) | bit(art, 256)
}

/// Each bit of [`mask_of`] is its flag, and no reserved bit is set.
pub proof fn lemma_mask_of_bits(
    track: bool,
    title: bool,
    artist: bool,
    album: bool,
    app: bool,
    pos: bool,
    dur: bool,
    play: bool,
    art: bool,
)
    ensures
        ({
            let m = mask_of(track, title, artist, album, app, pos, dur, play, art);
            &&& selects(m, 1) == track
            &&& selects(m, 2) == title
            &&& selects(m, 4) == artist
            &&& selects(m, 8) == album
            &&& selects(m, 16) == app
            &&& selects(m, 32) == pos
            &&& selects(m, 64) == dur
            &&& selects(m, 128) == play
            &&& selects(m, 256) == art
            &&& m & 0xFE00u16 == 0
        }),
{
    let m = mask_of(track, title, artist, album, app, pos, dur, play, art);
    assert(m == bit(track, 1) | bit(title, 2) | bit(artist, 4) | bit(album, 8) | bit(app, 16) | bit(
        pos,
        32,
    ) | bit(dur, 64) | bit(play, 128) | bit(art, 256));
    assert({
        &&& (m & 1 != 0) == track
        &&& (m & 2 != 0) == title
        &&& (m & 4 != 0) == artist
        &&& (m & 8 != 0) == album
        &&& (m & 16 != 0) == app
        &&& (m & 32 != 0) == pos
        &&& (m & 64 != 0) == dur
        &&& (m & 128 != 0) == play
        &&& (m & 256 != 0) == art
        &&& m & 0xFE00u16 == 0
    }) by (bit_vector)
        requires
            m == (if track { 1u16 } else { 0u16 }) | (if title { 2u16 } else { 0u16 }) | (if artist {
                4u16
            } else {
                0u16
            }) | (if album { 8u16 } else { 0u16 }) | (if app { 16u16 } else { 0u16 }) | (if pos {
                32u16
            } else {
                0u16
            }) | (if dur { 64u16 } else { 0u16 }) | (if play { 128u16 } else { 0u16 }) | (if art {
                256u16
            } else {
                0u16
            }),
    ;
}

/// Whether two state strings differ: in content, or anywhere in their
/// buffers.
pub open spec fn str_differs(a: crate::hstr::HString, b: crate::hstr::HString) -> bool {
    !(a@ == b@ && a.raw_buf() == b.raw_buf())
}

/// The fields to send to move a receiver from `old` to `new`. On a new track
/// (the track id changed) all metadata is sent: track id, strings, duration
/// and artwork id; position and playing only when they changed. On the same
/// track, each field is sent when it changed.
pub open spec fn diff_mask(old: UiState, new: UiState) -> u16 {
    let tc = old.track_id != new.track_id;
    mask_of(
        tc,
        tc || str_differs(old.title, new.title),
        tc || str_differs(old.artist, new.artist),
        tc || str_differs(old.album, new.album),
        tc || str_differs(old.app_name, new.app_name),
        old.position_ms != new.position_ms,
        tc || old.duration_ms != new.duration_ms,
        old.playing != new.playing,
        tc || old.artwork_id != new.artwork_id,
    )
}

/// `b` when `c` holds, else zero.
fn bit_if(c: bool, b: u16) -> (r: u16)
    ensures
        r == bit(c, b),
{
    if c {
        b
    } else {
        0
    }
}

/// The field mask of the changes from `old` to `new` (see [`diff_mask`]).
pub fn diff_state(old: &UiState, new: &UiState) -> (mask: u16)
    ensures
        mask == diff_mask(*old, *new),
        mask & 0xFE00u16 == 0,
{
    // A new track forces a full metadata refresh; position and playing are
    // sent only when they changed.
    let tc = old.track_id != new.track_id;
    let title = tc || !old.title.same_as(&new.title);
    let artist = tc || !old.artist.same_as(&new.artist);
    let album = tc || !old.album.same_as(&new.album);
    let app = tc || !old.app_name.same_as(&new.app_name);
    let pos = old.position_ms != new.position_ms;
    let dur = tc || old.duration_ms != new.duration_ms;
    let play = old.playing != new.playing;
    let art = tc || old.artwork_id != new.artwork_id;
    let mask = bit_if(tc, FIELD_TRACK_ID) | bit_if(title, FIELD_TITLE) | bit_if(artist, FIELD_ARTIST)
        | bit_if(album, FIELD_ALBUM) | bit_if(app, FIELD_APP_NAME) | bit_if(pos, FIELD_POSITION)
        | bit_if(dur, FIELD_DURATION) | bit_if(play, FIELD_PLAYING) | bit_if(art, FIELD_ARTWORK_ID);
    proof {
        lemma_mask_of_bits(tc, title, artist, album, app, pos, dur, play, art);
    }
    mask
}

/// Every field that [`diff_mask`] leaves out is the same in both states, so
/// taking the selected fields from `new` and the rest from `old` gives `new`.
pub proof fn lemma_diff_merge(old: UiState, new: UiState)
    ensures
        merge(old@, new@, diff_mask(old, new)) == new@,
{
    let tc = old.track_id != new.track_id;
    lemma_mask_of_bits(
        tc,
        tc || str_differs(old.title, new.title),
        tc || str_differs(old.artist, new.artist),
        tc || str_differs(old.album, new.album),
        tc || str_differs(old.app_name, new.app_name),
        old.position_ms != new.position_ms,
        tc || old.duration_ms != new.duration_ms,
        old.playing != new.playing,
        tc || old.artwork_id != new.artwork_id,
    );
}

/// Synchronisation law: the state delta that carries the fields of
/// `diff_state(old, new)` from `new`, decoded onto `old`, gives `new`.
pub proof fn lemma_delta_sync(old: UiState, new: UiState)
    requires
        strings_fit(new@),
    ensures
        delta_decode(delta_bytes(new@, diff_mask(old, new))) is Ok,
        apply_delta(old@, delta_decode(delta_bytes(new@, diff_mask(old, new)))->Ok_0) == new@,
{
    lemma_diff_merge(old, new);
    let m = diff_mask(old, new);
    let tc = old.track_id != new.track_id;
    lemma_mask_of_bits(
        tc,
        tc || str_differs(old.title, new.title),
        tc || str_differs(old.artist, new.artist),
        tc || str_differs(old.album, new.album),
        tc || str_differs(old.app_name, new.app_name),
        old.position_ms != new.position_ms,
        tc || old.duration_ms != new.duration_ms,
        old.playing != new.playing,
        tc || old.artwork_id != new.artwork_id,
    );
    lemma_state_delta_roundtrip(new@, m, old@);
}

/// What the field mask of a state change selects, field by field. On a
/// new track (the track ids differ) the track id, the four strings, the
/// duration and the artwork id are always selected. Otherwise each of those
/// is selected exactly when it changed (a string when its text or its
/// buffer differs). The position and the playing flag are selected exactly
/// when they changed, on a new track too, and no reserved bit is ever set.
pub proof fn lemma_diff_selects_exactly_the_changes(old: UiState, new: UiState)
    ensures
        ({
            let d = diff_mask(old, new);
            let tc = old.track_id != new.track_id;
            &&& selects(d, 1) <==> tc
            &&& selects(d, 2) <==> tc || old.title@ != new.title@ || old.title.raw_buf()
                != new.title.raw_buf()
            &&& selects(d, 4) <==> tc || old.artist@ != new.artist@ || old.artist.raw_buf()
                != new.artist.raw_buf()
            &&& selects(d, 8) <==> tc || old.album@ != new.album@ || old.album.raw_buf()
                != new.album.raw_buf()
            &&& selects(d, 16) <==> tc || old.app_name@ != new.app_name@
                || old.app_name.raw_buf() != new.app_name.raw_buf()
            &&& selects(d, 32) <==> old.position_ms != new.position_ms
            &&& selects(d, 64) <==> tc || old.duration_ms != new.duration_ms
            &&& selects(d, 128) <==> old.playing != new.playing
            &&& selects(d, 256) <==> tc || old.artwork_id != new.artwork_id
            &&& d & 0xFE00u16 == 0
        }),
{
    let tc = old.track_id != new.track_id;
    lemma_mask_of_bits(
        tc,
        tc || str_differs(old.title, new.title),
        tc || str_differs(old.artist, new.artist),
        tc || str_differs(old.album, new.album),
        tc || str_differs(old.app_name, new.app_name),
        old.position_ms != new.position_ms,
        tc || old.duration_ms != new.duration_ms,
        old.playing != new.playing,
        tc || old.artwork_id != new.artwork_id,
    );
}

} // verus!
