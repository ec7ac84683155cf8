//! The media state shown on the display: track metadata, progress and the
//! artwork identifier.
use vstd::prelude::*;
use crate::hash::{track_id_from_parts, track_id_spec};
use crate::hstr::HString;

verus! {

/// The media state.
#[derive(Debug, Clone, Copy, PartialEq, Eq)]
pub struct UiState {
    pub track_id: u32,
    pub title: HString,
    pub album: HString,
    pub artist: HString,
    pub app_name: HString,
    pub position_ms: u64,
    pub duration_ms: u64,
    pub playing: bool,
    pub artwork_id: u32,
}

/// The media state as plain values, each string by its bytes.
pub struct UiModel {
    pub track_id: u32,
    pub title: Seq<u8>,
    pub album: Seq<u8>,
    pub artist: Seq<u8>,
    pub app_name: Seq<u8>,
    pub position_ms: u64,
    pub duration_ms: u64,
    pub playing: bool,
    pub artwork_id: u32,
}

impl View for UiState {
    type V = UiModel;

    open spec fn view(&self) -> UiModel {
        UiModel {
            track_id: self.track_id,
            title: self.title@,
            album: self.album@,
            artist: self.artist@,
            app_name: self.app_name@,
            position_ms: self.position_ms,
            duration_ms: self.duration_ms,
            playing: self.playing,
            artwork_id: self.artwork_id,
        }
    }
}

/// The state before anything is known: zero numbers, empty strings, paused.
pub open spec fn empty_model() -> UiModel {
    UiModel {
        track_id: 0,
        title: Seq::empty(),
        album: Seq::empty(),
        artist: Seq::empty(),
        app_name: Seq::empty(),
        position_ms: 0,
        duration_ms: 0,
        playing: false,
        artwork_id: 0,
    }
}

impl UiState {
    /// The empty state.
    pub fn new() -> (s: UiState)
        ensures
            s@ == empty_model(),
            s.title.raw_buf() == Seq::new(64, |i: int| 0u8),
            s.album.raw_buf() == Seq::new(64, |i: int| 0u8),
            s.artist.raw_buf() == Seq::new(64, |i: int| 0u8),
            s.app_name.raw_buf() == Seq::new(64, |i: int| 0u8),
    {
        UiState {
            track_id: 0,
            title: HString::new(),
            album: HString::new(),
            artist: HString::new(),
            app_name: HString::new(),
            position_ms: 0,
            duration_ms: 0,
            playing: false,
            artwork_id: 0,
        }
    }

    /// Sets the track identifier from the title, artist, album and duration;
    /// nothing else changes.
    pub fn recompute_track_id(&mut self)
        ensures
            final(self).track_id == track_id_spec(
                old(self).title@,
                old(self).artist@,
                old(self).album@,
                old(self).duration_ms,
            ),
            *final(self) == (UiState { track_id: final(self).track_id, ..*old(self) }),
    {
        let id = track_id_from_parts(
            self.title.as_str(),
            self.artist.as_str(),
            self.album.as_str(),
            self.duration_ms,
        );
        self.track_id = id;
    }
}

impl Default for UiState {
    fn default() -> (s: UiState)
        ensures
            s@ == empty_model(),
            s.title.raw_buf() == Seq::new(64, |i: int| 0u8),
            s.album.raw_buf() == Seq::new(64, |i: int| 0u8),
            s.artist.raw_buf() == Seq::new(64, |i: int| 0u8),
            s.app_name.raw_buf() == Seq::new(64, |i: int| 0u8),
    {
        UiState::new()
    }
}

} // verus!
