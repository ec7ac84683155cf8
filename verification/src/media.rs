//! The now-playing metadata that the host reads from the system's media
//! service, as plain values: the service's status codes, its C strings, and
//! the song fields of a playback snapshot.
use vstd::prelude::*;
use crate::hstr::{longest_valid_prefix, min, str_from_utf8, HString};
use vstd::utf8::valid_utf8;
use vstd::string::StringSliceAdditionalSpecFns;

verus! {

/// Failures reported by the media service.
#[derive(Debug, Clone, Copy, PartialEq, Eq, Structural)]
pub enum HueError {
    NullOutput,
    AppleScriptFailed,
    ParseFailed,
    ArtworkFailed,
    MediaRemoteLoadFailed,
    MediaRemoteCommandMissing,
    Unknown(i32),
}

/// The error that a non-zero status code stands for.
pub open spec fn error_of_code(code: i32) -> HueError {
    if code == -1 {
        HueError::MediaRemoteLoadFailed
    } else if code == -2 {
        HueError::MediaRemoteCommandMissing
    } else if code == -10 {
        HueError::NullOutput
    } else if code == -20 {
        HueError::AppleScriptFailed
    } else if code == -21 {
        HueError::ParseFailed
    } else if code == -22 {
        HueError::ArtworkFailed
    } else {
        HueError::Unknown(code)
    }
}

/// The description of a [`HueError`], without the code of `Unknown`.
pub open spec fn error_text(e: HueError) -> Seq<char> {
    match e {
        HueError::NullOutput => "received null output pointer"@,
        HueError::AppleScriptFailed => "AppleScript execution failed"@,
        HueError::ParseFailed => "failed to parse playback information"@,
        HueError::ArtworkFailed => "failed to retrieve artwork"@,
        HueError::MediaRemoteLoadFailed => "failed to load MediaRemote framework"@,
        HueError::MediaRemoteCommandMissing => "MediaRemote command symbol missing"@,
        HueError::Unknown(_) => "unknown hue-mediaremote error"@,
    }
}

impl HueError {
    /// The error for a status code of the media service.
    pub fn from_code(code: i32) -> (e: HueError)
        ensures
            e == error_of_code(code),
    {
        match code {
            -1 => HueError::MediaRemoteLoadFailed,
            -2 => HueError::MediaRemoteCommandMissing,
            -10 => HueError::NullOutput,
            -20 => HueError::AppleScriptFailed,
            -21 => HueError::ParseFailed,
            -22 => HueError::ArtworkFailed,
            other => HueError::Unknown(other),
        }
    }

    /// A description of the error; for `Unknown` the code is not included.
    pub fn message(self) -> (m: &'static str)
        ensures
            m@ == error_text(self),
    {
        match self {
            HueError::NullOutput => "received null output pointer",
            HueError::AppleScriptFailed => "AppleScript execution failed",
            HueError::ParseFailed => "failed to parse playback information",
            HueError::ArtworkFailed => "failed to retrieve artwork",
            HueError::MediaRemoteLoadFailed => "failed to load MediaRemote framework",
            HueError::MediaRemoteCommandMissing => "MediaRemote command symbol missing",
            HueError::Unknown(_) => "unknown hue-mediaremote error",
        }
    }
}

/// A status code of the media service as a result: zero is success.
pub fn check(code: i32) -> (r: Result<(), HueError>)
    ensures
        code == 0 ==> r is Ok,
        code != 0 ==> r == Err::<(), HueError>(error_of_code(code)),
{
    if code == 0 {
        Ok(())
    } else {
        Err(HueError::from_code(code))
    }
}

/// The text of a C string's bytes (without the terminating NUL): the bytes
/// themselves when they are valid UTF-8, the empty string otherwise.
pub fn text_or_empty(bytes: &[u8]) -> (s: &str)
    ensures
        valid_utf8(bytes@) ==> s.spec_bytes() == bytes@,
        !valid_utf8(bytes@) ==> s.spec_bytes() == Seq::<u8>::empty(),
{
    match str_from_utf8(bytes) {
        Some(s) => s,
        None => {
            let e = "";
            proof {
                reveal_strlit("");
            }
            e
        },
    }
}

/// The song fields of a playback snapshot, each cut to fit a [`HString`].
#[derive(Debug, Clone, Copy)]
pub struct SongSnapshot {
    pub title: HString,
    pub artist: HString,
    pub album: HString,
    pub app_name: HString,
}

/// `s` holds the longest valid UTF-8 prefix of `text` that fits a
/// [`HString`].
pub open spec fn fitted(s: Seq<u8>, text: Seq<u8>) -> bool {
    &&& longest_valid_prefix(text.subrange(0, min(text.len() as int, HString::limit())), s.len() as int)
    &&& s == text.subrange(0, s.len() as int)
}

impl SongSnapshot {
    /// A snapshot of the four texts, each cut to fit.
    pub fn from_texts(title: &str, artist: &str, album: &str, app_name: &str) -> (s: SongSnapshot)
        ensures
            fitted(s.title@, title.spec_bytes()),
            fitted(s.artist@, artist.spec_bytes()),
            fitted(s.album@, album.spec_bytes()),
            fitted(s.app_name@, app_name.spec_bytes()),
            s.title.raw_buf() == HString::fresh_buf(s.title@),
            s.artist.raw_buf() == HString::fresh_buf(s.artist@),
            s.album.raw_buf() == HString::fresh_buf(s.album@),
            s.app_name.raw_buf() == HString::fresh_buf(s.app_name@),
    {
        SongSnapshot {
            title: HString::from_str(title),
            artist: HString::from_str(artist),
            album: HString::from_str(album),
            app_name: HString::from_str(app_name),
        }
    }
}

/// The song of the current playback.
pub struct SongInfo {
    title: String,
    artist: String,
    album: String,
    app_name: String,
}

impl SongInfo {
    /// The song with these texts.
    pub fn new(title: String, artist: String, album: String, app_name: String) -> (s: SongInfo)
        ensures
            s.title_spec() == title@,
            s.artist_spec() == artist@,
            s.album_spec() == album@,
            s.app_name_spec() == app_name@,
    {
        SongInfo { title, artist, album, app_name }
    }

    /// The title's characters.
    pub closed spec fn title_spec(&self) -> Seq<char> {
        self.title@
    }

    /// The artist's characters.
    pub closed spec fn artist_spec(&self) -> Seq<char> {
        self.artist@
    }

    /// The album's characters.
    pub closed spec fn album_spec(&self) -> Seq<char> {
        self.album@
    }

    /// The player application's characters.
    pub closed spec fn app_name_spec(&self) -> Seq<char> {
        self.app_name@
    }

    /// The title.
    pub fn title(&self) -> (s: &str)
        ensures
            s@ == self.title_spec(),
    {
        self.title.as_str()
    }

    /// The artist.
    pub fn artist(&self) -> (s: &str)
        ensures
            s@ == self.artist_spec(),
    {
        self.artist.as_str()
    }

    /// The album.
    pub fn album(&self) -> (s: &str)
        ensures
            s@ == self.album_spec(),
    {
        self.album.as_str()
    }

    /// The player application.
    pub fn app_name(&self) -> (s: &str)
        ensures
            s@ == self.app_name_spec(),
    {
        self.app_name.as_str()
    }
}

/// Where the artwork of the current playback is stored.
pub struct ArtworkInfo {
    path: String,
}

impl ArtworkInfo {
    /// The artwork stored at `path`.
    pub fn new(path: String) -> (a: ArtworkInfo)
        ensures
            a.path_spec() == path@,
    {
        ArtworkInfo { path }
    }

    /// The path's characters.
    pub closed spec fn path_spec(&self) -> Seq<char> {
        self.path@
    }

    /// The path as text; empty when the service gave none.
    pub fn path_str(&self) -> (s: &str)
        ensures
            s@ == self.path_spec(),
    {
        self.path.as_str()
    }
}

} // verus!
