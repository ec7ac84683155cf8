use hue::media::{check, text_or_empty, ArtworkInfo, HueError, SongInfo, SongSnapshot};

#[test]
fn status_codes_map_to_errors() {
    assert_eq!(HueError::from_code(-1), HueError::MediaRemoteLoadFailed);
    assert_eq!(HueError::from_code(-2), HueError::MediaRemoteCommandMissing);
    assert_eq!(HueError::from_code(-10), HueError::NullOutput);
    assert_eq!(HueError::from_code(-20), HueError::AppleScriptFailed);
    assert_eq!(HueError::from_code(-21), HueError::ParseFailed);
    assert_eq!(HueError::from_code(-22), HueError::ArtworkFailed);
    assert_eq!(HueError::from_code(7), HueError::Unknown(7));
    assert_eq!(HueError::from_code(-3), HueError::Unknown(-3));
}

#[test]
fn zero_status_is_success() {
    assert_eq!(check(0), Ok(()));
    assert_eq!(check(-22), Err(HueError::ArtworkFailed));
    assert_eq!(check(5), Err(HueError::Unknown(5)));
}

#[test]
fn error_messages() {
    assert_eq!(HueError::NullOutput.message(), "received null output pointer");
    assert_eq!(HueError::MediaRemoteLoadFailed.message(), "failed to load MediaRemote framework");
    assert_eq!(HueError::Unknown(3).message(), "unknown hue-mediaremote error");
}

#[test]
fn c_text_is_kept_only_when_valid_utf8() {
    assert_eq!(text_or_empty(b"Caf\xc3\xa9"), "Café");
    assert_eq!(text_or_empty(&[0x61, 0xff]), "");
    assert_eq!(text_or_empty(&[]), "");
}

#[test]
fn song_snapshot_cuts_each_text_to_fit() {
    let long = "y".repeat(100);
    let s = SongSnapshot::from_texts("Title", &long, "", "App");
    assert_eq!(s.title.as_str(), "Title");
    assert_eq!(s.artist.len(), 64);
    assert!(s.album.is_empty());
    assert_eq!(s.app_name.as_str(), "App");
}

#[test]
fn song_and_artwork_info_give_their_texts() {
    let song = SongInfo::new(
        "T".to_string(),
        "A".to_string(),
        "B".to_string(),
        "P".to_string(),
    );
    assert_eq!(song.title(), "T");
    assert_eq!(song.artist(), "A");
    assert_eq!(song.album(), "B");
    assert_eq!(song.app_name(), "P");
    let art = ArtworkInfo::new("/tmp/cover.png".to_string());
    assert_eq!(art.path_str(), "/tmp/cover.png");
}
