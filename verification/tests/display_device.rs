use hue::builder::FrameBuilder;
use hue::display::{progress_width, redraw_for, seconds_text, Device, DisplayAction, Redraw};
use hue::parser::{FeedResult, FrameParser, ParsedFrame};
use hue::payload::{
    encode_state_delta, ArtworkChunkPayload, FIELD_ARTIST, FIELD_ARTWORK_ID, FIELD_PLAYING,
    FIELD_POSITION, FIELD_TITLE,
};
use hue::state::UiState;
use hue::wire::MessageType;

fn deliver(d: &mut Device, frame: &[u8], tx: &mut [u8]) -> String {
    let mut parser = FrameParser::new();
    let mut last = FeedResult::NeedMore;
    for &b in frame {
        last = parser.feed_byte(b);
    }
    assert_eq!(last, FeedResult::FrameReady);
    let f: ParsedFrame = parser.take_frame().unwrap();
    format!("{:?}", d.on_frame(&f, tx))
}

#[test]
fn clock_text_of_milliseconds() {
    let mut out = [0xffu8; 6];
    assert_eq!(seconds_text(0, &mut out), "00:00");
    assert_eq!(seconds_text(999, &mut out), "00:00");
    assert_eq!(seconds_text(61_000, &mut out), "01:01");
    assert_eq!(out, *b"01:01\0");
    assert_eq!(seconds_text(3_599_999, &mut out), "59:59");
    assert_eq!(seconds_text(6_000_000, &mut out), "00:00");
    assert_eq!(seconds_text(6_125_000, &mut out), "02:05");
}

#[test]
fn progress_bar_width() {
    assert_eq!(progress_width(500, 0), 0);
    assert_eq!(progress_width(0, 1_000), 0);
    assert_eq!(progress_width(500, 1_000), 100);
    assert_eq!(progress_width(1, 3), 66);
    assert_eq!(progress_width(1_000, 1_000), 200);
    assert_eq!(progress_width(5_000, 1_000), 200);
}

#[test]
fn redraw_areas_follow_the_field_mask() {
    assert_eq!(
        redraw_for(FIELD_ARTWORK_ID | FIELD_ARTIST),
        Redraw { cover: true, text: true, progress: false, play: false }
    );
    assert_eq!(
        redraw_for(FIELD_POSITION | FIELD_PLAYING),
        Redraw { cover: false, text: false, progress: true, play: true }
    );
    assert_eq!(redraw_for(0), Redraw { cover: false, text: false, progress: false, play: false });
}

#[test]
fn ping_is_answered_with_pong_and_sequence_advances() {
    let mut d = Device::new();
    assert_eq!(d.tx_seq, 1);
    let mut ping = [0u8; 12];
    FrameBuilder::ping(&mut ping, 5).unwrap();
    let mut tx = [0u8; 64];
    assert_eq!(deliver(&mut d, &ping, &mut tx), "Reply { len: 12 }");
    assert_eq!(d.tx_seq, 2);
    let mut expected = [0u8; 12];
    FrameBuilder::pong(&mut expected, 1).unwrap();
    assert_eq!(&tx[..12], &expected);

    let mut short = [0u8; 8];
    assert_eq!(deliver(&mut d, &ping, &mut short), "Ignore");
    assert_eq!(d.tx_seq, 2);
}

#[test]
fn state_delta_updates_state_and_names_areas() {
    let mut d = Device::new();
    let old = d.ui;
    let mut new = UiState::new();
    new.title.set(b"Now").unwrap();
    new.playing = true;
    let mut frame = [0u8; 512];
    let len = FrameBuilder::state_delta(&mut frame, 3, &old, &new).unwrap();
    let mut tx = [0u8; 64];
    assert_eq!(
        deliver(&mut d, &frame[..len], &mut tx),
        format!("{:?}", DisplayAction::Redraw(redraw_for(FIELD_TITLE | FIELD_PLAYING)))
    );
    assert_eq!(d.ui, new);
    assert_eq!(d.tx_seq, 1);
}

#[test]
fn undecodable_state_delta_changes_nothing() {
    let mut d = Device::new();
    let before = d.ui;
    let mut payload = [0u8; 40];
    let len = encode_state_delta(&UiState::new(), 0, &mut payload).unwrap();
    payload[27] = 1;
    let mut frame = [0u8; 64];
    let n = hue::frame::encode_frame(&mut frame, MessageType::StateDelta, 0, 1, &payload[..len])
        .unwrap();
    let mut tx = [0u8; 64];
    assert_eq!(deliver(&mut d, &frame[..n], &mut tx), "Ignore");
    assert_eq!(d.ui, before);
}

#[test]
fn cover_rows_are_drawn_only_when_whole() {
    let mut d = Device::new();
    let row = [0x5au8; 320];
    let mut frame = [0u8; 512];
    let len = FrameBuilder::artwork_chunk(
        &mut frame,
        9,
        ArtworkChunkPayload { artwork_id: 1, chunk_index: 17, data: &row },
    )
    .unwrap();
    let mut parser = FrameParser::new();
    for &b in &frame[..len] {
        parser.feed_byte(b);
    }
    let f = parser.take_frame().unwrap();
    let mut tx = [0u8; 64];
    match d.on_frame(&f, &mut tx) {
        DisplayAction::CoverRow { row: r, pixels } => {
            assert_eq!(r, 17);
            assert_eq!(pixels, &row[..]);
        }
        other => panic!("unexpected action {other:?}"),
    }

    let short = [1u8; 4];
    let len = FrameBuilder::artwork_chunk(
        &mut frame,
        10,
        ArtworkChunkPayload { artwork_id: 1, chunk_index: 0, data: &short },
    )
    .unwrap();
    assert_eq!(deliver(&mut d, &frame[..len], &mut tx), "Ignore");
}

#[test]
fn other_frames_are_ignored() {
    let mut d = Device::new();
    let before = d.ui;
    let mut frame = [0u8; 16];
    let len = FrameBuilder::ack(&mut frame, 2, 1).unwrap();
    let mut tx = [0u8; 64];
    assert_eq!(deliver(&mut d, &frame[..len], &mut tx), "Ignore");
    assert_eq!(d.ui, before);
    assert_eq!(d.tx_seq, 1);
}
