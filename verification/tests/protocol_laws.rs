use hue::frame::encode_frame;
use hue::hash::Fnv32;
use hue::parser::{FeedResult, FrameParser};
use hue::payload::{
    decode_state_delta, encode_state_delta, ArtworkAbortPayload, ArtworkBeginPayload,
    ArtworkChunkPayload, ArtworkEndPayload, FIELD_PLAYING, FIELD_TITLE,
};
use hue::state::UiState;
use hue::wire::{MessageType, ProtocolError};
use hue::{seq_distance, ArtworkRx, ArtworkRxStatus, SeqStatus, SeqTracker};

#[test]
fn in_order_numbers_are_expected_across_the_wrap() {
    let mut t = SeqTracker::new(65_530);
    let mut n: u16 = 65_530;
    for _ in 0..12 {
        assert_eq!(t.observe(n), SeqStatus::Expected);
        n = n.wrapping_add(1);
        assert_eq!(t.expected(), n);
    }
    assert_eq!(t.expected(), 6);
}

#[test]
fn distance_extremes() {
    assert_eq!(seq_distance(32_767, 0), 32_767);
    assert_eq!(seq_distance(32_768, 0), -32_768);
    assert_eq!(seq_distance(5, 5), 0);
    let mut t = SeqTracker::new(0);
    assert_eq!(t.observe(32_767), SeqStatus::Gap { expected: 0, received: 32_767 });
    assert_eq!(t.observe(32_768), SeqStatus::Duplicate { expected: 0, received: 32_768 });
    assert_eq!(t.expected(), 0);
}

fn begin(total: u32) -> ArtworkBeginPayload {
    ArtworkBeginPayload { artwork_id: 7, width: 1, height: total as u16 / 2, total_bytes: total, format: 0 }
}

#[test]
fn refused_steps_leave_the_receiver_unchanged() {
    let mut rx = ArtworkRx::new();
    assert_eq!(rx.end(ArtworkEndPayload { artwork_id: 7, checksum: 0 }), Err(ProtocolError::InvalidLength));
    assert_eq!(rx.abort(ArtworkAbortPayload { artwork_id: 7, reason: 0 }), Err(ProtocolError::InvalidLength));
    rx.begin(begin(4)).unwrap();
    let before = rx;
    assert_eq!(
        rx.abort(ArtworkAbortPayload { artwork_id: 8, reason: 0 }),
        Err(ProtocolError::ArtworkIdMismatch)
    );
    assert_eq!(
        rx.end(ArtworkEndPayload { artwork_id: 8, checksum: 0 }),
        Err(ProtocolError::ArtworkIdMismatch)
    );
    assert_eq!(rx, before);
    assert_eq!(rx.total_bytes(), 4);
    assert_eq!(rx.checksum(), Fnv32::new().finish());
}

#[test]
fn a_new_stream_can_begin_after_abort() {
    let mut rx = ArtworkRx::default();
    rx.begin(begin(2)).unwrap();
    rx.abort(ArtworkAbortPayload { artwork_id: 7, reason: 2 }).unwrap();
    assert_eq!(rx, ArtworkRx::new());
    assert_eq!(
        rx.begin(begin(2)).unwrap(),
        ArtworkRxStatus::Began { artwork_id: 7, total_bytes: 2 }
    );
    let data = [1u8, 2];
    assert_eq!(
        rx.chunk(ArtworkChunkPayload { artwork_id: 7, chunk_index: 0, data: &data }).unwrap(),
        ArtworkRxStatus::ChunkAccepted { artwork_id: 7, chunk_index: 0, received_bytes: 2, total_bytes: 2 }
    );
    let mut h = Fnv32::new();
    h.feed_bytes(&data);
    assert_eq!(
        rx.end(ArtworkEndPayload { artwork_id: 7, checksum: h.finish() }).unwrap(),
        ArtworkRxStatus::Complete { artwork_id: 7, total_chunks: 1, total_bytes: 2, checksum: h.finish() }
    );
}

#[test]
fn empty_chunks_are_accepted_and_counted() {
    let mut rx = ArtworkRx::new();
    rx.begin(begin(0)).unwrap();
    rx.chunk(ArtworkChunkPayload { artwork_id: 7, chunk_index: 0, data: &[] }).unwrap();
    assert_eq!(rx.total_chunks(), 1);
    assert_eq!(rx.received_bytes(), 0);
}

#[test]
fn delta_sync_onto_a_non_empty_state() {
    let mut old = UiState::new();
    old.title.set(b"Old title").unwrap();
    old.position_ms = 10;
    let mut new = old;
    new.title.set(b"New").unwrap();
    new.playing = true;
    let mask = hue::delta::diff_state(&old, &new);
    assert_eq!(mask, FIELD_TITLE | FIELD_PLAYING);
    let mut payload = [0u8; 128];
    let len = encode_state_delta(&new, mask, &mut payload).unwrap();
    let mut shown = old;
    assert_eq!(decode_state_delta(&payload[..len], &mut shown), Ok(mask));
    assert_eq!(shown.title.as_str(), "New");
    assert!(shown.playing);
    assert_eq!(shown.position_ms, 10);
}

#[test]
fn an_encoded_frame_is_read_back_whatever_came_before() {
    let mut frame = [0u8; 32];
    let len = encode_frame(&mut frame, MessageType::Nack, 0x04, 300, &[1, 2, 3, 4]).unwrap();
    let mut parser = FrameParser::default();
    for &b in &[0x48u8, 0x48, 0x00, 0x55] {
        assert_eq!(parser.feed_byte(b), FeedResult::NeedMore);
    }
    let mut results = Vec::new();
    for &b in &frame[..len] {
        results.push(parser.feed_byte(b));
    }
    assert_eq!(results.last(), Some(&FeedResult::FrameReady));
    assert!(results[..len - 1].iter().all(|r| *r == FeedResult::NeedMore));
    let f = parser.take_frame().unwrap();
    assert_eq!(f.header.msg_type, MessageType::Nack);
    assert_eq!(f.header.flags, 0x04);
    assert_eq!(f.header.seq, 300);
    assert_eq!(f.payload, &[1, 2, 3, 4]);
    assert!(parser.take_frame().is_none());
}

#[test]
fn state_delta_encoder_stops_at_the_first_string_that_does_not_fit() {
    let mut state = UiState::new();
    state.title.set(b"abcd").unwrap();
    state.artist.set(b"xyz").unwrap();
    let mask = FIELD_TITLE | hue::payload::FIELD_ARTIST;
    let mut full = [0u8; 64];
    let len = encode_state_delta(&state, mask, &mut full).unwrap();
    assert_eq!(len, 39);

    let mut short = [0xeeu8; 37];
    assert_eq!(encode_state_delta(&state, mask, &mut short), Err(ProtocolError::InvalidLength));
    assert_eq!(&short[..36], &full[..36]);
    assert_eq!(&short[32..36], b"abcd");
    assert_eq!(short[36], 0xee);
}

#[test]
fn oversized_chunk_leaves_its_payload_but_no_header() {
    let data = vec![0x11u8; 506];
    let mut buf = vec![0xeeu8; 12 + 8 + 506];
    let err = hue::builder::FrameBuilder::artwork_chunk(
        &mut buf,
        1,
        ArtworkChunkPayload { artwork_id: 2, chunk_index: 3, data: &data },
    )
    .unwrap_err();
    assert_eq!(err, ProtocolError::OversizedPayload);
    assert!(buf[..12].iter().all(|&b| b == 0xee));
    let mut payload = vec![0u8; 8 + 506];
    ArtworkChunkPayload { artwork_id: 2, chunk_index: 3, data: &data }.encode(&mut payload).unwrap();
    assert_eq!(&buf[12..], &payload[..]);
}

#[test]
fn string_equality_sees_the_whole_buffer() {
    let mut s = hue::hstr::HString::try_from_str("abcdef").unwrap();
    s.set(b"xy").unwrap();
    assert_eq!(s.as_bytes(), b"xy");
    assert_ne!(s, hue::hstr::HString::try_from_str("xy").unwrap());
    let mut t = hue::hstr::HString::try_from_str("abcdef").unwrap();
    t.truncate(b"xy");
    assert_eq!(s, t);
}

#[test]
fn noise_before_a_frame_changes_nothing() {
    let mut frame = [0u8; 16];
    let len = encode_frame(&mut frame, MessageType::Ack, 0, 9, &[5, 6, 7, 8]).unwrap();
    let mut clean = FrameParser::new();
    let clean_results: Vec<FeedResult> = frame[..len].iter().map(|&b| clean.feed_byte(b)).collect();

    let mut noisy = FrameParser::new();
    for &b in &[0x00u8, 0x13, 0x7f, 0x48, 0x48, 0x48] {
        assert_eq!(noisy.feed_byte(b), FeedResult::NeedMore);
    }
    let noisy_results: Vec<FeedResult> = frame[..len].iter().map(|&b| noisy.feed_byte(b)).collect();
    assert_eq!(noisy_results, clean_results);
    let a = clean.take_frame().unwrap();
    let b = noisy.take_frame().unwrap();
    assert_eq!(a.header.seq, b.header.seq);
    assert_eq!(a.payload, b.payload);
}

#[test]
fn decoder_rejects_strings_longer_than_the_state_holds() {
    let mut payload = vec![0u8; 32 + 65];
    payload[0..2].copy_from_slice(&FIELD_TITLE.to_le_bytes());
    payload[23] = 65;
    for b in &mut payload[32..] {
        *b = b'a';
    }
    let mut state = UiState::new();
    assert_eq!(decode_state_delta(&payload, &mut state), Err(ProtocolError::OversizedPayload));
    assert_eq!(state, UiState::new());
}

#[test]
fn decoder_rejects_a_playing_flag_other_than_zero_or_one() {
    let mut payload = [0u8; 32];
    payload[0..2].copy_from_slice(&FIELD_PLAYING.to_le_bytes());
    payload[22] = 2;
    let mut state = UiState::new();
    assert_eq!(decode_state_delta(&payload, &mut state), Err(ProtocolError::InvalidLength));
    payload[22] = 1;
    assert_eq!(decode_state_delta(&payload, &mut state), Ok(FIELD_PLAYING));
    assert!(state.playing);
}

#[test]
fn decoder_reads_the_artwork_id() {
    let mut payload = [0u8; 32];
    payload[0..2].copy_from_slice(&hue::payload::FIELD_ARTWORK_ID.to_le_bytes());
    payload[28..32].copy_from_slice(&0xdead_beefu32.to_le_bytes());
    let mut state = UiState::new();
    assert_eq!(decode_state_delta(&payload, &mut state), Ok(hue::payload::FIELD_ARTWORK_ID));
    assert_eq!(state.artwork_id, 0xdead_beef);
}

#[test]
fn a_ready_frame_has_a_parsing_header_and_matching_crc() {
    let mut buf = [0u8; 32];
    let len = encode_frame(&mut buf, MessageType::Pong, 0, 4, &[9, 8, 7]).unwrap();
    let mut parser = FrameParser::new();
    let mut last = FeedResult::NeedMore;
    for &b in &buf[..len] {
        last = parser.feed_byte(b);
    }
    assert_eq!(last, FeedResult::FrameReady);
    let mut header = [0u8; 12];
    header.copy_from_slice(&buf[..12]);
    let f = parser.take_frame().unwrap();
    assert_eq!(f.payload.len(), f.header.len as usize);
    assert!(hue::frame::FrameHeader::parse(&header).is_ok());
    assert_eq!(hue::frame::validate_frame_crc(&header, f.payload), Ok(()));
}

#[test]
fn received_bytes_stay_even_and_refused_chunks_add_nothing() {
    let mut rx = ArtworkRx::new();
    rx.begin(begin(8)).unwrap();
    rx.chunk(ArtworkChunkPayload { artwork_id: 7, chunk_index: 0, data: &[1, 2] }).unwrap();
    assert!(rx.chunk(ArtworkChunkPayload { artwork_id: 7, chunk_index: 1, data: &[3] }).is_err());
    rx.chunk(ArtworkChunkPayload { artwork_id: 7, chunk_index: 1, data: &[4, 5, 6, 7] }).unwrap();
    assert_eq!(rx.received_bytes(), 6);
    let mut h = Fnv32::new();
    h.feed_bytes(&[1, 2, 4, 5, 6, 7]);
    assert_eq!(rx.checksum(), h.finish());
}
