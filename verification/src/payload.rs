//! Payload encodings of the message types.
pub mod ack;
pub mod artwork;
pub mod handshake;
pub mod state;

pub use ack::{AckPayload, NackPayload};
pub use artwork::{
    ArtworkAbortPayload, ArtworkBeginPayload, ArtworkChunkPayload, ArtworkEndPayload,
    ARTWORK_ABORT_ENCODER_ERROR, ARTWORK_ABORT_SENDER_REQUEST, ARTWORK_ABORT_TRACK_CHANGED,
    ARTWORK_FORMAT_RGB565,
};
pub use handshake::{
    HandshakePayload, CAPS_ARTWORK, CAPS_COMMANDS, CAPS_DELTA, RESERVED_CAPS_MASK,
};
pub use state::{
    decode_state_delta, encode_state_delta, FIELD_ALBUM, FIELD_APP_NAME, FIELD_ARTIST,
    FIELD_ARTWORK_ID, FIELD_DURATION, FIELD_PLAYING, FIELD_POSITION, FIELD_TITLE,
    FIELD_TRACK_ID, RESERVED_STATE_FIELDS, STATE_DELTA_FIXED_LEN, VALID_STATE_FIELDS,
};
