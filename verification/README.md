# hue

A now-playing display for the Mac: the host reads what is playing from the
system's media service and sends it, with the cover art, over a USB serial
link to a small screen. This crate is the verified core of both ends; every
function in `src/` carries a contract that Verus proves.

## Layout

- `src/wire.rs`, `src/le.rs`, `src/frame.rs` — frame constants, errors,
  message types, the CRC-CCITT checksum, little-endian fields and the
  12-byte frame header.
- `src/parser.rs` — the streaming frame parser, with laws on reading frames,
  skipping noise and oversized frames, and rejecting bad headers.
- `src/builder.rs`, `src/payload/` — frame building and the payload
  encodings (acknowledgements, handshake, state deltas, artwork stream).
- `src/hash.rs`, `src/hstr.rs`, `src/state.rs`, `src/delta.rs` — FNV-1a
  hashing, fixed-capacity UTF-8 strings, the display state and the field
  mask of a state change.
- `src/seq.rs`, `src/artwork.rs` — sequence-number tracking and the
  artwork-stream receiver.
- `src/media.rs`, `src/bridge.rs` — the host's side: media-service status
  codes and texts, the display state of a playback snapshot, and the frames
  that carry a state change or a cover.
- `src/display.rs` — the device's side: what it does with each frame, and
  the clock text and progress bar it draws.
- `src/transport.rs` — the transport traits.
- `app/` — the host program `hued`: the macOS media bridge, the serial
  device and the event loop, around the library.
- `tests/` — tests of the library.
