//! The host side of the link: turning what the media service reports into
//! the display's state, and that state and the cover art into frames.
use vstd::prelude::*;
use crate::builder::FrameBuilder;
use crate::delta::diff_mask;
use crate::frame::frame_bytes;
use crate::hash::{fnv1a, fnv_fold, Fnv32, FNV1A32_INIT};
use crate::hstr::{lemma_longest_valid_prefix_unique, longest_valid_prefix, min, HString};
use crate::media::SongSnapshot;
use crate::payload::artwork::{
    begin_bytes, chunk_bytes, end_bytes, valid_dimensions, ArtworkBeginPayload,
    ArtworkChunkPayload, ArtworkEndPayload, ARTWORK_FORMAT_RGB565,
};
use crate::payload::state::delta_bytes;
use crate::state::{UiModel, UiState};
use crate::hash::track_id_spec;
use crate::le::write_at;
use crate::wire::{MessageType, ProtocolError};
use vstd::utf8::valid_utf8;

verus! {

/// Side of the square cover image the display shows, in pixels.
pub const ARTWORK_SIZE: u16 = 160;

/// Data bytes per artwork chunk: one RGB565 row of the cover.
pub const ARTWORK_CHUNK_DATA: usize = 320;

/// Cover art scaled for the display, as RGB565 pixels.
#[derive(Debug, Clone)]
pub struct ProcessedArtwork {
    pub artwork_id: u32,
    pub width: u16,
    pub height: u16,
    pub rgb565: Vec<u8>,
}

/// Why cover art could not be prepared.
#[derive(Debug, Clone, Copy, PartialEq, Eq, Structural)]
pub enum ArtworkError {
    InvalidPath,
    ProcessingFailed,
}

impl ProcessedArtwork {
    /// The artwork for these pixels; its id is the FNV-1a hash of the pixel
    /// bytes.
    pub fn from_rgb565(width: u16, height: u16, rgb565: Vec<u8>) -> (a: ProcessedArtwork)
        ensures
            a.artwork_id == fnv1a(rgb565@),
            a.width == width,
            a.height == height,
            a.rgb565@ == rgb565@,
    {
        let mut hash = Fnv32::new();
        hash.feed_bytes(rgb565.as_slice());
        ProcessedArtwork { artwork_id: hash.finish(), width, height, rgb565 }
    }
}

/// What the image scaler reported: its success flag, the size, and the pixel
/// bytes if it handed any out. An unset flag, no pixels or no bytes is a
/// failure.
pub fn processed_artwork(ok: i32, width: u16, height: u16, pixels: Option<Vec<u8>>) -> (r: Result<
    ProcessedArtwork,
    ArtworkError,
>)
    ensures
        ok == 0 || pixels is None || pixels->0@.len() == 0 ==> r == Err::<
            ProcessedArtwork,
            ArtworkError,
        >(ArtworkError::ProcessingFailed),
        ok != 0 && pixels is Some && pixels->0@.len() > 0 ==> (r matches Ok(a) && a.artwork_id
            == fnv1a(pixels->0@) && a.width == width && a.height == height && a.rgb565@
            == pixels->0@),
{
    if ok == 0 {
        return Err(ArtworkError::ProcessingFailed);
    }
    match pixels {
        None => Err(ArtworkError::ProcessingFailed),
        Some(data) => {
            if data.len() == 0 {
                Err(ArtworkError::ProcessingFailed)
            } else {
                Ok(ProcessedArtwork::from_rgb565(width, height, data))
            }
        },
    }
}

/// Truncating a string that already fits into a fresh [`HString`] keeps it
/// whole.
proof fn lemma_fits_whole(b: Seq<u8>, n: int)
    requires
        valid_utf8(b),
        b.len() <= HString::limit(),
        longest_valid_prefix(b.subrange(0, min(b.len() as int, HString::limit())), n),
    ensures
        n == b.len(),
{
    assert(b.subrange(0, min(b.len() as int, HString::limit())) =~= b);
    assert(b.subrange(0, b.len() as int) =~= b);
    lemma_longest_valid_prefix_unique(b, n, b.len() as int);
}

/// The display state for a playback snapshot: its song texts, position,
/// duration and playing flag, no artwork, and the track id of the texts
/// and duration.
pub open spec fn snapshot_model(song: SongSnapshot, position_ms: u64, duration_ms: u64, playing: bool) -> UiModel {
    UiModel {
        track_id: track_id_spec(song.title@, song.artist@, song.album@, duration_ms),
        title: song.title@,
        album: song.album@,
        artist: song.artist@,
        app_name: song.app_name@,
        position_ms,
        duration_ms,
        playing,
        artwork_id: 0,
    }
}

/// The display state for a playback snapshot, with the position and
/// duration already in milliseconds.
pub fn snapshot_to_state(song: &SongSnapshot, position_ms: u64, duration_ms: u64, playing: bool) -> (s:
    UiState)
    ensures
        s@ == snapshot_model(*song, position_ms, duration_ms, playing),
        s.title.raw_buf() == HString::fresh_buf(song.title@),
        s.artist.raw_buf() == HString::fresh_buf(song.artist@),
        s.album.raw_buf() == HString::fresh_buf(song.album@),
        s.app_name.raw_buf() == HString::fresh_buf(song.app_name@),
{
    let mut state = UiState::new();
    let t = song.title.as_bytes();
    let a = song.artist.as_bytes();
    let b = song.album.as_bytes();
    let n = song.app_name.as_bytes();
    state.title.truncate(t);
    state.artist.truncate(a);
    state.album.truncate(b);
    state.app_name.truncate(n);
    proof {
        lemma_fits_whole(t@, state.title@.len() as int);
        lemma_fits_whole(a@, state.artist@.len() as int);
        lemma_fits_whole(b@, state.album@.len() as int);
        lemma_fits_whole(n@, state.app_name@.len() as int);
        assert(state.title@ =~= t@);
        assert(state.artist@ =~= a@);
        assert(state.album@ =~= b@);
        assert(state.app_name@ =~= n@);
    }
    state.position_ms = position_ms;
    state.duration_ms = duration_ms;
    state.playing = playing;
    state.recompute_track_id();
    state
}

/// A change reported by the media service, as the display state needs it.
#[derive(Debug, Clone, Copy)]
pub enum StateUpdate {
    /// Only the playing flag changed.
    Playback { playing: bool },
    /// A new playback snapshot (position and duration in milliseconds), with
    /// the id of its cover when one was prepared.
    Snapshot {
        song: SongSnapshot,
        position_ms: u64,
        duration_ms: u64,
        playing: bool,
        artwork_id: Option<u32>,
    },
}

/// The display state after `update`, from the state last sent, `old`: a
/// playback change keeps everything but the playing flag; a snapshot gives
/// its own state (see [`snapshot_to_state`]) with the cover's artwork id, or
/// zero without a cover.
pub fn next_state(old: &UiState, update: &StateUpdate) -> (s: UiState)
    ensures
        match *update {
            StateUpdate::Playback { playing } => s == (UiState { playing, ..*old }),
            StateUpdate::Snapshot { song, position_ms, duration_ms, playing, artwork_id } => {
                &&& s@ == (UiModel {
                    artwork_id: match artwork_id {
                        Some(id) => id,
                        None => 0,
                    },
                    ..snapshot_model(song, position_ms, duration_ms, playing)
                })
                &&& s.title.raw_buf() == HString::fresh_buf(song.title@)
                &&& s.artist.raw_buf() == HString::fresh_buf(song.artist@)
                &&& s.album.raw_buf() == HString::fresh_buf(song.album@)
                &&& s.app_name.raw_buf() == HString::fresh_buf(song.app_name@)
            },
        },
{
    match update {
        StateUpdate::Playback { playing } => {
            let mut new = *old;
            new.playing = *playing;
            new
        },
        StateUpdate::Snapshot { song, position_ms, duration_ms, playing, artwork_id } => {
            let mut new = snapshot_to_state(song, *position_ms, *duration_ms, *playing);
            if let Some(id) = artwork_id {
                new.artwork_id = *id;
            }
            new
        },
    }
}

/// The first `len` bytes of `buf` as a vector.
fn prefix_vec(buf: &Vec<u8>, len: usize) -> (v: Vec<u8>)
    requires
        len <= buf@.len(),
    ensures
        v@ == buf@.subrange(0, len as int),
{
    let s = vstd::slice::slice_subrange(buf.as_slice(), 0, len);
    vstd::slice::slice_to_vec(s)
}

/// Cutting a length to 32 bits keeps its parity.
proof fn lemma_low_bit_survives_truncation(n: usize)
    requires
        (n as u32) % 2 == 0,
    ensures
        n % 2 == 0,
{
    let t = n as u32;
    assert(t % 2 == 0 ==> t & 1u32 == 0u32) by (bit_vector);
    assert(t == n as u32 ==> (t & 1u32) as usize == n & 1usize) by (bit_vector);
    assert(n & 1usize == 0usize ==> n % 2 == 0) by (bit_vector);
}

/// The frame `f` that a builder wrote at the start of `buf`.
fn take_built(buf: &Vec<u8>, len: usize, Ghost(o): Ghost<Seq<u8>>, Ghost(f): Ghost<Seq<u8>>) -> (v: Vec<u8>)
    requires
        buf@ == write_at(o, 0, f),
        len == f.len(),
        f.len() <= o.len(),
    ensures
        v@ == f,
{
    let v = prefix_vec(buf, len);
    assert(v@ =~= f);
    v
}

/// The `StateDelta` frame that moves the display from `old` to `new`, with
/// sequence number `seq`.
pub fn state_frame(old: &UiState, new: &UiState, seq: u16) -> (f: Vec<u8>)
    ensures
        f@ == frame_bytes(MessageType::StateDelta, 0, seq, delta_bytes(new@, diff_mask(*old, *new))),
{
    let mut frame: Vec<u8> = vec![0u8; 512];
    let ghost o = frame@;
    let ghost f = frame_bytes(MessageType::StateDelta, 0, seq, delta_bytes(new@, diff_mask(*old, *new)));
    let r = FrameBuilder::state_delta(frame.as_mut_slice(), seq, old, new);
    let len = match r {
        Ok(len) => len,
        Err(_) => 0,
    };
    take_built(&frame, len, Ghost(o), Ghost(f))
}

/// The number of chunks that carry `n` bytes of pixels.
pub open spec fn chunk_count(n: int) -> int {
    (n + 319) / 320
}

/// The pixel bytes of chunk `i`: a row of 320, the last one possibly shorter.
pub open spec fn chunk_of(data: Seq<u8>, i: int) -> Seq<u8> {
    if 320 * i + 320 <= data.len() {
        data.subrange(320 * i, 320 * i + 320)
    } else {
        data.subrange(320 * i, data.len() as int)
    }
}

/// The sequence number `k` steps after `seq`, wrapping.
pub open spec fn seq_after(seq: u16, k: int) -> u16 {
    ((seq + k) % 65536) as u16
}

/// The `ArtworkBegin` that announces `artwork`.
pub open spec fn begin_for(id: u32, width: u16, height: u16, n: int) -> ArtworkBeginPayload {
    ArtworkBeginPayload {
        artwork_id: id,
        width,
        height,
        total_bytes: n as u32,
        format: ARTWORK_FORMAT_RGB565,
    }
}

/// `frames` are the frames that send the artwork `id` with pixels `data`
/// from sequence number `seq` on: `ArtworkBegin`, one `ArtworkChunk` per row
/// (indexes counted modulo 2^16), then `ArtworkEnd` with the FNV-1a checksum
/// of all pixels.
pub open spec fn artwork_stream(frames: Seq<Seq<u8>>, id: u32, width: u16, height: u16, data: Seq<u8>, seq: u16) -> bool {
    let k = chunk_count(data.len() as int);
    &&& frames.len() == k + 2
    &&& frames[0] == frame_bytes(
        MessageType::ArtworkBegin,
        0,
        seq,
        begin_bytes(begin_for(id, width, height, data.len() as int)),
    )
    &&& forall|i: int|
        0 <= i < k ==> #[trigger] frames[i + 1] == frame_bytes(
            MessageType::ArtworkChunk,
            0,
            seq_after(seq, i + 1),
            chunk_bytes(id, i as u16, chunk_of(data, i)),
        )
    &&& frames[k + 1] == frame_bytes(
        MessageType::ArtworkEnd,
        0,
        seq_after(seq, k + 1),
        end_bytes(ArtworkEndPayload { artwork_id: id, checksum: fnv1a(data) }),
    )
}

/// Where chunk `i` of `n` bytes ends, and that it is the last one exactly
/// when it reaches the end.
proof fn lemma_chunk_step(n: int, i: int, off: int)
    requires
        0 <= i,
        off == 320 * i,
        0 <= off < n,
    ensures
        i < chunk_count(n),
        n - off > 320 ==> off + 320 == 320 * (i + 1) && off + 320 < n,
        n - off <= 320 ==> i + 1 == chunk_count(n),
{
    assert(i < chunk_count(n)) by (nonlinear_arith)
        requires
            off == 320 * i,
            off < n,
    ;
    assert(n - off <= 320 ==> i + 1 == chunk_count(n)) by (nonlinear_arith)
        requires
            off == 320 * i,
            off < n,
            0 <= i,
    ;
}

/// The frame of one artwork chunk, built in `frame`.
fn chunk_frame(frame: &mut Vec<u8>, id: u32, index: u16, seq: u16, piece: &[u8]) -> (f: Vec<u8>)
    requires
        old(frame)@.len() == 512,
        piece@.len() <= 320,
        piece@.len() % 2 == 0,
    ensures
        final(frame)@.len() == 512,
        f@ == frame_bytes(MessageType::ArtworkChunk, 0, seq, chunk_bytes(id, index, piece@)),
{
    let chunk = ArtworkChunkPayload { artwork_id: id, chunk_index: index, data: piece };
    let ghost o = frame@;
    let ghost f = frame_bytes(MessageType::ArtworkChunk, 0, seq, chunk_bytes(id, index, piece@));
    let len = match FrameBuilder::artwork_chunk(frame.as_mut_slice(), seq, chunk) {
        Ok(len) => len,
        Err(_) => 0,
    };
    take_built(frame, len, Ghost(o), Ghost(f))
}

/// The frames that send `artwork` from sequence number `seq` on (see
/// [`artwork_stream`]). Refused when the size does not match the pixel
/// count (two bytes per pixel, the count taken modulo 2^32).
#[verifier::rlimit(40)]
pub fn artwork_frames(artwork: &ProcessedArtwork, seq: u16) -> (r: Result<Vec<Vec<u8>>, ProtocolError>)
    ensures
        !valid_dimensions(artwork.width, artwork.height, artwork.rgb565@.len() as u32) ==> r == Err::<
            Vec<Vec<u8>>,
            ProtocolError,
        >(ProtocolError::InvalidLength),
        valid_dimensions(artwork.width, artwork.height, artwork.rgb565@.len() as u32) ==> (r matches Ok(
            frames,
        ) && artwork_stream(
            frames@.map_values(|f: Vec<u8>| f@),
            artwork.artwork_id,
            artwork.width,
            artwork.height,
            artwork.rgb565@,
            seq,
        )),
{
    let data = artwork.rgb565.as_slice();
    let n = data.len();
    let id = artwork.artwork_id;
    let mut frame: Vec<u8> = vec![0u8; 512];
    let mut frames: Vec<Vec<u8>> = Vec::new();
    let begin = ArtworkBeginPayload {
        artwork_id: id,
        width: artwork.width,
        height: artwork.height,
        total_bytes: n as u32,
        format: ARTWORK_FORMAT_RGB565,
    };
    let ghost o = frame@;
    let ghost bf = frame_bytes(MessageType::ArtworkBegin, 0, seq, begin_bytes(begin));
    let len = FrameBuilder::artwork_begin(frame.as_mut_slice(), seq, begin)?;
    frames.push(take_built(&frame, len, Ghost(o), Ghost(bf)));
    proof {
        assert((n as u32) % 2 == 0) by (nonlinear_arith)
            requires
                valid_dimensions(artwork.width, artwork.height, n as u32),
        ;
        lemma_low_bit_survives_truncation(n);
    }
    let ghost begin_frame = bf;
    let mut hash = Fnv32::new();
    let mut off: usize = 0;
    let mut i: usize = 0;
    let mut s: u16 = seq.wrapping_add(1);
    while off < n
        invariant
            n == data@.len(),
            data@ == artwork.rgb565@,
            n % 2 == 0,
            off <= n,
            off < n ==> off == 320 * i,
            off == n ==> i == chunk_count(n as int),
            s == seq_after(seq, i + 1),
            frame@.len() == 512,
            hash@ == fnv_fold(FNV1A32_INIT, data@.subrange(0, off as int)),
            frames@.len() == i + 1,
            frames@[0]@ == begin_frame,
            forall|j: int|
                0 <= j < i ==> #[trigger] frames@[j + 1]@ == frame_bytes(
                    MessageType::ArtworkChunk,
                    0,
                    seq_after(seq, j + 1),
                    chunk_bytes(id, j as u16, chunk_of(data@, j)),
                ),
        decreases n - off,
    {
        proof {
            lemma_chunk_step(n as int, i as int, off as int);
        }
        let end = if n - off > 320 {
            off + 320
        } else {
            n
        };
        let piece = vstd::slice::slice_subrange(data, off, end);
        assert(piece@ == chunk_of(data@, i as int));
        let f = chunk_frame(&mut frame, id, i as u16, s, piece);
        frames.push(f);
        hash.feed_bytes(piece);
        proof {
            crate::hash::lemma_fnv_fold_append(FNV1A32_INIT, data@.subrange(0, off as int), piece@);
            assert(data@.subrange(0, off as int) + piece@ =~= data@.subrange(0, end as int));
        }
        off = end;
        i = i + 1;
        s = s.wrapping_add(1);
    }
    assert(data@.subrange(0, n as int) =~= data@);
    let end = ArtworkEndPayload { artwork_id: id, checksum: hash.finish() };
    let ghost o = frame@;
    let ghost ef = frame_bytes(MessageType::ArtworkEnd, 0, s, end_bytes(end));
    let len = match FrameBuilder::artwork_end(frame.as_mut_slice(), s, end) {
        Ok(len) => len,
        Err(e) => return Err(e),
    };
    frames.push(take_built(&frame, len, Ghost(o), Ghost(ef)));
    proof {
        let fs = frames@.map_values(|f: Vec<u8>| f@);
        assert(fs.len() == i + 2);
        assert(fs[0] == bf);
        assert(fs[i + 1] == ef);
        assert forall|j: int| 0 <= j < i implies #[trigger] fs[j + 1] == frame_bytes(
            MessageType::ArtworkChunk,
            0,
            seq_after(seq, j + 1),
            chunk_bytes(id, j as u16, chunk_of(data@, j)),
        ) by {
            assert(fs[j + 1] == frames@[j + 1]@);
        }
    }
    Ok(frames)
}

/// The pixel data of the chunks of `data`, in order.
pub open spec fn artwork_chunks(data: Seq<u8>) -> Seq<Seq<u8>> {
    Seq::new(chunk_count(data.len() as int) as nat, |i: int| chunk_of(data, i))
}

/// The chunks from chunk `i` on hold the pixel bytes from `320 * i` on.
proof fn lemma_chunks_flatten_from(data: Seq<u8>, i: int)
    requires
        0 <= i <= chunk_count(data.len() as int),
    ensures
        Seq::new((chunk_count(data.len() as int) - i) as nat, |j: int| chunk_of(data, i + j)).flatten()
            == data.subrange(
            if 320 * i < data.len() {
                320 * i
            } else {
                data.len() as int
            },
            data.len() as int,
        ),
    decreases chunk_count(data.len() as int) - i,
{
    let n = data.len() as int;
    let k = chunk_count(n);
    let rest = Seq::new((k - i) as nat, |j: int| chunk_of(data, i + j));
    if i == k {
        assert(320 * k >= n) by (nonlinear_arith)
            requires
                k == (n + 319) / 320,
                n >= 0,
        ;
        assert(rest =~= Seq::<Seq<u8>>::empty());
        assert(data.subrange(n, n) =~= Seq::<u8>::empty());
    } else {
        assert(320 * i < n) by (nonlinear_arith)
            requires
                i < k,
                k == (n + 319) / 320,
                0 <= i,
        ;
        lemma_chunks_flatten_from(data, i + 1);
        let tail = Seq::new((k - (i + 1)) as nat, |j: int| chunk_of(data, i + 1 + j));
        assert(rest.drop_first() =~= tail);
        assert(rest.first() == chunk_of(data, i));
        if 320 * i + 320 <= n {
            assert(data.subrange(320 * i, 320 * i + 320) + data.subrange(
                if 320 * (i + 1) < n {
                    320 * (i + 1)
                } else {
                    n
                },
                n,
            ) =~= data.subrange(320 * i, n));
        } else {
            assert(i + 1 == k) by (nonlinear_arith)
                requires
                    320 * i < n,
                    320 * i + 320 > n,
                    k == (n + 319) / 320,
                    0 <= i,
            ;
            assert(data.subrange(320 * i, n) + data.subrange(n, n) =~= data.subrange(320 * i, n));
        }
    }
}

/// What the host sends, the display accepts: the rows that
/// [`artwork_frames`] cuts from the pixels of a valid artwork (fewer than
/// 4 GiB of them, in fewer than `u16::MAX` chunks), fed after its
/// `ArtworkBegin` to a receiver with no stream, are each accepted, and the
/// `ArtworkEnd` with the FNV-1a checksum of the pixels completes the stream.
pub proof fn lemma_artwork_frames_complete(m: crate::artwork::RxModel, id: u32, width: u16, height: u16, data: Seq<u8>)
    requires
        !m.active,
        valid_dimensions(width, height, data.len() as u32),
        data.len() <= u32::MAX,
        chunk_count(data.len() as int) < 0xFFFF,
    ensures
        ({
            let begin = begin_for(id, width, height, data.len() as int);
            let (m1, r1) = crate::artwork::rx_begin(m, begin);
            let fed = crate::artwork::rx_feed(m1, id, artwork_chunks(data));
            &&& r1 is Ok
            &&& fed is Some
            &&& crate::artwork::rx_end(
                fed->0,
                ArtworkEndPayload { artwork_id: id, checksum: fnv1a(data) },
            ) == (
                crate::artwork::rx_idle(),
                Ok::<crate::artwork::ArtworkRxStatus, ProtocolError>(
                    crate::artwork::ArtworkRxStatus::Complete {
                        artwork_id: id,
                        total_chunks: chunk_count(data.len() as int) as u16,
                        total_bytes: data.len() as u32,
                        checksum: fnv1a(data),
                    },
                ),
            )
        }),
{
    let n = data.len() as int;
    let chunks = artwork_chunks(data);
    lemma_chunks_flatten_from(data, 0);
    assert(Seq::new((chunk_count(n) - 0) as nat, |j: int| chunk_of(data, 0 + j)) =~= chunks);
    assert(data.subrange(0, n) =~= data);
    assert(n % 2 == 0) by (nonlinear_arith)
        requires
            valid_dimensions(width, height, n as u32),
            n <= u32::MAX,
            n >= 0,
    ;
    assert forall|i: int| 0 <= i < chunks.len() implies #[trigger] chunks[i].len() % 2 == 0
        && chunks[i].len() <= 0xFFFF by {
        assert(320 * i < n) by (nonlinear_arith)
            requires
                i < chunk_count(n),
                0 <= i,
        ;
    }
    crate::artwork::lemma_ordered_stream_completes(
        m,
        begin_for(id, width, height, n),
        chunks,
    );
}

} // verus!
