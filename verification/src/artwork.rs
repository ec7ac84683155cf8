//! The receiving side of an artwork stream: `ArtworkBegin`, then chunks in
//! index order from zero, then `ArtworkEnd`, or `ArtworkAbort` at any time.
//! The receiver checks the order, the byte count and the rolling FNV-1a
//! checksum of the chunk data; it never stores the data itself.
use vstd::prelude::*;
use crate::hash::{fnv_fold, lemma_fnv_fold_append, Fnv32, FNV1A32_INIT};
use crate::payload::artwork::{
    valid_abort_reason, ArtworkAbortPayload, ArtworkBeginPayload, ArtworkChunkPayload,
    ArtworkEndPayload, ARTWORK_ABORT_ENCODER_ERROR, ARTWORK_ABORT_SENDER_REQUEST,
    ARTWORK_ABORT_TRACK_CHANGED,
};
use crate::wire::ProtocolError;

verus! {

/// What a successful step of the receiver reports.
#[derive(Debug, Clone, Copy, PartialEq, Eq, Structural)]
pub enum ArtworkRxStatus {
    Began { artwork_id: u32, total_bytes: u32 },
    ChunkAccepted { artwork_id: u32, chunk_index: u16, received_bytes: u32, total_bytes: u32 },
    Complete { artwork_id: u32, total_chunks: u16, total_bytes: u32, checksum: u32 },
    Aborted { artwork_id: u32, reason: u8 },
}

/// The receiver's state as plain values.
pub struct RxModel {
    pub active: bool,
    pub artwork_id: u32,
    pub expected_chunk_index: u16,
    pub total_chunks: u16,
    pub total_bytes: u32,
    pub received_bytes: u32,
    /// The FNV-1a state over the data of the accepted chunks.
    pub checksum: u32,
}

/// The state of a receiver with no stream.
pub open spec fn rx_idle() -> RxModel {
    RxModel {
        active: false,
        artwork_id: 0,
        expected_chunk_index: 0,
        total_chunks: 0,
        total_bytes: 0,
        received_bytes: 0,
        checksum: FNV1A32_INIT,
    }
}

/// What every reachable receiver state satisfies.
pub open spec fn rx_wf(m: RxModel) -> bool {
    &&& m.total_chunks == m.expected_chunk_index
    &&& m.received_bytes <= m.total_bytes
    &&& m.received_bytes % 2 == 0
    &&& !m.active ==> m == rx_idle()
}

/// The error of a step addressed to `artwork_id`: no stream, or another one.
pub open spec fn rx_check(m: RxModel, artwork_id: u32) -> Option<ProtocolError> {
    if !m.active {
        Some(ProtocolError::InvalidLength)
    } else if artwork_id != m.artwork_id {
        Some(ProtocolError::ArtworkIdMismatch)
    } else {
        None
    }
}

/// `ArtworkBegin`: only without an active stream.
pub open spec fn rx_begin(m: RxModel, p: ArtworkBeginPayload) -> (RxModel, Result<
    ArtworkRxStatus,
    ProtocolError,
>) {
    if m.active {
        (m, Err(ProtocolError::InvalidLength))
    } else {
        (
            RxModel {
                active: true,
                artwork_id: p.artwork_id,
                expected_chunk_index: 0,
                total_chunks: 0,
                total_bytes: p.total_bytes,
                received_bytes: 0,
                checksum: FNV1A32_INIT,
            },
            Ok(ArtworkRxStatus::Began { artwork_id: p.artwork_id, total_bytes: p.total_bytes }),
        )
    }
}

/// `ArtworkChunk`: the expected index, an even data length of at most
/// `u16::MAX`, no more bytes than declared, and room for one more chunk.
pub open spec fn rx_chunk(m: RxModel, artwork_id: u32, chunk_index: u16, data: Seq<u8>) -> (
    RxModel,
    Result<ArtworkRxStatus, ProtocolError>,
) {
    let received = m.received_bytes + data.len();
    if rx_check(m, artwork_id) is Some {
        (m, Err(rx_check(m, artwork_id)->0))
    } else if chunk_index != m.expected_chunk_index {
        (m, Err(ProtocolError::ChunkIndexMismatch))
    } else if data.len() > 0xFFFF {
        (m, Err(ProtocolError::InvalidLength))
    } else if data.len() % 2 != 0 {
        (m, Err(ProtocolError::InvalidAlignment))
    } else if received > 0xFFFF_FFFF || received > m.total_bytes {
        (m, Err(ProtocolError::InvalidLength))
    } else if m.expected_chunk_index == 0xFFFF {
        (m, Err(ProtocolError::InvalidLength))
    } else {
        (
            RxModel {
                expected_chunk_index: (m.expected_chunk_index + 1) as u16,
                total_chunks: (m.expected_chunk_index + 1) as u16,
                received_bytes: received as u32,
                checksum: fnv_fold(m.checksum, data),
                ..m
            },
            Ok(
                ArtworkRxStatus::ChunkAccepted {
                    artwork_id,
                    chunk_index,
                    received_bytes: received as u32,
                    total_bytes: m.total_bytes,
                },
            ),
        )
    }
}

/// `ArtworkEnd`: all declared bytes arrived and the checksum matches.
pub open spec fn rx_end(m: RxModel, p: ArtworkEndPayload) -> (RxModel, Result<
    ArtworkRxStatus,
    ProtocolError,
>) {
    if rx_check(m, p.artwork_id) is Some {
        (m, Err(rx_check(m, p.artwork_id)->0))
    } else if m.received_bytes != m.total_bytes {
        (m, Err(ProtocolError::InvalidLength))
    } else if p.checksum != m.checksum {
        (m, Err(ProtocolError::ChecksumMismatch))
    } else {
        (
            rx_idle(),
            Ok(
                ArtworkRxStatus::Complete {
                    artwork_id: p.artwork_id,
                    total_chunks: m.total_chunks,
                    total_bytes: m.total_bytes,
                    checksum: m.checksum,
                },
            ),
        )
    }
}

/// `ArtworkAbort`: a known reason cancels the stream.
pub open spec fn rx_abort(m: RxModel, p: ArtworkAbortPayload) -> (RxModel, Result<
    ArtworkRxStatus,
    ProtocolError,
>) {
    if rx_check(m, p.artwork_id) is Some {
        (m, Err(rx_check(m, p.artwork_id)->0))
    } else if !valid_abort_reason(p.reason) {
        (m, Err(ProtocolError::InvalidLength))
    } else {
        (rx_idle(), Ok(ArtworkRxStatus::Aborted { artwork_id: p.artwork_id, reason: p.reason }))
    }
}

/// The receiver after the chunks of `chunks` arrive in order, each with the
/// index the receiver expects; `None` if one of them is refused.
pub open spec fn rx_feed(m: RxModel, artwork_id: u32, chunks: Seq<Seq<u8>>) -> Option<RxModel>
    decreases chunks.len(),
{
    if chunks.len() == 0 {
        Some(m)
    } else {
        let (m2, r) = rx_chunk(m, artwork_id, m.expected_chunk_index, chunks[0]);
        if r is Err {
            None
        } else {
            rx_feed(m2, artwork_id, chunks.drop_first())
        }
    }
}

/// Validates the artwork stream protocol.
#[derive(Debug, Clone, Copy, PartialEq, Eq, Structural)]
pub struct ArtworkRx {
    active: bool,
    artwork_id: u32,
    expected_chunk_index: u16,
    total_chunks: u16,
    total_bytes: u32,
    received_bytes: u32,
    checksum: Fnv32,
}

impl View for ArtworkRx {
    type V = RxModel;

    closed spec fn view(&self) -> RxModel {
        RxModel {
            active: self.active,
            artwork_id: self.artwork_id,
            expected_chunk_index: self.expected_chunk_index,
            total_chunks: self.total_chunks,
            total_bytes: self.total_bytes,
            received_bytes: self.received_bytes,
            checksum: self.checksum@,
        }
    }
}

impl ArtworkRx {
    /// A receiver with no stream.
    pub fn new() -> (rx: ArtworkRx)
        ensures
            rx@ == rx_idle(),
    {
        ArtworkRx {
            active: false,
            artwork_id: 0,
            expected_chunk_index: 0,
            total_chunks: 0,
            total_bytes: 0,
            received_bytes: 0,
            checksum: Fnv32::new(),
        }
    }

    /// Whether a stream is in progress.
    pub fn is_active(&self) -> (b: bool)
        ensures
            b == self@.active,
    {
        self.active
    }

    /// The id of the stream in progress.
    pub fn artwork_id(&self) -> (id: Option<u32>)
        ensures
            id == (if self@.active {
                Some(self@.artwork_id)
            } else {
                None
            }),
    {
        if self.active {
            Some(self.artwork_id)
        } else {
            None
        }
    }

    /// The index the next chunk must carry.
    pub fn expected_chunk_index(&self) -> (i: u16)
        ensures
            i == self@.expected_chunk_index,
    {
        self.expected_chunk_index
    }

    /// The number of chunks accepted in this stream.
    pub fn total_chunks(&self) -> (n: u16)
        ensures
            n == self@.total_chunks,
    {
        self.total_chunks
    }

    /// The byte count declared by `ArtworkBegin`.
    pub fn total_bytes(&self) -> (n: u32)
        ensures
            n == self@.total_bytes,
    {
        self.total_bytes
    }

    /// The chunk bytes accepted so far.
    pub fn received_bytes(&self) -> (n: u32)
        ensures
            n == self@.received_bytes,
    {
        self.received_bytes
    }

    /// The FNV-1a checksum of the chunk data accepted so far.
    pub fn checksum(&self) -> (c: u32)
        ensures
            c == self@.checksum,
    {
        self.checksum.finish()
    }

    /// Starts a stream. Refused while another one is active.
    pub fn begin(&mut self, payload: ArtworkBeginPayload) -> (r: Result<ArtworkRxStatus, ProtocolError>)
        ensures
            (final(self)@, r) == rx_begin(old(self)@, payload),
    {
        if self.active {
            return Err(ProtocolError::InvalidLength);
        }
        self.active = true;
        self.artwork_id = payload.artwork_id;
        self.expected_chunk_index = 0;
        self.total_chunks = 0;
        self.total_bytes = payload.total_bytes;
        self.received_bytes = 0;
        self.checksum = Fnv32::new();
        Ok(ArtworkRxStatus::Began { artwork_id: payload.artwork_id, total_bytes: payload.total_bytes })
    }

    /// Accepts the next chunk and folds its data into the checksum.
    pub fn chunk(&mut self, payload: ArtworkChunkPayload<'_>) -> (r: Result<ArtworkRxStatus, ProtocolError>)
        ensures
            (final(self)@, r) == rx_chunk(
                old(self)@,
                payload.artwork_id,
                payload.chunk_index,
                payload.data@,
            ),
    {
        self.ensure_active(payload.artwork_id)?;
        if payload.chunk_index != self.expected_chunk_index {
            return Err(ProtocolError::ChunkIndexMismatch);
        }
        if payload.data.len() > 0xFFFF {
            return Err(ProtocolError::InvalidLength);
        }
        if payload.data.len() % 2 != 0 {
            return Err(ProtocolError::InvalidAlignment);
        }
        let received_bytes = match self.received_bytes.checked_add(payload.data.len() as u32) {
            Some(n) => n,
            None => return Err(ProtocolError::InvalidLength),
        };
        if received_bytes > self.total_bytes {
            return Err(ProtocolError::InvalidLength);
        }
        let next_chunk = match self.expected_chunk_index.checked_add(1) {
            Some(n) => n,
            None => return Err(ProtocolError::InvalidLength),
        };
        self.checksum.feed_bytes(payload.data);
        self.received_bytes = received_bytes;
        self.expected_chunk_index = next_chunk;
        self.total_chunks = next_chunk;
        Ok(
            ArtworkRxStatus::ChunkAccepted {
                artwork_id: payload.artwork_id,
                chunk_index: payload.chunk_index,
                received_bytes,
                total_bytes: self.total_bytes,
            },
        )
    }

    /// Completes the stream and resets the receiver.
    pub fn end(&mut self, payload: ArtworkEndPayload) -> (r: Result<ArtworkRxStatus, ProtocolError>)
        ensures
            (final(self)@, r) == rx_end(old(self)@, payload),
    {
        self.ensure_active(payload.artwork_id)?;
        if self.received_bytes != self.total_bytes {
            return Err(ProtocolError::InvalidLength);
        }
        let checksum = self.checksum.finish();
        if payload.checksum != checksum {
            return Err(ProtocolError::ChecksumMismatch);
        }
        let status = ArtworkRxStatus::Complete {
            artwork_id: payload.artwork_id,
            total_chunks: self.total_chunks,
            total_bytes: self.total_bytes,
            checksum,
        };
        self.reset();
        Ok(status)
    }

    /// Cancels the stream and resets the receiver.
    pub fn abort(&mut self, payload: ArtworkAbortPayload) -> (r: Result<ArtworkRxStatus, ProtocolError>)
        ensures
            (final(self)@, r) == rx_abort(old(self)@, payload),
    {
        self.ensure_active(payload.artwork_id)?;
        if payload.reason != ARTWORK_ABORT_TRACK_CHANGED && payload.reason
            != ARTWORK_ABORT_ENCODER_ERROR && payload.reason != ARTWORK_ABORT_SENDER_REQUEST {
            return Err(ProtocolError::InvalidLength);
        }
        let status = ArtworkRxStatus::Aborted {
            artwork_id: payload.artwork_id,
            reason: payload.reason,
        };
        self.reset();
        Ok(status)
    }

    /// Fails unless a stream with `artwork_id` is active.
    fn ensure_active(&self, artwork_id: u32) -> (r: Result<(), ProtocolError>)
        ensures
            rx_check(self@, artwork_id) is None ==> r is Ok,
            rx_check(self@, artwork_id) is Some ==> r == Err::<(), ProtocolError>(
                rx_check(self@, artwork_id)->0,
            ),
    {
        if !self.active {
            return Err(ProtocolError::InvalidLength);
        }
        if artwork_id != self.artwork_id {
            return Err(ProtocolError::ArtworkIdMismatch);
        }
        Ok(())
    }

    /// Returns to the state of [`ArtworkRx::new`].
    fn reset(&mut self)
        ensures
            final(self)@ == rx_idle(),
    {
        *self = Self::new();
    }
}

impl Default for ArtworkRx {
    fn default() -> (rx: ArtworkRx)
        ensures
            rx@ == rx_idle(),
    {
        Self::new()
    }
}

/// Every step of the receiver keeps [`rx_wf`], and a refused step leaves
/// the receiver as it was.
pub proof fn lemma_rx_steps_keep_wf(
    m: RxModel,
    b: ArtworkBeginPayload,
    artwork_id: u32,
    chunk_index: u16,
    data: Seq<u8>,
    e: ArtworkEndPayload,
    a: ArtworkAbortPayload,
)
    requires
        rx_wf(m),
    ensures
        rx_wf(rx_idle()),
        rx_wf(rx_begin(m, b).0),
        rx_wf(rx_chunk(m, artwork_id, chunk_index, data).0),
        rx_wf(rx_end(m, e).0),
        rx_wf(rx_abort(m, a).0),
        rx_begin(m, b).1 is Err ==> rx_begin(m, b).0 == m,
        rx_chunk(m, artwork_id, chunk_index, data).1 is Err ==> rx_chunk(
            m,
            artwork_id,
            chunk_index,
            data,
        ).0 == m,
        rx_end(m, e).1 is Err ==> rx_end(m, e).0 == m,
        rx_abort(m, a).1 is Err ==> rx_abort(m, a).0 == m,
{
}

/// Feeding chunks in order to an active receiver with room for them adds
/// their lengths to the byte count, their number to the chunk count, and
/// their data, in order, to the checksum.
proof fn lemma_rx_feed_accepts(m: RxModel, chunks: Seq<Seq<u8>>)
    requires
        m.active,
        m.total_chunks == m.expected_chunk_index,
        forall|i: int|
            0 <= i < chunks.len() ==> #[trigger] chunks[i].len() % 2 == 0 && chunks[i].len()
                <= 0xFFFF,
        m.received_bytes + chunks.flatten().len() <= m.total_bytes,
        m.expected_chunk_index + chunks.len() <= 0xFFFF,
    ensures
        rx_feed(m, m.artwork_id, chunks) == Some(
            RxModel {
                expected_chunk_index: (m.expected_chunk_index + chunks.len()) as u16,
                total_chunks: (m.expected_chunk_index + chunks.len()) as u16,
                received_bytes: (m.received_bytes + chunks.flatten().len()) as u32,
                checksum: fnv_fold(m.checksum, chunks.flatten()),
                ..m
            },
        ),
    decreases chunks.len(),
{
    if chunks.len() > 0 {
        let c = chunks[0];
        let rest = chunks.drop_first();
        assert(chunks.flatten() == c + rest.flatten());
        let m2 = rx_chunk(m, m.artwork_id, m.expected_chunk_index, c).0;
        assert forall|i: int| 0 <= i < rest.len() implies #[trigger] rest[i].len() % 2 == 0
            && rest[i].len() <= 0xFFFF by {
            assert(rest[i] == chunks[i + 1]);
        }
        assert(chunks[0].len() % 2 == 0 && chunks[0].len() <= 0xFFFF);
        assert(rx_chunk(m, m.artwork_id, m.expected_chunk_index, c).1 is Ok);
        assert(m2.artwork_id == m.artwork_id);
        lemma_rx_feed_accepts(m2, rest);
        lemma_fnv_fold_append(m.checksum, c, rest.flatten());
    } else {
        assert(chunks.flatten() =~= Seq::<u8>::empty());
    }
}

/// An ordered stream completes: after `ArtworkBegin` on a receiver with no
/// stream, chunks of even length (at most `u16::MAX` bytes each) whose bytes add up to the declared total
/// (at most `u16::MAX - 1` of them) are each accepted, and an `ArtworkEnd`
/// carrying the FNV-1a checksum of all their data, in order, completes the
/// stream and leaves the receiver with no stream.
pub proof fn lemma_ordered_stream_completes(m: RxModel, begin: ArtworkBeginPayload, chunks: Seq<Seq<u8>>)
    requires
        !m.active,
        forall|i: int|
            0 <= i < chunks.len() ==> #[trigger] chunks[i].len() % 2 == 0 && chunks[i].len()
                <= 0xFFFF,
        chunks.flatten().len() == begin.total_bytes,
        chunks.len() < 0xFFFF,
    ensures
        ({
            let (m1, r1) = rx_begin(m, begin);
            let fed = rx_feed(m1, begin.artwork_id, chunks);
            let end = ArtworkEndPayload {
                artwork_id: begin.artwork_id,
                checksum: fnv_fold(FNV1A32_INIT, chunks.flatten()),
            };
            &&& r1 == Ok::<ArtworkRxStatus, ProtocolError>(
                ArtworkRxStatus::Began { artwork_id: begin.artwork_id, total_bytes: begin.total_bytes },
            )
            &&& fed is Some
            &&& rx_end(fed->0, end) == (
                rx_idle(),
                Ok::<ArtworkRxStatus, ProtocolError>(
                    ArtworkRxStatus::Complete {
                        artwork_id: begin.artwork_id,
                        total_chunks: chunks.len() as u16,
                        total_bytes: begin.total_bytes,
                        checksum: fnv_fold(FNV1A32_INIT, chunks.flatten()),
                    },
                ),
            )
        }),
{
    let m1 = rx_begin(m, begin).0;
    lemma_rx_feed_accepts(m1, chunks);
}

/// One `ArtworkChunk` as plain values: artwork id, chunk index, data.
pub type ChunkStep = (u32, u16, Seq<u8>);

/// The receiver after the chunks of `steps` arrive in order, each accepted
/// or refused, and the data of the accepted ones, concatenated in order.
pub open spec fn rx_run(m: RxModel, steps: Seq<ChunkStep>) -> (RxModel, Seq<u8>)
    decreases steps.len(),
{
    if steps.len() == 0 {
        (m, Seq::empty())
    } else {
        let (id, index, data) = steps[0];
        let (m1, r) = rx_chunk(m, id, index, data);
        let (mk, acc) = rx_run(m1, steps.drop_first());
        (mk, if r is Ok { data + acc } else { acc })
    }
}

/// What the receiver tracks is the data it accepted: from a well-formed
/// active receiver whose checksum and byte count cover the data `d`, any
/// sequence of chunks, accepted or refused, leaves it active with the same
/// artwork id, well-formed, and with checksum and byte count covering `d`
/// followed by the data of the accepted chunks in order. In particular,
/// after `ArtworkBegin` (`d` empty) the checksum is the FNV-1a hash of all
/// data accepted since, and the byte count its length, which is even.
pub proof fn lemma_rx_tracks_accepted_data(m: RxModel, d: Seq<u8>, steps: Seq<ChunkStep>)
    requires
        rx_wf(m),
        m.active,
        m.checksum == fnv_fold(FNV1A32_INIT, d),
        m.received_bytes == d.len(),
    ensures
        ({
            let (mk, acc) = rx_run(m, steps);
            &&& rx_wf(mk)
            &&& mk.active
            &&& mk.artwork_id == m.artwork_id
            &&& mk.total_bytes == m.total_bytes
            &&& mk.checksum == fnv_fold(FNV1A32_INIT, d + acc)
            &&& mk.received_bytes == (d + acc).len()
        }),
    decreases steps.len(),
{
    if steps.len() > 0 {
        let (id, index, data) = steps[0];
        let (m1, r) = rx_chunk(m, id, index, data);
        let rest = steps.drop_first();
        if r is Ok {
            lemma_fnv_fold_append(FNV1A32_INIT, d, data);
            lemma_rx_tracks_accepted_data(m1, d + data, rest);
            let acc = rx_run(m1, rest).1;
            assert(d + data + acc =~= d + (data + acc));
        } else {
            lemma_rx_tracks_accepted_data(m1, d, rest);
        }
    }
}

/// A receiver after `ArtworkBegin` has checksum and byte count of no data.
pub proof fn lemma_rx_begin_tracks_nothing(m: RxModel, b: ArtworkBeginPayload)
    requires
        rx_wf(m),
        !m.active,
    ensures
        rx_begin(m, b).0.active,
        rx_begin(m, b).0.artwork_id == b.artwork_id,
        rx_begin(m, b).0.checksum == fnv_fold(FNV1A32_INIT, Seq::empty()),
        rx_begin(m, b).0.received_bytes == 0,
        rx_wf(rx_begin(m, b).0),
{
}

/// A chunk is accepted only in order: only by an active receiver, only for
/// its artwork, only with the index it expects next, only with an even
/// data length, and only while the declared byte count is not exceeded.
/// An accepted chunk moves the expected index on by one, adds its length to
/// the byte count and folds its data into the checksum; a refused chunk
/// changes nothing.
pub proof fn lemma_rx_chunk_in_order(m: RxModel, artwork_id: u32, chunk_index: u16, data: Seq<u8>)
    ensures
        ({
            let (m2, r) = rx_chunk(m, artwork_id, chunk_index, data);
            &&& r is Ok ==> {
                &&& m.active
                &&& artwork_id == m.artwork_id
                &&& chunk_index == m.expected_chunk_index
                &&& data.len() % 2 == 0
                &&& m.received_bytes + data.len() <= m.total_bytes
                &&& m2.expected_chunk_index == chunk_index + 1
                &&& m2.total_chunks == chunk_index + 1
                &&& m2.received_bytes == m.received_bytes + data.len()
                &&& m2.checksum == fnv_fold(m.checksum, data)
                &&& m2.active && m2.artwork_id == m.artwork_id && m2.total_bytes == m.total_bytes
            }
            &&& r is Err ==> m2 == m
            &&& m.active && artwork_id == m.artwork_id && chunk_index != m.expected_chunk_index
                ==> r == Err::<ArtworkRxStatus, ProtocolError>(ProtocolError::ChunkIndexMismatch)
        }),
{
}

/// The indexes of the chunks of `steps` that the receiver accepts, in order.
pub open spec fn rx_accepted_indexes(m: RxModel, steps: Seq<ChunkStep>) -> Seq<u16>
    decreases steps.len(),
{
    if steps.len() == 0 {
        Seq::empty()
    } else {
        let (id, index, data) = steps[0];
        let (m1, r) = rx_chunk(m, id, index, data);
        let rest = rx_accepted_indexes(m1, steps.drop_first());
        if r is Ok {
            seq![index] + rest
        } else {
            rest
        }
    }
}

/// Each accepted chunk's index is its position in the stream: whatever
/// chunks arrive, those that the receiver accepts carry the indexes
/// `e, e + 1, e + 2, ...` in order, from the index `e` it expected first,
/// and it then expects the one after the last.
pub proof fn lemma_rx_accepts_consecutive_indexes(m: RxModel, steps: Seq<ChunkStep>)
    ensures
        ({
            let acc = rx_accepted_indexes(m, steps);
            &&& forall|k: int| 0 <= k < acc.len() ==> #[trigger] acc[k] == m.expected_chunk_index + k
            &&& rx_run(m, steps).0.expected_chunk_index == m.expected_chunk_index + acc.len()
        }),
    decreases steps.len(),
{
    if steps.len() > 0 {
        let (id, index, data) = steps[0];
        let (m1, r) = rx_chunk(m, id, index, data);
        let rest = steps.drop_first();
        lemma_rx_accepts_consecutive_indexes(m1, rest);
        let tail = rx_accepted_indexes(m1, rest);
        if r is Ok {
            let acc = seq![index] + tail;
            assert forall|k: int| 0 <= k < acc.len() implies #[trigger] acc[k]
                == m.expected_chunk_index + k by {
                if k > 0 {
                    assert(acc[k] == tail[k - 1]);
                }
            }
        }
    }
}

} // verus!
