//! A streaming frame parser for USB/UART-style byte streams. It hunts for
//! the magic `"HU"`, handles split and back-to-back frames, drains oversized
//! payloads before looking for the next frame, checks the CRC before it
//! exposes a frame, and never allocates.
use vstd::prelude::*;
use crate::frame::{crc_matches, parse_header, validate_frame_crc, FrameHeader};
use crate::le::{get16, read16};
use crate::wire::{ProtocolError, HEADER_LEN, MAGIC0, MAGIC1, MAX_PAYLOAD_SIZE};

verus! {

/// Where the parser is within a frame.
#[derive(Debug, Clone, Copy, PartialEq, Eq, Structural)]
pub enum ParseState {
    /// Looking for the first magic byte.
    Hunt,
    /// Saw the first magic byte; expecting the second.
    Magic2,
    /// Collecting the rest of the header.
    Header,
    /// Collecting the payload.
    Payload,
    /// Skipping the payload of a frame that declared an oversized length.
    Discard,
}

/// What feeding one byte produced.
#[derive(Debug, Clone, Copy, PartialEq, Eq, Structural)]
pub enum FeedResult {
    /// The byte was taken; no frame is complete yet.
    NeedMore,
    /// A frame with a valid CRC is complete; [`FrameParser::take_frame`]
    /// hands it out.
    FrameReady,
    /// The frame being read was rejected; the parser is hunting again.
    Error(ProtocolError),
}

/// A complete frame handed out by the parser.
#[derive(Debug, Clone, Copy)]
pub struct ParsedFrame<'a> {
    pub header: FrameHeader,
    pub payload: &'a [u8],
}

/// The parser's state as plain values.
pub struct ParserModel {
    /// Where the parser is within a frame.
    pub mode: ParseState,
    /// The header buffer.
    pub header_buf: Seq<u8>,
    /// How many header bytes have been collected.
    pub header_pos: nat,
    /// The payload buffer.
    pub payload_buf: Seq<u8>,
    /// How many payload bytes have been collected.
    pub payload_pos: nat,
    /// The payload length of the frame being read.
    pub payload_len: nat,
    /// How many bytes of an oversized payload remain to be skipped.
    pub discard: nat,
    /// The header of the complete frame not yet taken, if any.
    pub ready: Option<FrameHeader>,
}

/// Back to hunting for a frame, with no frame ready; the buffers keep their
/// bytes.
pub open spec fn reset_model(m: ParserModel) -> ParserModel {
    ParserModel {
        mode: ParseState::Hunt,
        header_pos: 0,
        payload_pos: 0,
        payload_len: 0,
        discard: 0,
        ready: None,
        ..m
    }
}

/// A frame is complete: if its CRC matches, it becomes the ready frame and
/// the parser hunts for the next; otherwise the parser resets with
/// `CrcMismatch`.
pub open spec fn finish_model(m: ParserModel, h: FrameHeader) -> (ParserModel, FeedResult) {
    if !crc_matches(m.header_buf, m.payload_buf.subrange(0, m.payload_len as int)) {
        (reset_model(m), FeedResult::Error(ProtocolError::CrcMismatch))
    } else {
        (
            ParserModel {
                mode: ParseState::Hunt,
                header_pos: 0,
                payload_pos: 0,
                payload_len: 0,
                ready: Some(h),
                ..m
            },
            FeedResult::FrameReady,
        )
    }
}

/// The parser after one byte, and what that byte produced.
pub open spec fn step(m: ParserModel, b: u8) -> (ParserModel, FeedResult) {
    match m.mode {
        ParseState::Hunt => {
            if b == 0x48 {
                (
                    ParserModel {
                        mode: ParseState::Magic2,
                        header_buf: m.header_buf.update(0, b),
                        header_pos: 1,
                        ..m
                    },
                    FeedResult::NeedMore,
                )
            } else {
                (m, FeedResult::NeedMore)
            }
        },
        ParseState::Magic2 => {
            if b == 0x55 {
                (
                    ParserModel {
                        mode: ParseState::Header,
                        header_buf: m.header_buf.update(1, b),
                        header_pos: 2,
                        ..m
                    },
                    FeedResult::NeedMore,
                )
            } else if b == 0x48 {
                (
                    ParserModel {
                        mode: ParseState::Magic2,
                        header_buf: m.header_buf.update(0, b),
                        header_pos: 1,
                        ..m
                    },
                    FeedResult::NeedMore,
                )
            } else {
                (reset_model(m), FeedResult::NeedMore)
            }
        },
        ParseState::Header => {
            let hb = m.header_buf.update(m.header_pos as int, b);
            let m1 = ParserModel { header_buf: hb, header_pos: m.header_pos + 1, ..m };
            if m.header_pos + 1 < 12 {
                (m1, FeedResult::NeedMore)
            } else if get16(hb, 6) > 512 {
                (
                    ParserModel { mode: ParseState::Discard, discard: get16(hb, 6) as nat, ..m1 },
                    FeedResult::NeedMore,
                )
            } else {
                match parse_header(hb) {
                    Err(e) => (reset_model(m1), FeedResult::Error(e)),
                    Ok(h) => {
                        let m2 = ParserModel { payload_len: h.len as nat, payload_pos: 0, ..m1 };
                        if h.len == 0 {
                            finish_model(m2, h)
                        } else {
                            (ParserModel { mode: ParseState::Payload, ..m2 }, FeedResult::NeedMore)
                        }
                    },
                }
            }
        },
        ParseState::Payload => {
            let pb = m.payload_buf.update(m.payload_pos as int, b);
            let m1 = ParserModel { payload_buf: pb, payload_pos: m.payload_pos + 1, ..m };
            if m.payload_pos + 1 < m.payload_len {
                (m1, FeedResult::NeedMore)
            } else {
                match parse_header(m.header_buf) {
                    Err(e) => (reset_model(m1), FeedResult::Error(e)),
                    Ok(h) => finish_model(m1, h),
                }
            }
        },
        ParseState::Discard => {
            let d: nat = if m.discard > 0 {
                (m.discard - 1) as nat
            } else {
                0
            };
            if d == 0 {
                (reset_model(m), FeedResult::Error(ProtocolError::OversizedPayload))
            } else {
                (ParserModel { discard: d, ..m }, FeedResult::NeedMore)
            }
        },
    }
}

/// What the parser's state always satisfies.
pub open spec fn model_wf(m: ParserModel) -> bool {
    &&& m.header_buf.len() == 12
    &&& m.payload_buf.len() == 512
    &&& m.payload_pos <= m.payload_len <= 512
    &&& m.mode == ParseState::Hunt ==> m.header_pos == 0
    &&& m.mode == ParseState::Magic2 ==> m.header_pos == 1
    &&& m.mode == ParseState::Header ==> 2 <= m.header_pos < 12
    &&& m.mode == ParseState::Payload ==> m.header_pos == 12 && m.payload_pos < m.payload_len
        && parse_header(m.header_buf) is Ok && parse_header(m.header_buf)->Ok_0.len == m.payload_len
    &&& m.mode == ParseState::Discard ==> m.header_pos == 12 && m.discard > 0
    &&& m.ready matches Some(h) ==> h.len <= 512
}

/// The frame that the parser has just made ready is a valid one: its header
/// is the parse of the header bytes just read, its payload fits the buffer,
/// and the CRC of those header bytes matches the payload that
/// [`FrameParser::take_frame`] hands out.
pub open spec fn frame_exposed(m: ParserModel) -> bool {
    &&& m.ready is Some
    &&& parse_header(m.header_buf) == Ok::<FrameHeader, ProtocolError>(m.ready->0)
    &&& m.ready->0.len <= 512
    &&& crc_matches(m.header_buf, m.payload_buf.subrange(0, m.ready->0.len as int))
}

/// A fresh parser: hunting, zeroed buffers, nothing collected, no frame
/// ready.
pub open spec fn initial_model() -> ParserModel {
    ParserModel {
        mode: ParseState::Hunt,
        header_buf: Seq::new(12, |i: int| 0u8),
        header_pos: 0,
        payload_buf: Seq::new(512, |i: int| 0u8),
        payload_pos: 0,
        payload_len: 0,
        discard: 0,
        ready: None,
    }
}

/// The streaming frame parser.
pub struct FrameParser {
    state: ParseState,
    header_buf: [u8; 12],
    header_pos: usize,
    payload_buf: [u8; 512],
    payload_pos: usize,
    payload_len: usize,
    discard_count: usize,
    ready_header: Option<FrameHeader>,
}

impl View for FrameParser {
    type V = ParserModel;

    closed spec fn view(&self) -> ParserModel {
        ParserModel {
            mode: self.state,
            header_buf: self.header_buf@,
            header_pos: self.header_pos as nat,
            payload_buf: self.payload_buf@,
            payload_pos: self.payload_pos as nat,
            payload_len: self.payload_len as nat,
            discard: self.discard_count as nat,
            ready: self.ready_header,
        }
    }
}

impl FrameParser {
    /// The parser's state is consistent.
    pub open spec fn wf(&self) -> bool {
        model_wf(self@)
    }

    /// A parser hunting for its first frame, with zeroed buffers.
    pub fn new() -> (p: FrameParser)
        ensures
            p.wf(),
            p@ == initial_model(),
    {
        let p = FrameParser {
            state: ParseState::Hunt,
            header_buf: [0u8; 12],
            header_pos: 0,
            payload_buf: [0u8; 512],
            payload_pos: 0,
            payload_len: 0,
            discard_count: 0,
            ready_header: None,
        };
        assert(p@.header_buf =~= Seq::new(12, |i: int| 0u8));
        assert(p@.payload_buf =~= Seq::new(512, |i: int| 0u8));
        p
    }

    /// Feeds one byte of the stream (see [`step`]).
    pub fn feed_byte(&mut self, byte: u8) -> (r: FeedResult)
        requires
            old(self).wf(),
        ensures
            final(self).wf(),
            (final(self)@, r) == step(old(self)@, byte),
            r == FeedResult::FrameReady ==> frame_exposed(final(self)@),
    {
        match self.state {
            ParseState::Hunt => {
                if byte == MAGIC0 {
                    self.header_buf[0] = byte;
                    self.header_pos = 1;
                    self.state = ParseState::Magic2;
                }
                FeedResult::NeedMore
            },
            ParseState::Magic2 => {
                if byte == MAGIC1 {
                    self.header_buf[1] = byte;
                    self.header_pos = 2;
                    self.state = ParseState::Header;
                } else if byte == MAGIC0 {
                    self.header_buf[0] = byte;
                    self.header_pos = 1;
                    self.state = ParseState::Magic2;
                } else {
                    self.reset();
                }
                FeedResult::NeedMore
            },
            ParseState::Header => {
                self.header_buf[self.header_pos] = byte;
                self.header_pos = self.header_pos + 1;
                if self.header_pos < HEADER_LEN {
                    return FeedResult::NeedMore;
                }
                let payload_len = read16(self.header_buf.as_slice(), 6) as usize;
                if payload_len > MAX_PAYLOAD_SIZE {
                    self.discard_count = payload_len;
                    self.state = ParseState::Discard;
                    return FeedResult::NeedMore;
                }
                let header = match FrameHeader::parse(&self.header_buf) {
                    Ok(header) => header,
                    Err(err) => {
                        self.reset();
                        return FeedResult::Error(err);
                    },
                };
                self.payload_len = header.len as usize;
                self.payload_pos = 0;
                if self.payload_len == 0 {
                    return self.finish_frame(header);
                }
                self.state = ParseState::Payload;
                FeedResult::NeedMore
            },
            ParseState::Payload => {
                self.payload_buf[self.payload_pos] = byte;
                self.payload_pos = self.payload_pos + 1;
                if self.payload_pos < self.payload_len {
                    return FeedResult::NeedMore;
                }
                let header = match FrameHeader::parse(&self.header_buf) {
                    Ok(header) => header,
                    Err(err) => {
                        self.reset();
                        return FeedResult::Error(err);
                    },
                };
                self.finish_frame(header)
            },
            ParseState::Discard => {
                if self.discard_count > 0 {
                    self.discard_count = self.discard_count - 1;
                }
                if self.discard_count == 0 {
                    self.reset();
                    return FeedResult::Error(ProtocolError::OversizedPayload);
                }
                FeedResult::NeedMore
            },
        }
    }

    /// Hands out the ready frame, if any, and forgets it; its payload is the
    /// first `len` bytes of the payload buffer.
    pub fn take_frame(&mut self) -> (r: Option<ParsedFrame<'_>>)
        requires
            old(self).wf(),
        ensures
            final(self).wf(),
            final(self)@ == (ParserModel { ready: None, ..old(self)@ }),
            old(self)@.ready is None ==> r is None,
            old(self)@.ready matches Some(h) ==> (r matches Some(f) && f.header == h && f.payload@
                == old(self)@.payload_buf.subrange(0, h.len as int)),
    {
        match self.ready_header {
            None => None,
            Some(header) => {
                self.ready_header = None;
                let len = header.len as usize;
                Some(
                    ParsedFrame {
                        header,
                        payload: vstd::slice::slice_subrange(self.payload_buf.as_slice(), 0, len),
                    },
                )
            },
        }
    }

    /// Ends a complete frame (see [`finish_model`]).
    fn finish_frame(&mut self, header: FrameHeader) -> (r: FeedResult)
        requires
            old(self).header_pos == 12,
            old(self).payload_len <= 512,
            old(self).payload_pos <= old(self).payload_len,
            header.len <= 512,
            model_wf(ParserModel { mode: ParseState::Hunt, header_pos: 0, ..old(self)@ }),
        ensures
            final(self).wf(),
            (final(self)@, r) == finish_model(old(self)@, header),
    {
        let payload = vstd::slice::slice_subrange(self.payload_buf.as_slice(), 0, self.payload_len);
        if let Err(err) = validate_frame_crc(&self.header_buf, payload) {
            self.reset();
            return FeedResult::Error(err);
        }
        self.ready_header = Some(header);
        self.state = ParseState::Hunt;
        self.header_pos = 0;
        self.payload_pos = 0;
        self.payload_len = 0;
        FeedResult::FrameReady
    }

    /// Back to hunting, with no frame ready.
    fn reset(&mut self)
        requires
            old(self)@.header_buf.len() == 12,
            old(self)@.payload_buf.len() == 512,
        ensures
            final(self).wf(),
            final(self)@ == reset_model(old(self)@),
    {
        self.state = ParseState::Hunt;
        self.header_pos = 0;
        self.payload_pos = 0;
        self.payload_len = 0;
        self.discard_count = 0;
        self.ready_header = None;
    }
}

impl Default for FrameParser {
    fn default() -> (p: FrameParser)
        ensures
            p.wf(),
            p@ == initial_model(),
    {
        FrameParser::new()
    }
}

/// The parser after feeding the bytes of `s` in order, and what each byte
/// produced.
pub open spec fn feed_seq(m: ParserModel, s: Seq<u8>) -> (ParserModel, Seq<FeedResult>)
    decreases s.len(),
{
    if s.len() == 0 {
        (m, Seq::empty())
    } else {
        let prev = feed_seq(m, s.drop_last());
        let next = step(prev.0, s.last());
        (next.0, prev.1.push(next.1))
    }
}

/// Every byte produced `NeedMore`.
pub open spec fn all_need_more(rs: Seq<FeedResult>) -> bool {
    forall|i: int| 0 <= i < rs.len() ==> rs[i] == FeedResult::NeedMore
}

/// Feeding one more byte of `f`.
proof fn lemma_feed_take_step(m: ParserModel, f: Seq<u8>, k: int)
    requires
        0 <= k < f.len(),
    ensures
        feed_seq(m, f.take(k + 1)) == ({
            let prev = feed_seq(m, f.take(k));
            let next = step(prev.0, f[k]);
            (next.0, prev.1.push(next.1))
        }),
{
    assert(f.take(k + 1).drop_last() =~= f.take(k));
    assert(f.take(k + 1).last() == f[k]);
}

/// The parser is `k` bytes into the header of `f`.
pub open spec fn in_header(m0: ParserModel, f: Seq<u8>, k: int, mk: ParserModel) -> bool {
    &&& mk.mode == ParseState::Header
    &&& mk.header_pos == k
    &&& mk.header_buf.len() == 12
    &&& forall|i: int| 0 <= i < k ==> mk.header_buf[i] == f[i]
    &&& mk.payload_buf == m0.payload_buf
    &&& mk.ready == m0.ready
    &&& mk.payload_pos == m0.payload_pos
    &&& mk.payload_len == m0.payload_len
}

/// From hunting, the first `k` bytes of a frame that starts with the magic
/// bring the parser `k` bytes into its header, producing `NeedMore` each.
proof fn lemma_header_phase(m0: ParserModel, f: Seq<u8>, k: int)
    requires
        model_wf(m0),
        m0.mode == ParseState::Hunt,
        f.len() >= 12,
        f[0] == 0x48,
        f[1] == 0x55,
        2 <= k <= 11,
    ensures
        in_header(m0, f, k, feed_seq(m0, f.take(k)).0),
        all_need_more(feed_seq(m0, f.take(k)).1),
        feed_seq(m0, f.take(k)).1.len() == k,
    decreases k,
{
    if k == 2 {
        assert(f.take(0) =~= Seq::<u8>::empty());
        lemma_feed_take_step(m0, f, 0);
        lemma_feed_take_step(m0, f, 1);
    } else {
        lemma_header_phase(m0, f, k - 1);
        lemma_feed_take_step(m0, f, k - 1);
    }
}

/// The parser is `k - 12` bytes into the payload of `f`, whose header has
/// been accepted as `h`.
pub open spec fn in_payload(m0: ParserModel, f: Seq<u8>, h: FrameHeader, k: int, mk: ParserModel) -> bool {
    &&& mk.mode == ParseState::Payload
    &&& mk.header_pos == 12
    &&& mk.header_buf == f.take(12)
    &&& mk.payload_len == h.len
    &&& mk.payload_pos == k - 12
    &&& mk.payload_buf.len() == 512
    &&& forall|i: int| 0 <= i < k - 12 ==> mk.payload_buf[i] == f[12 + i]
    &&& mk.ready == m0.ready
}

/// The twelfth byte completes the header.
proof fn lemma_header_done(m0: ParserModel, f: Seq<u8>)
    requires
        model_wf(m0),
        m0.mode == ParseState::Hunt,
        f.len() >= 12,
        f[0] == 0x48,
        f[1] == 0x55,
    ensures
        ({
            let (m12, rs) = feed_seq(m0, f.take(12));
            let hb = f.take(12);
            &&& rs.len() == 12
            &&& forall|i: int| 0 <= i < 11 ==> rs[i] == FeedResult::NeedMore
            &&& m12.header_buf == hb
            &&& m12.payload_buf == m0.payload_buf
            &&& get16(hb, 6) > 512 ==> rs[11] == FeedResult::NeedMore && m12.mode
                == ParseState::Discard && m12.discard == get16(hb, 6)
            &&& get16(hb, 6) <= 512 ==> match parse_header(hb) {
                Err(e) => rs[11] == FeedResult::Error(e) && m12 == reset_model(m12),
                Ok(h) => if h.len == 0 {
                    (m12, rs[11]) == finish_model(
                        ParserModel {
                            header_buf: hb,
                            header_pos: 12,
                            payload_len: 0,
                            payload_pos: 0,
                            ..feed_seq(m0, f.take(11)).0
                        },
                        h,
                    )
                } else {
                    rs[11] == FeedResult::NeedMore && in_payload(m0, f, h, 12, m12)
                },
            }
        }),
{
    lemma_header_phase(m0, f, 11);
    lemma_feed_take_step(m0, f, 11);
    let m11 = feed_seq(m0, f.take(11)).0;
    assert(m11.header_buf.update(11, f[11]) =~= f.take(12));
}

/// Reading a frame: from hunting, the bytes of a frame whose header is
/// accepted produce `NeedMore` for all but the last byte. The last byte
/// produces `FrameReady` when the CRC matches, and the ready frame is the
/// header with the frame's payload in the payload buffer; otherwise it
/// produces `Error(CrcMismatch)` and no frame is ready. Either way the
/// parser is hunting again.
pub proof fn lemma_parser_reads_frame(m0: ParserModel, f: Seq<u8>)
    requires
        model_wf(m0),
        m0.mode == ParseState::Hunt,
        f.len() >= 12,
        parse_header(f.take(12)) is Ok,
        f.len() == 12 + parse_header(f.take(12))->Ok_0.len,
    ensures
        ({
            let (m2, rs) = feed_seq(m0, f);
            let h = parse_header(f.take(12))->Ok_0;
            &&& rs.len() == f.len()
            &&& forall|i: int| 0 <= i < f.len() - 1 ==> rs[i] == FeedResult::NeedMore
            &&& m2.mode == ParseState::Hunt
            &&& model_wf(m2)
            &&& crc_matches(f.take(12), f.skip(12)) ==> rs.last() == FeedResult::FrameReady
                && m2.ready == Some(h) && m2.payload_buf.subrange(0, h.len as int) == f.skip(12)
            &&& !crc_matches(f.take(12), f.skip(12)) ==> rs.last() == FeedResult::Error(
                ProtocolError::CrcMismatch,
            ) && m2.ready is None
        }),
{
    let hb = f.take(12);
    let h = parse_header(hb)->Ok_0;
    assert(hb[0] == f[0] && hb[1] == f[1]);
    lemma_header_done(m0, f);
    let len = h.len as int;
    if len == 0 {
        assert(f.take(12) =~= f);
        assert(f.skip(12) =~= Seq::<u8>::empty());
        assert(m0.payload_buf.subrange(0, 0) =~= Seq::<u8>::empty());
    } else {
        lemma_payload_phase(m0, f, h, f.len() - 1);
        lemma_feed_take_step(m0, f, f.len() - 1);
        assert(f.take(f.len() as int) =~= f);
        let mk = feed_seq(m0, f.take(f.len() - 1)).0;
        let pb = mk.payload_buf.update(mk.payload_pos as int, f[f.len() - 1]);
        assert(pb.subrange(0, len) =~= f.skip(12));
    }
}

/// The payload bytes of an accepted header are collected one by one.
proof fn lemma_payload_phase(m0: ParserModel, f: Seq<u8>, h: FrameHeader, k: int)
    requires
        model_wf(m0),
        m0.mode == ParseState::Hunt,
        f.len() >= 12,
        parse_header(f.take(12)) == Ok::<FrameHeader, ProtocolError>(h),
        f.len() == 12 + h.len,
        h.len > 0,
        12 <= k < f.len(),
    ensures
        in_payload(m0, f, h, k, feed_seq(m0, f.take(k)).0),
        all_need_more(feed_seq(m0, f.take(k)).1),
        feed_seq(m0, f.take(k)).1.len() == k,
    decreases k,
{
    let hb = f.take(12);
    assert(hb[0] == f[0] && hb[1] == f[1]);
    if k == 12 {
        lemma_header_done(m0, f);
    } else {
        lemma_payload_phase(m0, f, h, k - 1);
        lemma_feed_take_step(m0, f, k - 1);
    }
}

/// What the writer writes, the reader reads: from hunting, feeding the bytes
/// of an encoded frame produces `NeedMore` for all but the last byte and
/// `FrameReady` for the last; the ready frame has the type, flags, sequence
/// number and payload that were encoded, and the parser hunts again.
pub proof fn lemma_encoded_frame_is_read(
    m0: ParserModel,
    t: crate::wire::MessageType,
    flags: u8,
    seq: u16,
    payload: Seq<u8>,
)
    requires
        model_wf(m0),
        m0.mode == ParseState::Hunt,
        payload.len() <= 512,
        flags & 0xC1u8 == 0,
    ensures
        ({
            let f = crate::frame::frame_bytes(t, flags, seq, payload);
            let (m2, rs) = feed_seq(m0, f);
            &&& rs.len() == f.len()
            &&& forall|i: int| 0 <= i < f.len() - 1 ==> rs[i] == FeedResult::NeedMore
            &&& rs.last() == FeedResult::FrameReady
            &&& m2.mode == ParseState::Hunt
            &&& model_wf(m2)
            &&& m2.ready matches Some(h) && h.msg_type == t && h.flags == flags && h.seq == seq
                && h.len == payload.len() && h.version == 0
            &&& m2.payload_buf.subrange(0, payload.len() as int) == payload
        }),
{
    let f = crate::frame::frame_bytes(t, flags, seq, payload);
    crate::frame::lemma_frame_header_roundtrip(t, flags, seq, payload);
    assert(f.take(12) =~= f.subrange(0, 12));
    assert(f.skip(12) =~= f.subrange(12, f.len() as int));
    assert(f.skip(12) =~= payload);
    lemma_parser_reads_frame(m0, f);
}

/// A header that is rejected ends the frame at its twelfth byte: from
/// hunting, the twelve bytes produce `NeedMore` eleven times, then the
/// header's error, and the parser hunts again with no frame ready.
pub proof fn lemma_parser_rejects_header(m0: ParserModel, f: Seq<u8>)
    requires
        model_wf(m0),
        m0.mode == ParseState::Hunt,
        f.len() == 12,
        f[0] == 0x48,
        f[1] == 0x55,
        get16(f, 6) <= 512,
        parse_header(f) is Err,
    ensures
        ({
            let (m2, rs) = feed_seq(m0, f);
            &&& rs.len() == 12
            &&& forall|i: int| 0 <= i < 11 ==> rs[i] == FeedResult::NeedMore
            &&& rs[11] == FeedResult::Error(parse_header(f)->Err_0)
            &&& m2.mode == ParseState::Hunt
            &&& m2.ready is None
            &&& model_wf(m2)
        }),
{
    lemma_header_done(m0, f);
    assert(f.take(12) =~= f);
}

/// The parser is `k - 12` bytes into the payload of an oversized frame,
/// skipping it.
pub open spec fn in_discard(f: Seq<u8>, k: int, mk: ParserModel) -> bool {
    &&& mk.mode == ParseState::Discard
    &&& mk.discard == get16(f.take(12), 6) - (k - 12)
    &&& mk.header_pos == 12
    &&& mk.header_buf.len() == 12
    &&& mk.payload_buf.len() == 512
    &&& mk.payload_pos <= mk.payload_len <= 512
}

/// The payload of an oversized frame is skipped byte by byte.
proof fn lemma_discard_phase(m0: ParserModel, f: Seq<u8>, k: int)
    requires
        model_wf(m0),
        m0.mode == ParseState::Hunt,
        f.len() >= 12,
        f[0] == 0x48,
        f[1] == 0x55,
        get16(f.take(12), 6) > 512,
        f.len() == 12 + get16(f.take(12), 6),
        12 <= k < f.len(),
    ensures
        in_discard(f, k, feed_seq(m0, f.take(k)).0),
        all_need_more(feed_seq(m0, f.take(k)).1),
        feed_seq(m0, f.take(k)).1.len() == k,
    decreases k,
{
    if k == 12 {
        lemma_header_phase(m0, f, 11);
        lemma_feed_take_step(m0, f, 11);
        let m11 = feed_seq(m0, f.take(11)).0;
        assert(m11.header_buf.update(11, f[11]) =~= f.take(12));
    } else {
        lemma_discard_phase(m0, f, k - 1);
        lemma_feed_take_step(m0, f, k - 1);
    }
}

/// A frame that declares a payload longer than the maximum is skipped whole:
/// from hunting, its header and the declared number of payload bytes produce
/// `NeedMore`, except the last, which produces `Error(OversizedPayload)`; the
/// parser then hunts again with no frame ready. Bytes inside the skipped
/// payload are never taken for a frame.
pub proof fn lemma_parser_skips_oversized(m0: ParserModel, f: Seq<u8>)
    requires
        model_wf(m0),
        m0.mode == ParseState::Hunt,
        f.len() >= 12,
        f[0] == 0x48,
        f[1] == 0x55,
        get16(f.take(12), 6) > 512,
        f.len() == 12 + get16(f.take(12), 6),
    ensures
        ({
            let (m2, rs) = feed_seq(m0, f);
            &&& rs.len() == f.len()
            &&& forall|i: int| 0 <= i < f.len() - 1 ==> rs[i] == FeedResult::NeedMore
            &&& rs.last() == FeedResult::Error(ProtocolError::OversizedPayload)
            &&& m2.mode == ParseState::Hunt
            &&& m2.ready is None
            &&& model_wf(m2)
        }),
{
    lemma_discard_phase(m0, f, f.len() - 1);
    lemma_feed_take_step(m0, f, f.len() - 1);
    assert(f.take(f.len() as int) =~= f);
}

/// A stream may arrive in any pieces: feeding `a` and then `b` gives the
/// same state, and the same results in the same order, as feeding `a + b`.
pub proof fn lemma_feed_seq_append(m: ParserModel, a: Seq<u8>, b: Seq<u8>)
    ensures
        feed_seq(m, a + b) == ({
            let (ma, ra) = feed_seq(m, a);
            let (mb, rb) = feed_seq(ma, b);
            (mb, ra + rb)
        }),
    decreases b.len(),
{
    let (ma, ra) = feed_seq(m, a);
    if b.len() == 0 {
        assert(a + b =~= a);
        assert(ra + Seq::<FeedResult>::empty() =~= ra);
    } else {
        lemma_feed_seq_append(m, a, b.drop_last());
        assert((a + b).drop_last() =~= a + b.drop_last());
        assert((a + b).last() == b.last());
        let rb0 = feed_seq(ma, b.drop_last()).1;
        let x = step(feed_seq(ma, b.drop_last()).0, b.last()).1;
        assert((ra + rb0).push(x) =~= ra + rb0.push(x));
    }
}

/// From hunting, bytes that are not `'H'` change nothing and each produce
/// `NeedMore`.
proof fn lemma_noise_keeps_hunting(m: ParserModel, g: Seq<u8>)
    requires
        m.mode == ParseState::Hunt,
        forall|i: int| 0 <= i < g.len() ==> #[trigger] g[i] != 0x48,
    ensures
        feed_seq(m, g) == (m, Seq::new(g.len(), |i: int| FeedResult::NeedMore)),
    decreases g.len(),
{
    if g.len() > 0 {
        let g0 = g.drop_last();
        assert forall|i: int| 0 <= i < g0.len() implies #[trigger] g0[i] != 0x48 by {
            assert(g0[i] == g[i]);
        }
        lemma_noise_keeps_hunting(m, g0);
        assert(g.last() == g[g.len() - 1]);
        assert(Seq::new(g0.len(), |i: int| FeedResult::NeedMore).push(FeedResult::NeedMore)
            =~= Seq::new(g.len(), |i: int| FeedResult::NeedMore));
    } else {
        assert(Seq::new(0, |i: int| FeedResult::NeedMore) =~= Seq::<FeedResult>::empty());
    }
}

/// The parser after an `'H'` seen while hunting in `m`.
pub open spec fn after_h(m: ParserModel) -> ParserModel {
    ParserModel { mode: ParseState::Magic2, header_buf: m.header_buf.update(0, 0x48), header_pos: 1, ..m }
}

/// From hunting, a run of `'H'`s leaves the parser just after one `'H'`.
proof fn lemma_h_run(m: ParserModel, k: nat)
    requires
        model_wf(m),
        m.mode == ParseState::Hunt,
        k > 0,
    ensures
        feed_seq(m, Seq::new(k, |i: int| 0x48u8)) == (after_h(m), Seq::new(k, |i: int| FeedResult::NeedMore)),
    decreases k,
{
    let hs = Seq::new(k, |i: int| 0x48u8);
    let prev = feed_seq(m, hs.drop_last());
    assert(hs.last() == 0x48u8);
    assert(feed_seq(m, hs) == (step(prev.0, 0x48u8).0, prev.1.push(step(prev.0, 0x48u8).1)));
    if k == 1 {
        assert(hs.drop_last() =~= Seq::<u8>::empty());
        assert(feed_seq(m, Seq::<u8>::empty()) == (m, Seq::<FeedResult>::empty()));
        assert(prev == (m, Seq::<FeedResult>::empty()));
        assert(step(m, 0x48u8).0 == after_h(m));
        assert(Seq::<FeedResult>::empty().push(FeedResult::NeedMore) =~= Seq::new(1, |i: int| FeedResult::NeedMore));
    } else {
        lemma_h_run(m, (k - 1) as nat);
        assert(hs.drop_last() =~= Seq::new((k - 1) as nat, |i: int| 0x48u8));
        assert(prev == (after_h(m), Seq::new((k - 1) as nat, |i: int| FeedResult::NeedMore)));
        assert(after_h(m).header_buf.update(0, 0x48) =~= after_h(m).header_buf);
        assert(step(after_h(m), 0x48u8).0 == after_h(m));
        assert(Seq::new((k - 1) as nat, |i: int| FeedResult::NeedMore).push(FeedResult::NeedMore)
            =~= Seq::new(k, |i: int| FeedResult::NeedMore));
    }
}

/// The parser hunts for the magic: from hunting, bytes that are not `'H'`,
/// then any number of `'H'`s, then a frame that starts with `'H'`, produce
/// `NeedMore` for every byte before the frame, and the frame is read
/// exactly as it would have been without them: same results, same final
/// state.
pub proof fn lemma_parser_skips_noise(m0: ParserModel, g: Seq<u8>, k: nat, f: Seq<u8>)
    requires
        model_wf(m0),
        m0.mode == ParseState::Hunt,
        forall|i: int| 0 <= i < g.len() ==> #[trigger] g[i] != 0x48,
        f.len() > 0,
        f[0] == 0x48,
    ensures
        ({
            let pre = g + Seq::new(k, |i: int| 0x48u8);
            let (m2, rs) = feed_seq(m0, pre + f);
            let (m3, rs3) = feed_seq(m0, f);
            &&& m2 == m3
            &&& rs == Seq::new(pre.len(), |i: int| FeedResult::NeedMore) + rs3
        }),
{
    let hs = Seq::new(k, |i: int| 0x48u8);
    let pre = g + hs;
    let ng = Seq::new(g.len(), |i: int| FeedResult::NeedMore);
    lemma_noise_keeps_hunting(m0, g);
    lemma_feed_seq_append(m0, g, hs);
    lemma_feed_seq_append(m0, pre, f);
    let first = f.take(1);
    let rest = f.skip(1);
    assert(first + rest =~= f);
    assert(first.last() == 0x48u8);
    assert(first.drop_last() =~= Seq::<u8>::empty());
    assert(feed_seq(m0, Seq::<u8>::empty()) == (m0, Seq::<FeedResult>::empty()));
    lemma_feed_seq_append(m0, first, rest);
    assert(feed_seq(m0, first) == (after_h(m0), seq![FeedResult::NeedMore]));
    let (mb, rb) = feed_seq(m0, hs);
    if k == 0 {
        assert(hs =~= Seq::<u8>::empty());
        assert((mb, rb) == (m0, Seq::<FeedResult>::empty()));
        assert(ng + rb =~= Seq::new(pre.len(), |i: int| FeedResult::NeedMore));
    } else {
        lemma_h_run(m0, k);
        assert((mb, rb) == (after_h(m0), Seq::new(k, |i: int| FeedResult::NeedMore)));
        assert(ng + rb =~= Seq::new(pre.len(), |i: int| FeedResult::NeedMore));
        assert(feed_seq(after_h(m0), Seq::<u8>::empty()) == (after_h(m0), Seq::<FeedResult>::empty()));
        assert(after_h(m0).header_buf.update(0, 0x48) =~= after_h(m0).header_buf);
        assert(step(after_h(m0), 0x48u8).0 == after_h(m0));
        assert(feed_seq(after_h(m0), first) == (after_h(m0), seq![FeedResult::NeedMore]));
        lemma_feed_seq_append(after_h(m0), first, rest);
        assert(feed_seq(mb, f) == feed_seq(m0, f));
    }
}

/// Recovery after an oversized frame: from hunting, a frame that declares
/// more than 512 payload bytes, followed by the declared number of bytes
/// (whatever they hold, frames included) and then an encoded frame, yields
/// `NeedMore` up to the oversized frame's last byte, `Error(OversizedPayload)`
/// there, `NeedMore` through the encoded frame but its last byte, and
/// `FrameReady` on that, with the encoded frame ready.
pub proof fn lemma_parser_recovers_after_oversized(
    m0: ParserModel,
    f: Seq<u8>,
    t: crate::wire::MessageType,
    flags: u8,
    seq: u16,
    payload: Seq<u8>,
)
    requires
        model_wf(m0),
        m0.mode == ParseState::Hunt,
        f.len() >= 12,
        f[0] == 0x48,
        f[1] == 0x55,
        get16(f.take(12), 6) > 512,
        f.len() == 12 + get16(f.take(12), 6),
        payload.len() <= 512,
        flags & 0xC1u8 == 0,
    ensures
        ({
            let g = crate::frame::frame_bytes(t, flags, seq, payload);
            let (m2, rs) = feed_seq(m0, f + g);
            &&& rs.len() == f.len() + g.len()
            &&& forall|i: int| 0 <= i < f.len() - 1 ==> rs[i] == FeedResult::NeedMore
            &&& rs[f.len() - 1] == FeedResult::Error(ProtocolError::OversizedPayload)
            &&& forall|i: int| f.len() <= i < f.len() + g.len() - 1 ==> rs[i] == FeedResult::NeedMore
            &&& rs.last() == FeedResult::FrameReady
            &&& m2.mode == ParseState::Hunt
            &&& m2.ready matches Some(h) && h.msg_type == t && h.flags == flags && h.seq == seq
                && h.len == payload.len()
            &&& m2.payload_buf.subrange(0, payload.len() as int) == payload
        }),
{
    let g = crate::frame::frame_bytes(t, flags, seq, payload);
    lemma_parser_skips_oversized(m0, f);
    let (m1, r1) = feed_seq(m0, f);
    lemma_encoded_frame_is_read(m1, t, flags, seq, payload);
    lemma_feed_seq_append(m0, f, g);
    let (m2, r2) = feed_seq(m1, g);
    assert forall|i: int| f.len() <= i < f.len() + g.len() - 1 implies (r1 + r2)[i]
        == FeedResult::NeedMore by {
        assert((r1 + r2)[i] == r2[i - f.len()]);
    }
    assert forall|i: int| 0 <= i < f.len() - 1 implies (r1 + r2)[i] == FeedResult::NeedMore by {
        assert((r1 + r2)[i] == r1[i]);
    }
    assert((r1 + r2)[f.len() - 1] == r1[f.len() - 1]);
    assert((r1 + r2).last() == r2.last());
}

} // verus!
