//! Wrapping sequence numbers: the signed distance between two of them and a
//! tracker that classifies each received number.
use vstd::prelude::*;

verus! {

/// The signed distance from `expected` to `received` on the 16-bit circle,
/// in `-32768..=32767`.
pub open spec fn seq_delta(received: u16, expected: u16) -> int {
    let d = (received - expected) % 65536;
    if d < 32768 {
        d
    } else {
        d - 65536
    }
}

/// The number after `n`, wrapping from `u16::MAX` to zero.
pub open spec fn seq_next(n: u16) -> u16 {
    ((n + 1) % 65536) as u16
}

/// The signed distance from `expected` to `received`: `received - expected`
/// taken modulo 2^16 and read as an `i16`.
pub fn seq_distance(received: u16, expected: u16) -> (d: i16)
    ensures
        d == seq_delta(received, expected),
{
    let w = received.wrapping_sub(expected);
    assert(w == (received - expected) % 65536);
    let d = w as i16;
    assert(w < 0x8000u16 ==> d == w) by (bit_vector)
        requires
            d == w as i16,
    ;
    assert(w >= 0x8000u16 ==> d == w - 65536) by (bit_vector)
        requires
            d == w as i16,
    ;
    d
}

/// How a received sequence number relates to the expected one.
#[derive(Debug, Clone, Copy, PartialEq, Eq, Structural)]
pub enum SeqStatus {
    /// The number was the expected one.
    Expected,
    /// The number lies ahead of the expected one: frames were lost.
    Gap { expected: u16, received: u16 },
    /// The number lies behind the expected one: a frame came again.
    Duplicate { expected: u16, received: u16 },
}

/// Tracks the next sequence number a receiver expects.
#[derive(Debug, Clone, Copy, PartialEq, Eq, Structural)]
pub struct SeqTracker {
    expected: u16,
}

impl View for SeqTracker {
    type V = u16;

    /// The sequence number expected next.
    closed spec fn view(&self) -> u16 {
        self.expected
    }
}

impl SeqTracker {
    /// A tracker that expects `initial` first.
    pub fn new(initial: u16) -> (t: SeqTracker)
        ensures
            t@ == initial,
    {
        SeqTracker { expected: initial }
    }

    /// The sequence number expected next.
    pub fn expected(&self) -> (e: u16)
        ensures
            e == self@,
    {
        self.expected
    }

    /// Classifies `received`. Only the expected number advances the tracker,
    /// by one with wrap-around; a number ahead of it (by up to 32767) is a
    /// gap, one behind it (by up to 32768) a duplicate.
    pub fn observe(&mut self, received: u16) -> (s: SeqStatus)
        ensures
            received == old(self)@ ==> s == SeqStatus::Expected && final(self)@ == seq_next(
                old(self)@,
            ),
            seq_delta(received, old(self)@) > 0 ==> s == (SeqStatus::Gap {
                expected: old(self)@,
                received,
            }) && final(self)@ == old(self)@,
            seq_delta(received, old(self)@) < 0 ==> s == (SeqStatus::Duplicate {
                expected: old(self)@,
                received,
            }) && final(self)@ == old(self)@,
    {
        let distance = seq_distance(received, self.expected);
        if distance == 0 {
            self.expected = self.expected.wrapping_add(1);
            SeqStatus::Expected
        } else if distance > 0 {
            SeqStatus::Gap { expected: self.expected, received }
        } else {
            SeqStatus::Duplicate { expected: self.expected, received }
        }
    }
}

/// The distance is zero exactly when the two numbers are equal, and the
/// number after `n` lies one ahead of it, across the wrap too.
pub proof fn lemma_seq_delta_basics(received: u16, expected: u16)
    ensures
        seq_delta(received, expected) == 0 <==> received == expected,
        seq_delta(seq_next(expected), expected) == 1,
        -32768 <= seq_delta(received, expected) <= 32767,
{
}

} // verus!
