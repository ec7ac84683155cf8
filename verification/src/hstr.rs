//! `HStr`: a fixed-capacity string held inline, always valid UTF-8.
use vstd::prelude::*;
use vstd::string::StringSliceAdditionalSpecFns;
use vstd::utf8::valid_utf8;
use crate::le::write_at;

verus! {

/// Capacity of the strings in the media state.
pub const HUE_STRING_LEN: usize = 64;

/// The string type of the media state.
pub type HString = HStr<64>;

/// Wraps `core::str::from_utf8`. Its documentation says that it returns the
/// string slice when `bytes` is valid UTF-8 and an error otherwise; the
/// contract claims exactly that, with validity as vstd's `valid_utf8`.
#[verifier::external_body]
pub(crate) fn str_from_utf8(bytes: &[u8]) -> (r: Option<&str>)
    ensures
        r is Some <==> valid_utf8(bytes@),
        r matches Some(s) ==> s.spec_bytes() == bytes@,
{
    core::str::from_utf8(bytes).ok()
}

/// `n` is the length of the longest prefix of `s` that is valid UTF-8.
pub open spec fn longest_valid_prefix(s: Seq<u8>, n: int) -> bool {
    &&& 0 <= n <= s.len()
    &&& valid_utf8(s.subrange(0, n))
    &&& forall|m: int| n < m <= s.len() ==> !valid_utf8(#[trigger] s.subrange(0, m))
}

/// There is exactly one longest valid prefix.
pub proof fn lemma_longest_valid_prefix_unique(s: Seq<u8>, n1: int, n2: int)
    requires
        longest_valid_prefix(s, n1),
        longest_valid_prefix(s, n2),
    ensures
        n1 == n2,
{
}

/// Errors of the checked setters of [`HStr`].
#[derive(Debug, Clone, Copy, PartialEq, Eq, Structural)]
pub enum HStrError {
    UTF8Error,
    TooLong,
}

/// The description of an [`HStrError`].
pub open spec fn hstr_error_text(e: HStrError) -> Seq<char> {
    match e {
        HStrError::UTF8Error => "utf8 error"@,
        HStrError::TooLong => "too long"@,
    }
}

impl HStrError {
    /// A short description of the error.
    pub fn message(self) -> (m: &'static str)
        ensures
            m@ == hstr_error_text(self),
    {
        match self {
            HStrError::UTF8Error => "utf8 error",
            HStrError::TooLong => "too long",
        }
    }
}

/// A string of at most `CAP` (and at most 255) bytes held inline. The first
/// `len` bytes of `buf` are the string; the rest of `buf` is unused.
#[derive(Clone, Copy, Debug)]
pub struct HStr<const CAP: usize> {
    buf: [u8; CAP],
    len: u8,
}

impl<const CAP: usize> HStr<CAP> {
    /// The stored prefix is within the buffer and is valid UTF-8.
    #[verifier::type_invariant]
    closed spec fn inv(self) -> bool {
        &&& self.len as int <= CAP
        &&& valid_utf8(self.buf@.subrange(0, self.len as int))
    }

    /// The whole buffer, used bytes and unused ones.
    pub closed spec fn raw_buf(self) -> Seq<u8> {
        self.buf@
    }

    /// A zeroed buffer with `s` written at its start.
    pub open spec fn fresh_buf(s: Seq<u8>) -> Seq<u8> {
        write_at(Seq::new(CAP as nat, |i: int| 0u8), 0, s)
    }

    /// The largest length that this string type can hold.
    pub open spec fn limit() -> int {
        if CAP < 255 {
            CAP as int
        } else {
            255
        }
    }
}

impl<const CAP: usize> View for HStr<CAP> {
    type V = Seq<u8>;

    closed spec fn view(&self) -> Seq<u8> {
        self.buf@.subrange(0, self.len as int)
    }
}

impl<const CAP: usize> HStr<CAP> {
    /// The empty string.
    pub fn new() -> (s: Self)
        ensures
            s@ == Seq::<u8>::empty(),
            s.raw_buf() == Seq::new(CAP as nat, |i: int| 0u8),
    {
        let s = HStr { buf: [0u8; CAP], len: 0 };
        assert(s.buf@.subrange(0, 0) =~= Seq::<u8>::empty());
        assert(s.buf@ =~= Seq::new(CAP as nat, |i: int| 0u8));
        s
    }

    /// The string made of the longest valid UTF-8 prefix of `value` that fits.
    pub fn from_str(value: &str) -> (s: Self)
        ensures
            longest_valid_prefix(value.spec_bytes().subrange(0, min(value.spec_bytes().len() as int, Self::limit())), s@.len() as int),
            s@ == value.spec_bytes().subrange(0, s@.len() as int),
            s.raw_buf() == Self::fresh_buf(s@),
    {
        let mut out = Self::new();
        out.truncate(value.as_bytes());
        out
    }

    /// The string made of the longest valid UTF-8 prefix of `bytes` that fits.
    pub fn from_bytes(bytes: &[u8]) -> (s: Self)
        ensures
            longest_valid_prefix(bytes@.subrange(0, min(bytes@.len() as int, Self::limit())), s@.len() as int),
            s@ == bytes@.subrange(0, s@.len() as int),
            s.raw_buf() == Self::fresh_buf(s@),
    {
        let mut out = Self::new();
        out.truncate(bytes);
        out
    }

    /// Replaces the string with the longest valid UTF-8 prefix of `bytes`
    /// that fits in the capacity (cutting at a character boundary).
    pub fn truncate(&mut self, bytes: &[u8])
        ensures
            longest_valid_prefix(bytes@.subrange(0, min(bytes@.len() as int, Self::limit())), final(self)@.len() as int),
            final(self)@ == bytes@.subrange(0, final(self)@.len() as int),
            final(self).raw_buf() == write_at(old(self).raw_buf(), 0, final(self)@),
    {
        let mut lim = bytes.len();
        if lim > CAP {
            lim = CAP;
        }
        if lim > 255 {
            lim = 255;
        }
        let ghost s = bytes@.subrange(0, lim as int);
        let mut n = lim;
        loop
            invariant
                n <= lim,
                lim <= bytes@.len(),
                lim <= CAP,
                lim <= 255,
                s == bytes@.subrange(0, lim as int),
                forall|m: int| n < m <= s.len() ==> !valid_utf8(#[trigger] s.subrange(0, m)),
            ensures
                longest_valid_prefix(s, n as int),
            decreases n,
        {
            let prefix = vstd::slice::slice_subrange(bytes, 0, n);
            assert(prefix@ =~= s.subrange(0, n as int));
            if str_from_utf8(prefix).is_some() {
                break;
            }
            if n == 0 {
                assert(s.subrange(0, 0) =~= Seq::<u8>::empty());
                break;
            }
            n = n - 1;
        }
        assert(bytes@.subrange(0, n as int) =~= s.subrange(0, n as int));
        self.store(bytes, n);
    }

    /// Copies `bytes[..n]` in as the new content.
    fn store(&mut self, bytes: &[u8], n: usize)
        requires
            n <= bytes@.len(),
            n <= CAP,
            n <= 255,
            valid_utf8(bytes@.subrange(0, n as int)),
        ensures
            final(self)@ == bytes@.subrange(0, n as int),
            final(self).raw_buf() == write_at(old(self).raw_buf(), 0, bytes@.subrange(0, n as int)),
    {
        self.len = 0;
        proof {
            assert(self.buf@.subrange(0, 0) =~= Seq::<u8>::empty());
        }
        let mut k: usize = 0;
        while k < n
            invariant
                k <= n,
                n <= bytes@.len(),
                n <= CAP,
                self.len == 0,
                self.buf@.len() == CAP,
                forall|i: int| 0 <= i < k ==> self.buf@[i] == bytes@[i],
                forall|i: int| k <= i < CAP ==> self.buf@[i] == old(self).buf@[i],
            decreases n - k,
        {
            self.buf[k] = bytes[k];
            assert(self.buf@.subrange(0, 0) =~= Seq::<u8>::empty());
            k = k + 1;
        }
        assert(self.buf@.subrange(0, n as int) =~= bytes@.subrange(0, n as int));
        assert(self.buf@ =~= write_at(old(self).buf@, 0, bytes@.subrange(0, n as int)));
        self.len = n as u8;
    }

    /// The string holding `value`, or the reason it cannot.
    pub fn try_from_str(value: &str) -> (r: Result<Self, HStrError>)
        ensures
            value.spec_bytes().len() > Self::limit() ==> r == Err::<Self, HStrError>(HStrError::TooLong),
            value.spec_bytes().len() <= Self::limit() ==> (r matches Ok(s) && s@ == value.spec_bytes()
                && s.raw_buf() == Self::fresh_buf(s@)),
    {
        proof {
            vstd::utf8::encode_utf8_valid_utf8(value@);
        }
        let mut out = Self::new();
        match out.set(value.as_bytes()) {
            Ok(()) => Ok(out),
            Err(e) => Err(e),
        }
    }

    /// The string holding `bytes`, or the reason it cannot.
    pub fn try_from_bytes(bytes: &[u8]) -> (r: Result<Self, HStrError>)
        ensures
            bytes@.len() > Self::limit() ==> r == Err::<Self, HStrError>(HStrError::TooLong),
            bytes@.len() <= Self::limit() && !valid_utf8(bytes@) ==> r == Err::<Self, HStrError>(
                HStrError::UTF8Error,
            ),
            bytes@.len() <= Self::limit() && valid_utf8(bytes@) ==> (r matches Ok(s) && s@ == bytes@
                && s.raw_buf() == Self::fresh_buf(s@)),
    {
        let mut out = Self::new();
        match out.set(bytes) {
            Ok(()) => Ok(out),
            Err(e) => Err(e),
        }
    }

    /// Replaces the content with `bytes` when they fit and are valid UTF-8;
    /// otherwise leaves the string unchanged and reports why.
    pub fn set(&mut self, bytes: &[u8]) -> (r: Result<(), HStrError>)
        ensures
            bytes@.len() > Self::limit() ==> r == Err::<(), HStrError>(HStrError::TooLong),
            bytes@.len() <= Self::limit() && !valid_utf8(bytes@) ==> r == Err::<(), HStrError>(
                HStrError::UTF8Error,
            ),
            bytes@.len() <= Self::limit() && valid_utf8(bytes@) ==> r is Ok,
            r is Ok ==> final(self)@ == bytes@ && final(self).raw_buf() == write_at(
                old(self).raw_buf(),
                0,
                bytes@,
            ),
            r is Err ==> *final(self) == *old(self),
    {
        if bytes.len() > CAP || bytes.len() > 255 {
            return Err(HStrError::TooLong);
        }
        if str_from_utf8(bytes).is_none() {
            return Err(HStrError::UTF8Error);
        }
        assert(bytes@.subrange(0, bytes@.len() as int) =~= bytes@);
        self.store(bytes, bytes.len());
        Ok(())
    }

    /// Empties the string.
    pub fn clear(&mut self)
        ensures
            final(self)@ == Seq::<u8>::empty(),
            final(self).raw_buf() == old(self).raw_buf(),
    {
        self.len = 0;
        assert(self.buf@.subrange(0, 0) =~= Seq::<u8>::empty());
    }

    /// The length in bytes.
    pub fn len(&self) -> (n: usize)
        ensures
            n == self@.len(),
            n <= Self::limit(),
    {
        proof {
            use_type_invariant(self);
        }
        self.len as usize
    }

    /// Whether the string is empty.
    pub fn is_empty(&self) -> (b: bool)
        ensures
            b <==> self@.len() == 0,
    {
        proof {
            use_type_invariant(self);
        }
        self.len == 0
    }

    /// The bytes of the string.
    pub fn as_bytes(&self) -> (b: &[u8])
        ensures
            b@ == self@,
            b@.len() <= Self::limit(),
            valid_utf8(b@),
    {
        proof {
            use_type_invariant(self);
        }
        vstd::slice::slice_subrange(self.buf.as_slice(), 0, self.len as usize)
    }

    /// The string as `&str`.
    pub fn as_str(&self) -> (s: &str)
        ensures
            s.spec_bytes() == self@,
    {
        proof {
            use_type_invariant(self);
        }
        let b = self.as_bytes();
        match str_from_utf8(b) {
            Some(s) => s,
            None => "",
        }
    }

    /// Whether both strings have the same length and the same whole buffer.
    pub fn same_as(&self, other: &Self) -> (b: bool)
        ensures
            b <==> (self@ == other@ && self.raw_buf() == other.raw_buf()),
    {
        if self.len != other.len {
            proof {
                use_type_invariant(self);
                use_type_invariant(other);
            }
            return false;
        }
        let mut k: usize = 0;
        while k < CAP
            invariant
                k <= CAP,
                self.len == other.len,
                forall|i: int| 0 <= i < k ==> self.buf@[i] == other.buf@[i],
            decreases CAP - k,
        {
            if self.buf[k] != other.buf[k] {
                return false;
            }
            k = k + 1;
        }
        assert(self.buf@ =~= other.buf@);
        true
    }
}

/// The smaller of two integers.
pub open spec fn min(a: int, b: int) -> int {
    if a < b {
        a
    } else {
        b
    }
}

impl<const CAP: usize> Default for HStr<CAP> {
    fn default() -> (s: Self)
        ensures
            s@ == Seq::<u8>::empty(),
    {
        Self::new()
    }
}

impl<const CAP: usize> PartialEq for HStr<CAP> {
    fn eq(&self, other: &Self) -> (b: bool) {
        self.same_as(other)
    }
}

impl<const CAP: usize> Eq for HStr<CAP> {

}

impl<const CAP: usize> vstd::std_specs::cmp::PartialEqSpecImpl for HStr<CAP> {
    open spec fn obeys_eq_spec() -> bool {
        true
    }

    open spec fn eq_spec(&self, other: &Self) -> bool {
        self@ == other@ && self.raw_buf() == other.raw_buf()
    }
}

} // verus!
