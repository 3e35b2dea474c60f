//! Fixed-capacity, null-padded UTF-8 strings.

use vstd::prelude::*;
use vstd::string::StringSliceAdditionalSpecFns;
use vstd::utf8::valid_utf8;

use crate::wire::{try_copy_bytes, ReadError};

verus! {

/// The number of bytes before the first null byte, or all of them when there is none.
pub open spec fn text_length(raw: Seq<u8>) -> nat
    decreases raw.len(),
{
    if raw.len() == 0 {
        0
    } else if raw[0] == 0 {
        0
    } else {
        1 + text_length(raw.drop_first())
    }
}

/// The text of a null-padded string: the bytes before the first null byte.
pub open spec fn text_bytes(raw: Seq<u8>) -> Seq<u8> {
    raw.take(text_length(raw) as int)
}

/// The error for a string that cannot be read.
#[derive(Clone, Copy, Debug, PartialEq, Eq, Structural)]
pub enum ArrayStringError {
    /// The input ended before the string.
    Read(ReadError),
    /// The text before the first null byte is not valid UTF-8.
    InvalidUtf8,
}

/// Converts bytes to a string slice with `std::str::from_utf8`.
///
/// Claims of the outside function: it succeeds exactly when the bytes are valid
/// UTF-8, and then the string holds those bytes.
#[verifier::external_body]
fn str_from_utf8(bytes: &[u8]) -> (text: Option<&str>)
    ensures
        text is Some <==> valid_utf8(bytes@),
        text matches Some(t) ==> t.spec_bytes() == bytes@,
{
    std::str::from_utf8(bytes).ok()
}

/// A string of `N` bytes: UTF-8 text padded with null bytes.
///
/// There is no terminating null byte when the text fills all `N` bytes.
#[derive(Clone, Copy, Debug, PartialEq, Eq)]
pub struct ArrayString<const N: usize> {
    raw: [u8; N],
}

impl<const N: usize> ArrayString<N> {
    /// The view always holds all `N` bytes.
    pub proof fn lemma_view_len(self)
        ensures
            self@.len() == N,
    {
        broadcast use vstd::array::group_array_axioms;
    }
}

impl<const N: usize> View for ArrayString<N> {
    type V = Seq<u8>;

    /// All `N` bytes of the string, padding included.
    closed spec fn view(&self) -> Seq<u8> {
        self.raw@
    }
}

impl<const N: usize> ArrayString<N> {
    #[verifier::type_invariant]
    spec fn valid(self) -> bool {
        &&& self.raw@.len() == N
        &&& valid_utf8(text_bytes(self.raw@))
    }

    /// The bytes make a string: there are `N` of them, and those before the
    /// first null byte are valid UTF-8.
    pub open spec fn valid_raw(raw: Seq<u8>) -> bool {
        raw.len() == N && valid_utf8(text_bytes(raw))
    }

    /// The result of reading a string from `s` at `pos`.
    pub open spec fn spec_parse(s: Seq<u8>, pos: int) -> Result<Seq<u8>, ArrayStringError> {
        if s.len() - pos < N {
            Err(ArrayStringError::Read(ReadError { requested: N as usize, available: (s.len() - pos) as usize }))
        } else if !valid_utf8(text_bytes(s.subrange(pos, pos + N))) {
            Err(ArrayStringError::InvalidUtf8)
        } else {
            Ok(s.subrange(pos, pos + N))
        }
    }

    /// Reads a string of `N` bytes from the input at `pos`.
    pub fn parse(data: &[u8], pos: usize) -> (parsed: Result<Self, ArrayStringError>)
        requires
            pos <= data.len(),
        ensures
            parsed matches Ok(v) ==> Self::spec_parse(data@, pos as int) == Ok::<Seq<u8>, ArrayStringError>(v@),
            parsed matches Err(e) ==> Self::spec_parse(data@, pos as int) == Err::<Seq<u8>, ArrayStringError>(e),
            parsed matches Ok(v) ==> Self::valid_raw(v@),
    {
        let copied = match try_copy_bytes(data, pos, N) {
            Ok(copied) => copied,
            Err(e) => {
                return Err(ArrayStringError::Read(e));
            },
        };
        let length = Self::find_text_length(copied.as_slice());
        let text = vstd::slice::slice_subrange(copied.as_slice(), 0, length);
        match str_from_utf8(text) {
            Some(_) => {},
            None => {
                return Err(ArrayStringError::InvalidUtf8);
            },
        }
        let mut raw: [u8; N] = vstd::array::array_fill_for_copy_types(0u8);
        let mut i: usize = 0;
        while i < N
            invariant
                i <= N,
                copied@.len() == N,
                raw@.len() == N,
                forall|j: int| 0 <= j < i ==> raw@[j] == copied@[j],
            decreases N - i,
        {
            raw[i] = copied[i];
            i = i + 1;
        }
        assert(raw@ =~= copied@);
        Ok(ArrayString { raw })
    }

    /// Finds the number of bytes before the first null byte.
    fn find_text_length(raw: &[u8]) -> (length: usize)
        ensures
            length == text_length(raw@),
            length <= raw@.len(),
    {
        let mut i: usize = 0;
        assert(raw@.skip(0) =~= raw@);
        while i < raw.len()
            invariant
                i <= raw@.len(),
                text_length(raw@) == i + text_length(raw@.skip(i as int)),
            decreases raw.len() - i,
        {
            assert(raw@.skip(i as int).drop_first() =~= raw@.skip(i + 1));
            if raw[i] == 0 {
                return i;
            }
            i = i + 1;
        }
        i
    }

    /// Gets the text of the string, without its padding.
    pub fn as_str(&self) -> (text: &str)
        ensures
            text.spec_bytes() == text_bytes(self@),
    {
        proof {
            use_type_invariant(self);
        }
        let length = Self::find_text_length(self.raw.as_slice());
        let text = vstd::slice::slice_subrange(self.raw.as_slice(), 0, length);
        match str_from_utf8(text) {
            Some(t) => t,
            None => {
                proof {
                    assert(false);
                }
                ""
            },
        }
    }

    /// Appends all `N` bytes of the string, padding included.
    pub fn encode(&self, out: &mut Vec<u8>)
        ensures
            final(out)@ == old(out)@ + self@,
    {
        let mut i: usize = 0;
        let ghost start = old(out)@;
        while i < N
            invariant
                i <= N,
                self.raw@.len() == N,
                out@ == start + self.raw@.take(i as int),
            decreases N - i,
        {
            out.push(self.raw[i]);
            i = i + 1;
            assert(out@ =~= start + self.raw@.take(i as int));
        }
        assert(self.raw@.take(i as int) =~= self.raw@);
    }
}

/// Reading the bytes of a string gives them back, whatever bytes follow them.
pub proof fn lemma_parse_raw<const N: usize>(raw: Seq<u8>, rest: Seq<u8>)
    requires
        ArrayString::<N>::valid_raw(raw),
    ensures
        ArrayString::<N>::spec_parse(raw + rest, 0) == Ok::<Seq<u8>, ArrayStringError>(raw),
{
    assert((raw + rest).subrange(0, N as int) =~= raw);
}

} // verus!
