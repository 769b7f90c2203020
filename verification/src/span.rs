//! Token spans and header slots: what the parsers hand out in place of
//! copies.

use vstd::prelude::*;
use vstd::slice::slice_subrange;

verus! {

/// The range `[start, end)` of the input buffer that holds a token.
#[derive(Clone, Copy, Debug, PartialEq, Eq, Structural)]
pub struct TokenSpan {
    /// The offset of the token's first byte.
    pub start: usize,
    /// The offset after the token's last byte.
    pub end: usize,
}

/// One header line: the span of its name and the span of its value.
#[derive(Clone, Copy, Debug, PartialEq, Eq, Structural)]
pub struct Header {
    /// The span of the header's name.
    pub name: TokenSpan,
    /// The span of the header's value.
    pub value: TokenSpan,
}

/// The header slot that holds no header: both spans empty, at offset 0.
pub open spec fn empty_header() -> Header {
    Header { name: TokenSpan { start: 0, end: 0 }, value: TokenSpan { start: 0, end: 0 } }
}

impl Header {
    /// Whether both spans are ranges of a buffer of `len` bytes.
    pub open spec fn fits(self, len: int) -> bool {
        self.name.fits(len) && self.value.fits(len)
    }

    /// The sentinel for a slot that holds no header, to fill a slot sequence
    /// with before the first parse call.
    pub fn empty() -> (header: Header)
        ensures
            header == empty_header(),
    {
        Header { name: TokenSpan { start: 0, end: 0 }, value: TokenSpan { start: 0, end: 0 } }
    }
}

impl TokenSpan {
    /// Whether the span is a range of a buffer of `len` bytes.
    pub open spec fn fits(self, len: int) -> bool {
        self.start <= self.end <= len
    }

    /// The bytes of `s` that the span names.
    pub open spec fn of(self, s: Seq<u8>) -> Seq<u8>
        recommends
            self.fits(s.len() as int),
    {
        s.subrange(self.start as int, self.end as int)
    }

    /// The span from `start` up to `end`.
    pub fn new(start: usize, end: usize) -> (span: Self)
        ensures
            span == (TokenSpan { start, end }),
    {
        TokenSpan { start, end }
    }

    /// The number of bytes in the span; 0 where its end lies before its
    /// start.
    pub fn len(&self) -> (n: usize)
        ensures
            n == if self.start <= self.end {
                self.end - self.start
            } else {
                0
            },
    {
        if self.start <= self.end {
            self.end - self.start
        } else {
            0
        }
    }

    /// Whether the span holds no byte.
    pub fn is_empty(&self) -> (empty: bool)
        ensures
            empty == (self.start >= self.end),
    {
        self.start >= self.end
    }

    /// The bytes of `input` that the span names; `None` where the span is no
    /// range of `input`.
    pub fn slice<'a>(&self, input: &'a [u8]) -> (bytes: Option<&'a [u8]>)
        ensures
            bytes.is_some() == self.fits(input@.len() as int),
            bytes matches Some(b) ==> b@ == self.of(input@),
    {
        if self.start <= self.end && self.end <= input.len() {
            Some(slice_subrange(input, self.start, self.end))
        } else {
            None
        }
    }
}

} // verus!
