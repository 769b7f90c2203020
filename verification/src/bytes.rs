//! A read cursor over the caller's input buffer.

use vstd::prelude::*;

verus! {

/// A position in an immutable byte buffer. The buffer is borrowed for the
/// length of one parse call and never written; the position never passes its
/// end.
pub struct Bytes<'a> {
    slice: &'a [u8],
    pos: usize,
}

impl<'a> Bytes<'a> {
    /// The whole buffer, read and unread bytes alike.
    pub closed spec fn buffer(&self) -> Seq<u8> {
        self.slice@
    }

    /// The offset of the next unread byte.
    pub closed spec fn offset(&self) -> int {
        self.pos as int
    }

    /// The cursor stays inside its buffer.
    #[verifier::type_invariant]
    pub open spec fn in_bounds(&self) -> bool {
        0 <= self.offset() <= self.buffer().len()
    }

    /// A cursor at the start of `slice`.
    pub fn new(slice: &'a [u8]) -> (bytes: Self)
        ensures
            bytes.buffer() == slice@,
            bytes.offset() == 0,
    {
        Bytes { slice, pos: 0 }
    }

    /// The offset of the next unread byte.
    pub fn pos(&self) -> (p: usize)
        ensures
            p == self.offset(),
            p <= self.buffer().len(),
    {
        proof {
            use_type_invariant(self);
        }
        self.pos
    }

    /// The length of the whole buffer.
    pub fn len(&self) -> (n: usize)
        ensures
            n == self.buffer().len(),
            self.offset() <= n,
    {
        proof {
            use_type_invariant(self);
        }
        self.slice.len()
    }

    /// The number of unread bytes.
    pub fn remaining(&self) -> (n: usize)
        ensures
            n == self.buffer().len() - self.offset(),
    {
        proof {
            use_type_invariant(self);
        }
        self.slice.len() - self.pos
    }

    /// The buffer that this cursor reads.
    pub fn as_slice(&self) -> (s: &'a [u8])
        ensures
            s@ == self.buffer(),
    {
        self.slice
    }

    /// The next unread byte, which stays unread; `None` at the end of the
    /// buffer.
    pub fn peek(&self) -> (b: Option<u8>)
        ensures
            0 <= self.offset() <= self.buffer().len(),
            b.is_some() == (self.offset() < self.buffer().len()),
            b matches Some(x) ==> x == self.buffer()[self.offset()],
    {
        proof {
            use_type_invariant(self);
        }
        if self.pos < self.slice.len() {
            Some(self.slice[self.pos])
        } else {
            None
        }
    }

    /// The unread byte `n` places after the next one, which stays unread;
    /// `None` where the buffer ends before it.
    pub fn peek_ahead(&self, n: usize) -> (b: Option<u8>)
        ensures
            0 <= self.offset() <= self.buffer().len(),
            b.is_some() == (self.offset() + n < self.buffer().len()),
            b matches Some(x) ==> x == self.buffer()[self.offset() + n],
    {
        proof {
            use_type_invariant(self);
        }
        if n < self.slice.len() - self.pos {
            Some(self.slice[self.pos + n])
        } else {
            None
        }
    }

    /// Moves the cursor over `n` unread bytes.
    pub fn advance(&mut self, n: usize)
        requires
            old(self).offset() + n <= old(self).buffer().len(),
        ensures
            final(self).buffer() == old(self).buffer(),
            final(self).offset() == old(self).offset() + n,
    {
        proof {
            use_type_invariant(&*self);
            assert(self.slice@.len() == self.slice.len());
        }
        self.pos = self.pos + n;
    }

    /// Reads the next byte and moves past it; `None`, and no move, at the end
    /// of the buffer.
    pub fn next(&mut self) -> (b: Option<u8>)
        ensures
            final(self).buffer() == old(self).buffer(),
            0 <= old(self).offset() <= old(self).buffer().len(),
            b.is_some() == (old(self).offset() < old(self).buffer().len()),
            b matches Some(x) ==> x == old(self).buffer()[old(self).offset()],
            final(self).offset() == old(self).offset() + if b.is_some() { 1int } else { 0int },
    {
        proof {
            use_type_invariant(&*self);
        }
        if self.pos < self.slice.len() {
            let b = self.slice[self.pos];
            self.pos = self.pos + 1;
            Some(b)
        } else {
            None
        }
    }
}

} // verus!
