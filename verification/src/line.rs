//! The end of a line: CR LF, and nothing else.

use vstd::prelude::*;
use crate::bytes::Bytes;
use crate::class::{CR, LF};
use crate::outcome::Terminator;

verus! {

/// What stands at `at`, where a line of `s` has to end. A line feed without
/// a carriage return before it is malformed, as any other byte is.
pub open spec fn terminator_at(s: Seq<u8>, at: int) -> Terminator {
    if at >= s.len() {
        Terminator::Partial
    } else if s[at] != CR {
        Terminator::Malformed
    } else if at + 1 >= s.len() {
        Terminator::Partial
    } else if s[at + 1] != LF {
        Terminator::Malformed
    } else {
        Terminator::Present
    }
}

/// What stands where a line ends does not change when bytes are added to the
/// buffer, unless the buffer ended first.
pub proof fn lemma_terminator_of_prefix(p: Seq<u8>, s: Seq<u8>, at: int)
    requires
        p.is_prefix_of(s),
        0 <= at,
    ensures
        terminator_at(p, at) != Terminator::Partial ==> terminator_at(s, at) == terminator_at(p, at),
        terminator_at(s, at) == Terminator::Present && at + 2 <= p.len() ==> terminator_at(p, at)
            == Terminator::Present,
{
    assert forall|i: int| 0 <= i < p.len() implies p[i] == s[i] by {
        assert(p[i] == s.subrange(0, p.len() as int)[i]);
    }
}

/// Tests for the end of a line under the cursor, and moves the cursor past
/// CR LF where they stand there. In the other two cases the cursor does not
/// move.
pub fn expect_line_end(bytes: &mut Bytes) -> (t: Terminator)
    ensures
        final(bytes).buffer() == old(bytes).buffer(),
        t == terminator_at(old(bytes).buffer(), old(bytes).offset()),
        final(bytes).offset() == old(bytes).offset() + if t == Terminator::Present {
            2int
        } else {
            0int
        },
{
    match bytes.peek() {
        None => Terminator::Partial,
        Some(first) => {
            if first != CR {
                Terminator::Malformed
            } else {
                match bytes.peek_ahead(1) {
                    None => Terminator::Partial,
                    Some(second) => {
                        if second != LF {
                            Terminator::Malformed
                        } else {
                            bytes.advance(2);
                            Terminator::Present
                        }
                    },
                }
            }
        },
    }
}

} // verus!
