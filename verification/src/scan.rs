//! Where a run of allowed bytes ends: the definition that every scanner in
//! this crate is held to, and the byte-by-byte scanner itself.

use vstd::prelude::*;
use crate::bytes::Bytes;
use crate::class::ByteClass;

verus! {

/// The end of the run of `class` bytes that starts at `from`: the offset of
/// the first byte at or after `from` that is outside `class`, or the length of
/// `s` where no such byte follows.
pub open spec fn scan_end(s: Seq<u8>, class: ByteClass, from: int) -> int
    decreases s.len() - from,
{
    if 0 <= from < s.len() && class.contains(s[from]) {
        scan_end(s, class, from + 1)
    } else {
        from
    }
}

/// Every byte of `s` from `from` up to `to` belongs to `class`.
pub open spec fn all_in_class(s: Seq<u8>, class: ByteClass, from: int, to: int) -> bool {
    forall|i: int| from <= i < to ==> class.contains(#[trigger] s[i])
}

/// The run ends inside the buffer, holds only bytes of the class, and is
/// followed by a byte outside the class unless it reaches the end.
pub proof fn lemma_scan_end(s: Seq<u8>, class: ByteClass, from: int)
    requires
        0 <= from <= s.len(),
    ensures
        from <= scan_end(s, class, from) <= s.len(),
        all_in_class(s, class, from, scan_end(s, class, from)),
        scan_end(s, class, from) < s.len() ==> !class.contains(s[scan_end(s, class, from)]),
    decreases s.len() - from,
{
    if from < s.len() && class.contains(s[from]) {
        lemma_scan_end(s, class, from + 1);
    }
}

/// The end of a run is the only offset of which the three statements of
/// [`lemma_scan_end`] hold.
pub proof fn lemma_scan_end_unique(s: Seq<u8>, class: ByteClass, from: int, end: int)
    requires
        0 <= from <= end <= s.len(),
        all_in_class(s, class, from, end),
        end < s.len() ==> !class.contains(s[end]),
    ensures
        scan_end(s, class, from) == end,
    decreases end - from,
{
    if from < end {
        assert(class.contains(s[from]));
        lemma_scan_end_unique(s, class, from + 1, end);
    }
}

/// A scan that resumes anywhere inside a run ends where the run ends.
pub proof fn lemma_scan_end_resume(s: Seq<u8>, class: ByteClass, from: int, mid: int)
    requires
        0 <= from <= mid <= s.len(),
        all_in_class(s, class, from, mid),
    ensures
        scan_end(s, class, mid) == scan_end(s, class, from),
        mid <= scan_end(s, class, from),
    decreases mid - from,
{
    if from < mid {
        assert(class.contains(s[from]));
        lemma_scan_end_resume(s, class, from + 1, mid);
    } else {
        lemma_scan_end(s, class, from);
    }
}

/// The end of a run in a prefix of a buffer is the end of the run in the
/// buffer, or the end of the prefix where the run goes on beyond it.
pub proof fn lemma_scan_end_of_prefix(p: Seq<u8>, s: Seq<u8>, class: ByteClass, from: int)
    requires
        p.is_prefix_of(s),
        0 <= from <= p.len(),
    ensures
        scan_end(p, class, from) == if scan_end(s, class, from) < p.len() {
            scan_end(s, class, from)
        } else {
            p.len() as int
        },
{
    let end = scan_end(s, class, from);
    let cut = if end < p.len() {
        end
    } else {
        p.len() as int
    };
    lemma_scan_end(s, class, from);
    assert forall|i: int| 0 <= i < p.len() implies p[i] == s[i] by {
        assert(p[i] == s.subrange(0, p.len() as int)[i]);
    }
    assert(all_in_class(p, class, from, cut)) by {
        assert forall|i: int| from <= i < cut implies class.contains(#[trigger] p[i]) by {
            assert(class.contains(s[i]));
        }
    }
    lemma_scan_end_unique(p, class, from, cut);
}

/// The byte-by-byte scanner: moves the cursor forward while the byte under it
/// belongs to `class`, and stops at the first byte outside the class or at
/// the end of the buffer.
pub fn match_scalar(bytes: &mut Bytes, class: ByteClass)
    ensures
        final(bytes).buffer() == old(bytes).buffer(),
        old(bytes).offset() <= final(bytes).offset() <= final(bytes).buffer().len(),
        final(bytes).offset() == scan_end(old(bytes).buffer(), class, old(bytes).offset()),
{
    let ghost s = bytes.buffer();
    let ghost from = bytes.offset();
    proof {
        use_type_invariant(&*bytes);
    }
    loop
        invariant
            bytes.buffer() == s,
            0 <= from <= bytes.offset() <= s.len(),
            all_in_class(s, class, from, bytes.offset()),
        ensures
            bytes.buffer() == s,
            from <= bytes.offset() <= s.len(),
            bytes.offset() == scan_end(s, class, from),
        decreases s.len() - bytes.offset(),
    {
        match bytes.peek() {
            Some(b) => {
                if class.accepts(b) {
                    bytes.advance(1);
                } else {
                    proof {
                        lemma_scan_end_unique(s, class, from, bytes.offset());
                    }
                    break ;
                }
            },
            None => {
                proof {
                    lemma_scan_end_unique(s, class, from, bytes.offset());
                }
                break ;
            },
        }
    }
}

} // verus!
