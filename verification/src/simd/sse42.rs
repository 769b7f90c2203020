//! The 16-wide batch scanner.
//!
//! One step tests sixteen bytes and reports that all of them belong to the
//! class, or the index of the first that does not. The step never tests for
//! the end of the buffer: its caller hands it a batch that lies inside the
//! buffer, or does not call it.

use vstd::prelude::*;
use crate::bytes::Bytes;
use crate::class::ByteClass;
use crate::scan::{all_in_class, lemma_scan_end, lemma_scan_end_resume};
use crate::simd::lane::{header_value_lane, uri_lane};
use crate::simd::batch::{
    batch_scan,
    batch_stop,
    bit32,
    is_mismatch_mask32,
    lemma_first_mismatch_16,
    lemma_set_bit32,
    Scan,
};

verus! {

/// The mismatch mask of the sixteen bytes at `at`: bit `j` is set where byte
/// `j` of the batch fails the lane test of `class`.
fn mismatch_mask_16(buf: &[u8], at: usize, class: ByteClass) -> (mask: u32)
    requires
        at + 16 <= buf@.len(),
        class == ByteClass::Uri || class == ByteClass::HeaderValue,
    ensures
        is_mismatch_mask32(mask, buf@, class, at as int, 16),
{
    let mut mask: u32 = 0;
    let mut lane: u32 = 0;
    assert forall|j: u32| j < 32 implies !#[trigger] bit32(0u32, j) by {
        assert((0u32 >> j) & 1u32 == 0u32) by (bit_vector);
    }
    assert(buf@.len() == buf.len());
    while lane < 16
        invariant
            lane <= 16,
            at + 16 <= buf@.len() <= usize::MAX,
            class == ByteClass::Uri || class == ByteClass::HeaderValue,
            is_mismatch_mask32(mask, buf@, class, at as int, lane),
        decreases 16 - lane,
    {
        let b = buf[at + lane as usize];
        let pass = match class {
            ByteClass::Uri => uri_lane(b),
            _ => header_value_lane(b),
        };
        if !pass {
            proof {
                lemma_set_bit32(mask, lane);
            }
            mask = mask | (1u32 << lane);
        }
        lane = lane + 1;
    }
    mask
}

/// One 16-wide step over URI bytes: `Found` where the sixteen bytes at
/// `at` all belong to the class, else the index in the batch of the first
/// that does not.
pub fn match_url_char_16(buf: &[u8], at: usize) -> (scan: Scan)
    requires
        at + 16 <= buf@.len(),
    ensures
        scan == batch_scan(buf@, ByteClass::Uri, at as int, 16),
{
    let mask = mismatch_mask_16(buf, at, ByteClass::Uri);
    proof {
        lemma_first_mismatch_16(mask, buf@, ByteClass::Uri, at as int);
    }
    let run = (0xffff_0000u32 | mask).trailing_zeros();
    if run == 16 {
        Scan::Found
    } else {
        Scan::Mismatch(run as usize)
    }
}

/// One 16-wide step over header-value bytes: `Found` where the sixteen bytes
/// at `at` all belong to the class, else the index in the batch of the first
/// that does not.
pub fn match_header_value_char_16(buf: &[u8], at: usize) -> (scan: Scan)
    requires
        at + 16 <= buf@.len(),
    ensures
        scan == batch_scan(buf@, ByteClass::HeaderValue, at as int, 16),
{
    let mask = mismatch_mask_16(buf, at, ByteClass::HeaderValue);
    proof {
        lemma_first_mismatch_16(mask, buf@, ByteClass::HeaderValue, at as int);
    }
    let run = (0xffff_0000u32 | mask).trailing_zeros();
    if run == 16 {
        Scan::Found
    } else {
        Scan::Mismatch(run as usize)
    }
}

/// Runs 16-wide steps of `class` while sixteen unread bytes are left and the
/// last step reported `Found`.
fn batch_loop_16(bytes: &mut Bytes, class: ByteClass)
    requires
        class == ByteClass::Uri || class == ByteClass::HeaderValue,
    ensures
        final(bytes).buffer() == old(bytes).buffer(),
        old(bytes).offset() <= final(bytes).offset() <= final(bytes).buffer().len(),
        final(bytes).offset() == batch_stop(old(bytes).buffer(), class, old(bytes).offset(), 16),
{
    let ghost s = bytes.buffer();
    let ghost from = bytes.offset();
    proof {
        use_type_invariant(&*bytes);
    }
    loop
        invariant_except_break
            bytes.buffer() == s,
            0 <= from <= bytes.offset() <= s.len(),
            (bytes.offset() - from) % 16 == 0,
            all_in_class(s, class, from, bytes.offset()),
            class == ByteClass::Uri || class == ByteClass::HeaderValue,
        ensures
            bytes.buffer() == s,
            from <= bytes.offset() <= s.len(),
            bytes.offset() == batch_stop(s, class, from, 16),
        decreases s.len() - bytes.offset(),
    {
        let ghost at = bytes.offset();
        if bytes.remaining() < 16 {
            proof {
                lemma_scan_end_resume(s, class, from, at);
            }
            break ;
        }
        let scan = match class {
            ByteClass::Uri => match_url_char_16(bytes.as_slice(), bytes.pos()),
            _ => match_header_value_char_16(bytes.as_slice(), bytes.pos()),
        };
        proof {
            lemma_scan_end(s, class, at);
            lemma_scan_end_resume(s, class, from, at);
        }
        match scan {
            Scan::Found => bytes.advance(16),
            Scan::Mismatch(index) => {
                bytes.advance(index);
                break ;
            },
        }
    }
}

/// The 16-wide scan of a request target: moves the cursor over whole batches
/// of URI-safe bytes, and in the first batch that holds another byte moves it
/// onto that byte. Fewer than sixteen unread bytes are left unread.
pub fn parse_uri_batch_16(bytes: &mut Bytes)
    ensures
        final(bytes).buffer() == old(bytes).buffer(),
        old(bytes).offset() <= final(bytes).offset() <= final(bytes).buffer().len(),
        final(bytes).offset() == batch_stop(
            old(bytes).buffer(),
            ByteClass::Uri,
            old(bytes).offset(),
            16,
        ),
{
    batch_loop_16(bytes, ByteClass::Uri)
}

/// The 16-wide scan of a header value: moves the cursor over whole batches of
/// header-value-safe bytes, and in the first batch that holds another byte
/// moves it onto that byte. Fewer than sixteen unread bytes are left unread.
pub fn match_header_value_batch_16(bytes: &mut Bytes)
    ensures
        final(bytes).buffer() == old(bytes).buffer(),
        old(bytes).offset() <= final(bytes).offset() <= final(bytes).buffer().len(),
        final(bytes).offset() == batch_stop(
            old(bytes).buffer(),
            ByteClass::HeaderValue,
            old(bytes).offset(),
            16,
        ),
{
    batch_loop_16(bytes, ByteClass::HeaderValue)
}

} // verus!
