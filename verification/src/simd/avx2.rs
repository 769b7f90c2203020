//! The 32-wide batch scanner.
//!
//! One step tests thirty-two bytes and reports that all of them belong to the
//! class, or the index of the first that does not. The step never tests for
//! the end of the buffer: its caller hands it a batch that lies inside the
//! buffer, or does not call it.

use vstd::prelude::*;
use crate::bytes::Bytes;
use crate::class::ByteClass;
use crate::scan::{all_in_class, lemma_scan_end, lemma_scan_end_resume};
use crate::simd::lane::{header_value_lane, uri_lane};
use crate::simd::batch::{
    batch_scan,
    batch_stop,
    bit64,
    is_mismatch_mask64,
    lemma_first_mismatch_32,
    lemma_set_bit64,
    Scan,
};

verus! {

/// The mismatch mask of the thirty-two bytes at `at`: bit `j` is set where
/// byte `j` of the batch fails the lane test of `class`.
fn mismatch_mask_32(buf: &[u8], at: usize, class: ByteClass) -> (mask: u64)
    requires
        at + 32 <= buf@.len(),
        class == ByteClass::Uri || class == ByteClass::HeaderValue,
    ensures
        is_mismatch_mask64(mask, buf@, class, at as int, 32),
{
    let mut mask: u64 = 0;
    let mut lane: u64 = 0;
    assert forall|j: u64| j < 64 implies !#[trigger] bit64(0u64, j) by {
        assert((0u64 >> j) & 1u64 == 0u64) by (bit_vector);
    }
    assert(buf@.len() == buf.len());
    while lane < 32
        invariant
            lane <= 32,
            at + 32 <= buf@.len() <= usize::MAX,
            class == ByteClass::Uri || class == ByteClass::HeaderValue,
            is_mismatch_mask64(mask, buf@, class, at as int, lane),
        decreases 32 - lane,
    {
        let b = buf[at + lane as usize];
        let pass = match class {
            ByteClass::Uri => uri_lane(b),
            _ => header_value_lane(b),
        };
        if !pass {
            proof {
                lemma_set_bit64(mask, lane);
            }
            mask = mask | (1u64 << lane);
        }
        lane = lane + 1;
    }
    mask
}

/// One 32-wide step over URI bytes: `Found` where the thirty-two bytes at
/// `at` all belong to the class, else the index in the batch of the first
/// that does not.
pub fn match_url_char_32(buf: &[u8], at: usize) -> (scan: Scan)
    requires
        at + 32 <= buf@.len(),
    ensures
        scan == batch_scan(buf@, ByteClass::Uri, at as int, 32),
{
    let mask = mismatch_mask_32(buf, at, ByteClass::Uri);
    proof {
        lemma_first_mismatch_32(mask, buf@, ByteClass::Uri, at as int);
    }
    let run = (0xffff_ffff_0000_0000u64 | mask).trailing_zeros();
    if run == 32 {
        Scan::Found
    } else {
        Scan::Mismatch(run as usize)
    }
}

/// One 32-wide step over header-value bytes: `Found` where the thirty-two
/// bytes at `at` all belong to the class, else the index in the batch of the
/// first that does not.
pub fn match_header_value_char_32(buf: &[u8], at: usize) -> (scan: Scan)
    requires
        at + 32 <= buf@.len(),
    ensures
        scan == batch_scan(buf@, ByteClass::HeaderValue, at as int, 32),
{
    let mask = mismatch_mask_32(buf, at, ByteClass::HeaderValue);
    proof {
        lemma_first_mismatch_32(mask, buf@, ByteClass::HeaderValue, at as int);
    }
    let run = (0xffff_ffff_0000_0000u64 | mask).trailing_zeros();
    if run == 32 {
        Scan::Found
    } else {
        Scan::Mismatch(run as usize)
    }
}

/// Runs 32-wide steps of `class` while thirty-two unread bytes are left and
/// the last step reported `Found`.
fn batch_loop_32(bytes: &mut Bytes, class: ByteClass)
    requires
        class == ByteClass::Uri || class == ByteClass::HeaderValue,
    ensures
        final(bytes).buffer() == old(bytes).buffer(),
        old(bytes).offset() <= final(bytes).offset() <= final(bytes).buffer().len(),
        final(bytes).offset() == batch_stop(old(bytes).buffer(), class, old(bytes).offset(), 32),
{
    let ghost s = bytes.buffer();
    let ghost from = bytes.offset();
    proof {
        use_type_invariant(&*bytes);
    }
    loop
        invariant_except_break
            bytes.buffer() == s,
            0 <= from <= bytes.offset() <= s.len(),
            (bytes.offset() - from) % 32 == 0,
            all_in_class(s, class, from, bytes.offset()),
            class == ByteClass::Uri || class == ByteClass::HeaderValue,
        ensures
            bytes.buffer() == s,
            from <= bytes.offset() <= s.len(),
            bytes.offset() == batch_stop(s, class, from, 32),
        decreases s.len() - bytes.offset(),
    {
        let ghost at = bytes.offset();
        if bytes.remaining() < 32 {
            proof {
                lemma_scan_end_resume(s, class, from, at);
            }
            break ;
        }
        let scan = match class {
            ByteClass::Uri => match_url_char_32(bytes.as_slice(), bytes.pos()),
            _ => match_header_value_char_32(bytes.as_slice(), bytes.pos()),
        };
        proof {
            lemma_scan_end(s, class, at);
            lemma_scan_end_resume(s, class, from, at);
        }
        match scan {
            Scan::Found => bytes.advance(32),
            Scan::Mismatch(index) => {
                bytes.advance(index);
                break ;
            },
        }
    }
}

/// The 32-wide scan of a request target: moves the cursor over whole batches
/// of URI-safe bytes, and in the first batch that holds another byte moves it
/// onto that byte. Fewer than thirty-two unread bytes are left unread.
pub fn parse_uri_batch_32(bytes: &mut Bytes)
    ensures
        final(bytes).buffer() == old(bytes).buffer(),
        old(bytes).offset() <= final(bytes).offset() <= final(bytes).buffer().len(),
        final(bytes).offset() == batch_stop(
            old(bytes).buffer(),
            ByteClass::Uri,
            old(bytes).offset(),
            32,
        ),
{
    batch_loop_32(bytes, ByteClass::Uri)
}

/// The 32-wide scan of a header value: moves the cursor over whole batches of
/// header-value-safe bytes, and in the first batch that holds another byte
/// moves it onto that byte. Fewer than thirty-two unread bytes are left unread.
pub fn match_header_value_batch_32(bytes: &mut Bytes)
    ensures
        final(bytes).buffer() == old(bytes).buffer(),
        old(bytes).offset() <= final(bytes).offset() <= final(bytes).buffer().len(),
        final(bytes).offset() == batch_stop(
            old(bytes).buffer(),
            ByteClass::HeaderValue,
            old(bytes).offset(),
            32,
        ),
{
    batch_loop_32(bytes, ByteClass::HeaderValue)
}

} // verus!
