//! What a batch step and a loop of batch steps compute, stated over the end
//! of the run that the byte-by-byte scanner finds.
//!
//! A step builds a mismatch mask, one bit per lane of the batch, set where
//! the lane's byte is outside the class. The count of trailing zeros turns
//! the mask into the index of the first such lane.

use vstd::prelude::*;
use vstd::std_specs::bits::{
    axiom_u32_trailing_zeros,
    axiom_u64_trailing_zeros,
    u32_trailing_zeros,
    u64_trailing_zeros,
};
use crate::class::ByteClass;
use crate::scan::{lemma_scan_end, lemma_scan_end_resume, scan_end};

verus! {

/// Bit `j` of a 32-bit mask.
pub open spec fn bit32(m: u32, j: u32) -> bool {
    (m >> j) & 1u32 == 1u32
}

/// Bit `j` of a 64-bit mask.
pub open spec fn bit64(m: u64, j: u64) -> bool {
    (m >> j) & 1u64 == 1u64
}

/// How many bytes of the batch of `width` bytes at `at` belong to `class`
/// before the first that does not: `width` where the whole batch matches, else
/// the index in the batch of the first byte outside the class.
pub open spec fn batch_run(s: Seq<u8>, class: ByteClass, at: int, width: int) -> int {
    let run = scan_end(s, class, at) - at;
    if run < width {
        run
    } else {
        width
    }
}

/// What one step of a batch scanner reports of its batch.
#[derive(Clone, Copy, Debug, PartialEq, Eq, Structural)]
pub enum Scan {
    /// The whole batch belongs to the class: the scan goes on after it.
    Found,
    /// The index in the batch of the first byte outside the class.
    Mismatch(usize),
}

/// What a step reports of the batch of `width` bytes at `at`.
pub open spec fn batch_scan(s: Seq<u8>, class: ByteClass, at: int, width: int) -> Scan {
    if batch_run(s, class, at, width) == width {
        Scan::Found
    } else {
        Scan::Mismatch(batch_run(s, class, at, width) as usize)
    }
}

/// The end of the last whole batch of `width` bytes in a buffer of `len`
/// bytes, for batches counted from `from`.
pub open spec fn whole_batches_end(len: int, from: int, width: int) -> int {
    from + width * ((len - from) / width)
}

/// Where a loop of batches of `width` bytes stops that starts at `from` and
/// goes on while a whole batch is left and the last batch matched as a whole:
/// at the end of the run of class bytes where that end lies inside the whole
/// batches, else after the last whole batch.
pub open spec fn batch_stop(s: Seq<u8>, class: ByteClass, from: int, width: int) -> int {
    let end = scan_end(s, class, from);
    let reach = whole_batches_end(s.len() as int, from, width);
    if end < reach {
        end
    } else {
        reach
    }
}

/// A loop of batches of 32 followed by a loop of batches of 16 stops where a
/// loop of batches of 16 alone stops.
pub proof fn lemma_batches_of_32_then_16(s: Seq<u8>, class: ByteClass, from: int)
    requires
        0 <= from <= s.len(),
    ensures
        batch_stop(s, class, batch_stop(s, class, from, 32), 16) == batch_stop(s, class, from, 16),
{
    lemma_scan_end(s, class, from);
    lemma_scan_end_resume(s, class, from, batch_stop(s, class, from, 32));
}

/// `mask` has bit `j` set exactly where lane `j` of the batch at `at` holds a
/// byte outside `class`, for the first `lanes` lanes, and no higher bit set.
pub open spec fn is_mismatch_mask32(
    mask: u32,
    s: Seq<u8>,
    class: ByteClass,
    at: int,
    lanes: u32,
) -> bool {
    &&& forall|j: u32| j < lanes ==> (#[trigger] bit32(mask, j)) == !class.contains(s[at + j])
    &&& forall|j: u32| lanes <= j < 32 ==> !#[trigger] bit32(mask, j)
}

/// As [`is_mismatch_mask32`], for a 64-bit mask.
pub open spec fn is_mismatch_mask64(
    mask: u64,
    s: Seq<u8>,
    class: ByteClass,
    at: int,
    lanes: u64,
) -> bool {
    &&& forall|j: u64| j < lanes ==> (#[trigger] bit64(mask, j)) == !class.contains(s[at + j])
    &&& forall|j: u64| lanes <= j < 64 ==> !#[trigger] bit64(mask, j)
}

/// Setting bit `i` changes bit `i` and no other.
pub proof fn lemma_set_bit32(m: u32, i: u32)
    requires
        i < 32,
    ensures
        forall|j: u32| j < 32 ==> #[trigger] bit32(m | (1u32 << i), j) == (j == i || bit32(m, j)),
{
    assert forall|j: u32| j < 32 implies #[trigger] bit32(m | (1u32 << i), j) == (j == i || bit32(
        m,
        j,
    )) by {
        assert(((m | (1u32 << i)) >> j) & 1u32 == 1u32 <==> (j == i || (m >> j) & 1u32 == 1u32))
            by (bit_vector)
            requires
                i < 32,
                j < 32,
        ;
    }
}

/// Setting bit `i` changes bit `i` and no other.
pub proof fn lemma_set_bit64(m: u64, i: u64)
    requires
        i < 64,
    ensures
        forall|j: u64| j < 64 ==> #[trigger] bit64(m | (1u64 << i), j) == (j == i || bit64(m, j)),
{
    assert forall|j: u64| j < 64 implies #[trigger] bit64(m | (1u64 << i), j) == (j == i || bit64(
        m,
        j,
    )) by {
        assert(((m | (1u64 << i)) >> j) & 1u64 == 1u64 <==> (j == i || (m >> j) & 1u64 == 1u64))
            by (bit_vector)
            requires
                i < 64,
                j < 64,
        ;
    }
}

/// The count of trailing zeros of `x` is the index of its lowest set bit.
pub proof fn lemma_lowest_set_bit32(x: u32, t: u32)
    requires
        t < 32,
        bit32(x, t),
        forall|j: u32| j < t ==> !#[trigger] bit32(x, j),
    ensures
        u32_trailing_zeros(x) == t,
{
    axiom_u32_trailing_zeros(x);
    let z = u32_trailing_zeros(x);
    assert(x != 0) by (bit_vector)
        requires
            (x >> t) & 1u32 == 1u32,
    ;
    if z < t {
        assert(!bit32(x, z));
    } else if z > t {
        assert((x >> t) & 1u32 == 0u32);
    }
}

/// The count of trailing zeros of `x` is the index of its lowest set bit.
pub proof fn lemma_lowest_set_bit64(x: u64, t: u64)
    requires
        t < 64,
        bit64(x, t),
        forall|j: u64| j < t ==> !#[trigger] bit64(x, j),
    ensures
        u64_trailing_zeros(x) == t,
{
    axiom_u64_trailing_zeros(x);
    let z = u64_trailing_zeros(x) as u64;
    assert(x != 0) by (bit_vector)
        requires
            (x >> t) & 1u64 == 1u64,
    ;
    if z < t {
        assert(!bit64(x, z));
    } else if z > t {
        assert((x >> t) & 1u64 == 0u64);
    }
}

/// With the sixteen bits above a 16-lane mask set, the count of trailing
/// zeros is the length of the run of class bytes in the batch.
pub proof fn lemma_first_mismatch_16(mask: u32, s: Seq<u8>, class: ByteClass, at: int)
    requires
        0 <= at,
        at + 16 <= s.len(),
        is_mismatch_mask32(mask, s, class, at, 16),
    ensures
        u32_trailing_zeros(0xffff_0000u32 | mask) == batch_run(s, class, at, 16),
{
    let x = 0xffff_0000u32 | mask;
    let n = batch_run(s, class, at, 16) as u32;
    lemma_scan_end(s, class, at);
    assert forall|j: u32| j <= 16 implies #[trigger] bit32(x, j) == (j == 16 || bit32(mask, j)) by {
        assert(((0xffff_0000u32 | mask) >> j) & 1u32 == 1u32 <==> (j == 16 || (mask >> j) & 1u32
            == 1u32)) by (bit_vector)
            requires
                j <= 16,
        ;
    }
    assert forall|j: u32| j < n implies !#[trigger] bit32(x, j) by {
        assert(class.contains(s[at + j]));
        assert(bit32(mask, j) == !class.contains(s[at + j]));
    }
    if n < 16 {
        assert(bit32(mask, n) == !class.contains(s[at + n]));
    }
    lemma_lowest_set_bit32(x, n);
}

/// With the thirty-two bits above a 32-lane mask set, the count of trailing
/// zeros is the length of the run of class bytes in the batch.
pub proof fn lemma_first_mismatch_32(mask: u64, s: Seq<u8>, class: ByteClass, at: int)
    requires
        0 <= at,
        at + 32 <= s.len(),
        is_mismatch_mask64(mask, s, class, at, 32),
    ensures
        u64_trailing_zeros(0xffff_ffff_0000_0000u64 | mask) == batch_run(s, class, at, 32),
{
    let x = 0xffff_ffff_0000_0000u64 | mask;
    let n = batch_run(s, class, at, 32) as u64;
    lemma_scan_end(s, class, at);
    assert forall|j: u64| j <= 32 implies #[trigger] bit64(x, j) == (j == 32 || bit64(mask, j)) by {
        assert(((0xffff_ffff_0000_0000u64 | mask) >> j) & 1u64 == 1u64 <==> (j == 32 || (mask
            >> j) & 1u64 == 1u64)) by (bit_vector)
            requires
                j <= 32,
        ;
    }
    assert forall|j: u64| j < n implies !#[trigger] bit64(x, j) by {
        assert(class.contains(s[at + j]));
        assert(bit64(mask, j) == !class.contains(s[at + j]));
    }
    if n < 32 {
        assert(bit64(mask, n) == !class.contains(s[at + n]));
    }
    lemma_lowest_set_bit64(x, n);
}

} // verus!
