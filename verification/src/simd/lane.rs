//! What one lane of a batch scanner computes for one byte.
//!
//! A batch scanner tests all its lanes at once with table lookups on the two
//! halves of each byte, or with range comparisons. The functions here are that
//! computation for a single lane, and each is proved to accept exactly the
//! bytes of the class that the byte-by-byte scanner tests.

use vstd::prelude::*;
use crate::class::{is_header_value_byte, is_uri_byte, DEL, HTAB, SP};

verus! {

/// The URI table, looked up by the low half of a byte: bit `h` of the entry
/// is set where the byte with high half `h` and that low half is URI-safe.
pub open spec fn uri_rows(low: u8) -> u8 {
    match low {
        0x0 => 0xb8,
        0x1 => 0xfc,
        0x2 => 0xf8,
        0x3 => 0xfc,
        0x4 => 0xfc,
        0x5 => 0xfc,
        0x6 => 0xfc,
        0x7 => 0xfc,
        0x8 => 0xfc,
        0x9 => 0xfc,
        0xa => 0xfc,
        0xb => 0x7c,
        0xc => 0x54,
        0xd => 0x7c,
        0xe => 0xd4,
        _ => 0x7c,
    }
}

/// The bit that selects high half `high` in an entry of the URI table; no bit
/// for a high half of 8 or more.
pub open spec fn column_bit(high: u8) -> u8 {
    if high < 8 {
        1u8 << high
    } else {
        0
    }
}

/// The URI test of one lane: the byte's low half picks a table entry (zero
/// where the byte's top bit is set), its high half picks a bit, and the byte
/// passes where that bit is set in the entry.
pub open spec fn uri_lane_passes(b: u8) -> bool {
    let rows = if b & 0x80 != 0 {
        0u8
    } else {
        uri_rows(b & 0x0f)
    };
    rows & column_bit(b >> 4) != 0
}

/// The header-value test of one lane: at least the space, or the tab, and not
/// DEL.
pub open spec fn header_value_lane_passes(b: u8) -> bool {
    let low = (if b >= SP { b } else { SP }) == b;
    let tab = b == HTAB;
    let del = b == DEL;
    (low || tab) && !del
}

/// The two tests of a lane accept exactly the bytes of the URI-safe and of the
/// header-value-safe class.
pub proof fn lemma_lanes_match_classes(b: u8)
    ensures
        uri_lane_passes(b) == is_uri_byte(b),
        header_value_lane_passes(b) == is_header_value_byte(b),
{
    assert(uri_lane_passes(b) == is_uri_byte(b)) by (bit_vector);
}

/// Looks up the URI table by the low half of a byte.
fn uri_row_lookup(low: u8) -> (rows: u8)
    ensures
        rows == uri_rows(low),
{
    match low {
        0x0 => 0xb8,
        0x1 => 0xfc,
        0x2 => 0xf8,
        0x3 => 0xfc,
        0x4 => 0xfc,
        0x5 => 0xfc,
        0x6 => 0xfc,
        0x7 => 0xfc,
        0x8 => 0xfc,
        0x9 => 0xfc,
        0xa => 0xfc,
        0xb => 0x7c,
        0xc => 0x54,
        0xd => 0x7c,
        0xe => 0xd4,
        _ => 0x7c,
    }
}

/// Tests one lane against the URI-safe class.
pub fn uri_lane(b: u8) -> (pass: bool)
    ensures
        pass == is_uri_byte(b),
{
    proof {
        lemma_lanes_match_classes(b);
    }
    let rows: u8 = if b & 0x80 != 0 {
        0
    } else {
        uri_row_lookup(b & 0x0f)
    };
    let high: u8 = b >> 4;
    let column: u8 = if high < 8 {
        1u8 << high
    } else {
        0
    };
    rows & column != 0
}

/// Tests one lane against the header-value-safe class.
pub fn header_value_lane(b: u8) -> (pass: bool)
    ensures
        pass == is_header_value_byte(b),
{
    let low = (if b >= SP { b } else { SP }) == b;
    let tab = b == HTAB;
    let del = b == DEL;
    (low || tab) && !del
}

} // verus!
