//! Dispatch for a build whose target is known to have the 32-wide
//! instructions.

use vstd::prelude::*;
use crate::bytes::Bytes;
use crate::class::ByteClass;
use crate::simd::avx2::{match_header_value_batch_32, parse_uri_batch_32};
use crate::simd::batch::lemma_batches_of_32_then_16;
use crate::simd::runtime::vectored_stop;
use crate::simd::sse42::{match_header_value_batch_16, parse_uri_batch_16};
use crate::simd::{Capabilities, FeatureLevel};

verus! {

/// The level that this build reports for a processor with `caps`: the build
/// assumed batches of 32, and the processor is asked once more for them, and
/// where it lacks them for batches of 16.
pub open spec fn detected(caps: Capabilities) -> FeatureLevel {
    if caps.batch32 {
        FeatureLevel::Batch32AndBatch16
    } else if caps.batch16 {
        FeatureLevel::Batch16
    } else {
        FeatureLevel::NoBatch
    }
}

/// The row of the decision table that this build follows for `level`: the
/// level's own row for the two levels with batches that this build reports,
/// the byte-by-byte scanner alone for any other.
pub open spec fn effective_level(level: FeatureLevel) -> FeatureLevel {
    match level {
        FeatureLevel::Batch32AndBatch16 => FeatureLevel::Batch32AndBatch16,
        FeatureLevel::Batch16 => FeatureLevel::Batch16,
        _ => FeatureLevel::NoBatch,
    }
}

/// Reports the feature level of this build, from what the processor says of
/// the 32-wide and of the 16-wide instructions.
pub fn detect(caps: Capabilities) -> (level: FeatureLevel)
    ensures
        level == detected(caps),
        level.is_resolved(),
        effective_level(level) == level,
{
    if caps.batch32 {
        FeatureLevel::Batch32AndBatch16
    } else if caps.batch16 {
        FeatureLevel::Batch16
    } else {
        FeatureLevel::NoBatch
    }
}

/// The batch scan of a request target under `level`, the result of
/// [`detect`]. Batches of 32 need thirty-two unread bytes, so batches of 16
/// take what they leave.
pub fn match_uri_vectored(bytes: &mut Bytes, level: FeatureLevel)
    ensures
        final(bytes).buffer() == old(bytes).buffer(),
        old(bytes).offset() <= final(bytes).offset() <= final(bytes).buffer().len(),
        final(bytes).offset() == vectored_stop(
            old(bytes).buffer(),
            ByteClass::Uri,
            old(bytes).offset(),
            effective_level(level),
        ),
{
    proof {
        use_type_invariant(&*bytes);
        lemma_batches_of_32_then_16(bytes.buffer(), ByteClass::Uri, bytes.offset());
    }
    if level == FeatureLevel::Batch32AndBatch16 {
        parse_uri_batch_32(bytes);
        parse_uri_batch_16(bytes);
    } else if level == FeatureLevel::Batch16 {
        parse_uri_batch_16(bytes);
    }
}

/// The batch scan of a header value under `level`, the result of [`detect`].
/// Batches of 32 need thirty-two unread bytes, so batches of 16 take what
/// they leave.
pub fn match_header_value_vectored(bytes: &mut Bytes, level: FeatureLevel)
    ensures
        final(bytes).buffer() == old(bytes).buffer(),
        old(bytes).offset() <= final(bytes).offset() <= final(bytes).buffer().len(),
        final(bytes).offset() == vectored_stop(
            old(bytes).buffer(),
            ByteClass::HeaderValue,
            old(bytes).offset(),
            effective_level(level),
        ),
{
    proof {
        use_type_invariant(&*bytes);
        lemma_batches_of_32_then_16(bytes.buffer(), ByteClass::HeaderValue, bytes.offset());
    }
    if level == FeatureLevel::Batch32AndBatch16 {
        match_header_value_batch_32(bytes);
        match_header_value_batch_16(bytes);
    } else if level == FeatureLevel::Batch16 {
        match_header_value_batch_16(bytes);
    }
}

} // verus!
