//! Dispatch for a build whose target is known to have the 16-wide
//! instructions. The batches of 32 are not part of such a build.

use vstd::prelude::*;
use crate::bytes::Bytes;
use crate::class::ByteClass;
use crate::simd::runtime::vectored_stop;
use crate::simd::sse42::{match_header_value_batch_16, parse_uri_batch_16};
use crate::simd::{Capabilities, FeatureLevel};

verus! {

/// The level that this build reports for a processor with `caps`: the build
/// assumed batches of 16, and the processor is asked once more for them.
pub open spec fn detected(caps: Capabilities) -> FeatureLevel {
    if caps.batch16 {
        FeatureLevel::Batch16
    } else {
        FeatureLevel::NoBatch
    }
}

/// The row of the decision table that this build follows for `level`:
/// batches of 16 for that level, the byte-by-byte scanner alone for any
/// other.
pub open spec fn effective_level(level: FeatureLevel) -> FeatureLevel {
    if level == FeatureLevel::Batch16 {
        FeatureLevel::Batch16
    } else {
        FeatureLevel::NoBatch
    }
}

/// Reports the feature level of this build, from what the processor says of
/// the 16-wide instructions.
pub fn detect(caps: Capabilities) -> (level: FeatureLevel)
    ensures
        level == detected(caps),
        level.is_resolved(),
        effective_level(level) == level,
{
    if caps.batch16 {
        FeatureLevel::Batch16
    } else {
        FeatureLevel::NoBatch
    }
}

/// The batch scan of a request target under `level`, the result of
/// [`detect`].
pub fn match_uri_vectored(bytes: &mut Bytes, level: FeatureLevel)
    ensures
        final(bytes).buffer() == old(bytes).buffer(),
        old(bytes).offset() <= final(bytes).offset() <= final(bytes).buffer().len(),
        final(bytes).offset() == vectored_stop(
            old(bytes).buffer(),
            ByteClass::Uri,
            old(bytes).offset(),
            effective_level(level),
        ),
{
    proof {
        use_type_invariant(&*bytes);
    }
    if level == FeatureLevel::Batch16 {
        parse_uri_batch_16(bytes);
    }
}

/// The batch scan of a header value under `level`, the result of [`detect`].
pub fn match_header_value_vectored(bytes: &mut Bytes, level: FeatureLevel)
    ensures
        final(bytes).buffer() == old(bytes).buffer(),
        old(bytes).offset() <= final(bytes).offset() <= final(bytes).buffer().len(),
        final(bytes).offset() == vectored_stop(
            old(bytes).buffer(),
            ByteClass::HeaderValue,
            old(bytes).offset(),
            effective_level(level),
        ),
{
    proof {
        use_type_invariant(&*bytes);
    }
    if level == FeatureLevel::Batch16 {
        match_header_value_batch_16(bytes);
    }
}

} // verus!
