//! Dispatch by a feature level that is probed while the process runs.

use vstd::prelude::*;
use crate::bytes::Bytes;
use crate::class::ByteClass;
use crate::simd::avx2::{match_header_value_batch_32, parse_uri_batch_32};
use crate::simd::batch::{batch_stop, lemma_batches_of_32_then_16};
use crate::simd::sse42::{match_header_value_batch_16, parse_uri_batch_16};
use crate::simd::{Capabilities, FeatureLevel};

verus! {

/// The level that a probe with the result `caps` resolves to.
pub open spec fn probed_level(caps: Capabilities) -> FeatureLevel {
    if caps.batch32 {
        if caps.batch16 {
            FeatureLevel::Batch32AndBatch16
        } else {
            FeatureLevel::Batch32
        }
    } else if caps.batch16 {
        FeatureLevel::Batch16
    } else {
        FeatureLevel::NoBatch
    }
}

/// The level that a detection reports which finds `cached` in the cache and
/// would learn `caps` from the processor: the cached level once there is one,
/// else the probed level.
pub open spec fn detected(cached: FeatureLevel, caps: Capabilities) -> FeatureLevel {
    if cached.is_resolved() {
        cached
    } else {
        probed_level(caps)
    }
}

/// Where the dispatch by `level` leaves a scan of `class` that starts at
/// `from`: a level with batches of 16 stops as a loop of batches of 16 does, a
/// level with batches of 32 alone as a loop of batches of 32 does, and any
/// other level does not move.
pub open spec fn vectored_stop(s: Seq<u8>, class: ByteClass, from: int, level: FeatureLevel) -> int {
    match level {
        FeatureLevel::Batch16 | FeatureLevel::Batch32AndBatch16 => batch_stop(s, class, from, 16),
        FeatureLevel::Batch32 => batch_stop(s, class, from, 32),
        FeatureLevel::NoBatch | FeatureLevel::Unknown => from,
    }
}

/// Resolves the feature level. `cache` is the level that the process holds,
/// `caps` what the processor reports. Where the cache holds a resolved level,
/// that level is the answer and `caps` is not looked at; else the answer is
/// the level that `caps` resolves to, and the cache holds it afterwards.
pub fn detect(cache: &mut FeatureLevel, caps: Capabilities) -> (level: FeatureLevel)
    ensures
        level == detected(*old(cache), caps),
        level.is_resolved(),
        *final(cache) == level,
{
    let feat = *cache;
    match feat {
        FeatureLevel::Unknown => {
            let level = if caps.batch32 {
                if caps.batch16 {
                    FeatureLevel::Batch32AndBatch16
                } else {
                    FeatureLevel::Batch32
                }
            } else if caps.batch16 {
                FeatureLevel::Batch16
            } else {
                FeatureLevel::NoBatch
            };
            *cache = level;
            level
        },
        _ => feat,
    }
}

/// A resolved level never changes, and detections that start before any of
/// them has stored its answer all give the same answer: whether a detection
/// finds the cache unprobed or finds what another detection stored for the
/// same processor, it reports the probed level and leaves it in the cache.
pub proof fn lemma_detection_converges(found: FeatureLevel, caps: Capabilities)
    requires
        found == FeatureLevel::Unknown || found == probed_level(caps),
    ensures
        detected(found, caps) == probed_level(caps),
        detected(detected(found, caps), caps) == detected(found, caps),
        detected(found, caps).is_resolved(),
{
}

/// Once resolved, the level is what every later detection reports, whatever
/// the processor is then said to support.
pub proof fn lemma_resolved_level_is_kept(cached: FeatureLevel, caps: Capabilities)
    requires
        cached.is_resolved(),
    ensures
        detected(cached, caps) == cached,
{
}

/// The batch scan of a request target under `level`, the result of
/// [`detect`]. With batches of 32 and of 16, the 16-wide scan takes what the
/// 32-wide scan left, where that is sixteen bytes or more.
pub fn match_uri_vectored(bytes: &mut Bytes, level: FeatureLevel)
    ensures
        final(bytes).buffer() == old(bytes).buffer(),
        old(bytes).offset() <= final(bytes).offset() <= final(bytes).buffer().len(),
        final(bytes).offset() == vectored_stop(
            old(bytes).buffer(),
            ByteClass::Uri,
            old(bytes).offset(),
            level,
        ),
{
    let ghost s = bytes.buffer();
    let ghost from = bytes.offset();
    proof {
        use_type_invariant(&*bytes);
    }
    match level {
        FeatureLevel::Batch16 => parse_uri_batch_16(bytes),
        FeatureLevel::Batch32 => parse_uri_batch_32(bytes),
        FeatureLevel::Batch32AndBatch16 => {
            proof {
                lemma_batches_of_32_then_16(s, ByteClass::Uri, from);
            }
            parse_uri_batch_32(bytes);
            parse_uri_batch_16(bytes)
        },
        _ => (),
    }
}

/// The batch scan of a header value under `level`, the result of [`detect`].
/// With batches of 32 and of 16, the 16-wide scan takes what the 32-wide scan
/// left, where that is sixteen bytes or more.
pub fn match_header_value_vectored(bytes: &mut Bytes, level: FeatureLevel)
    ensures
        final(bytes).buffer() == old(bytes).buffer(),
        old(bytes).offset() <= final(bytes).offset() <= final(bytes).buffer().len(),
        final(bytes).offset() == vectored_stop(
            old(bytes).buffer(),
            ByteClass::HeaderValue,
            old(bytes).offset(),
            level,
        ),
{
    let ghost s = bytes.buffer();
    let ghost from = bytes.offset();
    proof {
        use_type_invariant(&*bytes);
    }
    match level {
        FeatureLevel::Batch16 => match_header_value_batch_16(bytes),
        FeatureLevel::Batch32 => match_header_value_batch_32(bytes),
        FeatureLevel::Batch32AndBatch16 => {
            proof {
                lemma_batches_of_32_then_16(s, ByteClass::HeaderValue, from);
            }
            match_header_value_batch_32(bytes);
            match_header_value_batch_16(bytes)
        },
        _ => (),
    }
}

} // verus!
