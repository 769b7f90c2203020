//! Batch scanners and the dispatch between them.
//!
//! A scan for the end of a run of allowed bytes may go sixteen or thirty-two
//! bytes at a step where the processor can. Which widths it can is found out
//! once and kept as a [`FeatureLevel`]; the dispatch functions of the modules
//! below route a scan by that level. None of them changes where a run ends:
//! a batch scan stops at the end of the run or short of it, and the
//! byte-by-byte scanner finishes from there.

use vstd::prelude::*;

pub mod avx2;
pub mod avx2_compile_time;
pub mod batch;
pub mod dispatch;
pub mod lane;
pub mod runtime;
pub mod sse42;
pub mod sse42_compile_time;

verus! {

/// The code of [`FeatureLevel::Batch16`] in a cache word.
pub const SSE_42: usize = 1;

/// The code of [`FeatureLevel::Batch32`] in a cache word.
pub const AVX_2: usize = 2;

/// The code of [`FeatureLevel::Batch32AndBatch16`] in a cache word.
pub const AVX_2_AND_SSE_42: usize = 3;

/// The code of [`FeatureLevel::NoBatch`] in a cache word.
pub const NONE: usize = usize::MAX;

/// The code of [`FeatureLevel::Unknown`]: what a cache word holds before the
/// first detection.
pub const INIT: usize = 0;

/// Which batch widths this process may use.
#[derive(Clone, Copy, Debug, PartialEq, Eq, Structural)]
pub enum FeatureLevel {
    /// Not yet probed.
    Unknown,
    /// Probed: no batch width is usable.
    NoBatch,
    /// Probed: batches of 16.
    Batch16,
    /// Probed: batches of 32.
    Batch32,
    /// Probed: batches of 32, and batches of 16 for what they leave.
    Batch32AndBatch16,
}

/// What a query of the processor reported: one bit for each batch width.
#[derive(Clone, Copy, Debug, PartialEq, Eq, Structural)]
pub struct Capabilities {
    /// The processor has the 16-wide instructions.
    pub batch16: bool,
    /// The processor has the 32-wide instructions.
    pub batch32: bool,
}

impl FeatureLevel {
    /// The code that stands for this level in a cache word.
    pub open spec fn spec_code(self) -> usize {
        match self {
            FeatureLevel::Unknown => INIT,
            FeatureLevel::NoBatch => NONE,
            FeatureLevel::Batch16 => SSE_42,
            FeatureLevel::Batch32 => AVX_2,
            FeatureLevel::Batch32AndBatch16 => AVX_2_AND_SSE_42,
        }
    }

    /// The level that `code` stands for, if it stands for one.
    pub open spec fn spec_from_code(code: usize) -> Option<FeatureLevel> {
        if code == INIT {
            Some(FeatureLevel::Unknown)
        } else if code == SSE_42 {
            Some(FeatureLevel::Batch16)
        } else if code == AVX_2 {
            Some(FeatureLevel::Batch32)
        } else if code == AVX_2_AND_SSE_42 {
            Some(FeatureLevel::Batch32AndBatch16)
        } else if code == NONE {
            Some(FeatureLevel::NoBatch)
        } else {
            None
        }
    }

    /// Whether this level is the result of a probe.
    pub open spec fn is_resolved(self) -> bool {
        self != FeatureLevel::Unknown
    }

    /// The code that stands for this level in a cache word.
    pub fn code(self) -> (code: usize)
        ensures
            code == self.spec_code(),
            Self::spec_from_code(code) == Some(self),
    {
        match self {
            FeatureLevel::Unknown => INIT,
            FeatureLevel::NoBatch => NONE,
            FeatureLevel::Batch16 => SSE_42,
            FeatureLevel::Batch32 => AVX_2,
            FeatureLevel::Batch32AndBatch16 => AVX_2_AND_SSE_42,
        }
    }

    /// The level that `code` stands for; `None` where it stands for no level.
    pub fn from_code(code: usize) -> (level: Option<FeatureLevel>)
        ensures
            level == Self::spec_from_code(code),
            level matches Some(l) ==> l.spec_code() == code,
    {
        if code == INIT {
            Some(FeatureLevel::Unknown)
        } else if code == SSE_42 {
            Some(FeatureLevel::Batch16)
        } else if code == AVX_2 {
            Some(FeatureLevel::Batch32)
        } else if code == AVX_2_AND_SSE_42 {
            Some(FeatureLevel::Batch32AndBatch16)
        } else if code == NONE {
            Some(FeatureLevel::NoBatch)
        } else {
            None
        }
    }

    /// The cached level where there is one; `None` where the processor has
    /// still to be probed.
    pub fn resolved(self) -> (level: Option<FeatureLevel>)
        ensures
            level == (if self.is_resolved() {
                Some(self)
            } else {
                None
            }),
    {
        match self {
            FeatureLevel::Unknown => None,
            _ => Some(self),
        }
    }
}

} // verus!
