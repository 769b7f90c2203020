//! The choice between the dispatch strategies, made once when the parser is
//! set up.

use vstd::prelude::*;
use crate::bytes::Bytes;
use crate::class::ByteClass;
use crate::scan::{lemma_scan_end, lemma_scan_end_resume, match_scalar, scan_end};
use crate::simd::runtime::vectored_stop;
use crate::simd::{avx2_compile_time, runtime, sse42_compile_time};
use crate::simd::{Capabilities, FeatureLevel};

verus! {

/// The batch width that a build assumed of its target.
#[derive(Clone, Copy, Debug, PartialEq, Eq, Structural)]
pub enum BuildTarget {
    /// The target has the 16-wide instructions.
    Batch16,
    /// The target has the 32-wide instructions.
    Batch32,
}

/// How scans are routed to the batch scanners.
#[derive(Clone, Copy, Debug, PartialEq, Eq, Structural)]
pub enum Dispatcher {
    /// No batch scanner is part of the build: every scan goes byte by byte.
    ScalarOnly,
    /// The build assumed a target; `level` is what its detection reported.
    CompileTimeFixed { target: BuildTarget, level: FeatureLevel },
    /// The level was probed while the process ran.
    RuntimeProbed { level: FeatureLevel },
}

impl Dispatcher {
    /// The row of the decision table that this dispatcher follows.
    pub open spec fn effective_level(self) -> FeatureLevel {
        match self {
            Dispatcher::ScalarOnly => FeatureLevel::NoBatch,
            Dispatcher::CompileTimeFixed { target: BuildTarget::Batch16, level } => {
                sse42_compile_time::effective_level(level)
            },
            Dispatcher::CompileTimeFixed { target: BuildTarget::Batch32, level } => {
                avx2_compile_time::effective_level(level)
            },
            Dispatcher::RuntimeProbed { level } => level,
        }
    }

    /// Where this dispatcher's batch scan of `class` stops that starts at
    /// `from`.
    pub open spec fn stop(self, s: Seq<u8>, class: ByteClass, from: int) -> int {
        vectored_stop(s, class, from, self.effective_level())
    }

    /// The dispatcher of a build that assumed `target`, on a processor that
    /// reports `caps`.
    pub fn compile_time_fixed(target: BuildTarget, caps: Capabilities) -> (d: Self)
        ensures
            d == (Dispatcher::CompileTimeFixed {
                target,
                level: match target {
                    BuildTarget::Batch16 => sse42_compile_time::detected(caps),
                    BuildTarget::Batch32 => avx2_compile_time::detected(caps),
                },
            }),
    {
        let level = match target {
            BuildTarget::Batch16 => sse42_compile_time::detect(caps),
            BuildTarget::Batch32 => avx2_compile_time::detect(caps),
        };
        Dispatcher::CompileTimeFixed { target, level }
    }

    /// The dispatcher of a build that probes, with the level that `cache`
    /// held or, where it held none, that `caps` resolves to. The cache holds
    /// that level afterwards.
    pub fn runtime_probed(cache: &mut FeatureLevel, caps: Capabilities) -> (d: Self)
        ensures
            d == (Dispatcher::RuntimeProbed { level: runtime::detected(*old(cache), caps) }),
            *final(cache) == runtime::detected(*old(cache), caps),
    {
        Dispatcher::RuntimeProbed { level: runtime::detect(cache, caps) }
    }

    /// The batch scan of a request target.
    pub fn match_uri_vectored(&self, bytes: &mut Bytes)
        ensures
            final(bytes).buffer() == old(bytes).buffer(),
            old(bytes).offset() <= final(bytes).offset() <= final(bytes).buffer().len(),
        old(bytes).offset() <= final(bytes).offset() <= final(bytes).buffer().len(),
            final(bytes).offset() == self.stop(
                old(bytes).buffer(),
                ByteClass::Uri,
                old(bytes).offset(),
            ),
    {
        proof {
            use_type_invariant(&*bytes);
        }
        match self {
            Dispatcher::ScalarOnly => {},
            Dispatcher::CompileTimeFixed { target: BuildTarget::Batch16, level } => {
                sse42_compile_time::match_uri_vectored(bytes, *level)
            },
            Dispatcher::CompileTimeFixed { target: BuildTarget::Batch32, level } => {
                avx2_compile_time::match_uri_vectored(bytes, *level)
            },
            Dispatcher::RuntimeProbed { level } => runtime::match_uri_vectored(bytes, *level),
        }
    }

    /// The batch scan of a header value.
    pub fn match_header_value_vectored(&self, bytes: &mut Bytes)
        ensures
            final(bytes).buffer() == old(bytes).buffer(),
            old(bytes).offset() <= final(bytes).offset() <= final(bytes).buffer().len(),
        old(bytes).offset() <= final(bytes).offset() <= final(bytes).buffer().len(),
            final(bytes).offset() == self.stop(
                old(bytes).buffer(),
                ByteClass::HeaderValue,
                old(bytes).offset(),
            ),
    {
        proof {
            use_type_invariant(&*bytes);
        }
        match self {
            Dispatcher::ScalarOnly => {},
            Dispatcher::CompileTimeFixed { target: BuildTarget::Batch16, level } => {
                sse42_compile_time::match_header_value_vectored(bytes, *level)
            },
            Dispatcher::CompileTimeFixed { target: BuildTarget::Batch32, level } => {
                avx2_compile_time::match_header_value_vectored(bytes, *level)
            },
            Dispatcher::RuntimeProbed { level } => {
                runtime::match_header_value_vectored(bytes, *level)
            },
        }
    }

    /// Moves the cursor to the end of the run of URI-safe bytes under it: by
    /// batches as far as this dispatcher takes them, then byte by byte.
    pub fn scan_uri(&self, bytes: &mut Bytes)
        ensures
            final(bytes).buffer() == old(bytes).buffer(),
            old(bytes).offset() <= final(bytes).offset() <= final(bytes).buffer().len(),
        old(bytes).offset() <= final(bytes).offset() <= final(bytes).buffer().len(),
            final(bytes).offset() == scan_end(
                old(bytes).buffer(),
                ByteClass::Uri,
                old(bytes).offset(),
            ),
    {
        proof {
            use_type_invariant(&*bytes);
            lemma_batch_scan_stays_in_run(
                bytes.buffer(),
                ByteClass::Uri,
                bytes.offset(),
                self.effective_level(),
            );
        }
        self.match_uri_vectored(bytes);
        match_scalar(bytes, ByteClass::Uri);
    }

    /// Moves the cursor to the end of the run of header-value-safe bytes
    /// under it: by batches as far as this dispatcher takes them, then byte by
    /// byte.
    pub fn scan_header_value(&self, bytes: &mut Bytes)
        ensures
            final(bytes).buffer() == old(bytes).buffer(),
            old(bytes).offset() <= final(bytes).offset() <= final(bytes).buffer().len(),
        old(bytes).offset() <= final(bytes).offset() <= final(bytes).buffer().len(),
            final(bytes).offset() == scan_end(
                old(bytes).buffer(),
                ByteClass::HeaderValue,
                old(bytes).offset(),
            ),
    {
        proof {
            use_type_invariant(&*bytes);
            lemma_batch_scan_stays_in_run(
                bytes.buffer(),
                ByteClass::HeaderValue,
                bytes.offset(),
                self.effective_level(),
            );
        }
        self.match_header_value_vectored(bytes);
        match_scalar(bytes, ByteClass::HeaderValue);
    }
}

/// A batch scan under any level stops inside the run that the byte-by-byte
/// scanner would pass, never beyond its end nor beyond the buffer, and the
/// byte-by-byte scanner that goes on from there ends where it would have
/// ended alone. So the end of a run is the same under every level.
pub proof fn lemma_batch_scan_stays_in_run(
    s: Seq<u8>,
    class: ByteClass,
    from: int,
    level: FeatureLevel,
)
    requires
        0 <= from <= s.len(),
    ensures
        from <= vectored_stop(s, class, from, level) <= scan_end(s, class, from) <= s.len(),
        scan_end(s, class, vectored_stop(s, class, from, level)) == scan_end(s, class, from),
{
    lemma_scan_end(s, class, from);
    lemma_scan_end_resume(s, class, from, vectored_stop(s, class, from, level));
}

/// Two scans of one buffer under any two levels end at the same offset.
pub proof fn lemma_levels_agree(
    s: Seq<u8>,
    class: ByteClass,
    from: int,
    a: FeatureLevel,
    b: FeatureLevel,
)
    requires
        0 <= from <= s.len(),
    ensures
        scan_end(s, class, vectored_stop(s, class, from, a)) == scan_end(
            s,
            class,
            vectored_stop(s, class, from, b),
        ),
{
    lemma_batch_scan_stays_in_run(s, class, from, a);
    lemma_batch_scan_stays_in_run(s, class, from, b);
}

} // verus!
