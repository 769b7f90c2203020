//! Zero-copy, incremental parsing of HTTP/1.x wire syntax: request lines,
//! header blocks and chunk-size lines.
//!
//! Every parsed value is a [`TokenSpan`]: a pair of offsets into the buffer
//! that the caller handed in. Nothing is copied and nothing is allocated.
//!
//! A parse call ends in one of three ways, a [`ParseOutcome`]: the input
//! holds a whole unit, the input ended inside a unit that was valid so far,
//! or the input breaks the grammar. What each parser accepts is written down
//! as a function from the bytes of the input to the outcome, and each parser
//! is proved to compute that function, whichever batch widths the scans
//! inside it use.

pub mod bytes;
pub mod chunk;
pub mod class;
pub mod headers;
pub mod line;
pub mod outcome;
pub mod request;
pub mod scan;
pub mod simd;
pub mod span;

pub use crate::chunk::parse_chunk_size;
pub use crate::headers::parse_headers;
pub use crate::outcome::{
    ChunkSizeOutcome,
    HeaderParseOutcome,
    ParseError,
    ParseOutcome,
    RequestParseOutcome,
    Version,
};
pub use crate::request::Request;
pub use crate::simd::dispatch::{BuildTarget, Dispatcher};
pub use crate::simd::{Capabilities, FeatureLevel};
pub use crate::span::{Header, TokenSpan};
