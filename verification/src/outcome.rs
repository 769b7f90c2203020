//! What a parse call hands back.

use vstd::prelude::*;

verus! {

/// Why an input was rejected.
#[derive(Clone, Copy, Debug, PartialEq, Eq, Structural)]
pub enum ParseError {
    /// A method, a request target, a header name or a header value holds a
    /// byte that may not stand there, or is empty where it may not be.
    InvalidToken,
    /// The version is neither `HTTP/1.0` nor `HTTP/1.1`.
    InvalidVersion,
    /// A line does not end in CR LF where it has to.
    InvalidLineTerminator,
    /// The input holds more header lines than the caller gave slots.
    TooManyHeaders,
    /// A chunk-size line holds no hexadecimal digit, a byte that may not
    /// stand in it, or a size too large for 64 bits.
    InvalidChunkSize,
}

/// The three ways in which a parse call ends.
#[derive(Clone, Copy, Debug, PartialEq, Eq, Structural)]
pub enum ParseOutcome<T> {
    /// The input holds a whole unit: the value parsed, and the number of
    /// bytes of the input that belong to it.
    Complete(T, usize),
    /// The input ended inside a unit, and every byte looked at was valid:
    /// the caller reads more and parses again from the start.
    Partial,
    /// The input breaks the grammar.
    Invalid(ParseError),
}

/// The outcome of parsing a chunk-size line; the value is the chunk size.
pub type ChunkSizeOutcome = ParseOutcome<u64>;

/// The outcome of parsing a header block; the value is the number of header
/// slots filled.
pub type HeaderParseOutcome = ParseOutcome<usize>;

/// The outcome of parsing a request; the value is the number of header slots
/// filled.
pub type RequestParseOutcome = ParseOutcome<usize>;

/// The protocol version of a request line.
#[derive(Clone, Copy, Debug, PartialEq, Eq, Structural)]
pub enum Version {
    /// `HTTP/1.0`
    Http10,
    /// `HTTP/1.1`
    Http11,
}

/// What stands where a line has to end.
#[derive(Clone, Copy, Debug, PartialEq, Eq, Structural)]
pub enum Terminator {
    /// CR LF.
    Present,
    /// Nothing, or CR and then nothing: the input ends first.
    Partial,
    /// Another byte than CR, or CR and another byte than LF.
    Malformed,
}

} // verus!
