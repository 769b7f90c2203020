//! The chunk-size line of the chunked transfer coding:
//! hexadecimal digits, an optional extension that a semicolon opens, CR LF.

use vstd::prelude::*;
use crate::bytes::Bytes;
use crate::class::{hex_digit, hex_digit_value, ByteClass, CR, SEMICOLON};
use crate::line::{expect_line_end, lemma_terminator_of_prefix, terminator_at};
use crate::outcome::{ChunkSizeOutcome, ParseError, ParseOutcome, Terminator};
use crate::scan::{
    all_in_class,
    lemma_scan_end,
    lemma_scan_end_of_prefix,
    lemma_scan_end_resume,
    lemma_scan_end_unique,
    match_scalar,
    scan_end,
};

verus! {

/// The number that the first `digits` bytes of `s` spell in base 16.
pub open spec fn hex_value(s: Seq<u8>, digits: int) -> nat
    decreases digits,
{
    if digits <= 0 {
        0
    } else {
        hex_value(s, digits - 1) * 16 + hex_digit_value(s[digits - 1])
    }
}

/// What a chunk-size line parses to.
///
/// The line starts with its longest run of hexadecimal digits. Any number of
/// digits may stand there, as long as the number they spell fits in 64 bits;
/// a larger one is rejected wherever the line goes on or ends. Then comes a
/// carriage return, or a semicolon and a run of extension bytes before the
/// carriage return; a line feed has to follow. The outcome is `Partial`
/// where the input ends before any byte has broken these rules.
pub open spec fn chunk_size_outcome(s: Seq<u8>) -> ChunkSizeOutcome {
    let digits = scan_end(s, ByteClass::HexDigit, 0);
    let size = hex_value(s, digits);
    if size > u64::MAX {
        ParseOutcome::Invalid(ParseError::InvalidChunkSize)
    } else if digits >= s.len() {
        ParseOutcome::Partial
    } else if digits == 0 {
        ParseOutcome::Invalid(ParseError::InvalidChunkSize)
    } else {
        let line_end = if s[digits] == SEMICOLON {
            scan_end(s, ByteClass::ChunkExtension, digits + 1)
        } else {
            digits
        };
        if line_end >= s.len() {
            ParseOutcome::Partial
        } else if s[line_end] != CR {
            ParseOutcome::Invalid(ParseError::InvalidChunkSize)
        } else {
            match terminator_at(s, line_end) {
                Terminator::Present => ParseOutcome::Complete(
                    size as u64,
                    (line_end + 2) as usize,
                ),
                Terminator::Partial => ParseOutcome::Partial,
                Terminator::Malformed => ParseOutcome::Invalid(ParseError::InvalidLineTerminator),
            }
        }
    }
}

/// More digits never spell a smaller number.
pub proof fn lemma_hex_value_grows(s: Seq<u8>, fewer: int, more: int)
    requires
        fewer <= more,
    ensures
        hex_value(s, fewer) <= hex_value(s, more),
    decreases more - fewer,
{
    if fewer < more {
        lemma_hex_value_grows(s, fewer, more - 1);
    }
}

/// The number that digits spell depends on those digits alone.
pub proof fn lemma_hex_value_of_prefix(p: Seq<u8>, s: Seq<u8>, digits: int)
    requires
        p.is_prefix_of(s),
        digits <= p.len(),
    ensures
        hex_value(p, digits) == hex_value(s, digits),
    decreases digits,
{
    if digits > 0 {
        lemma_hex_value_of_prefix(p, s, digits - 1);
        assert(p[digits - 1] == s.subrange(0, p.len() as int)[digits - 1]);
    }
}

/// An outcome other than `Partial` is final: it is the outcome of every
/// input that starts with the bytes that gave it.
pub proof fn lemma_chunk_size_outcome_is_final(p: Seq<u8>, s: Seq<u8>)
    requires
        p.is_prefix_of(s),
        !(chunk_size_outcome(p) is Partial),
    ensures
        chunk_size_outcome(s) == chunk_size_outcome(p),
{
    let digits = scan_end(p, ByteClass::HexDigit, 0);
    lemma_scan_end(s, ByteClass::HexDigit, 0);
    lemma_scan_end_of_prefix(p, s, ByteClass::HexDigit, 0);
    lemma_hex_value_of_prefix(p, s, digits);
    lemma_hex_value_grows(s, digits, scan_end(s, ByteClass::HexDigit, 0));
    assert forall|i: int| 0 <= i < p.len() implies p[i] == s[i] by {
        assert(p[i] == s.subrange(0, p.len() as int)[i]);
    }
    if hex_value(p, digits) <= u64::MAX && 0 < digits < p.len() {
        lemma_scan_end(p, ByteClass::ChunkExtension, digits + 1);
        lemma_scan_end_of_prefix(p, s, ByteClass::ChunkExtension, digits + 1);
        let line_end = if p[digits] == SEMICOLON {
            scan_end(p, ByteClass::ChunkExtension, digits + 1)
        } else {
            digits
        };
        lemma_terminator_of_prefix(p, s, line_end);
    }
}

/// A complete chunk-size line is parsed from its own bytes alone: the count
/// of bytes lies inside the input, and the input cut after that many bytes
/// gives the same outcome.
pub proof fn lemma_chunk_size_reads_its_line(s: Seq<u8>, size: u64, consumed: usize)
    requires
        s.len() <= usize::MAX,
        chunk_size_outcome(s) == ParseOutcome::Complete(size, consumed),
    ensures
        consumed <= s.len(),
        chunk_size_outcome(s.subrange(0, consumed as int)) == ParseOutcome::Complete(
            size,
            consumed,
        ),
{
    let digits = scan_end(s, ByteClass::HexDigit, 0);
    lemma_scan_end(s, ByteClass::HexDigit, 0);
    lemma_scan_end(s, ByteClass::ChunkExtension, digits + 1);
    let p = s.subrange(0, consumed as int);
    assert(p.is_prefix_of(s));
    lemma_scan_end_of_prefix(p, s, ByteClass::HexDigit, 0);
    lemma_scan_end_of_prefix(p, s, ByteClass::ChunkExtension, digits + 1);
    lemma_hex_value_of_prefix(p, s, digits);
    let line_end = if s[digits] == SEMICOLON {
        scan_end(s, ByteClass::ChunkExtension, digits + 1)
    } else {
        digits
    };
    lemma_terminator_of_prefix(p, s, line_end);
}

/// While a chunk-size line arrives piece by piece, every input that ends
/// inside the line is `Partial`, and every input that holds the whole line
/// gives the outcome of the line, whatever follows it.
pub proof fn lemma_chunk_size_partial_until_complete(
    p: Seq<u8>,
    s: Seq<u8>,
    size: u64,
    consumed: usize,
)
    requires
        p.is_prefix_of(s),
        s.len() <= usize::MAX,
        chunk_size_outcome(s) == ParseOutcome::Complete(size, consumed),
    ensures
        chunk_size_outcome(p) == if p.len() < consumed {
            ParseOutcome::Partial
        } else {
            ParseOutcome::Complete(size, consumed)
        },
{
    lemma_chunk_size_reads_its_line(s, size, consumed);
    if p.len() < consumed {
        if !(chunk_size_outcome(p) is Partial) {
            lemma_chunk_size_outcome_is_final(p, s);
            lemma_chunk_size_reads_its_line(p, size, consumed);
        }
    } else {
        let line = s.subrange(0, consumed as int);
        assert(line.is_prefix_of(p)) by {
            assert(line =~= p.subrange(0, consumed as int));
        }
        lemma_chunk_size_outcome_is_final(line, p);
    }
}

/// Parses a chunk-size line at the start of `input`. On `Complete` the value
/// is the chunk size and the count covers the digits, the extension and the
/// line end.
pub fn parse_chunk_size(input: &[u8]) -> (outcome: ChunkSizeOutcome)
    ensures
        outcome == chunk_size_outcome(input@),
{
    let ghost s = input@;
    let mut bytes = Bytes::new(input);
    let mut size: u64 = 0;
    loop
        invariant_except_break
            s == input@,
            bytes.buffer() == s,
            0 <= bytes.offset() <= s.len(),
            all_in_class(s, ByteClass::HexDigit, 0, bytes.offset()),
            size == hex_value(s, bytes.offset()),
        ensures
            bytes.buffer() == s,
            bytes.offset() == scan_end(s, ByteClass::HexDigit, 0),
            size == hex_value(s, bytes.offset()),
        decreases s.len() - bytes.offset(),
    {
        let digit = match bytes.peek() {
            Some(b) => hex_digit(b),
            None => None,
        };
        match digit {
            Some(d) => {
                if size > (u64::MAX - d as u64) / 16 {
                    proof {
                        let read = bytes.offset() + 1;
                        assert(ByteClass::HexDigit.contains(s[read - 1]));
                        lemma_scan_end_resume(s, ByteClass::HexDigit, 0, read);
                        lemma_hex_value_grows(s, read, scan_end(s, ByteClass::HexDigit, 0));
                    }
                    return ParseOutcome::Invalid(ParseError::InvalidChunkSize);
                }
                size = size * 16 + d as u64;
                bytes.advance(1);
            },
            None => {
                proof {
                    lemma_scan_end_unique(s, ByteClass::HexDigit, 0, bytes.offset());
                }
                break ;
            },
        }
    }
    let digits = bytes.pos();
    match bytes.peek() {
        None => {
            return ParseOutcome::Partial;
        },
        Some(b) => {
            if digits == 0 {
                return ParseOutcome::Invalid(ParseError::InvalidChunkSize);
            }
            if b == SEMICOLON {
                bytes.advance(1);
                match_scalar(&mut bytes, ByteClass::ChunkExtension);
            }
        },
    }
    proof {
        lemma_scan_end(s, ByteClass::ChunkExtension, digits + 1);
    }
    match bytes.peek() {
        None => {
            return ParseOutcome::Partial;
        },
        Some(b) => {
            if b != CR {
                return ParseOutcome::Invalid(ParseError::InvalidChunkSize);
            }
        },
    }
    match expect_line_end(&mut bytes) {
        Terminator::Present => ParseOutcome::Complete(size, bytes.pos()),
        Terminator::Partial => ParseOutcome::Partial,
        Terminator::Malformed => ParseOutcome::Invalid(ParseError::InvalidLineTerminator),
    }
}

} // verus!
