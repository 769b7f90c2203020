//! The request: a request line and the header block after it.

use vstd::prelude::*;
use crate::bytes::Bytes;
use crate::class::{ByteClass, SP};
use crate::headers::{
    all_fit,
    fill_slots,
    header_block,
    lemma_header_block_by_room,
    lemma_header_block_fits,
    lemma_header_block_grows,
    lemma_header_block_of_prefix,
    parse_header_block,
};
use crate::line::{expect_line_end, lemma_terminator_of_prefix, terminator_at};
use crate::outcome::{ParseError, ParseOutcome, RequestParseOutcome, Terminator, Version};
use crate::scan::{all_in_class, lemma_scan_end, lemma_scan_end_of_prefix, match_scalar, scan_end};
use crate::simd::dispatch::Dispatcher;
use crate::span::{Header, TokenSpan};

verus! {

/// The three tokens of a request line.
#[derive(Clone, Copy, Debug, PartialEq, Eq, Structural)]
pub struct RequestLine {
    /// The span of the method.
    pub method: TokenSpan,
    /// The span of the request target.
    pub uri: TokenSpan,
    /// The protocol version.
    pub version: Version,
}

/// A request being parsed. It is made empty over slots that the caller owns,
/// filled by one parse call, and dropped by the caller after use.
pub struct Request<'h> {
    /// The span of the method, once a request has been parsed.
    pub method: Option<TokenSpan>,
    /// The span of the request target, once a request has been parsed.
    pub uri: Option<TokenSpan>,
    /// The protocol version, once a request has been parsed.
    pub version: Option<Version>,
    /// The caller's header slots.
    pub headers: &'h mut [Header],
    /// How many of the slots, from the first on, hold the request's headers.
    pub header_count: usize,
}

/// Byte `i` of the text `HTTP/1.`, for `i` from 0 to 6.
pub open spec fn version_text(i: int) -> u8 {
    if i == 0 {
        0x48
    } else if i == 1 {
        0x54
    } else if i == 2 {
        0x54
    } else if i == 3 {
        0x50
    } else if i == 4 {
        0x2f
    } else if i == 5 {
        0x31
    } else {
        0x2e
    }
}

/// Byte `at + i` of `s` is there and is not byte `i` of `HTTP/1.`.
pub open spec fn version_text_differs(s: Seq<u8>, at: int, i: int) -> bool {
    at + i < s.len() && s[at + i] != version_text(i)
}

/// What the version of `s` at `at` parses to; on `Complete` the count is the
/// offset after the version.
///
/// The version is `HTTP/1.0` or `HTTP/1.1`, letter for letter. A byte of the
/// input that differs from both makes it invalid; where the input ends
/// before the eighth byte and no byte differs, the outcome is `Partial`.
pub open spec fn version_at(s: Seq<u8>, at: int) -> ParseOutcome<Version> {
    if version_text_differs(s, at, 0) || version_text_differs(s, at, 1) || version_text_differs(
        s,
        at,
        2,
    ) || version_text_differs(s, at, 3) || version_text_differs(s, at, 4)
        || version_text_differs(s, at, 5) || version_text_differs(s, at, 6) || (at + 7 < s.len()
        && s[at + 7] != 0x30 && s[at + 7] != 0x31) {
        ParseOutcome::Invalid(ParseError::InvalidVersion)
    } else if at + 8 > s.len() {
        ParseOutcome::Partial
    } else if s[at + 7] == 0x30 {
        ParseOutcome::Complete(Version::Http10, (at + 8) as usize)
    } else {
        ParseOutcome::Complete(Version::Http11, (at + 8) as usize)
    }
}

/// What the request line of `s` at `at` parses to; on `Complete` the count
/// is the offset after the line.
///
/// The method is the run of token bytes at `at`; it is not empty and one
/// space follows it. The request target is the run of URI-safe bytes after
/// that space; it is not empty and one space follows it. Then come the
/// version and CR LF.
pub open spec fn request_line(s: Seq<u8>, at: int) -> ParseOutcome<RequestLine> {
    let method_end = scan_end(s, ByteClass::Token, at);
    if method_end >= s.len() {
        ParseOutcome::Partial
    } else if method_end == at || s[method_end] != SP {
        ParseOutcome::Invalid(ParseError::InvalidToken)
    } else {
        let uri_start = method_end + 1;
        let uri_end = scan_end(s, ByteClass::Uri, uri_start);
        if uri_end >= s.len() {
            ParseOutcome::Partial
        } else if uri_end == uri_start || s[uri_end] != SP {
            ParseOutcome::Invalid(ParseError::InvalidToken)
        } else {
            match version_at(s, uri_end + 1) {
                ParseOutcome::Complete(version, version_end) => match terminator_at(
                    s,
                    version_end as int,
                ) {
                    Terminator::Present => ParseOutcome::Complete(
                        RequestLine {
                            method: TokenSpan { start: at as usize, end: method_end as usize },
                            uri: TokenSpan { start: uri_start as usize, end: uri_end as usize },
                            version,
                        },
                        (version_end + 2) as usize,
                    ),
                    Terminator::Partial => ParseOutcome::Partial,
                    Terminator::Malformed => ParseOutcome::Invalid(
                        ParseError::InvalidLineTerminator,
                    ),
                },
                ParseOutcome::Partial => ParseOutcome::Partial,
                ParseOutcome::Invalid(e) => ParseOutcome::Invalid(e),
            }
        }
    }
}

/// What the request at the start of `s` parses to, with room for `capacity`
/// header lines: the outcome of its request line where that is not
/// `Complete`, else the outcome of the header block after the request line.
pub open spec fn request_outcome(s: Seq<u8>, capacity: nat) -> RequestParseOutcome {
    match request_line(s, 0) {
        ParseOutcome::Complete(_, next) => header_block(
            s,
            next as int,
            capacity,
            Seq::empty(),
        ).outcome,
        ParseOutcome::Partial => ParseOutcome::Partial,
        ParseOutcome::Invalid(e) => ParseOutcome::Invalid(e),
    }
}

/// The header lines of the request at the start of `s` that a parse with
/// room for `capacity` lines accepts before it ends.
pub open spec fn request_fields(s: Seq<u8>, capacity: nat) -> Seq<Header> {
    match request_line(s, 0) {
        ParseOutcome::Complete(_, next) => header_block(
            s,
            next as int,
            capacity,
            Seq::empty(),
        ).fields,
        _ => Seq::empty(),
    }
}

/// A request line that was accepted lies inside the input: the method is a
/// run of token bytes that is not empty, one space on the request target is
/// a run of URI-safe bytes that is not empty, and the line ends eleven bytes
/// after the target.
pub proof fn lemma_request_line_is_well_formed(
    s: Seq<u8>,
    at: int,
    line: RequestLine,
    next: usize,
)
    requires
        0 <= at <= s.len() <= usize::MAX,
        request_line(s, at) == ParseOutcome::Complete(line, next),
    ensures
        at == line.method.start < line.method.end,
        line.method.end + 1 == line.uri.start < line.uri.end,
        line.uri.end + 11 == next <= s.len(),
        all_in_class(s, ByteClass::Token, at, line.method.end as int),
        all_in_class(s, ByteClass::Uri, line.uri.start as int, line.uri.end as int),
        s[line.method.end as int] == SP,
        s[line.uri.end as int] == SP,
        version_at(s, line.uri.end + 1) == ParseOutcome::Complete(
            line.version,
            (line.uri.end + 9) as usize,
        ),
        terminator_at(s, line.uri.end + 9) == Terminator::Present,
{
    let method_end = scan_end(s, ByteClass::Token, at);
    lemma_scan_end(s, ByteClass::Token, at);
    lemma_scan_end(s, ByteClass::Uri, method_end + 1);
}

/// The outcome of a request line other than `Partial` is final, and a line
/// that was accepted is parsed from its own bytes alone.
pub proof fn lemma_request_line_of_prefix(p: Seq<u8>, s: Seq<u8>, at: int)
    requires
        p.is_prefix_of(s),
        0 <= at <= p.len(),
        s.len() <= usize::MAX,
    ensures
        !(request_line(p, at) is Partial) ==> request_line(s, at) == request_line(p, at),
        request_line(s, at) matches ParseOutcome::Complete(_, next) && next <= p.len()
            ==> request_line(p, at) == request_line(s, at),
{
    assert forall|i: int| 0 <= i < p.len() implies p[i] == s[i] by {
        assert(p[i] == s.subrange(0, p.len() as int)[i]);
    }
    lemma_scan_end(s, ByteClass::Token, at);
    lemma_scan_end_of_prefix(p, s, ByteClass::Token, at);
    if let ParseOutcome::Complete(line, next) = request_line(s, at) {
        lemma_request_line_is_well_formed(s, at, line, next);
    }
    let method_end = scan_end(p, ByteClass::Token, at);
    if method_end < p.len() {
        lemma_scan_end(s, ByteClass::Uri, method_end + 1);
        lemma_scan_end_of_prefix(p, s, ByteClass::Uri, method_end + 1);
        let uri_end = scan_end(p, ByteClass::Uri, method_end + 1);
        lemma_terminator_of_prefix(p, s, uri_end + 9);
    }
}

/// An outcome other than `Partial` is final: it is the outcome of every
/// input that starts with the bytes that gave it, with the same request line
/// and the same header lines.
pub proof fn lemma_request_outcome_is_final(p: Seq<u8>, s: Seq<u8>, capacity: nat)
    requires
        p.is_prefix_of(s),
        s.len() <= usize::MAX,
        capacity <= usize::MAX,
        !(request_outcome(p, capacity) is Partial),
    ensures
        request_outcome(s, capacity) == request_outcome(p, capacity),
        request_fields(s, capacity) == request_fields(p, capacity),
        request_line(s, 0) == request_line(p, 0),
{
    lemma_request_line_of_prefix(p, s, 0);
    if let ParseOutcome::Complete(line, next) = request_line(p, 0) {
        lemma_header_block_of_prefix(p, s, next as int, capacity, Seq::empty());
    }
}

/// While a request arrives piece by piece, every input that ends inside the
/// request is `Partial`, and every input that holds the whole request gives
/// the outcome, the request line and the header lines of the request,
/// whatever follows it. So a caller that reads more and parses again from
/// the start ends with what one parse of the whole request gives.
pub proof fn lemma_request_partial_until_complete(
    p: Seq<u8>,
    s: Seq<u8>,
    capacity: nat,
    count: usize,
    consumed: usize,
)
    requires
        p.is_prefix_of(s),
        s.len() <= usize::MAX,
        capacity <= usize::MAX,
        request_outcome(s, capacity) == ParseOutcome::Complete(count, consumed),
    ensures
        consumed <= s.len(),
        request_outcome(p, capacity) == if p.len() < consumed {
            ParseOutcome::Partial
        } else {
            ParseOutcome::Complete(count, consumed)
        },
        p.len() >= consumed ==> request_line(p, 0) == request_line(s, 0) && request_fields(
            p,
            capacity,
        ) == request_fields(s, capacity),
{
    lemma_request_line_of_prefix(p, s, 0);
    if let ParseOutcome::Complete(line, next) = request_line(s, 0) {
        lemma_request_line_is_well_formed(s, 0, line, next);
        lemma_header_block_grows(s, next as int, capacity, Seq::empty());
        lemma_header_block_of_prefix(p, s, next as int, capacity, Seq::empty());
        if request_line(p, 0) == request_line(s, 0) {
            lemma_header_block_grows(p, next as int, capacity, Seq::empty());
        }
    }
}

/// Room is enforced for a request as for a header block: where the request
/// holds more header lines than there is room for, as a parse with more room
/// shows, the outcome is `TooManyHeaders`, and the lines accepted are the
/// first `capacity` of them.
pub proof fn lemma_request_too_many_headers(s: Seq<u8>, capacity: nat, larger: nat)
    requires
        s.len() <= usize::MAX,
        capacity <= larger <= usize::MAX,
        request_fields(s, larger).len() > capacity,
    ensures
        request_outcome(s, capacity) == ParseOutcome::<usize>::Invalid(ParseError::TooManyHeaders),
        request_fields(s, capacity) == request_fields(s, larger).subrange(0, capacity as int),
{
    if let ParseOutcome::Complete(line, next) = request_line(s, 0) {
        lemma_header_block_by_room(s, next as int, capacity, larger, Seq::empty());
    }
}

/// Byte `i` of the text `HTTP/1.`, for `i` from 0 to 6.
fn version_text_byte(i: usize) -> (b: u8)
    requires
        i < 7,
    ensures
        b == version_text(i as int),
{
    if i == 0 {
        0x48
    } else if i == 1 {
        0x54
    } else if i == 2 {
        0x54
    } else if i == 3 {
        0x50
    } else if i == 4 {
        0x2f
    } else if i == 5 {
        0x31
    } else {
        0x2e
    }
}

/// Parses the version under the cursor. On `Complete` the cursor stands
/// after the version; else it does not move.
pub fn parse_version(bytes: &mut Bytes) -> (version: ParseOutcome<Version>)
    ensures
        final(bytes).buffer() == old(bytes).buffer(),
        version == version_at(old(bytes).buffer(), old(bytes).offset()),
        final(bytes).offset() == old(bytes).offset() + if version is Complete {
            8int
        } else {
            0int
        },
        version matches ParseOutcome::Complete(_, next) ==> final(bytes).offset() == next,
{
    let ghost s = bytes.buffer();
    let ghost at = bytes.offset();
    let mut i: usize = 0;
    while i < 7
        invariant
            s == old(bytes).buffer(),
            at == old(bytes).offset(),
            bytes.buffer() == s,
            bytes.offset() == at,
            i <= 7,
            forall|j: int| 0 <= j < i ==> at + j < s.len() && #[trigger] s[at + j] == version_text(j),
        decreases 7 - i,
    {
        match bytes.peek_ahead(i) {
            None => {
                return ParseOutcome::Partial;
            },
            Some(b) => {
                if b != version_text_byte(i) {
                    return ParseOutcome::Invalid(ParseError::InvalidVersion);
                }
            },
        }
        i = i + 1;
    }
    let version = match bytes.peek_ahead(7) {
        None => {
            return ParseOutcome::Partial;
        },
        Some(b) => {
            if b == 0x30 {
                Version::Http10
            } else if b == 0x31 {
                Version::Http11
            } else {
                return ParseOutcome::Invalid(ParseError::InvalidVersion);
            }
        },
    };
    bytes.advance(8);
    ParseOutcome::Complete(version, bytes.pos())
}

/// Parses the request line under the cursor. On `Complete` the cursor stands
/// after the line.
pub fn parse_request_line(bytes: &mut Bytes, dispatcher: &Dispatcher) -> (line: ParseOutcome<
    RequestLine,
>)
    ensures
        final(bytes).buffer() == old(bytes).buffer(),
        line == request_line(old(bytes).buffer(), old(bytes).offset()),
        line matches ParseOutcome::Complete(_, next) ==> final(bytes).offset() == next,
        old(bytes).offset() <= final(bytes).offset(),
{
    let ghost s = bytes.buffer();
    let start = bytes.pos();
    proof {
        lemma_scan_end(s, ByteClass::Token, start as int);
    }
    match_scalar(bytes, ByteClass::Token);
    let method_end = bytes.pos();
    match bytes.peek() {
        None => {
            return ParseOutcome::Partial;
        },
        Some(b) => {
            if method_end == start || b != SP {
                return ParseOutcome::Invalid(ParseError::InvalidToken);
            }
        },
    }
    bytes.advance(1);
    let uri_start = bytes.pos();
    proof {
        lemma_scan_end(s, ByteClass::Uri, uri_start as int);
    }
    dispatcher.scan_uri(bytes);
    let uri_end = bytes.pos();
    match bytes.peek() {
        None => {
            return ParseOutcome::Partial;
        },
        Some(b) => {
            if uri_end == uri_start || b != SP {
                return ParseOutcome::Invalid(ParseError::InvalidToken);
            }
        },
    }
    bytes.advance(1);
    let version = match parse_version(bytes) {
        ParseOutcome::Complete(version, _) => version,
        ParseOutcome::Partial => {
            return ParseOutcome::Partial;
        },
        ParseOutcome::Invalid(e) => {
            return ParseOutcome::Invalid(e);
        },
    };
    match expect_line_end(bytes) {
        Terminator::Present => ParseOutcome::Complete(
            RequestLine {
                method: TokenSpan { start, end: method_end },
                uri: TokenSpan { start: uri_start, end: uri_end },
                version,
            },
            bytes.pos(),
        ),
        Terminator::Partial => ParseOutcome::Partial,
        Terminator::Malformed => ParseOutcome::Invalid(ParseError::InvalidLineTerminator),
    }
}

impl<'h> Request<'h> {
    /// An empty request over the caller's header slots.
    pub fn new(headers: &'h mut [Header]) -> (request: Self)
        ensures
            request.method.is_none(),
            request.uri.is_none(),
            request.version.is_none(),
            request.header_count == 0,
            request.headers@ == old(headers)@,
    {
        Request { method: None, uri: None, version: None, headers, header_count: 0 }
    }

    /// Parses the request at the start of `input`. On `Complete` the method,
    /// the request target and the version are set, the value and the header
    /// count are the number of slots filled, and the count of bytes covers
    /// the request line, the header lines and the empty line. On any other
    /// outcome those four fields keep what they held. Whatever the outcome,
    /// the slots hold the header lines that were accepted before the parse
    /// ended, in the order of the input, and the slots after them keep what
    /// they held. Every span set or written is a range of `input`. The
    /// outcome and the request are the same under every dispatcher.
    pub fn parse(&mut self, input: &[u8], dispatcher: &Dispatcher) -> (outcome: RequestParseOutcome)
        ensures
            outcome == request_outcome(input@, old(self).headers@.len()),
            final(self).headers@ == fill_slots(
                old(self).headers@,
                request_fields(input@, old(self).headers@.len()),
            ),
            all_fit(request_fields(input@, old(self).headers@.len()), input@.len() as int),
            outcome matches ParseOutcome::Complete(count, _) ==> {
                &&& request_line(input@, 0) matches ParseOutcome::Complete(line, _)
                &&& line.method.fits(input@.len() as int)
                &&& line.uri.fits(input@.len() as int)
                &&& final(self).method == Some(line.method)
                &&& final(self).uri == Some(line.uri)
                &&& final(self).version == Some(line.version)
                &&& final(self).header_count == count
            },
            !(outcome is Complete) ==> {
                &&& final(self).method == old(self).method
                &&& final(self).uri == old(self).uri
                &&& final(self).version == old(self).version
                &&& final(self).header_count == old(self).header_count
            },
    {
        proof {
            assert(input@.len() == input.len());
            if let ParseOutcome::Complete(line, next) = request_line(input@, 0) {
                lemma_request_line_is_well_formed(input@, 0, line, next);
                lemma_header_block_fits(input@, next as int, self.headers@.len(), Seq::empty());
            }
        }
        let mut bytes = Bytes::new(input);
        let line = match parse_request_line(&mut bytes, dispatcher) {
            ParseOutcome::Complete(line, _) => line,
            ParseOutcome::Partial => {
                proof {
                    assert(fill_slots(self.headers@, Seq::empty()) =~= self.headers@);
                }
                return ParseOutcome::Partial;
            },
            ParseOutcome::Invalid(e) => {
                proof {
                    assert(fill_slots(self.headers@, Seq::empty()) =~= self.headers@);
                }
                return ParseOutcome::Invalid(e);
            },
        };
        let outcome = parse_header_block(&mut bytes, self.headers, dispatcher);
        if let ParseOutcome::Complete(count, _) = outcome {
            self.method = Some(line.method);
            self.uri = Some(line.uri);
            self.version = Some(line.version);
            self.header_count = count;
        }
        outcome
    }
}

} // verus!
