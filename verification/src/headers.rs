//! The header block: lines of `name: value`, each ended by CR LF, and an
//! empty line after the last.

use vstd::prelude::*;
use crate::bytes::Bytes;
use crate::class::{ByteClass, COLON, CR, HTAB, SP};
use crate::line::{expect_line_end, lemma_terminator_of_prefix, terminator_at};
use crate::outcome::{HeaderParseOutcome, ParseError, ParseOutcome, Terminator};
use crate::scan::{all_in_class, lemma_scan_end, lemma_scan_end_of_prefix, match_scalar, scan_end};
use crate::simd::dispatch::Dispatcher;
use crate::span::{Header, TokenSpan};

verus! {

/// What the header line of `s` at `at` parses to; on `Complete` the count is
/// the offset after the line.
///
/// The name is the run of token bytes at `at`; it is not empty and a colon
/// follows it. One space or tab after the colon is skipped, no more. The
/// value is the run of header-value bytes from there, which may be empty and
/// keeps any further blank; CR LF follows it. A line that starts with a
/// blank, as the continuation of a folded header would, has an empty name and
/// is rejected.
pub open spec fn field_line(s: Seq<u8>, at: int) -> ParseOutcome<Header> {
    let name_end = scan_end(s, ByteClass::Token, at);
    if name_end >= s.len() {
        ParseOutcome::Partial
    } else if name_end == at || s[name_end] != COLON {
        ParseOutcome::Invalid(ParseError::InvalidToken)
    } else if name_end + 1 >= s.len() {
        ParseOutcome::Partial
    } else {
        let value_start = if s[name_end + 1] == SP || s[name_end + 1] == HTAB {
            name_end + 2
        } else {
            name_end + 1
        };
        let value_end = scan_end(s, ByteClass::HeaderValue, value_start);
        if value_end >= s.len() {
            ParseOutcome::Partial
        } else if s[value_end] != CR {
            ParseOutcome::Invalid(ParseError::InvalidToken)
        } else {
            match terminator_at(s, value_end) {
                Terminator::Present => ParseOutcome::Complete(
                    Header {
                        name: TokenSpan { start: at as usize, end: name_end as usize },
                        value: TokenSpan { start: value_start as usize, end: value_end as usize },
                    },
                    (value_end + 2) as usize,
                ),
                Terminator::Partial => ParseOutcome::Partial,
                Terminator::Malformed => ParseOutcome::Invalid(ParseError::InvalidLineTerminator),
            }
        }
    }
}

/// A header block as far as it was parsed: how the parse ended, and the
/// header lines that it accepted before it ended, in the order of the input.
pub struct HeaderBlock {
    pub outcome: HeaderParseOutcome,
    pub fields: Seq<Header>,
}

/// What the header block of `s` parses to from `at` on, after the lines in
/// `fields`, with room for `capacity` lines in all.
///
/// At the end of the input the outcome is `Partial`. A carriage return
/// starts the empty line that ends the block. Any other byte starts a header
/// line: with no room left the outcome is `TooManyHeaders`, whatever the line
/// holds; else the line is parsed, and the block goes on after it.
pub open spec fn header_block(
    s: Seq<u8>,
    at: int,
    capacity: nat,
    fields: Seq<Header>,
) -> HeaderBlock
    decreases capacity - fields.len(),
{
    if at >= s.len() {
        HeaderBlock { outcome: ParseOutcome::Partial, fields }
    } else if s[at] == CR {
        match terminator_at(s, at) {
            Terminator::Present => HeaderBlock {
                outcome: ParseOutcome::Complete(fields.len() as usize, (at + 2) as usize),
                fields,
            },
            Terminator::Partial => HeaderBlock { outcome: ParseOutcome::Partial, fields },
            Terminator::Malformed => HeaderBlock {
                outcome: ParseOutcome::Invalid(ParseError::InvalidLineTerminator),
                fields,
            },
        }
    } else if fields.len() >= capacity {
        HeaderBlock { outcome: ParseOutcome::Invalid(ParseError::TooManyHeaders), fields }
    } else {
        match field_line(s, at) {
            ParseOutcome::Complete(header, next) => header_block(
                s,
                next as int,
                capacity,
                fields.push(header),
            ),
            ParseOutcome::Partial => HeaderBlock { outcome: ParseOutcome::Partial, fields },
            ParseOutcome::Invalid(e) => HeaderBlock { outcome: ParseOutcome::Invalid(e), fields },
        }
    }
}

/// What the header block at the start of `s` parses to, with room for
/// `capacity` lines.
pub open spec fn headers_outcome(s: Seq<u8>, capacity: nat) -> HeaderParseOutcome {
    header_block(s, 0, capacity, Seq::empty()).outcome
}

/// The header lines at the start of `s` that a parse with room for
/// `capacity` lines accepts before it ends.
pub open spec fn headers_fields(s: Seq<u8>, capacity: nat) -> Seq<Header> {
    header_block(s, 0, capacity, Seq::empty()).fields
}

/// The slot sequence `before` with `fields` written over its first slots.
pub open spec fn fill_slots(before: Seq<Header>, fields: Seq<Header>) -> Seq<Header> {
    fields + before.subrange(fields.len() as int, before.len() as int)
}

/// A header line that was accepted lies inside the input: its name is a run
/// of token bytes that is not empty, its value a run of header-value bytes,
/// and the line ends after the value, two bytes on.
pub proof fn lemma_field_line_is_well_formed(s: Seq<u8>, at: int, header: Header, next: usize)
    requires
        0 <= at <= s.len() <= usize::MAX,
        field_line(s, at) == ParseOutcome::Complete(header, next),
    ensures
        at == header.name.start < header.name.end < header.value.start <= header.value.end,
        header.value.end + 2 == next <= s.len(),
        header.value.start <= header.name.end + 2,
        all_in_class(s, ByteClass::Token, header.name.start as int, header.name.end as int),
        all_in_class(
            s,
            ByteClass::HeaderValue,
            header.value.start as int,
            header.value.end as int,
        ),
        s[header.name.end as int] == COLON,
        terminator_at(s, header.value.end as int) == Terminator::Present,
{
    let name_end = scan_end(s, ByteClass::Token, at);
    lemma_scan_end(s, ByteClass::Token, at);
    let value_start = if s[name_end + 1] == SP || s[name_end + 1] == HTAB {
        name_end + 2
    } else {
        name_end + 1
    };
    lemma_scan_end(s, ByteClass::HeaderValue, value_start);
}

/// The outcome of a header line other than `Partial` is final, and a line
/// that was accepted is parsed from its own bytes alone.
pub proof fn lemma_field_line_of_prefix(p: Seq<u8>, s: Seq<u8>, at: int)
    requires
        p.is_prefix_of(s),
        0 <= at <= p.len(),
        s.len() <= usize::MAX,
    ensures
        !(field_line(p, at) is Partial) ==> field_line(s, at) == field_line(p, at),
        field_line(s, at) matches ParseOutcome::Complete(_, next) && next <= p.len() ==> field_line(
            p,
            at,
        ) == field_line(s, at),
{
    assert forall|i: int| 0 <= i < p.len() implies p[i] == s[i] by {
        assert(p[i] == s.subrange(0, p.len() as int)[i]);
    }
    lemma_scan_end(s, ByteClass::Token, at);
    lemma_scan_end_of_prefix(p, s, ByteClass::Token, at);
    if let ParseOutcome::Complete(header, next) = field_line(s, at) {
        lemma_field_line_is_well_formed(s, at, header, next);
    }
    let name_end = scan_end(p, ByteClass::Token, at);
    if name_end + 1 < p.len() {
        let value_start = if p[name_end + 1] == SP || p[name_end + 1] == HTAB {
            name_end + 2
        } else {
            name_end + 1
        };
        lemma_scan_end(s, ByteClass::HeaderValue, value_start);
        lemma_scan_end_of_prefix(p, s, ByteClass::HeaderValue, value_start);
        lemma_terminator_of_prefix(p, s, scan_end(p, ByteClass::HeaderValue, value_start));
    }
}

/// Every header of `fields` names ranges of a buffer of `len` bytes.
pub open spec fn all_fit(fields: Seq<Header>, len: int) -> bool {
    forall|i: int| 0 <= i < fields.len() ==> (#[trigger] fields[i]).fits(len)
}

/// The spans of every line that a parse accepts are ranges of the input.
pub proof fn lemma_header_block_fits(s: Seq<u8>, at: int, capacity: nat, fields: Seq<Header>)
    requires
        0 <= at,
        s.len() <= usize::MAX,
        fields.len() <= capacity,
        all_fit(fields, s.len() as int),
    ensures
        all_fit(header_block(s, at, capacity, fields).fields, s.len() as int),
    decreases capacity - fields.len(),
{
    if at < s.len() && s[at] != CR && fields.len() < capacity {
        if let ParseOutcome::Complete(header, next) = field_line(s, at) {
            lemma_field_line_is_well_formed(s, at, header, next);
            lemma_header_block_fits(s, next as int, capacity, fields.push(header));
        }
    }
}

/// A parse of a header block keeps the lines it started with, in their
/// order, and adds lines after them, never beyond the room it was given. The
/// value of a `Complete` outcome is the number of lines, and its count of
/// bytes lies inside the input.
pub proof fn lemma_header_block_grows(s: Seq<u8>, at: int, capacity: nat, fields: Seq<Header>)
    requires
        0 <= at,
        s.len() <= usize::MAX,
        fields.len() <= capacity <= usize::MAX,
    ensures
        fields.is_prefix_of(header_block(s, at, capacity, fields).fields),
        header_block(s, at, capacity, fields).fields.len() <= capacity,
        header_block(s, at, capacity, fields).outcome matches ParseOutcome::Complete(
            count,
            consumed,
        ) ==> count == header_block(s, at, capacity, fields).fields.len() && at + 2 <= consumed
            <= s.len(),
        header_block(s, at, capacity, fields).outcome == ParseOutcome::<usize>::Invalid(
            ParseError::TooManyHeaders,
        ) ==> header_block(s, at, capacity, fields).fields.len() == capacity,
    decreases capacity - fields.len(),
{
    if at < s.len() && s[at] != CR && fields.len() < capacity {
        match field_line(s, at) {
            ParseOutcome::Complete(header, next) => {
                lemma_field_line_is_well_formed(s, at, header, next);
                lemma_header_block_grows(s, next as int, capacity, fields.push(header));
                let rest = header_block(s, next as int, capacity, fields.push(header)).fields;
                assert(fields =~= rest.subrange(0, fields.len() as int)) by {
                    assert(fields.push(header) =~= rest.subrange(0, fields.len() as int + 1));
                }
            },
            _ => {
                assert(fields =~= fields.subrange(0, fields.len() as int));
            },
        }
    } else {
        assert(fields =~= fields.subrange(0, fields.len() as int));
    }
}

/// The outcome of a header block other than `Partial` is final, lines
/// included, and a complete block is parsed from its own bytes alone.
pub proof fn lemma_header_block_of_prefix(
    p: Seq<u8>,
    s: Seq<u8>,
    at: int,
    capacity: nat,
    fields: Seq<Header>,
)
    requires
        p.is_prefix_of(s),
        0 <= at,
        s.len() <= usize::MAX,
        fields.len() <= capacity <= usize::MAX,
    ensures
        !(header_block(p, at, capacity, fields).outcome is Partial) ==> header_block(
            s,
            at,
            capacity,
            fields,
        ) == header_block(p, at, capacity, fields),
        header_block(s, at, capacity, fields).outcome matches ParseOutcome::Complete(_, consumed)
            && consumed <= p.len() ==> header_block(p, at, capacity, fields) == header_block(
            s,
            at,
            capacity,
            fields,
        ),
    decreases capacity - fields.len(),
{
    assert forall|i: int| 0 <= i < p.len() implies p[i] == s[i] by {
        assert(p[i] == s.subrange(0, p.len() as int)[i]);
    }
    if at < p.len() {
        lemma_terminator_of_prefix(p, s, at);
        if p[at] != CR && fields.len() < capacity {
            lemma_field_line_of_prefix(p, s, at);
            match field_line(s, at) {
                ParseOutcome::Complete(header, next) => {
                    lemma_field_line_is_well_formed(s, at, header, next);
                    lemma_header_block_grows(s, next as int, capacity, fields.push(header));
                    if field_line(p, at) == field_line(s, at) {
                        lemma_header_block_of_prefix(
                            p,
                            s,
                            next as int,
                            capacity,
                            fields.push(header),
                        );
                    }
                },
                _ => {},
            }
        }
    } else {
        lemma_header_block_grows(s, at, capacity, fields);
    }
}

/// An outcome other than `Partial` is final: it is the outcome of every
/// input that starts with the bytes that gave it, and the same lines are
/// accepted.
pub proof fn lemma_headers_outcome_is_final(p: Seq<u8>, s: Seq<u8>, capacity: nat)
    requires
        p.is_prefix_of(s),
        s.len() <= usize::MAX,
        capacity <= usize::MAX,
        !(headers_outcome(p, capacity) is Partial),
    ensures
        headers_outcome(s, capacity) == headers_outcome(p, capacity),
        headers_fields(s, capacity) == headers_fields(p, capacity),
{
    lemma_header_block_of_prefix(p, s, 0, capacity, Seq::empty());
}

/// While a header block arrives piece by piece, every input that ends inside
/// the block is `Partial`, and every input that holds the whole block gives
/// the outcome and the lines of the block, whatever follows it.
pub proof fn lemma_headers_partial_until_complete(
    p: Seq<u8>,
    s: Seq<u8>,
    capacity: nat,
    count: usize,
    consumed: usize,
)
    requires
        p.is_prefix_of(s),
        s.len() <= usize::MAX,
        capacity <= usize::MAX,
        headers_outcome(s, capacity) == ParseOutcome::Complete(count, consumed),
    ensures
        consumed <= s.len(),
        headers_outcome(p, capacity) == if p.len() < consumed {
            ParseOutcome::Partial
        } else {
            ParseOutcome::Complete(count, consumed)
        },
        p.len() >= consumed ==> headers_fields(p, capacity) == headers_fields(s, capacity),
{
    lemma_header_block_grows(s, 0, capacity, Seq::empty());
    lemma_header_block_grows(p, 0, capacity, Seq::empty());
    lemma_header_block_of_prefix(p, s, 0, capacity, Seq::empty());
}

/// Room is enforced, and nothing is cut off in silence: where the input
/// holds more header lines than there is room for, as a parse with more room
/// shows, the outcome is `TooManyHeaders`, and the lines accepted are the
/// first `capacity` of them.
pub proof fn lemma_too_many_headers(s: Seq<u8>, capacity: nat, larger: nat)
    requires
        s.len() <= usize::MAX,
        capacity <= larger <= usize::MAX,
        headers_fields(s, larger).len() > capacity,
    ensures
        headers_outcome(s, capacity) == ParseOutcome::<usize>::Invalid(ParseError::TooManyHeaders),
        headers_fields(s, capacity) == headers_fields(s, larger).subrange(0, capacity as int),
{
    lemma_header_block_by_room(s, 0, capacity, larger, Seq::empty());
}

/// A parse with less room goes as the parse with more room goes, up to the
/// line for which it has no slot.
pub proof fn lemma_header_block_by_room(
    s: Seq<u8>,
    at: int,
    capacity: nat,
    larger: nat,
    fields: Seq<Header>,
)
    requires
        0 <= at,
        s.len() <= usize::MAX,
        fields.len() <= capacity <= larger <= usize::MAX,
    ensures
        header_block(s, at, larger, fields).fields.len() > capacity ==> {
            &&& header_block(s, at, capacity, fields).outcome == ParseOutcome::<usize>::Invalid(
                ParseError::TooManyHeaders,
            )
            &&& header_block(s, at, capacity, fields).fields == header_block(
                s,
                at,
                larger,
                fields,
            ).fields.subrange(0, capacity as int)
        },
        header_block(s, at, larger, fields).fields.len() <= capacity && !(header_block(
            s,
            at,
            capacity,
            fields,
        ).outcome == ParseOutcome::<usize>::Invalid(ParseError::TooManyHeaders)) ==> header_block(
            s,
            at,
            capacity,
            fields,
        ) == header_block(s, at, larger, fields),
    decreases larger - fields.len(),
{
    lemma_header_block_grows(s, at, larger, fields);
    let more = header_block(s, at, larger, fields).fields;
    if at < s.len() && s[at] != CR {
        if fields.len() < capacity {
            match field_line(s, at) {
                ParseOutcome::Complete(header, next) => {
                    lemma_header_block_by_room(s, next as int, capacity, larger, fields.push(header));
                },
                _ => {},
            }
        } else {
            assert(fields =~= more.subrange(0, capacity as int));
        }
    }
}

/// Parses one header line under the cursor. On `Complete` the cursor stands
/// after the line.
pub fn parse_field(bytes: &mut Bytes, dispatcher: &Dispatcher) -> (line: ParseOutcome<Header>)
    ensures
        final(bytes).buffer() == old(bytes).buffer(),
        line == field_line(old(bytes).buffer(), old(bytes).offset()),
        line matches ParseOutcome::Complete(_, next) ==> final(bytes).offset() == next,
        old(bytes).offset() <= final(bytes).offset(),
{
    let ghost s = bytes.buffer();
    let start = bytes.pos();
    proof {
        lemma_scan_end(s, ByteClass::Token, start as int);
    }
    match_scalar(bytes, ByteClass::Token);
    let name_end = bytes.pos();
    match bytes.peek() {
        None => {
            return ParseOutcome::Partial;
        },
        Some(b) => {
            if name_end == start || b != COLON {
                return ParseOutcome::Invalid(ParseError::InvalidToken);
            }
        },
    }
    bytes.advance(1);
    match bytes.peek() {
        None => {
            return ParseOutcome::Partial;
        },
        Some(b) => {
            if b == SP || b == HTAB {
                bytes.advance(1);
            }
        },
    }
    let value_start = bytes.pos();
    proof {
        lemma_scan_end(s, ByteClass::HeaderValue, value_start as int);
    }
    dispatcher.scan_header_value(bytes);
    let value_end = bytes.pos();
    match bytes.peek() {
        None => {
            return ParseOutcome::Partial;
        },
        Some(b) => {
            if b != CR {
                return ParseOutcome::Invalid(ParseError::InvalidToken);
            }
        },
    }
    match expect_line_end(bytes) {
        Terminator::Present => ParseOutcome::Complete(
            Header {
                name: TokenSpan { start, end: name_end },
                value: TokenSpan { start: value_start, end: value_end },
            },
            bytes.pos(),
        ),
        Terminator::Partial => ParseOutcome::Partial,
        Terminator::Malformed => ParseOutcome::Invalid(ParseError::InvalidLineTerminator),
    }
}

/// Parses the header block under the cursor into `slots`, from the first
/// slot on. On `Complete` the cursor stands after the empty line. The slots
/// after the last accepted line keep what they held.
pub fn parse_header_block(bytes: &mut Bytes, slots: &mut [Header], dispatcher: &Dispatcher) -> (outcome:
    HeaderParseOutcome)
    ensures
        final(bytes).buffer() == old(bytes).buffer(),
        outcome == header_block(
            old(bytes).buffer(),
            old(bytes).offset(),
            old(slots)@.len(),
            Seq::empty(),
        ).outcome,
        final(slots)@ == fill_slots(
            old(slots)@,
            header_block(
                old(bytes).buffer(),
                old(bytes).offset(),
                old(slots)@.len(),
                Seq::empty(),
            ).fields,
        ),
        outcome matches ParseOutcome::Complete(_, consumed) ==> final(bytes).offset() == consumed,
        old(bytes).offset() <= final(bytes).offset(),
{
    let ghost s = bytes.buffer();
    let ghost from = bytes.offset();
    let ghost before = slots@;
    let ghost capacity = slots@.len();
    let ghost whole = header_block(s, from, capacity, Seq::empty());
    let mut count: usize = 0;
    proof {
        use_type_invariant(&*bytes);
        assert(slots@.subrange(0, 0) =~= Seq::<Header>::empty());
        assert(fill_slots(before, Seq::empty()) =~= before);
    }
    loop
        invariant
            s == old(bytes).buffer(),
            from == old(bytes).offset(),
            before == old(slots)@,
            whole == header_block(s, from, capacity, Seq::empty()),
            bytes.buffer() == s,
            from <= bytes.offset() <= s.len(),
            slots@.len() == capacity,
            capacity == before.len(),
            count <= capacity,
            slots@ == fill_slots(before, slots@.subrange(0, count as int)),
            header_block(s, bytes.offset(), capacity, slots@.subrange(0, count as int)) == whole,
        decreases capacity - count,
    {
        let ghost fields = slots@.subrange(0, count as int);
        match bytes.peek() {
            None => {
                return ParseOutcome::Partial;
            },
            Some(b) => {
                if b == CR {
                    return match expect_line_end(bytes) {
                        Terminator::Present => ParseOutcome::Complete(count, bytes.pos()),
                        Terminator::Partial => ParseOutcome::Partial,
                        Terminator::Malformed => ParseOutcome::Invalid(
                            ParseError::InvalidLineTerminator,
                        ),
                    };
                }
            },
        }
        if count >= slots.len() {
            return ParseOutcome::Invalid(ParseError::TooManyHeaders);
        }
        match parse_field(bytes, dispatcher) {
            ParseOutcome::Complete(header, _) => {
                slots[count] = header;
                count = count + 1;
                proof {
                    use_type_invariant(&*bytes);
                    assert(slots@.subrange(0, count as int) =~= fields.push(header));
                    assert(slots@ =~= fill_slots(before, slots@.subrange(0, count as int)));
                }
            },
            ParseOutcome::Partial => {
                return ParseOutcome::Partial;
            },
            ParseOutcome::Invalid(e) => {
                return ParseOutcome::Invalid(e);
            },
        }
    }
}

/// Parses the header block at the start of `input` into `slots`, from the
/// first slot on. On `Complete` the value is the number of slots filled and
/// the count covers the header lines and the empty line. Whatever the
/// outcome, the slots hold the lines that were accepted before the parse
/// ended, in the order of the input, and the slots after them keep what they
/// held, and every span written is a range of `input`. The outcome and the
/// slots are the same under every dispatcher.
pub fn parse_headers(input: &[u8], slots: &mut [Header], dispatcher: &Dispatcher) -> (outcome:
    HeaderParseOutcome)
    ensures
        outcome == headers_outcome(input@, old(slots)@.len()),
        final(slots)@ == fill_slots(old(slots)@, headers_fields(input@, old(slots)@.len())),
        all_fit(headers_fields(input@, old(slots)@.len()), input@.len() as int),
{
    proof {
        assert(input@.len() == input.len());
        lemma_header_block_fits(input@, 0, slots@.len(), Seq::empty());
    }
    let mut bytes = Bytes::new(input);
    parse_header_block(&mut bytes, slots, dispatcher)
}

} // verus!
