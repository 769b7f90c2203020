use siparse::{
    parse_headers, BuildTarget, Dispatcher, FeatureLevel, Header, ParseError, ParseOutcome,
    TokenSpan,
};

const SCALAR: Dispatcher = Dispatcher::ScalarOnly;

fn all_dispatchers() -> Vec<Dispatcher> {
    let mut all = vec![Dispatcher::ScalarOnly];
    for level in [
        FeatureLevel::Unknown,
        FeatureLevel::NoBatch,
        FeatureLevel::Batch16,
        FeatureLevel::Batch32,
        FeatureLevel::Batch32AndBatch16,
    ] {
        all.push(Dispatcher::RuntimeProbed { level });
        all.push(Dispatcher::CompileTimeFixed { target: BuildTarget::Batch16, level });
        all.push(Dispatcher::CompileTimeFixed { target: BuildTarget::Batch32, level });
    }
    all
}

fn invalid(e: ParseError) -> ParseOutcome<usize> {
    ParseOutcome::Invalid(e)
}

fn outcome_of(input: &[u8], capacity: usize) -> ParseOutcome<usize> {
    let mut slots = vec![Header::empty(); capacity];
    parse_headers(input, &mut slots, &SCALAR)
}

fn pair<'a>(header: Header, input: &'a [u8]) -> (&'a [u8], &'a [u8]) {
    (header.name.slice(input).unwrap(), header.value.slice(input).unwrap())
}

#[test]
fn headers_keep_the_order_of_the_input() {
    let input = b"Host: example.com\r\nAccept: */*\r\nHost: other\r\n\r\nbody";
    let mut slots = [Header::empty(); 4];
    let outcome = parse_headers(input, &mut slots, &SCALAR);
    assert_eq!(outcome, ParseOutcome::Complete(3, 47));
    assert_eq!(pair(slots[0], input), (&b"Host"[..], &b"example.com"[..]));
    assert_eq!(pair(slots[1], input), (&b"Accept"[..], &b"*/*"[..]));
    assert_eq!(pair(slots[2], input), (&b"Host"[..], &b"other"[..]));
    assert_eq!(slots[3], Header::empty());
}

#[test]
fn headers_spans_are_offsets_into_the_input() {
    let input = b"Host: example.com\r\n\r\n";
    let mut slots = [Header::empty(); 2];
    assert_eq!(parse_headers(input, &mut slots, &SCALAR), ParseOutcome::Complete(1, 21));
    assert_eq!(slots[0].name, TokenSpan { start: 0, end: 4 });
    assert_eq!(slots[0].value, TokenSpan { start: 6, end: 17 });
}

#[test]
fn unused_slots_keep_what_they_held() {
    let marker = Header {
        name: TokenSpan { start: 7, end: 9 },
        value: TokenSpan { start: 11, end: 13 },
    };
    let mut slots = [marker; 3];
    let outcome = parse_headers(b"A: b\r\n\r\n", &mut slots, &SCALAR);
    assert_eq!(outcome, ParseOutcome::Complete(1, 8));
    assert_eq!(slots[0].name, TokenSpan { start: 0, end: 1 });
    assert_eq!(slots[1], marker);
    assert_eq!(slots[2], marker);
}

#[test]
fn empty_block_is_complete_with_no_slot() {
    assert_eq!(outcome_of(b"\r\n", 0), ParseOutcome::Complete(0, 2));
    assert_eq!(outcome_of(b"\r\nbody", 4), ParseOutcome::Complete(0, 2));
}

#[test]
fn more_lines_than_slots_are_too_many_headers() {
    let input = b"A: 1\r\nB: 2\r\nC: 3\r\n\r\n";
    assert_eq!(outcome_of(input, 3), ParseOutcome::Complete(3, 20));
    assert_eq!(outcome_of(input, 4), ParseOutcome::Complete(3, 20));
    assert_eq!(outcome_of(input, 2), invalid(ParseError::TooManyHeaders));
    assert_eq!(outcome_of(input, 1), invalid(ParseError::TooManyHeaders));
    assert_eq!(outcome_of(input, 0), invalid(ParseError::TooManyHeaders));
}

#[test]
fn too_many_headers_leaves_the_first_lines_in_the_slots() {
    let input = b"A: 1\r\nB: 2\r\nC: 3\r\n\r\n";
    let mut slots = [Header::empty(); 2];
    let outcome = parse_headers(input, &mut slots, &SCALAR);
    assert_eq!(outcome, invalid(ParseError::TooManyHeaders));
    assert_eq!(pair(slots[0], input), (&b"A"[..], &b"1"[..]));
    assert_eq!(pair(slots[1], input), (&b"B"[..], &b"2"[..]));
}

#[test]
fn too_many_headers_is_known_at_the_first_byte_of_the_line() {
    assert_eq!(outcome_of(b"A: 1\r\n", 1), ParseOutcome::Partial);
    assert_eq!(outcome_of(b"A: 1\r\n\r", 1), ParseOutcome::Partial);
    assert_eq!(outcome_of(b"A: 1\r\nB", 1), invalid(ParseError::TooManyHeaders));
    assert_eq!(outcome_of(b"A: 1\r\n ", 1), invalid(ParseError::TooManyHeaders));
    assert_eq!(outcome_of(b"A: 1\r\nB", 2), ParseOutcome::Partial);
}

#[test]
fn one_blank_after_the_colon_is_skipped() {
    let cases: [(&[u8], &[u8]); 8] = [
        (b"A:b\r\n\r\n", b"b"),
        (b"A: b\r\n\r\n", b"b"),
        (b"A:\tb\r\n\r\n", b"b"),
        (b"A:  b\r\n\r\n", b" b"),
        (b"A: \tb\r\n\r\n", b"\tb"),
        (b"A: b \r\n\r\n", b"b "),
        (b"A:\r\n\r\n", b""),
        (b"A: \r\n\r\n", b""),
    ];
    for (input, value) in cases {
        let mut slots = [Header::empty(); 1];
        let outcome = parse_headers(input, &mut slots, &SCALAR);
        assert_eq!(outcome, ParseOutcome::Complete(1, input.len()));
        assert_eq!(pair(slots[0], input), (&b"A"[..], value));
    }
}

#[test]
fn header_value_may_hold_bytes_above_del() {
    let input = b"X-Name: caf\xc3\xa9 \xff\r\n\r\n";
    let mut slots = [Header::empty(); 1];
    assert_eq!(parse_headers(input, &mut slots, &SCALAR), ParseOutcome::Complete(1, 19));
    assert_eq!(slots[0].value.slice(input).unwrap(), b"caf\xc3\xa9 \xff");
}

#[test]
fn header_name_is_a_token() {
    let e = invalid(ParseError::InvalidToken);
    assert_eq!(outcome_of(b": b\r\n\r\n", 4), e);
    assert_eq!(outcome_of(b"A b: c\r\n\r\n", 4), e);
    assert_eq!(outcome_of(b"A\r\n\r\n", 4), e);
    assert_eq!(outcome_of(b"A\x00: c\r\n\r\n", 4), e);
    assert_eq!(outcome_of(b"A : c\r\n\r\n", 4), e);
    assert_eq!(outcome_of(b"\nA: c\r\n\r\n", 4), e);
    assert_eq!(outcome_of(b"(", 4), e);
}

#[test]
fn folded_header_is_rejected() {
    let input = b"A: b\r\n c\r\n\r\n";
    let mut slots = [Header::empty(); 4];
    let outcome = parse_headers(input, &mut slots, &SCALAR);
    assert_eq!(outcome, invalid(ParseError::InvalidToken));
    assert_eq!(pair(slots[0], input), (&b"A"[..], &b"b"[..]));
    assert_eq!(slots[1], Header::empty());
    assert_eq!(outcome_of(b"A: b\r\n\tc\r\n\r\n", 4), invalid(ParseError::InvalidToken));
    assert_eq!(outcome_of(b" A: b\r\n\r\n", 4), invalid(ParseError::InvalidToken));
}

#[test]
fn header_value_holds_no_control_byte() {
    let e = invalid(ParseError::InvalidToken);
    assert_eq!(outcome_of(b"A: b\x00c\r\n\r\n", 4), e);
    assert_eq!(outcome_of(b"A: b\x7fc\r\n\r\n", 4), e);
    assert_eq!(outcome_of(b"A: b\n\r\n", 4), e);
    assert_eq!(outcome_of(b"A: b\nB: c\n\n", 4), e);
}

#[test]
fn header_lines_end_in_cr_lf() {
    let e = invalid(ParseError::InvalidLineTerminator);
    assert_eq!(outcome_of(b"A: b\rX", 4), e);
    assert_eq!(outcome_of(b"A: b\r\r\n", 4), e);
    assert_eq!(outcome_of(b"\rX", 4), e);
    assert_eq!(outcome_of(b"A: b\r\n\r\r", 4), e);
}

#[test]
fn header_block_is_partial_at_every_cut() {
    let input = b"Host: example.com\r\nAccept: */*\r\n\r\n";
    for cut in 0..input.len() {
        assert_eq!(outcome_of(&input[..cut], 4), ParseOutcome::Partial, "{cut}");
    }
    assert_eq!(outcome_of(input, 4), ParseOutcome::Complete(2, input.len()));
    let mut longer = input.to_vec();
    longer.extend_from_slice(b"GET / HTTP/1.1\r\n");
    assert_eq!(outcome_of(&longer, 4), ParseOutcome::Complete(2, input.len()));
}

#[test]
fn header_block_retried_with_more_bytes_gives_the_one_shot_result() {
    let input = b"Host: example.com\r\nAccept: */*\r\n\r\n";
    let mut whole = [Header::empty(); 4];
    let expected = parse_headers(input, &mut whole, &SCALAR);
    let mut slots = [Header::empty(); 4];
    let mut have = 0;
    let outcome = loop {
        let outcome = parse_headers(&input[..have], &mut slots, &SCALAR);
        if outcome != ParseOutcome::Partial {
            break outcome;
        }
        have += 1;
    };
    assert_eq!(have, input.len());
    assert_eq!(outcome, expected);
    assert_eq!(slots, whole);
}

#[test]
fn header_rejection_is_final() {
    let input = b"Host: example.com\r\nAc cept: */*\r\n\r\n";
    let e = invalid(ParseError::InvalidToken);
    for cut in 22..=input.len() {
        assert_eq!(outcome_of(&input[..cut], 4), e, "{cut}");
    }
    for cut in 0..22 {
        assert_eq!(outcome_of(&input[..cut], 4), ParseOutcome::Partial, "{cut}");
    }
}

#[test]
fn every_dispatcher_parses_headers_alike() {
    for value_len in [0, 1, 14, 15, 16, 17, 30, 31, 32, 33, 47, 48, 49, 64, 100] {
        for ending in [&b"\r\n\r\n"[..], b"\r\n", b"\r", b"", b"\x00\r\n", b"\rX", b"\n"] {
            let mut input = b"Name: ".to_vec();
            input.extend(std::iter::repeat(b'v').take(value_len));
            input.extend_from_slice(ending);
            let mut expected_slots = [Header::empty(); 2];
            let expected = parse_headers(&input, &mut expected_slots, &SCALAR);
            for dispatcher in all_dispatchers() {
                let mut slots = [Header::empty(); 2];
                let outcome = parse_headers(&input, &mut slots, &dispatcher);
                assert_eq!(outcome, expected, "{dispatcher:?} {value_len}");
                assert_eq!(slots, expected_slots, "{dispatcher:?} {value_len}");
            }
            if ending == b"\r\n\r\n" {
                assert_eq!(expected, ParseOutcome::Complete(1, input.len()));
                assert_eq!(
                    expected_slots[0].value,
                    TokenSpan { start: 6, end: 6 + value_len }
                );
            }
        }
    }
}

#[test]
fn token_span_names_a_range_of_the_input() {
    let input = b"0123456789";
    let span = TokenSpan::new(2, 5);
    assert_eq!(span, TokenSpan { start: 2, end: 5 });
    assert_eq!(span.len(), 3);
    assert!(!span.is_empty());
    assert_eq!(span.slice(input), Some(&b"234"[..]));
    assert_eq!(TokenSpan::new(10, 10).slice(input), Some(&b""[..]));
    assert_eq!(TokenSpan::new(0, 10).slice(input), Some(&input[..]));
    assert_eq!(TokenSpan::new(4, 11).slice(input), None);
    assert_eq!(TokenSpan::new(5, 4).slice(input), None);
    assert_eq!(TokenSpan::new(5, 4).len(), 0);
    assert!(TokenSpan::new(5, 4).is_empty());
    assert!(TokenSpan::new(3, 3).is_empty());
}

#[test]
fn empty_header_is_two_empty_spans() {
    let empty = Header::empty();
    assert_eq!(empty.name, TokenSpan { start: 0, end: 0 });
    assert_eq!(empty.value, TokenSpan { start: 0, end: 0 });
}
