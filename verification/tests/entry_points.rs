use siparse::{
    parse_chunk_size, parse_headers, Dispatcher, Header, ParseError, ParseOutcome, Request,
    TokenSpan, Version,
};

fn text<'a>(span: TokenSpan, input: &'a [u8]) -> &'a [u8] {
    span.slice(input).expect("the span lies inside the input")
}

#[test]
fn request_without_headers_is_complete() {
    let input = b"GET / HTTP/1.1\r\n\r\n";
    let mut headers = [Header::empty(); 16];
    let mut req = Request::new(&mut headers);
    let outcome = req.parse(input, &Dispatcher::ScalarOnly);
    assert_eq!(outcome, ParseOutcome::Complete(0, 18));
    assert_eq!(text(req.method.unwrap(), input), b"GET");
    assert_eq!(text(req.uri.unwrap(), input), b"/");
    assert_eq!(req.version, Some(Version::Http11));
    assert_eq!(req.header_count, 0);
}

#[test]
fn request_without_the_empty_line_is_partial() {
    let mut headers = [Header::empty(); 16];
    let mut req = Request::new(&mut headers);
    let outcome = req.parse(b"GET / HTTP/1.1\r\n", &Dispatcher::ScalarOnly);
    assert_eq!(outcome, ParseOutcome::Partial);
    assert_eq!(req.method, None);
    assert_eq!(req.uri, None);
    assert_eq!(req.version, None);
    assert_eq!(req.header_count, 0);
}

#[test]
fn tab_after_the_method_is_an_invalid_token() {
    let mut headers = [Header::empty(); 16];
    let mut req = Request::new(&mut headers);
    let outcome = req.parse(b"GET\t/ HTTP/1.1\r\n\r\n", &Dispatcher::ScalarOnly);
    assert_eq!(outcome, ParseOutcome::Invalid(ParseError::InvalidToken));
    assert_eq!(req.method, None);
}

#[test]
fn one_header_fills_a_single_slot() {
    let input = b"Host: example.com\r\n\r\n";
    let mut slots = [Header::empty(); 1];
    let outcome = parse_headers(input, &mut slots, &Dispatcher::ScalarOnly);
    assert_eq!(outcome, ParseOutcome::Complete(1, 21));
    assert_eq!(text(slots[0].name, input), b"Host");
    assert_eq!(text(slots[0].value, input), b"example.com");
}

#[test]
fn chunk_size_hex_digits_and_line_end() {
    assert_eq!(parse_chunk_size(b"1a\r\n"), ParseOutcome::Complete(26, 4));
}

#[test]
fn chunk_size_rejects_a_byte_that_is_no_hex_digit() {
    assert_eq!(
        parse_chunk_size(b"g1\r\n"),
        ParseOutcome::Invalid(ParseError::InvalidChunkSize)
    );
}
