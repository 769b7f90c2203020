use siparse::{
    BuildTarget, Dispatcher, FeatureLevel, Header, ParseError, ParseOutcome, Request, TokenSpan,
    Version,
};

const SCALAR: Dispatcher = Dispatcher::ScalarOnly;

fn all_dispatchers() -> Vec<Dispatcher> {
    let mut all = vec![Dispatcher::ScalarOnly];
    for level in [
        FeatureLevel::Unknown,
        FeatureLevel::NoBatch,
        FeatureLevel::Batch16,
        FeatureLevel::Batch32,
        FeatureLevel::Batch32AndBatch16,
    ] {
        all.push(Dispatcher::RuntimeProbed { level });
        all.push(Dispatcher::CompileTimeFixed { target: BuildTarget::Batch16, level });
        all.push(Dispatcher::CompileTimeFixed { target: BuildTarget::Batch32, level });
    }
    all
}

fn invalid(e: ParseError) -> ParseOutcome<usize> {
    ParseOutcome::Invalid(e)
}

fn outcome_of(input: &[u8]) -> ParseOutcome<usize> {
    let mut headers = [Header::empty(); 4];
    let mut req = Request::new(&mut headers);
    req.parse(input, &SCALAR)
}

#[test]
fn new_request_is_empty() {
    let mut headers = [Header::empty(); 4];
    let req = Request::new(&mut headers);
    assert_eq!(req.method, None);
    assert_eq!(req.uri, None);
    assert_eq!(req.version, None);
    assert_eq!(req.header_count, 0);
    assert_eq!(req.headers.len(), 4);
}

#[test]
fn request_with_headers() {
    let input = b"POST /index.html?x=1 HTTP/1.0\r\nHost: example.com\r\nAccept: */*\r\n\r\nbody";
    let mut headers = [Header::empty(); 4];
    let mut req = Request::new(&mut headers);
    let outcome = req.parse(input, &SCALAR);
    assert_eq!(outcome, ParseOutcome::Complete(2, 65));
    assert_eq!(req.method, Some(TokenSpan { start: 0, end: 4 }));
    assert_eq!(req.uri, Some(TokenSpan { start: 5, end: 20 }));
    assert_eq!(req.uri.unwrap().slice(input).unwrap(), b"/index.html?x=1");
    assert_eq!(req.version, Some(Version::Http10));
    assert_eq!(req.header_count, 2);
    assert_eq!(req.headers[0].name.slice(input).unwrap(), b"Host");
    assert_eq!(req.headers[0].value.slice(input).unwrap(), b"example.com");
    assert_eq!(req.headers[1].name.slice(input).unwrap(), b"Accept");
    assert_eq!(req.headers[1].value.slice(input).unwrap(), b"*/*");
    assert_eq!(req.headers[2], Header::empty());
    assert_eq!(&input[65..], b"body");
}

#[test]
fn request_fills_the_callers_slots() {
    let input = b"GET / HTTP/1.1\r\nHost: a\r\n\r\n";
    let mut headers = [Header::empty(); 2];
    {
        let mut req = Request::new(&mut headers);
        assert_eq!(req.parse(input, &SCALAR), ParseOutcome::Complete(1, 27));
    }
    assert_eq!(headers[0].name.slice(input).unwrap(), b"Host");
    assert_eq!(headers[0].value.slice(input).unwrap(), b"a");
    assert_eq!(headers[1], Header::empty());
}

#[test]
fn both_versions_are_recognized() {
    for (input, version) in [
        (&b"GET / HTTP/1.0\r\n\r\n"[..], Version::Http10),
        (&b"GET / HTTP/1.1\r\n\r\n"[..], Version::Http11),
    ] {
        let mut headers = [Header::empty(); 1];
        let mut req = Request::new(&mut headers);
        assert_eq!(req.parse(input, &SCALAR), ParseOutcome::Complete(0, 18));
        assert_eq!(req.version, Some(version));
    }
}

#[test]
fn other_versions_are_invalid() {
    let e = invalid(ParseError::InvalidVersion);
    assert_eq!(outcome_of(b"GET / HTTP/2.0\r\n\r\n"), e);
    assert_eq!(outcome_of(b"GET / HTTP/1.2\r\n\r\n"), e);
    assert_eq!(outcome_of(b"GET / http/1.1\r\n\r\n"), e);
    assert_eq!(outcome_of(b"GET / HTTP/1,1\r\n\r\n"), e);
    assert_eq!(outcome_of(b"GET / HTTX"), e);
    assert_eq!(outcome_of(b"GET / \r\n\r\n"), e);
    assert_eq!(outcome_of(b"GET / H\r"), e);
    assert_eq!(outcome_of(b"GET / HTTP/1.\r\n"), e);
    assert_eq!(outcome_of(b"GET / HTTP/1.x"), e);
}

#[test]
fn version_cut_short_is_partial() {
    for cut in 6..14 {
        assert_eq!(outcome_of(&b"GET / HTTP/1.1"[..cut]), ParseOutcome::Partial, "{cut}");
    }
}

#[test]
fn request_line_ends_in_cr_lf() {
    let e = invalid(ParseError::InvalidLineTerminator);
    assert_eq!(outcome_of(b"GET / HTTP/1.1\n\r\n"), e);
    assert_eq!(outcome_of(b"GET / HTTP/1.1\n\n"), e);
    assert_eq!(outcome_of(b"GET / HTTP/1.1\rX"), e);
    assert_eq!(outcome_of(b"GET / HTTP/1.1 \r\n\r\n"), e);
    assert_eq!(outcome_of(b"GET / HTTP/1.12\r\n\r\n"), e);
    assert_eq!(outcome_of(b"GET / HTTP/1.1\r\n\rX"), e);
}

#[test]
fn method_is_a_token_that_is_not_empty() {
    let e = invalid(ParseError::InvalidToken);
    assert_eq!(outcome_of(b" / HTTP/1.1\r\n\r\n"), e);
    assert_eq!(outcome_of(b"G:T / HTTP/1.1\r\n\r\n"), e);
    assert_eq!(outcome_of(b"GET\r\n"), e);
    assert_eq!(outcome_of(b"\r\nGET / HTTP/1.1\r\n\r\n"), e);
    assert_eq!(outcome_of(b"G\x00"), e);
    assert_eq!(outcome_of(b"GET"), ParseOutcome::Partial);
}

#[test]
fn request_target_is_uri_safe_and_not_empty() {
    let e = invalid(ParseError::InvalidToken);
    assert_eq!(outcome_of(b"GET  HTTP/1.1\r\n\r\n"), e);
    assert_eq!(outcome_of(b"GET  / HTTP/1.1\r\n\r\n"), e);
    assert_eq!(outcome_of(b"GET /a\"b HTTP/1.1\r\n\r\n"), e);
    assert_eq!(outcome_of(b"GET /a<b"), e);
    assert_eq!(outcome_of(b"GET /a\x00"), e);
    assert_eq!(outcome_of(b"GET /a\tb HTTP/1.1\r\n\r\n"), e);
    assert_eq!(outcome_of(b"GET /\xc3\xa9 HTTP/1.1\r\n\r\n"), e);
    assert_eq!(outcome_of(b"GET /\r\n"), e);
    assert_eq!(outcome_of(b"GET /a"), ParseOutcome::Partial);
    assert_eq!(outcome_of(b"GET "), ParseOutcome::Partial);
}

#[test]
fn request_with_more_headers_than_slots() {
    let input = b"GET / HTTP/1.1\r\nA: 1\r\nB: 2\r\n\r\n";
    let mut headers = [Header::empty(); 1];
    let mut req = Request::new(&mut headers);
    assert_eq!(req.parse(input, &SCALAR), invalid(ParseError::TooManyHeaders));
    assert_eq!(req.method, None);
    assert_eq!(req.uri, None);
    assert_eq!(req.version, None);
    assert_eq!(req.header_count, 0);
    assert_eq!(req.headers[0].name.slice(input).unwrap(), b"A");
}

#[test]
fn request_that_is_rejected_sets_no_field() {
    let mut headers = [Header::empty(); 4];
    let mut req = Request::new(&mut headers);
    let outcome = req.parse(b"GET / HTTP/1.1\r\nHost: a\r\nB\x00d: x\r\n\r\n", &SCALAR);
    assert_eq!(outcome, invalid(ParseError::InvalidToken));
    assert_eq!(req.method, None);
    assert_eq!(req.uri, None);
    assert_eq!(req.version, None);
    assert_eq!(req.header_count, 0);
}

#[test]
fn request_is_partial_at_every_cut() {
    let input = b"GET /index.html HTTP/1.1\r\nHost: example.com\r\nAccept: */*\r\n\r\n";
    for cut in 0..input.len() {
        assert_eq!(outcome_of(&input[..cut]), ParseOutcome::Partial, "{cut}");
    }
    assert_eq!(outcome_of(input), ParseOutcome::Complete(2, input.len()));
}

#[test]
fn request_retried_with_more_bytes_gives_the_one_shot_result() {
    let input = b"GET /index.html HTTP/1.1\r\nHost: example.com\r\nAccept: */*\r\n\r\nrest";
    let mut whole_slots = [Header::empty(); 4];
    let mut whole = Request::new(&mut whole_slots);
    let expected = whole.parse(input, &SCALAR);
    assert_eq!(expected, ParseOutcome::Complete(2, input.len() - 4));

    let mut have = 0;
    loop {
        let mut slots = [Header::empty(); 4];
        let mut req = Request::new(&mut slots);
        let outcome = req.parse(&input[..have], &SCALAR);
        if outcome == ParseOutcome::Partial {
            assert!(have < input.len() - 4);
            have += 1;
            continue;
        }
        assert_eq!(have, input.len() - 4);
        assert_eq!(outcome, expected);
        assert_eq!(req.method, whole.method);
        assert_eq!(req.uri, whole.uri);
        assert_eq!(req.version, whole.version);
        assert_eq!(req.header_count, whole.header_count);
        assert_eq!(req.headers, whole.headers);
        break;
    }
}

#[test]
fn every_dispatcher_parses_requests_alike() {
    for uri_len in [1, 2, 15, 16, 17, 31, 32, 33, 47, 48, 49, 63, 64, 65, 200] {
        for bad in [None, Some(0), Some(uri_len / 2), Some(uri_len - 1)] {
            let mut input = b"GET /".to_vec();
            input.extend(std::iter::repeat(b'a').take(uri_len - 1));
            if let Some(at) = bad {
                input[4 + at] = b'{';
            }
            input.extend_from_slice(b" HTTP/1.1\r\nHost: example.com\r\n\r\n");
            let mut expected_slots = [Header::empty(); 2];
            let mut expected_req = Request::new(&mut expected_slots);
            let expected = expected_req.parse(&input, &SCALAR);
            match bad {
                None => assert_eq!(expected, ParseOutcome::Complete(1, input.len())),
                Some(_) => assert_eq!(expected, invalid(ParseError::InvalidToken)),
            }
            for dispatcher in all_dispatchers() {
                let mut slots = [Header::empty(); 2];
                let mut req = Request::new(&mut slots);
                let outcome = req.parse(&input, &dispatcher);
                assert_eq!(outcome, expected, "{dispatcher:?} {uri_len} {bad:?}");
                assert_eq!(req.method, expected_req.method);
                assert_eq!(req.uri, expected_req.uri);
                assert_eq!(req.version, expected_req.version);
                assert_eq!(req.header_count, expected_req.header_count);
                assert_eq!(req.headers, expected_req.headers);
            }
            if bad.is_none() {
                assert_eq!(expected_req.uri, Some(TokenSpan { start: 4, end: 4 + uri_len }));
            }
        }
    }
}
