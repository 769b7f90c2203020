use siparse::{parse_chunk_size, ParseError, ParseOutcome};

const INVALID: ParseOutcome<u64> = ParseOutcome::Invalid(ParseError::InvalidChunkSize);

#[test]
fn chunk_size_takes_both_cases_of_hex_digits() {
    assert_eq!(parse_chunk_size(b"0\r\n"), ParseOutcome::Complete(0, 3));
    assert_eq!(parse_chunk_size(b"A\r\n"), ParseOutcome::Complete(10, 3));
    assert_eq!(parse_chunk_size(b"fF\r\n"), ParseOutcome::Complete(255, 4));
    assert_eq!(parse_chunk_size(b"DeadBeef\r\n"), ParseOutcome::Complete(0xdead_beef, 10));
    assert_eq!(parse_chunk_size(b"567f8a\r\n"), ParseOutcome::Complete(0x567f8a, 8));
}

#[test]
fn chunk_size_counts_only_its_own_line() {
    assert_eq!(parse_chunk_size(b"1a\r\nabcdef"), ParseOutcome::Complete(26, 4));
    assert_eq!(parse_chunk_size(b"0\r\n\r\n"), ParseOutcome::Complete(0, 3));
}

#[test]
fn chunk_size_is_partial_until_the_line_feed() {
    assert_eq!(parse_chunk_size(b""), ParseOutcome::Partial);
    assert_eq!(parse_chunk_size(b"1"), ParseOutcome::Partial);
    assert_eq!(parse_chunk_size(b"1a"), ParseOutcome::Partial);
    assert_eq!(parse_chunk_size(b"1a\r"), ParseOutcome::Partial);
    assert_eq!(parse_chunk_size(b"1a;"), ParseOutcome::Partial);
    assert_eq!(parse_chunk_size(b"1a;name=value"), ParseOutcome::Partial);
    assert_eq!(parse_chunk_size(b"1a;name=value\r"), ParseOutcome::Partial);
}

#[test]
fn chunk_size_needs_a_hex_digit() {
    assert_eq!(parse_chunk_size(b"\r\n"), INVALID);
    assert_eq!(parse_chunk_size(b";ext\r\n"), INVALID);
    assert_eq!(parse_chunk_size(b" 1\r\n"), INVALID);
    assert_eq!(parse_chunk_size(b"x"), INVALID);
}

#[test]
fn chunk_size_rejects_what_is_neither_digit_nor_extension_nor_line_end() {
    assert_eq!(parse_chunk_size(b"1g\r\n"), INVALID);
    assert_eq!(parse_chunk_size(b"1 \r\n"), INVALID);
    assert_eq!(parse_chunk_size(b"1\t;x\r\n"), INVALID);
    assert_eq!(parse_chunk_size(b"1\n"), INVALID);
    assert_eq!(parse_chunk_size(b"12-"), INVALID);
}

#[test]
fn chunk_size_rejects_a_size_beyond_64_bits() {
    assert_eq!(
        parse_chunk_size(b"ffffffffffffffff\r\n"),
        ParseOutcome::Complete(u64::MAX, 18)
    );
    assert_eq!(parse_chunk_size(b"10000000000000000\r\n"), INVALID);
    assert_eq!(parse_chunk_size(b"fffffffffffffffff\r\n"), INVALID);
    assert_eq!(parse_chunk_size(b"10000000000000000"), INVALID);
    assert_eq!(parse_chunk_size(b"123456789abcdef01"), INVALID);
}

#[test]
fn chunk_size_may_have_any_number_of_leading_zeros() {
    assert_eq!(
        parse_chunk_size(b"0000000000000000000001f\r\n"),
        ParseOutcome::Complete(31, 25)
    );
    assert_eq!(
        parse_chunk_size(b"0000ffffffffffffffff\r\n"),
        ParseOutcome::Complete(u64::MAX, 22)
    );
}

#[test]
fn chunk_extension_is_skipped() {
    assert_eq!(parse_chunk_size(b"1a;\r\n"), ParseOutcome::Complete(26, 5));
    assert_eq!(parse_chunk_size(b"1a;name=value\r\n"), ParseOutcome::Complete(26, 15));
    assert_eq!(parse_chunk_size(b"1a; a=\"b c\";d\r\nrest"), ParseOutcome::Complete(26, 15));
    assert_eq!(parse_chunk_size(b"4;\xff\x80 fed\r\n"), ParseOutcome::Complete(4, 10));
    assert_eq!(parse_chunk_size(b"4;abcdef\r\n"), ParseOutcome::Complete(4, 10));
}

#[test]
fn chunk_extension_holds_no_control_byte() {
    assert_eq!(parse_chunk_size(b"1a;na\x00me\r\n"), INVALID);
    assert_eq!(parse_chunk_size(b"1a;na\tme\r\n"), INVALID);
    assert_eq!(parse_chunk_size(b"1a;name\n"), INVALID);
    assert_eq!(parse_chunk_size(b"1a;name\x7f"), INVALID);
}

#[test]
fn chunk_size_line_ends_in_cr_lf() {
    let malformed = ParseOutcome::Invalid(ParseError::InvalidLineTerminator);
    assert_eq!(parse_chunk_size(b"1a\rx"), malformed);
    assert_eq!(parse_chunk_size(b"1a\r\r\n"), malformed);
    assert_eq!(parse_chunk_size(b"1a;ext\r1"), malformed);
}

#[test]
fn chunk_size_outcome_of_every_prefix() {
    let line = b"1a;name=value\r\n";
    for cut in 0..line.len() {
        assert_eq!(parse_chunk_size(&line[..cut]), ParseOutcome::Partial, "{cut}");
    }
    let mut longer = line.to_vec();
    for extra in [b'x', b'\r', b'\n', b'0'] {
        assert_eq!(parse_chunk_size(&longer), ParseOutcome::Complete(26, 15));
        longer.push(extra);
    }
}

#[test]
fn chunk_size_rejection_is_final() {
    let input = b"1g;name=value\r\n";
    for cut in 2..=input.len() {
        assert_eq!(parse_chunk_size(&input[..cut]), INVALID, "{cut}");
    }
    assert_eq!(parse_chunk_size(&input[..1]), ParseOutcome::Partial);
}
