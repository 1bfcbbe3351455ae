use fibridge_proxy::range::{parse_range_header, ByteRange, MalformedRange};
use fibridge_proxy::text::{
    chars_of, decimal_string, is_decimal_digit, parse_decimal, push_decimal, push_from,
};

#[test]
fn empty_header_asks_for_the_whole_file() {
    assert_eq!(parse_range_header(""), Ok(None));
}

#[test]
fn closed_range_moves_the_end_up_by_one() {
    assert_eq!(
        parse_range_header("bytes=100-199"),
        Ok(Some(ByteRange { start: 100, end: Some(200) }))
    );
}

#[test]
fn open_range_has_no_end() {
    assert_eq!(parse_range_header("bytes=100-"), Ok(Some(ByteRange { start: 100, end: None })));
}

#[test]
fn range_from_zero() {
    assert_eq!(parse_range_header("bytes=0-0"), Ok(Some(ByteRange { start: 0, end: Some(1) })));
    assert_eq!(parse_range_header("bytes=0-"), Ok(Some(ByteRange { start: 0, end: None })));
}

#[test]
fn leading_zeros_are_read() {
    assert_eq!(
        parse_range_header("bytes=0007-0010"),
        Ok(Some(ByteRange { start: 7, end: Some(11) }))
    );
}

#[test]
fn largest_numbers() {
    assert_eq!(
        parse_range_header("bytes=18446744073709551615-18446744073709551614"),
        Ok(Some(ByteRange { start: u64::MAX, end: Some(u64::MAX) }))
    );
    assert_eq!(
        parse_range_header("bytes=0-18446744073709551615"),
        Err(MalformedRange {})
    );
    assert_eq!(
        parse_range_header("bytes=18446744073709551616-"),
        Err(MalformedRange {})
    );
    assert_eq!(
        parse_range_header("bytes=0-99999999999999999999999999"),
        Err(MalformedRange {})
    );
}

#[test]
fn malformed_headers_are_refused() {
    for header in [
        "bytes",
        "bytes=",
        "bytes=-",
        "bytes=-500",
        "bytes=abc-def",
        "bytes=1",
        "bytes=1-2-3",
        "bytes=1-2,4-5",
        "bytes=+1-2",
        "bytes= 1-2",
        "bytes=1-2 ",
        "bytes=1-x",
        "items=1-2",
        "Bytes=1-2",
        "=1-2",
        "1-2",
        "-",
        " ",
        "bytes=\u{0661}-\u{0662}",
    ] {
        assert_eq!(parse_range_header(header), Err(MalformedRange {}), "{:?}", header);
    }
}

#[test]
fn decimal_string_writes_digits() {
    assert_eq!(decimal_string(0), "0");
    assert_eq!(decimal_string(7), "7");
    assert_eq!(decimal_string(10), "10");
    assert_eq!(decimal_string(1000), "1000");
    assert_eq!(decimal_string(20 * 1024 * 1024), "20971520");
    assert_eq!(decimal_string(u64::MAX), "18446744073709551615");
}

#[test]
fn parse_decimal_reads_digits() {
    let chars = chars_of("x00123y");
    assert_eq!(parse_decimal(&chars, 1, 6), Some(123));
    assert_eq!(parse_decimal(&chars, 0, 6), None);
    assert_eq!(parse_decimal(&chars, 1, 7), None);
    assert_eq!(parse_decimal(&chars, 3, 4), Some(1));
    assert_eq!(parse_decimal(&chars, 2, 2), Some(0));
    let big = chars_of("18446744073709551616");
    assert_eq!(parse_decimal(&big, 0, 20), None);
    assert_eq!(parse_decimal(&big, 0, 19), Some(1844674407370955161));
}

#[test]
fn chars_of_keeps_every_character() {
    assert_eq!(chars_of(""), Vec::<char>::new());
    assert_eq!(chars_of("a-\u{e9}\u{4e16}"), vec!['a', '-', '\u{e9}', '\u{4e16}']);
}

#[test]
fn decimal_round_trip() {
    for n in [0u64, 1, 9, 10, 99, 100, 12345, u64::MAX - 1, u64::MAX] {
        let text = decimal_string(n);
        let chars = chars_of(&text);
        assert_eq!(parse_decimal(&chars, 0, chars.len()), Some(n));
    }
}

#[test]
fn push_from_appends_the_chosen_character() {
    let mut text = "ab".to_string();
    push_from(&mut text, "xyz", 0);
    push_from(&mut text, "xyz", 2);
    push_from(&mut text, "-", 0);
    assert_eq!(text, "abxz-");
}

#[test]
fn push_decimal_appends_digits() {
    let mut text = "n=".to_string();
    push_decimal(&mut text, 1200);
    push_decimal(&mut text, 0);
    assert_eq!(text, "n=12000");
}

#[test]
fn decimal_digits_are_zero_to_nine() {
    for c in "0123456789".chars() {
        assert!(is_decimal_digit(c));
    }
    for c in ['/', ':', 'a', ' ', '+', '-', '\u{0661}', '\u{ff11}'] {
        assert!(!is_decimal_digit(c));
    }
}
