//! Tests for the content-range header parser.

use rangegz::content_range::parse_content_range;

fn parse(s: &str) -> Option<(u64, u64, u64)> {
    let bytes: Vec<u8> = s.as_bytes().to_vec();
    parse_content_range(&bytes).map(|cr| (cr.first, cr.last, cr.total))
}

#[test]
fn parses_a_typical_header() {
    assert_eq!(parse("bytes 0-1023/4096"), Some((0, 1023, 4096)));
}

#[test]
fn parses_large_values() {
    assert_eq!(
        parse("bytes 1024-2047/18446744073709551615"),
        Some((1024, 2047, u64::MAX))
    );
}

#[test]
fn parses_values_with_leading_zeros() {
    assert_eq!(parse("bytes 007-0010/0100"), Some((7, 10, 100)));
}

#[test]
fn rejects_value_beyond_u64() {
    assert_eq!(parse("bytes 0-1023/18446744073709551616"), None);
}

#[test]
fn rejects_missing_prefix() {
    assert_eq!(parse("0-1023/4096"), None);
    assert_eq!(parse("octets 0-1023/4096"), None);
}

#[test]
fn rejects_malformed_numbers() {
    assert_eq!(parse("bytes -1023/4096"), None);
    assert_eq!(parse("bytes 0-/4096"), None);
    assert_eq!(parse("bytes 0-1023/"), None);
    assert_eq!(parse("bytes */4096"), None);
    assert_eq!(parse("bytes 0-1023"), None);
}

#[test]
fn rejects_trailing_bytes() {
    assert_eq!(parse("bytes 0-1023/4096 "), None);
    assert_eq!(parse("bytes 0-1023/4096x"), None);
}

#[test]
fn rejects_empty_input() {
    assert_eq!(parse(""), None);
    assert_eq!(parse("bytes "), None);
}
