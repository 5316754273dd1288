use dft::grammar::{Expression, Format, Type};
use dft::number::{holds, parse_integer, parse_number, parse_truth, reads_as, Number};
use dft::patterns::check;

#[test]
fn integers_follow_the_64_bit_range() {
    assert_eq!(parse_integer("0"), Some(0));
    assert_eq!(parse_integer("+5"), Some(5));
    assert_eq!(parse_integer("-5"), Some(-5));
    assert_eq!(parse_integer("007"), Some(7));
    assert_eq!(parse_integer("9223372036854775807"), Some(i64::MAX));
    assert_eq!(parse_integer("9223372036854775808"), None);
    assert_eq!(parse_integer("-9223372036854775808"), Some(i64::MIN));
    assert_eq!(parse_integer("-9223372036854775809"), None);
    assert_eq!(parse_integer("99999999999999999999999999"), None);
    assert_eq!(parse_integer(""), None);
    assert_eq!(parse_integer("-"), None);
    assert_eq!(parse_integer("1.0"), None);
    assert_eq!(parse_integer("abc"), None);
    assert_eq!(parse_integer("1 "), None);
    assert_eq!(parse_integer("--1"), None);
}

#[test]
fn numbers_carry_their_scale() {
    assert_eq!(parse_number("12"), Some(Number { units: 12, scale: 0 }));
    assert_eq!(parse_number("1.50"), Some(Number { units: 150, scale: 2 }));
    assert_eq!(parse_number("-0.5"), Some(Number { units: -5, scale: 1 }));
    assert_eq!(parse_number("0.000000000000000001"), Some(Number { units: 1, scale: 18 }));
    assert_eq!(parse_number("0.0000000000000000001"), None);
    assert_eq!(parse_number("1."), None);
    assert_eq!(parse_number(".5"), None);
    assert_eq!(parse_number("1.2.3"), None);
    assert_eq!(parse_number("1e3"), None);
    assert_eq!(parse_number("922337203685477580.8"), None);
}

#[test]
fn truth_values_have_six_spellings() {
    assert_eq!(parse_truth("true"), Some(true));
    assert_eq!(parse_truth("t"), Some(true));
    assert_eq!(parse_truth("1"), Some(true));
    assert_eq!(parse_truth("false"), Some(false));
    assert_eq!(parse_truth("f"), Some(false));
    assert_eq!(parse_truth("0"), Some(false));
    assert_eq!(parse_truth("TRUE"), None);
    assert_eq!(parse_truth("yes"), None);
}

#[test]
fn values_read_as_their_type() {
    assert!(reads_as("anything at all", Type::STRING));
    assert!(reads_as("5", Type::INTEGER));
    assert!(!reads_as("abc", Type::INTEGER));
    assert!(!reads_as("5.5", Type::INTEGER));
    assert!(reads_as("5.5", Type::FLOAT));
    assert!(reads_as("5", Type::FLOAT));
    assert!(reads_as("-0.000000000000000001", Type::FLOAT));
    assert!(!reads_as("0.0000000000000000001", Type::FLOAT));
    assert!(!reads_as("five", Type::FLOAT));
    assert!(!reads_as("1e3", Type::FLOAT));
    assert!(reads_as("t", Type::BOOLEAN));
    assert!(!reads_as("2", Type::BOOLEAN));
}

#[test]
fn numbers_compare_by_value() {
    assert_eq!(holds("20", Expression::GREATER, "18"), Some(true));
    assert_eq!(holds("10", Expression::GREATER, "18"), Some(false));
    assert_eq!(holds("18", Expression::GREATER, "18"), Some(false));
    assert_eq!(holds("18", Expression::EQGREATER, "18.0"), Some(true));
    assert_eq!(holds("9", Expression::LESSER, "10"), Some(true));
    assert_eq!(holds("1.5", Expression::LESSER, "1.25"), Some(false));
    assert_eq!(holds("-1", Expression::LESSER, "0.001"), Some(true));
    assert_eq!(holds("1.0", Expression::EQUALS, "1"), Some(true));
    assert_eq!(holds("1.0", Expression::DIFFERS, "1"), Some(false));
    assert_eq!(holds("2", Expression::EQLESSER, "2"), Some(true));
    assert_eq!(holds("3", Expression::EQLESSER, "2"), Some(false));
    assert_eq!(
        holds("9223372036854775807", Expression::GREATER, "0.000000000000000001"),
        Some(true)
    );
    assert_eq!(
        holds("-9223372036854775808", Expression::LESSER, "-0.000000000000000001"),
        Some(true)
    );
}

#[test]
fn texts_can_only_be_told_equal_or_different() {
    assert_eq!(holds("abc", Expression::EQUALS, "abc"), Some(true));
    assert_eq!(holds("abc", Expression::EQUALS, "abd"), Some(false));
    assert_eq!(holds("abc", Expression::DIFFERS, "abd"), Some(true));
    assert_eq!(holds("abc", Expression::GREATER, "abd"), None);
    assert_eq!(holds("abc", Expression::LESSER, "5"), None);
    assert_eq!(holds("5", Expression::EQGREATER, "abc"), None);
    assert_eq!(holds("5", Expression::EQLESSER, ""), None);
    assert_eq!(holds("5", Expression::EQUALS, "five"), Some(false));
}

#[test]
fn dates_and_times_have_ranges() {
    assert!(check(Format::DATE, "2024-02-29"));
    assert!(check(Format::DATE, "0000-12-31"));
    assert!(!check(Format::DATE, "2024-13-01"));
    assert!(!check(Format::DATE, "2024-00-10"));
    assert!(!check(Format::DATE, "2024-01-32"));
    assert!(!check(Format::DATE, "2024-01-00"));
    assert!(!check(Format::DATE, "2024/01/01"));
    assert!(!check(Format::DATE, "24-01-01"));
    assert!(!check(Format::DATE, "2024-01-1x"));
    assert!(check(Format::TIME, "23:59:59"));
    assert!(check(Format::TIME, "00:00:00"));
    assert!(!check(Format::TIME, "24:00:00"));
    assert!(!check(Format::TIME, "12:60:00"));
    assert!(!check(Format::TIME, "12:00:60"));
    assert!(!check(Format::TIME, "12:00"));
    assert!(check(Format::DATETIME, "2024-02-29T23:59:59"));
    assert!(check(Format::DATETIME, "2024-02-29 23:59:59"));
    assert!(!check(Format::DATETIME, "2024-02-29_23:59:59"));
    assert!(!check(Format::DATETIME, "2024-02-29T24:00:00"));
    assert!(!check(Format::DATETIME, "2024-02-29"));
}

#[test]
fn uuids_are_hyphenated_hexadecimal() {
    assert!(check(Format::UUID, "123e4567-e89b-12d3-a456-426614174000"));
    assert!(check(Format::UUID, "123E4567-E89B-12D3-A456-426614174000"));
    assert!(!check(Format::UUID, "123e4567-e89b-12d3-a456-42661417400"));
    assert!(!check(Format::UUID, "123e4567-e89b-12d3-a456-42661417400g"));
    assert!(!check(Format::UUID, "123e4567e89b-12d3-a456-4266141740000"));
    assert!(!check(Format::UUID, ""));
}

#[test]
fn emails_need_a_local_part_and_a_dotted_domain() {
    assert!(check(Format::EMAIL, "ada@example.org"));
    assert!(check(Format::EMAIL, "a.b+c@mail.example.org"));
    assert!(!check(Format::EMAIL, "not-an-email"));
    assert!(!check(Format::EMAIL, "@example.org"));
    assert!(!check(Format::EMAIL, "ada@example"));
    assert!(!check(Format::EMAIL, "ada@.org"));
    assert!(!check(Format::EMAIL, "ada@example."));
    assert!(!check(Format::EMAIL, "ada@@example.org"));
    assert!(!check(Format::EMAIL, "ada lovelace@example.org"));
    assert!(!check(Format::EMAIL, ""));
}

#[test]
fn uris_need_a_scheme_and_a_rest() {
    assert!(check(Format::URI, "https://example.org/a?b=c"));
    assert!(check(Format::URI, "mailto:ada@example.org"));
    assert!(check(Format::URI, "urn:isbn:0451450523"));
    assert!(check(Format::URI, "a+b-c.d:x"));
    assert!(!check(Format::URI, "https:"));
    assert!(!check(Format::URI, "://example.org"));
    assert!(!check(Format::URI, "1http://example.org"));
    assert!(!check(Format::URI, "ht tp://example.org"));
    assert!(!check(Format::URI, "example.org"));
    assert!(!check(Format::URI, "ht_tp://example.org"));
}
