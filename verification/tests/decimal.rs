use gmc_ingest::decimal::{format_i64, is_digit_char, parse_i64};

fn parse(text: &str) -> Option<i64> {
    let chars: Vec<char> = text.chars().collect();
    parse_i64(&chars)
}

#[test]
fn formats_zero_and_small_numbers() {
    assert_eq!(format_i64(0), "0");
    assert_eq!(format_i64(7), "7");
    assert_eq!(format_i64(10), "10");
    assert_eq!(format_i64(1700000000), "1700000000");
}

#[test]
fn formats_negative_numbers_with_a_minus_sign() {
    assert_eq!(format_i64(-1), "-1");
    assert_eq!(format_i64(-1234567890), "-1234567890");
}

#[test]
fn formats_the_ends_of_the_range() {
    assert_eq!(format_i64(i64::MAX), "9223372036854775807");
    assert_eq!(format_i64(i64::MIN), "-9223372036854775808");
}

#[test]
fn formats_as_the_standard_library_does() {
    let samples: [i64; 9] = [0, 1, -1, 9, 99, 100, -100, 4611686018427387904, -4611686018427387905];
    for n in samples {
        assert_eq!(format_i64(n), n.to_string());
    }
}

#[test]
fn parses_plain_numbers() {
    assert_eq!(parse("0"), Some(0));
    assert_eq!(parse("42"), Some(42));
    assert_eq!(parse("-42"), Some(-42));
    assert_eq!(parse("1431648000"), Some(1431648000));
}

#[test]
fn parses_leading_zeros() {
    assert_eq!(parse("007"), Some(7));
    assert_eq!(parse("-0"), Some(0));
}

#[test]
fn parses_the_ends_of_the_range() {
    assert_eq!(parse("9223372036854775807"), Some(i64::MAX));
    assert_eq!(parse("-9223372036854775808"), Some(i64::MIN));
}

#[test]
fn rejects_numbers_out_of_range() {
    assert_eq!(parse("9223372036854775808"), None);
    assert_eq!(parse("-9223372036854775809"), None);
    assert_eq!(parse("100000000000000000000000000000"), None);
    assert_eq!(parse("-100000000000000000000000000000"), None);
}

#[test]
fn rejects_what_is_no_whole_number() {
    assert_eq!(parse(""), None);
    assert_eq!(parse("-"), None);
    assert_eq!(parse("+5"), None);
    assert_eq!(parse("1.5"), None);
    assert_eq!(parse("12a"), None);
    assert_eq!(parse(" 12"), None);
    assert_eq!(parse("--1"), None);
    assert_eq!(parse("99999999999999999999x"), None);
}

#[test]
fn reading_back_a_formatted_number_gives_it_again() {
    let samples: [i64; 8] = [0, 5, -5, 1000, -1000, i64::MAX, i64::MIN, 1698480000];
    for n in samples {
        assert_eq!(parse(&format_i64(n)), Some(n));
    }
}

#[test]
fn tells_digits_from_other_characters() {
    assert!(is_digit_char('0'));
    assert!(is_digit_char('9'));
    assert!(!is_digit_char('/'));
    assert!(!is_digit_char(':'));
    assert!(!is_digit_char('a'));
    assert!(!is_digit_char('\u{0661}'));
}
