use soap::ascii::{eq_ignore_ascii_case, to_lower};
use soap::number::parse_unsigned;

#[test]
fn plain_digits_are_read() {
    assert_eq!(parse_unsigned("0"), Some(0));
    assert_eq!(parse_unsigned("7"), Some(7));
    assert_eq!(parse_unsigned("10"), Some(10));
    assert_eq!(parse_unsigned("4096"), Some(4096));
    assert_eq!(parse_unsigned("4097"), Some(4097));
    assert_eq!(parse_unsigned("123456789"), Some(123456789));
}

#[test]
fn leading_zeros_do_not_count() {
    assert_eq!(parse_unsigned("0005"), Some(5));
    assert_eq!(parse_unsigned("0000000000000000000000000000000000000042"), Some(42));
}

#[test]
fn one_plus_sign_may_lead() {
    assert_eq!(parse_unsigned("+5"), Some(5));
    assert_eq!(parse_unsigned("+0"), Some(0));
    assert_eq!(parse_unsigned("++5"), None);
    assert_eq!(parse_unsigned("+"), None);
    assert_eq!(parse_unsigned("5+"), None);
}

#[test]
fn other_text_is_no_number() {
    assert_eq!(parse_unsigned(""), None);
    assert_eq!(parse_unsigned("abc"), None);
    assert_eq!(parse_unsigned("-1"), None);
    assert_eq!(parse_unsigned("-0"), None);
    assert_eq!(parse_unsigned(" 5"), None);
    assert_eq!(parse_unsigned("5 "), None);
    assert_eq!(parse_unsigned("1_000"), None);
    assert_eq!(parse_unsigned("0x10"), None);
    assert_eq!(parse_unsigned("1.5"), None);
    assert_eq!(parse_unsigned("12a"), None);
    assert_eq!(parse_unsigned("٣"), None);
    assert_eq!(parse_unsigned("1é"), None);
    assert_eq!(parse_unsigned("+é"), None);
}

#[test]
fn the_largest_number_is_read() {
    let largest = usize::MAX.to_string();
    assert_eq!(parse_unsigned(&largest), Some(usize::MAX));
    assert_eq!(parse_unsigned(&format!("+{}", largest)), Some(usize::MAX));
    assert_eq!(parse_unsigned(&format!("000{}", largest)), Some(usize::MAX));
}

#[test]
fn numbers_beyond_the_largest_are_none() {
    let largest = usize::MAX.to_string();
    assert_eq!(parse_unsigned(&format!("{}0", largest)), None);
    assert_eq!(parse_unsigned(&format!("1{}", largest)), None);
    let (head, last) = largest.split_at(largest.len() - 1);
    let digit: u32 = last.parse().unwrap();
    if digit < 9 {
        assert_eq!(parse_unsigned(&format!("{}{}", head, digit + 1)), None);
    }
    assert_eq!(parse_unsigned("99999999999999999999999999999999999999"), None);
    assert_eq!(parse_unsigned("99999999999999999999999999999999999999x"), None);
}

#[test]
fn reading_agrees_with_the_standard_library() {
    let samples = [
        "", "+", "-", "0", "00", "+0", "-0", "1", "9", "10", "99", "100", "4095", "4096", "4097",
        "65535", "65536", "4294967295", "4294967296", "18446744073709551615",
        "18446744073709551616", "18446744073709551625", "184467440737095516150",
        "340282366920938463463374607431768211455", "+18446744073709551615", "++1", "+-1", "1+",
        "1-", " 1", "1 ", "\t1", "1\n", "a", "1a", "a1", "0x1", "1e3", "1_0", "١", "１", "é",
        "00000000000000000000000018446744073709551615", "/", ":", "0/", "0:", "+/", "+:",
    ];
    for sample in samples {
        assert_eq!(parse_unsigned(sample), sample.parse::<usize>().ok(), "reading {:?}", sample);
    }
    for number in 0..2000usize {
        let written = number.to_string();
        assert_eq!(parse_unsigned(&written), Some(number));
    }
}

#[test]
fn capitals_are_lowered() {
    assert_eq!(to_lower('A'), 'a');
    assert_eq!(to_lower('Z'), 'z');
    assert_eq!(to_lower('S'), 's');
    assert_eq!(to_lower('a'), 'a');
    assert_eq!(to_lower('z'), 'z');
    assert_eq!(to_lower('-'), '-');
    assert_eq!(to_lower('@'), '@');
    assert_eq!(to_lower('['), '[');
    assert_eq!(to_lower('0'), '0');
    assert_eq!(to_lower('É'), 'É');
    assert_eq!(to_lower('K'), 'k');
    assert_eq!(to_lower('\u{212A}'), '\u{212A}');
}

#[test]
fn lowering_agrees_with_the_standard_library() {
    for code in 0..0x3000u32 {
        if let Some(c) = char::from_u32(code) {
            assert_eq!(to_lower(c), c.to_ascii_lowercase());
        }
    }
}

#[test]
fn comparison_ignores_ascii_case_only() {
    assert!(eq_ignore_ascii_case("--size", "--SIZE"));
    assert!(eq_ignore_ascii_case("--SiZe", "--size"));
    assert!(eq_ignore_ascii_case("", ""));
    assert!(eq_ignore_ascii_case("-h", "-H"));
    assert!(!eq_ignore_ascii_case("-h", "-s"));
    assert!(!eq_ignore_ascii_case("-h", "-hh"));
    assert!(!eq_ignore_ascii_case("-hh", "-h"));
    assert!(!eq_ignore_ascii_case("", "a"));
    assert!(eq_ignore_ascii_case("é", "é"));
    assert!(!eq_ignore_ascii_case("é", "É"));
    assert!(!eq_ignore_ascii_case("k", "\u{212A}"));
    assert!(!eq_ignore_ascii_case("@", "`"));
    assert!(!eq_ignore_ascii_case("[", "{"));
}

#[test]
fn comparison_agrees_with_the_standard_library() {
    let samples = ["", "-s", "-S", "--size", "--SIZE", "--Size", "-c", "é", "É", "ab", "aB", "a", "@", "`", "Ab\u{212A}", "ab\u{212A}", "abk"];
    for a in samples {
        for b in samples {
            assert_eq!(eq_ignore_ascii_case(a, b), a.eq_ignore_ascii_case(b), "{:?} and {:?}", a, b);
        }
    }
}
