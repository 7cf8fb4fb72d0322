use forest_office_staff::decimal::{char_is_digit, digits_only, parse_decimal, push_decimal};
use forest_office_staff::text::{clean, strip_spaces};

#[test]
fn spaces_are_stripped_and_nothing_else() {
    assert_eq!(strip_spaces(" a b  c "), "abc");
    assert_eq!(strip_spaces(""), "");
    assert_eq!(strip_spaces("    "), "");
    assert_eq!(strip_spaces("a\tb\nc"), "a\tb\nc");
    assert_eq!(strip_spaces("74 192 2757 v"), "741922757v");
}

#[test]
fn cleaning_strips_spaces_and_raises_letters() {
    assert_eq!(clean(" 74 192 2757 v "), "741922757V");
    assert_eq!(clean("abc xyz"), "ABCXYZ");
    assert_eq!(clean("197419202757"), "197419202757");
    assert_eq!(clean("a-b_c.9"), "A-B_C.9");
    assert_eq!(clean("stra\u{df}e"), "STRASSE");
}

#[test]
fn digits_are_told_from_other_characters() {
    for c in '0'..='9' {
        assert!(char_is_digit(c));
    }
    assert!(!char_is_digit('/'));
    assert!(!char_is_digit(':'));
    assert!(!char_is_digit('a'));
    assert!(!char_is_digit(' '));
    assert!(!char_is_digit('\u{663}'));
}

#[test]
fn texts_of_digits_are_recognised() {
    assert!(digits_only("0123456789"));
    assert!(digits_only("7"));
    assert!(digits_only(""));
    assert!(!digits_only("12a45"));
    assert!(!digits_only("12345 "));
    assert!(!digits_only("-1"));
    assert!(!digits_only("+1"));
    assert!(!digits_only("1\u{663}"));
}

#[test]
fn digits_are_read_as_numbers() {
    assert_eq!(parse_decimal("74"), Some(74));
    assert_eq!(parse_decimal("192"), Some(192));
    assert_eq!(parse_decimal("741922757"), Some(741922757));
    assert_eq!(parse_decimal("007"), Some(7));
    assert_eq!(parse_decimal("0"), Some(0));
    assert_eq!(parse_decimal("4294967295"), Some(u32::MAX));
    assert_eq!(parse_decimal("0000000000004294967295"), Some(u32::MAX));
}

#[test]
fn what_is_no_number_is_not_read() {
    assert_eq!(parse_decimal(""), None);
    assert_eq!(parse_decimal("+7"), None);
    assert_eq!(parse_decimal("-7"), None);
    assert_eq!(parse_decimal(" 7"), None);
    assert_eq!(parse_decimal("7a"), None);
    assert_eq!(parse_decimal("a7"), None);
    assert_eq!(parse_decimal("4294967296"), None);
    assert_eq!(parse_decimal("4294967300"), None);
    assert_eq!(parse_decimal("99999999999"), None);
    assert_eq!(parse_decimal("99999999999x"), None);
}

#[test]
fn numbers_are_written_at_a_fixed_width() {
    let mut out = String::from("x");
    push_decimal(&mut out, 7, 3);
    assert_eq!(out, "x007");
    push_decimal(&mut out, 1974, 4);
    assert_eq!(out, "x0071974");
    push_decimal(&mut out, 12345, 2);
    assert_eq!(out, "x007197445");
    push_decimal(&mut out, 5, 0);
    assert_eq!(out, "x007197445");
    push_decimal(&mut out, 0, 1);
    assert_eq!(out, "x0071974450");
}
