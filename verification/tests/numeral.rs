use slideshow::numeral::{format_usize, parse_usize};
use slideshow::util::{str_eq, strip_fragment};

#[test]
fn format_small_numbers() {
    assert_eq!(format_usize(0), "0");
    assert_eq!(format_usize(7), "7");
    assert_eq!(format_usize(10), "10");
    assert_eq!(format_usize(207), "207");
    assert_eq!(format_usize(12345), "12345");
}

#[test]
fn format_largest_value() {
    assert_eq!(format_usize(usize::MAX), usize::MAX.to_string());
}

#[test]
fn parse_valid_numerals() {
    assert_eq!(parse_usize("0"), Some(0));
    assert_eq!(parse_usize("007"), Some(7));
    assert_eq!(parse_usize("207"), Some(207));
    assert_eq!(parse_usize(&usize::MAX.to_string()), Some(usize::MAX));
}

#[test]
fn parse_rejects_empty_text() {
    assert_eq!(parse_usize(""), None);
}

#[test]
fn parse_rejects_non_digits() {
    assert_eq!(parse_usize("12a"), None);
    assert_eq!(parse_usize("-1"), None);
    assert_eq!(parse_usize(" 1"), None);
    assert_eq!(parse_usize("1.5"), None);
}

#[test]
fn parse_rejects_values_beyond_usize() {
    assert_eq!(parse_usize("18446744073709551616"), None);
    assert_eq!(parse_usize("99999999999999999999999999"), None);
}

#[test]
fn parse_inverts_format() {
    for n in [0usize, 1, 9, 10, 99, 100, 4096, usize::MAX] {
        assert_eq!(parse_usize(&format_usize(n)), Some(n));
    }
}

#[test]
fn strip_fragment_removes_leading_delimiter() {
    assert_eq!(strip_fragment("#about"), "about");
    assert_eq!(strip_fragment("#"), "");
}

#[test]
fn strip_fragment_leaves_other_text_alone() {
    assert_eq!(strip_fragment(""), "");
    assert_eq!(strip_fragment("about"), "about");
    assert_eq!(strip_fragment("a#b"), "a#b");
}

#[test]
fn strip_fragment_strips_only_one_delimiter() {
    assert_eq!(strip_fragment("##x"), "#x");
}

#[test]
fn str_eq_compares_exactly() {
    assert!(str_eq("DIV", "DIV"));
    assert!(!str_eq("DIV", "div"));
    assert!(!str_eq("DIV", "DIVS"));
    assert!(!str_eq("DIVS", "DIV"));
    assert!(str_eq("", ""));
}
