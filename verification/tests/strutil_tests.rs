use spacenews::strutil::u64_to_dec;
use spacenews::strutil::i64_to_dec;
use spacenews::strutil::bool_to_str;
use spacenews::strutil::pad_right_spaces;
use spacenews::strutil::dashes;
use spacenews::strutil::str_eq;
use spacenews::strutil::contains_sub;
use spacenews::numparse::parse_i64;
use spacenews::numparse::is_f64_lit;
use spacenews::numparse::is_bool_lit;

#[test]
fn decimal_rendering() {
    assert_eq!(u64_to_dec(0), "0");
    assert_eq!(u64_to_dec(7), "7");
    assert_eq!(u64_to_dec(1234567890), "1234567890");
    assert_eq!(u64_to_dec(u64::MAX), "18446744073709551615");
    assert_eq!(i64_to_dec(-42), "-42");
    assert_eq!(i64_to_dec(10), "10");
    assert_eq!(i64_to_dec(i64::MIN), "-9223372036854775808");
    assert_eq!(bool_to_str(true), "true");
    assert_eq!(bool_to_str(false), "false");
}

#[test]
fn padding_and_dashes() {
    assert_eq!(pad_right_spaces("ab", 5), "ab   ");
    assert_eq!(pad_right_spaces("abcdef", 5), "abcdef");
    assert_eq!(dashes(3), "---");
    assert_eq!(dashes(0), "");
}

#[test]
fn string_search() {
    assert!(str_eq("abc", "abc"));
    assert!(!str_eq("abc", "abd"));
    assert!(contains_sub("article.schema", ".schema"));
    assert!(contains_sub("x", ""));
    assert!(!contains_sub("article", ".schema"));
}

#[test]
fn integer_parsing_matches_std() {
    for s in ["0", "10", "-42", "+7", "9223372036854775807", "-9223372036854775808",
        "9223372036854775808", "-9223372036854775809", "", "-", "+", "1a", "1.5", " 1"] {
        assert_eq!(parse_i64(s), s.parse::<i64>().ok(), "case {:?}", s);
    }
}

#[test]
fn float_recognition_matches_std() {
    for s in ["1.5", "-0.25", "1e3", "+2E-4", ".5", "1.", "3", "inf", "-Infinity", "NaN",
        "abc", "1.2.3", "e5", "1e", ".", "-", "", "1.e5", "0x10"] {
        assert_eq!(is_f64_lit(s), s.parse::<f64>().is_ok(), "case {:?}", s);
    }
}

#[test]
fn bool_recognition() {
    assert!(is_bool_lit("true"));
    assert!(is_bool_lit("false"));
    assert!(!is_bool_lit("True"));
    assert!(!is_bool_lit("1"));
}
