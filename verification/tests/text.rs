use n2j::text::{
    chars_of, is_float_text, parse_bool, parse_i64, parse_u16, parse_u32, parse_u8, str_eq,
};

#[test]
fn strings_are_compared_by_their_characters() {
    assert!(str_eq("", ""));
    assert!(str_eq("host", "host"));
    assert!(!str_eq("host", "hosts"));
    assert!(!str_eq("hosts", "host"));
    assert!(!str_eq("host", "hast"));
    assert!(!str_eq("PTR", "ptr"));
    assert!(str_eq("na\u{ef}ve", "na\u{ef}ve"));
    assert!(!str_eq("", "a"));
}

#[test]
fn characters_are_copied_in_order() {
    assert_eq!(chars_of(""), Vec::<char>::new());
    assert_eq!(chars_of("a|b"), vec!['a', '|', 'b']);
    assert_eq!(chars_of("\u{e9}t\u{e9}"), vec!['\u{e9}', 't', '\u{e9}']);
}

#[test]
fn unsigned_numbers_are_read() {
    assert_eq!(parse_u32("0"), Some(0));
    assert_eq!(parse_u32("42"), Some(42));
    assert_eq!(parse_u32("+5"), Some(5));
    assert_eq!(parse_u32("007"), Some(7));
    assert_eq!(parse_u32("0000000000000000000000005"), Some(5));
    assert_eq!(parse_u32("1700000000"), Some(1_700_000_000));
    assert_eq!(parse_u32("4294967295"), Some(u32::MAX));
    assert_eq!(parse_u16("65535"), Some(u16::MAX));
    assert_eq!(parse_u16("443"), Some(443));
    assert_eq!(parse_u8("255"), Some(u8::MAX));
    assert_eq!(parse_u8("10"), Some(10));
}

#[test]
fn unsigned_numbers_out_of_range_are_refused() {
    assert_eq!(parse_u32("4294967296"), None);
    assert_eq!(parse_u32("99999999999999999999999999"), None);
    assert_eq!(parse_u16("65536"), None);
    assert_eq!(parse_u8("256"), None);
    assert_eq!(parse_u8("1000"), None);
}

#[test]
fn unsigned_numbers_of_another_form_are_refused() {
    assert_eq!(parse_u32(""), None);
    assert_eq!(parse_u32("+"), None);
    assert_eq!(parse_u32("-5"), None);
    assert_eq!(parse_u32("-0"), None);
    assert_eq!(parse_u32("++5"), None);
    assert_eq!(parse_u32(" 5"), None);
    assert_eq!(parse_u32("5 "), None);
    assert_eq!(parse_u32("5a"), None);
    assert_eq!(parse_u32("1_000"), None);
    assert_eq!(parse_u32("0x10"), None);
    assert_eq!(parse_u32("1.0"), None);
    assert_eq!(parse_u32("\u{663}"), None);
    assert_eq!(parse_u16("4+4"), None);
    assert_eq!(parse_u8("abc"), None);
}

#[test]
fn signed_numbers_are_read() {
    assert_eq!(parse_i64("0"), Some(0));
    assert_eq!(parse_i64("-0"), Some(0));
    assert_eq!(parse_i64("+0"), Some(0));
    assert_eq!(parse_i64("97"), Some(97));
    assert_eq!(parse_i64("-97"), Some(-97));
    assert_eq!(parse_i64("+97"), Some(97));
    assert_eq!(parse_i64("9223372036854775807"), Some(i64::MAX));
    assert_eq!(parse_i64("-9223372036854775808"), Some(i64::MIN));
    assert_eq!(parse_i64("-9223372036854775807"), Some(i64::MIN + 1));
    assert_eq!(parse_i64("-0009"), Some(-9));
}

#[test]
fn signed_numbers_that_are_none_are_refused() {
    assert_eq!(parse_i64("9223372036854775808"), None);
    assert_eq!(parse_i64("-9223372036854775809"), None);
    assert_eq!(parse_i64("18446744073709551616"), None);
    assert_eq!(parse_i64(""), None);
    assert_eq!(parse_i64("-"), None);
    assert_eq!(parse_i64("+"), None);
    assert_eq!(parse_i64("--1"), None);
    assert_eq!(parse_i64("+-1"), None);
    assert_eq!(parse_i64("1-"), None);
    assert_eq!(parse_i64("12.5"), None);
    assert_eq!(parse_i64(" 1"), None);
}

#[test]
fn truth_values_are_spelled_exactly() {
    assert_eq!(parse_bool("true"), Some(true));
    assert_eq!(parse_bool("false"), Some(false));
    assert_eq!(parse_bool("True"), None);
    assert_eq!(parse_bool("FALSE"), None);
    assert_eq!(parse_bool("1"), None);
    assert_eq!(parse_bool("0"), None);
    assert_eq!(parse_bool(""), None);
    assert_eq!(parse_bool("true "), None);
    assert_eq!(parse_bool("yes"), None);
}

#[test]
fn decimal_numbers_are_floating_point_texts() {
    assert!(is_float_text("0"));
    assert!(is_float_text("12.34"));
    assert!(is_float_text("1246.07"));
    assert!(is_float_text("-3.5"));
    assert!(is_float_text("+3.5"));
    assert!(is_float_text(".5"));
    assert!(is_float_text("5."));
    assert!(is_float_text("-.5"));
    assert!(is_float_text("007.100"));
    assert!(is_float_text("1e5"));
    assert!(is_float_text("1E5"));
    assert!(is_float_text("1e+5"));
    assert!(is_float_text("1.5e-10"));
    assert!(is_float_text("5.e3"));
    assert!(is_float_text(".5E3"));
    assert!(is_float_text("123456789012345678901234567890"));
}

#[test]
fn special_values_are_floating_point_texts_in_any_case() {
    assert!(is_float_text("inf"));
    assert!(is_float_text("-inf"));
    assert!(is_float_text("+INF"));
    assert!(is_float_text("Infinity"));
    assert!(is_float_text("-infinity"));
    assert!(is_float_text("INFINITY"));
    assert!(is_float_text("nan"));
    assert!(is_float_text("NaN"));
    assert!(is_float_text("-NAN"));
}

#[test]
fn other_texts_are_no_floating_point_texts() {
    assert!(!is_float_text(""));
    assert!(!is_float_text("+"));
    assert!(!is_float_text("-"));
    assert!(!is_float_text("."));
    assert!(!is_float_text("+."));
    assert!(!is_float_text("e5"));
    assert!(!is_float_text(".e5"));
    assert!(!is_float_text("1e"));
    assert!(!is_float_text("1e+"));
    assert!(!is_float_text("1e5.0"));
    assert!(!is_float_text("1.2.3"));
    assert!(!is_float_text("1..2"));
    assert!(!is_float_text("--1"));
    assert!(!is_float_text("+-1"));
    assert!(!is_float_text(" 1"));
    assert!(!is_float_text("1 "));
    assert!(!is_float_text("1,5"));
    assert!(!is_float_text("1_0"));
    assert!(!is_float_text("0x10"));
    assert!(!is_float_text("1f"));
    assert!(!is_float_text("infinit"));
    assert!(!is_float_text("infinityy"));
    assert!(!is_float_text("in"));
    assert!(!is_float_text("nana"));
    assert!(!is_float_text("i\u{4e}f\u{130}"));
    assert!(!is_float_text("abc"));
}
