use spinner::text::{i64_dec, is_blank, is_float_text, parse_i64, trim, trim_newlines, u64_dec};

#[test]
fn blank_lines() {
    assert!(is_blank(""));
    assert!(is_blank(" \t\r\n"));
    assert!(is_blank("\u{a0}\u{2003}"));
    assert!(!is_blank(" a "));
}

#[test]
fn trimming() {
    assert_eq!(trim("  x y  "), "x y".to_string());
    assert_eq!(trim("\t42\n"), "42".to_string());
    assert_eq!(trim("   "), "".to_string());
    assert_eq!(trim("none"), "none".to_string());
}

#[test]
fn trimming_newlines_only() {
    assert_eq!(trim_newlines("a b \r\n"), "a b ".to_string());
    assert_eq!(trim_newlines("  a\n\r\n"), "  a".to_string());
    assert_eq!(trim_newlines("plain"), "plain".to_string());
}

#[test]
fn integers_that_parse() {
    assert_eq!(parse_i64("42"), Some(42));
    assert_eq!(parse_i64("-7"), Some(-7));
    assert_eq!(parse_i64("+13"), Some(13));
    assert_eq!(parse_i64("00042"), Some(42));
    assert_eq!(parse_i64("9223372036854775807"), Some(i64::MAX));
    assert_eq!(parse_i64("-9223372036854775808"), Some(i64::MIN));
}

#[test]
fn integers_that_do_not_parse() {
    assert_eq!(parse_i64(""), None);
    assert_eq!(parse_i64("+"), None);
    assert_eq!(parse_i64("-"), None);
    assert_eq!(parse_i64("abc"), None);
    assert_eq!(parse_i64("4 2"), None);
    assert_eq!(parse_i64("3.5"), None);
    assert_eq!(parse_i64("9223372036854775808"), None);
    assert_eq!(parse_i64("-9223372036854775809"), None);
    assert_eq!(parse_i64("99999999999999999999999999"), None);
}

#[test]
fn parsing_agrees_with_the_standard_integer_parser() {
    for s in [
        "0", "-0", "17", "-17", "+17", "007", "", "+", "-", "x", "1_0", " 1",
        "9223372036854775807", "9223372036854775808", "-9223372036854775808",
        "-9223372036854775809", "184467440737095516150",
    ] {
        assert_eq!(parse_i64(s), s.parse::<i64>().ok(), "input {:?}", s);
    }
}

#[test]
fn float_texts_that_are_accepted() {
    for s in [
        "3.14", "-3.14", "+42", "42", "3.", ".5", "-.5", "1e5", "2.5E-3", "7e+2", "inf", "-inf",
        "INF", "Infinity", "nan", "NaN", "0.0", "1.e3",
    ] {
        assert!(is_float_text(s), "should accept {:?}", s);
    }
}

#[test]
fn float_texts_that_are_rejected() {
    for s in [
        "", ".", "abc", "e5", "1e", "1e+", "--3", "+-3", "3..1", "1.2.3", "infinityy", "in",
        "na n", "3,14", " 3.14",
    ] {
        assert!(!is_float_text(s), "should reject {:?}", s);
    }
}

#[test]
fn float_acceptance_agrees_with_the_standard_float_parser() {
    for s in [
        "3.14", "-0.0", "+.5", "5.", "2e10", "2E-10", ".e5", "inf", "-Infinity", "NAN", "nan",
        "", ".", "+", "e", "1e", "0x1", "1_000", "³", "½",
    ] {
        assert_eq!(is_float_text(s), s.parse::<f64>().is_ok(), "input {:?}", s);
    }
}

#[test]
fn decimal_rendering() {
    assert_eq!(u64_dec(0), "0".to_string());
    assert_eq!(u64_dec(10), "10".to_string());
    assert_eq!(u64_dec(18446744073709551615), "18446744073709551615".to_string());
    assert_eq!(i64_dec(0), "0".to_string());
    assert_eq!(i64_dec(42), "42".to_string());
    assert_eq!(i64_dec(-1), "-1".to_string());
    assert_eq!(i64_dec(i64::MAX), "9223372036854775807".to_string());
    assert_eq!(i64_dec(i64::MIN), "-9223372036854775808".to_string());
}
