use bajzel_lib::error::{syntax_err, syntax_err_about, BajzelError};
use bajzel_lib::text::{
    chars_of, digit, hex_digit, hex_digit_value, in_class, letter, owned, read_decimal,
    same_chars_ignoring_case, same_text, same_text_ignoring_case, scan_run, space, spells,
    to_upper, CharClass,
};

#[test]
fn character_classes() {
    assert!(space(' ') && space('\t') && space('\n') && space('\r'));
    assert!(!space('x') && !space('\u{a0}'));
    assert!(letter('a') && letter('z') && letter('A') && letter('Z'));
    assert!(!letter('0') && !letter('_') && !letter('é') && !letter('[') && !letter('`'));
    assert!(digit('0') && digit('9') && !digit('a') && !digit('/') && !digit(':'));
    assert!(hex_digit('0') && hex_digit('f') && hex_digit('F') && !hex_digit('g'));
    assert_eq!(hex_digit_value('0'), 0);
    assert_eq!(hex_digit_value('9'), 9);
    assert_eq!(hex_digit_value('a'), 10);
    assert_eq!(hex_digit_value('F'), 15);
    assert_eq!(to_upper('z'), 'Z');
    assert_eq!(to_upper('É'), 'É');
    assert_eq!(to_upper('a'), 'A');
    assert_eq!(to_upper('_'), '_');
    assert!(in_class(CharClass::Word, '_') && !in_class(CharClass::Word, '-'));
    assert!(in_class(CharClass::NotNewline, '\r') && !in_class(CharClass::NotNewline, '\n'));
    assert!(in_class(CharClass::NotQuote, '`') && !in_class(CharClass::NotQuote, '"'));
    assert!(in_class(CharClass::NotBacktick, '"') && !in_class(CharClass::NotBacktick, '`'));
    assert!(in_class(CharClass::Digit, '5') && in_class(CharClass::Space, ' '));
}

#[test]
fn runs_of_characters() {
    let src = chars_of("  ab_1 🙈x");
    assert_eq!(src.len(), 9);
    assert_eq!(scan_run(&src, 0, CharClass::Space), 2);
    assert_eq!(scan_run(&src, 2, CharClass::Word), 6);
    assert_eq!(scan_run(&src, 2, CharClass::Digit), 2);
    assert_eq!(scan_run(&src, 5, CharClass::Digit), 6);
    assert_eq!(scan_run(&src, 0, CharClass::NotNewline), 9);
    assert_eq!(scan_run(&src, 9, CharClass::Space), 9);
}

#[test]
fn texts_compare() {
    assert!(same_text("", ""));
    assert!(same_text("abc", "abc"));
    assert!(!same_text("abc", "abd"));
    assert!(!same_text("abc", "ab"));
    assert!(!same_text("abc", "ABC"));
    assert!(same_text("🙈é", "🙈é"));
    assert!(same_text_ignoring_case("Out_Max", "OUT_MAX"));
    assert!(same_text_ignoring_case("", ""));
    assert!(!same_text_ignoring_case("out_max", "out_min"));
    assert!(!same_text_ignoring_case("é", "É"));
    assert!(!same_text_ignoring_case("ab", "abc"));
    let src = chars_of("xDefine");
    assert!(spells(&src, 1, 7, "define"));
    assert!(spells(&src, 1, 7, "DEFINE"));
    assert!(!spells(&src, 0, 7, "define"));
    assert!(!spells(&src, 1, 6, "define"));
    assert!(spells(&src, 3, 3, ""));
    assert!(same_chars_ignoring_case(&src, 1, 3, &chars_of("dE")));
    assert!(!same_chars_ignoring_case(&src, 1, 3, &chars_of("dF")));
    assert_eq!(owned("abc"), "abc".to_string());
}

#[test]
fn decimal_numbers() {
    let src = chars_of("x0042y18446744073709551616");
    assert_eq!(read_decimal(&src, 1, 5, 100), Some(42));
    assert_eq!(read_decimal(&src, 1, 5, 42), Some(42));
    assert_eq!(read_decimal(&src, 1, 5, 41), None);
    assert_eq!(read_decimal(&src, 1, 1, 0), Some(0));
    assert_eq!(read_decimal(&src, 6, 26, 18446744073709551616), Some(18446744073709551616));
    assert_eq!(read_decimal(&src, 6, 26, 18446744073709551615), None);
}

#[test]
fn syntax_errors_carry_their_message() {
    assert_eq!(syntax_err::<u8>("bad"), Err(BajzelError::Syntax("bad".to_owned())));
    assert_eq!(
        syntax_err_about::<u8>("unknown field", "x"),
        Err(BajzelError::Syntax("unknown field (x)".to_owned()))
    );
}
