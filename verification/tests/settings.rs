use mjolnir_backend::settings::{
    nonblank_setting, parse_bool_setting, parse_u64_setting, parse_usize_setting,
};

#[test]
fn boolean_settings_accept_words_in_any_case_with_whitespace() {
    assert!(parse_bool_setting(Some(" TRUE "), false));
    assert!(parse_bool_setting(Some("yes"), false));
    assert!(parse_bool_setting(Some("On"), false));
    assert!(parse_bool_setting(Some("1"), false));
    assert!(!parse_bool_setting(Some("\tfalse\n"), true));
    assert!(!parse_bool_setting(Some("No"), true));
    assert!(!parse_bool_setting(Some("off"), true));
    assert!(!parse_bool_setting(Some("0"), true));
}

#[test]
fn unknown_or_missing_boolean_settings_fall_back_to_the_default() {
    assert!(parse_bool_setting(Some("maybe"), true));
    assert!(!parse_bool_setting(Some("maybe"), false));
    assert!(parse_bool_setting(None, true));
    assert!(!parse_bool_setting(Some(""), false));
}

#[test]
fn numeric_settings_are_trimmed_and_parsed() {
    assert_eq!(parse_u64_setting(Some(" 250 "), 200), 250);
    assert_eq!(parse_u64_setting(Some("\u{3000}42\u{a0}"), 200), 42);
    assert_eq!(parse_u64_setting(Some("abc"), 200), 200);
    assert_eq!(parse_u64_setting(Some("-5"), 200), 200);
    assert_eq!(parse_u64_setting(None, 200), 200);
    assert_eq!(parse_usize_setting(Some("16"), 8), 16);
    assert_eq!(parse_usize_setting(Some("1.5"), 8), 8);
}

#[test]
fn blank_text_settings_are_dropped() {
    assert_eq!(nonblank_setting(Some("cam-1".to_string())), Some("cam-1".to_string()));
    assert_eq!(nonblank_setting(Some(" cam ".to_string())), Some(" cam ".to_string()));
    assert_eq!(nonblank_setting(Some("  \t".to_string())), None);
    assert_eq!(nonblank_setting(None), None);
}
