use delphai::text::{
    chars_of, decimal_string, has_at, is_whitespace_char, join_strings, string_of,
    string_of_range, trim_bounds,
};

#[test]
fn decimal_string_renders_numbers() {
    assert_eq!(decimal_string(0), "0");
    assert_eq!(decimal_string(7), "7");
    assert_eq!(decimal_string(1203), "1203");
    assert_eq!(decimal_string(u64::MAX), "18446744073709551615");
}

#[test]
fn join_strings_places_separator_between_parts() {
    let parts = vec!["a".to_string(), "bc".to_string(), "".to_string()];
    assert_eq!(join_strings(&parts, ", "), "a, bc, ");
    assert_eq!(join_strings(&vec![], ", "), "");
    assert_eq!(join_strings(&vec!["x".to_string()], "\n"), "x");
}

#[test]
fn chars_round_trip() {
    let v = chars_of("héllo …");
    assert_eq!(v.len(), 7);
    assert_eq!(string_of(&v), "héllo …");
    assert_eq!(string_of_range(&v, 1, 4), "éll");
}

#[test]
fn whitespace_classes() {
    assert!(is_whitespace_char(' '));
    assert!(is_whitespace_char('\n'));
    assert!(is_whitespace_char('\t'));
    assert!(is_whitespace_char('\u{3000}'));
    assert!(!is_whitespace_char('a'));
    assert!(!is_whitespace_char('…'));
}

#[test]
fn trim_bounds_skips_whitespace_at_both_ends() {
    let v = chars_of("  ab c \n");
    assert_eq!(trim_bounds(&v, 0, v.len()), (2, 6));
    let blank = chars_of("   ");
    let (a, b) = trim_bounds(&blank, 0, blank.len());
    assert_eq!(a, b);
}

#[test]
fn has_at_matches_pattern_at_offset() {
    let v = chars_of("```json");
    assert!(has_at(&v, 0, &chars_of("```")));
    assert!(has_at(&v, 3, &chars_of("json")));
    assert!(!has_at(&v, 4, &chars_of("json")));
}
