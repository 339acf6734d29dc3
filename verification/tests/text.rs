use leannet::text::eq_ignoring_case;
use leannet::text::push_decimal;
use leannet::text::starts_with;
use leannet::text::strip_prefix_of;
use leannet::text::to_ascii_lower;

fn decimal(n: u64) -> String {
    let mut out = String::new();
    push_decimal(&mut out, n);
    out
}

#[test]
fn decimal_numerals() {
    assert_eq!(decimal(0), "0");
    assert_eq!(decimal(7), "7");
    assert_eq!(decimal(9), "9");
    assert_eq!(decimal(10), "10");
    assert_eq!(decimal(101), "101");
    assert_eq!(decimal(262144), "262144");
    assert_eq!(decimal(u64::MAX), "18446744073709551615");
    for n in 0..2000u64 {
        assert_eq!(decimal(n), n.to_string());
    }
}

#[test]
fn decimal_is_appended_to_what_is_there() {
    let mut out = "node_".to_string();
    push_decimal(&mut out, 42);
    assert_eq!(out, "node_42");
    push_decimal(&mut out, 0);
    assert_eq!(out, "node_420");
}

#[test]
fn prefix_is_recognised_character_by_character() {
    assert!(starts_with("x_12", "x_"));
    assert!(starts_with("x_12", ""));
    assert!(starts_with("x_12", "x_12"));
    assert!(!starts_with("x_12", "x_123"));
    assert!(!starts_with("x_12", "y"));
    assert!(!starts_with("", "y"));
    assert!(starts_with("\u{00e9}_1", "\u{00e9}_"));
    assert!(!starts_with("\u{00e9}_1", "e"));
}

#[test]
fn prefix_is_taken_away() {
    assert_eq!(strip_prefix_of("x_12", "x_"), Some("12".to_string()));
    assert_eq!(strip_prefix_of("x_", "x_"), Some(String::new()));
    assert_eq!(strip_prefix_of("x", "x_"), None);
    assert_eq!(strip_prefix_of("ax_1", "x_"), None);
    assert_eq!(strip_prefix_of("\u{00e9}_1\u{00fc}", "\u{00e9}_"), Some("1\u{00fc}".to_string()));
    assert_eq!(strip_prefix_of("abc", ""), Some("abc".to_string()));
}

#[test]
fn case_of_ascii_letters_is_left_aside() {
    assert!(eq_ignoring_case("ReAm", "ream"));
    assert!(eq_ignoring_case("", ""));
    assert!(eq_ignoring_case("a_1", "A_1"));
    assert!(!eq_ignoring_case("ream", "reams"));
    assert!(!eq_ignoring_case("ream", "zeam"));
    assert!(!eq_ignoring_case("\u{00c9}", "\u{00e9}"));
    assert!(!eq_ignoring_case("[", "{"));
    assert!(!eq_ignoring_case("@", "`"));
}

#[test]
fn only_ascii_capitals_are_lowered() {
    assert_eq!(to_ascii_lower('A'), 'a');
    assert_eq!(to_ascii_lower('Z'), 'z');
    assert_eq!(to_ascii_lower('m'), 'm');
    assert_eq!(to_ascii_lower('@'), '@');
    assert_eq!(to_ascii_lower('['), '[');
    assert_eq!(to_ascii_lower('0'), '0');
    assert_eq!(to_ascii_lower('\u{00c9}'), '\u{00c9}');
}
