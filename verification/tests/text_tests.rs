use slack_bridge::parsers::MessageUtils;
use slack_bridge::text::{
    ascii_lower, contains_str, i64_to_string, join_strings, replace_all, split_on_char, split_ws,
    trim, u64_to_string,
};

#[test]
fn trim_and_split_follow_whitespace() {
    assert_eq!(trim("  hello world \t"), "hello world");
    assert_eq!(
        split_ws("  one  two\tthree "),
        vec!["one".to_string(), "two".to_string(), "three".to_string()]
    );
    assert_eq!(split_ws("   "), Vec::<String>::new());
}

#[test]
fn split_on_char_keeps_empty_fields() {
    assert_eq!(
        split_on_char("a;;b", ';'),
        vec!["a".to_string(), "".to_string(), "b".to_string()]
    );
    assert_eq!(split_on_char("plain", ';'), vec!["plain".to_string()]);
}

#[test]
fn replace_all_is_left_to_right_and_non_overlapping() {
    assert_eq!(replace_all("aaa", "aa", "b"), "ba");
    assert_eq!(replace_all(":name lives at :name", ":name", "x"), "x lives at x");
    assert_eq!(replace_all("nothing here", "zz", "y"), "nothing here");
}

#[test]
fn numbers_render_in_decimal() {
    assert_eq!(u64_to_string(0), "0");
    assert_eq!(u64_to_string(90210), "90210");
    assert_eq!(i64_to_string(-42), "-42");
    assert_eq!(i64_to_string(7), "7");
}

#[test]
fn contains_and_case_helpers() {
    assert!(contains_str("a M_FORBIDDEN error", "M_FORBIDDEN"));
    assert!(!contains_str("all fine", "M_FORBIDDEN"));
    assert_eq!(ascii_lower("Your_Token"), "your_token");
    assert_eq!(join_strings(&vec!["a".to_string(), "b".to_string()], ", "), "a, b");
}

#[test]
fn sanitize_markdown_escapes_control_markup() {
    assert_eq!(MessageUtils::sanitize_markdown("*bold*"), "\\*bold\\*");
    assert_eq!(MessageUtils::sanitize_markdown("a\\*b"), "a\\*b");
    assert_eq!(MessageUtils::sanitize_markdown("plain"), "plain");
}

#[test]
fn escape_slack_special_chars_doubles_backslashes() {
    assert_eq!(MessageUtils::escape_slack_special_chars("a\\b"), "a\\\\b");
    assert_eq!(MessageUtils::escape_slack_special_chars("ab"), "ab");
}

#[test]
fn reply_quoting_prefixes_every_line() {
    let reply = MessageUtils::convert_matrix_reply_to_slack("thanks", "line one\nline two", "Bob");
    assert_eq!(reply, "**Bob**:\n> line one\n> line two\n\nthanks");
}

#[test]
fn extract_unique_values_keeps_first_occurrences() {
    let out = MessageUtils::extract_unique_values(vec![
        "a".to_string(),
        "b".to_string(),
        "a".to_string(),
        "c".to_string(),
        "b".to_string(),
    ]);
    assert_eq!(out, vec!["a".to_string(), "b".to_string(), "c".to_string()]);
}
