use feiq_v2::network::validation::{
    sanitize_filename, sanitize_message, sanitize_username, MAX_FILE_NAME_LEN, MAX_MESSAGE_LEN,
    MAX_USERNAME_LEN,
};
use feiq_v2::ui::views::truncate_string;

#[test]
fn test_sanitize_username_trim_and_truncate() {
    assert_eq!(sanitize_username("  alice  "), "alice");

    let long_username = "a".repeat(100);
    let sanitized = sanitize_username(&long_username);
    assert_eq!(sanitized.len(), MAX_USERNAME_LEN);
    assert_eq!(sanitized, "a".repeat(MAX_USERNAME_LEN));

    let unicode_username = "🦀".repeat(100);
    let sanitized_unicode = sanitize_username(&unicode_username);
    assert_eq!(sanitized_unicode.chars().count(), MAX_USERNAME_LEN);
    assert_eq!(sanitized_unicode, "🦀".repeat(MAX_USERNAME_LEN));
}

#[test]
fn test_sanitize_message_filter_and_truncate() {
    let msg = "Hello\nWorld\r\tTest\x00\x01\x1FGoodbye";
    let sanitized = sanitize_message(msg);
    assert_eq!(sanitized, "Hello\nWorld\r\tTestGoodbye");

    let long_msg = "x".repeat(70000);
    let sanitized_long = sanitize_message(&long_msg);
    assert_eq!(sanitized_long.chars().count(), MAX_MESSAGE_LEN);
    assert_eq!(sanitized_long, "x".repeat(MAX_MESSAGE_LEN));
}

#[test]
fn test_sanitize_filename_strip_and_truncate() {
    assert_eq!(sanitize_filename("  foo/bar\\baz.txt  "), "foobarbaz.txt");
    assert_eq!(sanitize_filename("../../etc/passwd"), "....etcpasswd");

    let long_filename = "f".repeat(300);
    let sanitized_long = sanitize_filename(&long_filename);
    assert_eq!(sanitized_long.chars().count(), MAX_FILE_NAME_LEN);
    assert_eq!(sanitized_long, "f".repeat(MAX_FILE_NAME_LEN));
}

#[test]
fn sanitize_edge_cases() {
    assert_eq!(sanitize_username("\u{3000}名字\u{2003}"), "名字");
    assert_eq!(sanitize_message("a\u{7f}b\u{85}c"), "abc");
    let truncated_then_filtered = format!("{}\x01y", "x".repeat(65535));
    assert_eq!(sanitize_message(&truncated_then_filtered).chars().count(), 65535);
    assert_eq!(sanitize_filename("   "), "");
}

#[test]
fn test_text_truncation_logic() {
    let short_msg = "Hello";
    assert_eq!(truncate_string(short_msg, 18), "Hello");

    let long_msg = "This is a very long chat preview message that exceeds limit";
    let truncated = truncate_string(long_msg, 18);
    assert_eq!(truncated, "This is a very...");
    assert!(truncated.ends_with("..."));
    assert_eq!(truncated.chars().count(), 17);
}

#[test]
fn truncation_small_limits() {
    assert_eq!(truncate_string("abcdef", 3), "...");
    assert_eq!(truncate_string("abcdef", 4), "a...");
    assert_eq!(truncate_string("abcdef", 2), "ab...");
    assert_eq!(truncate_string("abc", 3), "abc");
    assert_eq!(truncate_string("ab   cd", 5), "ab...");
}
