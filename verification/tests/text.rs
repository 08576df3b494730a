use user_store::text::{
    capitalize_first, format_name, remove_special_chars, slugify, truncate_text, word_count,
};

#[test]
fn capitalize_first_empty() {
    assert_eq!(capitalize_first(""), "");
}

#[test]
fn capitalize_first_lowercase_word() {
    assert_eq!(capitalize_first("john"), "John");
}

#[test]
fn capitalize_first_leaves_rest_alone() {
    assert_eq!(capitalize_first("hELLO"), "HELLO");
    assert_eq!(capitalize_first("Already"), "Already");
}

#[test]
fn slugify_mixed_input() {
    assert_eq!(slugify("Hello World! 123"), "hello-world-123");
}

#[test]
fn slugify_collapses_and_trims_separators() {
    assert_eq!(slugify("  --Rust__lang--  "), "rust-lang");
    assert_eq!(slugify(""), "");
    assert_eq!(slugify("!!!"), "");
}

#[test]
fn truncate_long_text() {
    assert_eq!(truncate_text("This is a very long text", 10), "This is...");
}

#[test]
fn truncate_short_text_unchanged() {
    assert_eq!(truncate_text("short", 10), "short");
    assert_eq!(truncate_text("exact", 5), "exact");
}

#[test]
fn truncate_tiny_limit_keeps_only_ellipsis() {
    assert_eq!(truncate_text("abcdef", 2), "...");
}

#[test]
fn word_count_basics() {
    assert_eq!(word_count("hello world"), 2);
    assert_eq!(word_count(""), 0);
    assert_eq!(word_count("   "), 0);
    assert_eq!(word_count("  one   two  three "), 3);
}

#[test]
fn remove_special_chars_keeps_alnum_and_spaces() {
    assert_eq!(remove_special_chars("abc!@# def123"), "abc def123");
    assert_eq!(remove_special_chars("<>?!"), "");
}

#[test]
fn format_name_capitalizes_both() {
    assert_eq!(format_name("john", "doe"), "John Doe");
}
