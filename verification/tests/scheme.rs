use file_journal::entry::{entry_filename, render_entry};
use file_journal::folders::{is_valid_month, is_valid_year};
use file_journal::slug::sanitize_title;

#[test]
fn test_is_valid_month_valid() {
    assert!(is_valid_month("01"));
    assert!(is_valid_month("06"));
    assert!(is_valid_month("12"));
}

#[test]
fn test_is_valid_month_invalid() {
    assert!(!is_valid_month("00"));
    assert!(!is_valid_month("13"));
    assert!(!is_valid_month("1")); // too short
    assert!(!is_valid_month("001")); // too long
    assert!(!is_valid_month("ab")); // not a number
    assert!(!is_valid_month("")); // empty
}

#[test]
fn test_is_valid_year_valid() {
    assert!(is_valid_year("2024"));
    assert!(is_valid_year("2025"));
    assert!(is_valid_year("2026"));
    assert!(is_valid_year("1999"));
    assert!(is_valid_year("0001"));
}

#[test]
fn test_is_valid_year_invalid() {
    assert!(!is_valid_year("202")); // too short
    assert!(!is_valid_year("20245")); // too long
    assert!(!is_valid_year("abcd")); // not a number
    assert!(!is_valid_year("")); // empty
    assert!(!is_valid_year("2a24")); // mixed
}

#[test]
fn test_sanitize_title() {
    assert_eq!(sanitize_title("my daily notes"), "my-daily-notes");
    assert_eq!(sanitize_title("test: file/name"), "test-file-name");
    assert_eq!(sanitize_title("my/note: about something?"), "my-note-about-something");
    assert_eq!(sanitize_title("hello world"), "hello-world");
    assert_eq!(sanitize_title("file*name"), "file-name");
    assert_eq!(sanitize_title("test<path>"), "test-path");
    assert_eq!(sanitize_title("a|b|c"), "a-b-c");
    assert_eq!(sanitize_title("multi--hyphens"), "multi-hyphens");
    assert_eq!(sanitize_title("trailing?"), "trailing");
    assert_eq!(sanitize_title("?leading"), "-leading"); // leading is kept
}

#[test]
fn test_filename_format_with_timestamp() {
    // Filename format is dd-HHMMSS-title.md
    let day = 17u32;
    let hour = 8u32;
    let minute = 15u32;
    let second = 3u32;
    let title = "niet-lekker-geslapen.md";
    let title_part = title.trim_end_matches(".md");
    let safe_title = sanitize_title(title_part);
    let filename = entry_filename(day, hour, minute, second, safe_title.as_str());
    assert_eq!(filename, "17-081503-niet-lekker-geslapen.md");
}

#[test]
fn test_date_format_in_template() {
    // The date line inside a file uses DD-MM-YYYY
    let day = 17u32;
    let month = 2u32;
    let year = 2026i32;
    let title = "test-entry";
    let note_content = "Test note content";
    let template = render_entry(title, day, month, year, note_content);
    let expected = "# test-entry\n\nDate: 17-02-2026\n\nTest note content\n";
    assert_eq!(template, expected);
    assert!(template.contains("Date: 17-02-2026"));
}

#[test]
fn test_sanitize_title_backslash_and_quotes() {
    assert_eq!(sanitize_title("a\\b"), "a-b");
    assert_eq!(sanitize_title("say \"hi\""), "say-hi");
    assert_eq!(sanitize_title("it's here"), "it-s-here");
    assert_eq!(sanitize_title(""), "");
    assert_eq!(sanitize_title("---"), "");
}

#[test]
fn test_entry_filename_pads_every_field() {
    assert_eq!(entry_filename(1, 2, 3, 4, "x"), "01-020304-x.md");
    assert_eq!(entry_filename(31, 23, 59, 59, "end"), "31-235959-end.md");
}

#[test]
fn test_render_entry_empty_note() {
    assert_eq!(render_entry("t", 1, 1, 2026, ""), "# t\n\nDate: 01-01-2026\n\n\n");
}
