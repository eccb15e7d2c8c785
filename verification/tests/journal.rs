use file_journal::clock::{current_date, weekday_offset};
use file_journal::config::{get_journal_path, Config};
use file_journal::dates::{days_in_month, leap_year, ymd_minus_days, ymd_plus_days, CalendarDate};
use file_journal::entry::prepare_entry;
use file_journal::errors::{RuntimeError, UserError};
use file_journal::folders::{target_dir, validate_target_dir};
use file_journal::query::{day_selectors, find_entries, query_from_options};

#[test]
fn test_get_journal_path_precedence() {
    let cfg = Config { default_path: Some("/cfg".to_string()) };
    assert_eq!(
        get_journal_path(Some("/explicit".to_string()), Some(cfg.clone())),
        Some("/explicit".to_string())
    );
    assert_eq!(get_journal_path(None, Some(cfg)), Some("/cfg".to_string()));
    assert_eq!(get_journal_path(None, Some(Config { default_path: None })), None);
    assert_eq!(get_journal_path(None, None), None);
}

#[test]
fn test_target_dir_layout() {
    assert_eq!(target_dir("/j", 2026, 2), "/j/2026/02");
    assert_eq!(target_dir("j", 1, 12), "j/0001/12");
}

#[test]
fn test_validate_target_dir_accepts_scheme() {
    assert_eq!(validate_target_dir("/j/2026/02"), Ok(()));
    assert_eq!(validate_target_dir(target_dir("base/j", 2025, 1).as_str()), Ok(()));
}

#[test]
fn test_validate_target_dir_rejects_bad_month() {
    assert_eq!(
        validate_target_dir("/j/2026/13"),
        Err(RuntimeError::InvalidStructure("13".to_string()))
    );
    assert_eq!(
        validate_target_dir("/j/2026/2"),
        Err(RuntimeError::InvalidStructure("2".to_string()))
    );
}

#[test]
fn test_validate_target_dir_rejects_bad_year() {
    assert_eq!(
        validate_target_dir("/j/206/02"),
        Err(RuntimeError::InvalidStructure("206".to_string()))
    );
    assert_eq!(
        validate_target_dir("02"),
        Err(RuntimeError::InvalidStructure("".to_string()))
    );
}

#[test]
fn test_validate_target_dir_is_idempotent() {
    // Resolution re-validates each time; a second pass over the same
    // resolved directory gives the same verdict.
    let dir = target_dir("/j", 2026, 2);
    assert_eq!(validate_target_dir(dir.as_str()), Ok(()));
    assert_eq!(validate_target_dir(dir.as_str()), Ok(()));
}

#[test]
fn test_prepare_entry_requires_md_title() {
    let now = CalendarDate { year: 2026, month: 2, day: 17, hour: 8, minute: 15, second: 3 };
    assert!(matches!(prepare_entry("no-extension", "x", &now), Err(UserError::InvalidTitle)));
    let plan = prepare_entry("my daily notes.md", "Test note content", &now).unwrap();
    assert_eq!(plan.filename, "17-081503-my-daily-notes.md");
    assert_eq!(plan.content, "# my daily notes\n\nDate: 17-02-2026\n\nTest note content\n");
}

#[test]
fn test_written_entry_is_found_by_day_query() {
    // Round trip: write an entry for a date, then query that exact
    // day/month/year; exactly that path comes back.
    let now = CalendarDate { year: 2026, month: 2, day: 17, hour: 8, minute: 15, second: 3 };
    let plan = prepare_entry("roundtrip.md", "body", &now).unwrap();
    let q = query_from_options(Some(now.day), Some(now.month), Some(now.year), false, &now);
    let sels = day_selectors(&q);
    let listings = vec![Some(vec![plan.filename.clone()])];
    let found = find_entries("/j", &sels, &listings);
    assert_eq!(found, vec![format!("/j/2026/02/{}", plan.filename)]);
}

#[test]
fn test_calendar_arithmetic() {
    assert!(leap_year(2024));
    assert!(!leap_year(2026));
    assert!(!leap_year(2100));
    assert!(leap_year(2000));
    assert_eq!(days_in_month(2026, 2), 28);
    assert_eq!(days_in_month(2024, 2), 29);
    assert_eq!(days_in_month(2026, 9), 30);
    assert_eq!(days_in_month(2026, 12), 31);
    assert_eq!(ymd_minus_days(2026, 3, 1, 1), (2026, 2, 28));
    assert_eq!(ymd_minus_days(2024, 3, 1, 1), (2024, 2, 29));
    assert_eq!(ymd_minus_days(2026, 1, 1, 1), (2025, 12, 31));
    assert_eq!(ymd_plus_days(2026, 2, 28, 1), (2026, 3, 1));
    assert_eq!(ymd_plus_days(2026, 12, 31, 1), (2027, 1, 1));
    assert_eq!(ymd_plus_days(2026, 2, 10, 6), (2026, 2, 16));
}

#[test]
fn test_weekday_offset_known_dates() {
    // 2026-02-16 is a Monday, 2026-02-22 the following Sunday.
    assert_eq!(weekday_offset(2026, 2, 16), 0);
    assert_eq!(weekday_offset(2026, 2, 17), 1);
    assert_eq!(weekday_offset(2026, 2, 22), 6);
}

#[test]
fn test_current_date_is_well_formed() {
    let now = current_date();
    assert!((1..=12).contains(&now.month));
    assert!((1..=31).contains(&now.day));
    assert!(now.day <= days_in_month(now.year.max(0), now.month));
    assert!(now.hour < 24);
    assert!(now.minute < 60);
    assert!(now.second < 60);
}
