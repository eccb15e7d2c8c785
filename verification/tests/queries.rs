use file_journal::dates::CalendarDate;
use file_journal::query::{day_selectors, find_entries, query_from_options, DaySelector, Query};

fn fixture_now() -> CalendarDate {
    CalendarDate { year: 2026, month: 2, day: 17, hour: 8, minute: 15, second: 3 }
}

// Listings of the fixture tree: entries on Feb 17 (x2), Feb 18 (x1) and
// Mar 1 (x1) of 2026, and Jan 15 of 2025.
fn fixture_listing(year: i32, month: u32) -> Option<Vec<String>> {
    match (year, month) {
        (2026, 2) => Some(vec![
            "17-081503-note1.md".to_string(),
            "17-101200-note2.md".to_string(),
            "18-090000-note3.md".to_string(),
        ]),
        (2026, 3) => Some(vec!["01-120000-march-note.md".to_string()]),
        (2025, 1) => Some(vec!["15-080000-2025-note.md".to_string()]),
        _ => None,
    }
}

fn run_query(day: Option<u32>, month: Option<u32>, year: Option<i32>) -> Vec<String> {
    let q = query_from_options(day, month, year, false, &fixture_now());
    let sels = day_selectors(&q);
    let listings: Vec<Option<Vec<String>>> =
        sels.iter().map(|s| fixture_listing(s.year, s.month)).collect();
    find_entries("root", &sels, &listings)
}

#[test]
fn test_find_entries_by_day() {
    let entries = run_query(Some(17), Some(2), Some(2026));
    assert_eq!(entries.len(), 2);
    assert!(entries[0].contains("17-081503-note1.md"));
    assert!(entries[1].contains("17-101200-note2.md"));
}

#[test]
fn test_find_entries_by_month() {
    let entries = run_query(None, Some(2), Some(2026));
    assert_eq!(entries.len(), 3);
    assert!(entries.iter().any(|f| f.contains("note1")));
    assert!(entries.iter().any(|f| f.contains("note2")));
    assert!(entries.iter().any(|f| f.contains("note3")));
}

#[test]
fn test_find_entries_by_year() {
    let entries = run_query(None, None, Some(2026));
    assert_eq!(entries.len(), 4);
    assert!(entries.iter().any(|f| f.contains("note1")));
    assert!(entries.iter().any(|f| f.contains("note2")));
    assert!(entries.iter().any(|f| f.contains("note3")));
    assert!(entries.iter().any(|f| f.contains("march-note")));
}

#[test]
fn test_find_entries_cross_year() {
    let entries_2025 = run_query(None, None, Some(2025));
    assert_eq!(entries_2025.len(), 1);
    assert!(entries_2025[0].contains("2025-note"));
}

#[test]
fn test_find_entries_empty_result() {
    let entries = run_query(Some(25), Some(2), Some(2026));
    assert!(entries.is_empty());
}

#[test]
fn test_find_entries_different_day_same_month() {
    let entries = run_query(Some(18), Some(2), Some(2026));
    assert_eq!(entries.len(), 1);
    assert!(entries[0].contains("note3"));
}

#[test]
fn test_find_entries_defaults_to_today() {
    // No criteria at all: today's entries (fixture "now" is Feb 17, 2026).
    let entries = run_query(None, None, None);
    assert_eq!(entries.len(), 2);
    assert!(entries[0].contains("note1"));
    assert!(entries[1].contains("note2"));
}

#[test]
fn test_find_entries_full_paths_and_order() {
    let entries = run_query(Some(17), Some(2), Some(2026));
    assert_eq!(
        entries,
        vec![
            "root/2026/02/17-081503-note1.md".to_string(),
            "root/2026/02/17-101200-note2.md".to_string(),
        ]
    );
}

#[test]
fn test_find_entries_sorts_unsorted_listing() {
    let sels = vec![DaySelector { year: 2026, month: 2, day: None }];
    let listings = vec![Some(vec![
        "18-090000-b.md".to_string(),
        "17-081503-a.md".to_string(),
        "17-081503-a.txt".to_string(),
    ])];
    let entries = find_entries("j", &sels, &listings);
    assert_eq!(
        entries,
        vec!["j/2026/02/17-081503-a.md".to_string(), "j/2026/02/18-090000-b.md".to_string()]
    );
}

#[test]
fn test_query_from_options_defaults() {
    let now = fixture_now();
    assert_eq!(
        query_from_options(Some(5), None, None, false, &now),
        Query::ByDay { year: 2026, month: 2, day: 5 }
    );
    assert_eq!(
        query_from_options(None, Some(7), None, false, &now),
        Query::ByMonth { year: 2026, month: 7 }
    );
    assert_eq!(query_from_options(None, None, Some(2024), false, &now), Query::ByYear {
        year: 2024,
    });
    assert_eq!(
        query_from_options(None, None, None, false, &now),
        Query::ByDay { year: 2026, month: 2, day: 17 }
    );
    assert_eq!(
        query_from_options(None, Some(9), Some(2024), true, &now),
        Query::ByWeek { year: 2026, month: 2, day: 17 }
    );
}

#[test]
fn test_year_query_spans_all_months() {
    let sels = day_selectors(&Query::ByYear { year: 2026 });
    assert_eq!(sels.len(), 12);
    for (i, s) in sels.iter().enumerate() {
        assert_eq!(s.year, 2026);
        assert_eq!(s.month as usize, i + 1);
        assert_eq!(s.day, None);
    }
}

#[test]
fn test_week_selectors_within_one_month() {
    // Feb 17, 2026 is a Tuesday; its Monday-start week is Feb 16..=22.
    let sels = day_selectors(&Query::ByWeek { year: 2026, month: 2, day: 17 });
    assert_eq!(sels.len(), 7);
    for (i, s) in sels.iter().enumerate() {
        assert_eq!(s.year, 2026);
        assert_eq!(s.month, 2);
        assert_eq!(s.day, Some(16 + i as u32));
    }
}

#[test]
fn test_week_selectors_across_month_boundary() {
    // Mar 1, 2026 is a Sunday; its week runs Feb 23 ..= Mar 1.
    let sels = day_selectors(&Query::ByWeek { year: 2026, month: 3, day: 1 });
    assert_eq!(sels.len(), 7);
    for (i, s) in sels.iter().take(6).enumerate() {
        assert_eq!((s.year, s.month, s.day), (2026, 2, Some(23 + i as u32)));
    }
    assert_eq!((sels[6].year, sels[6].month, sels[6].day), (2026, 3, Some(1)));
}

#[test]
fn test_week_query_collects_both_months() {
    let sels = day_selectors(&Query::ByWeek { year: 2026, month: 3, day: 1 });
    let listings: Vec<Option<Vec<String>>> =
        sels.iter().map(|s| fixture_listing(s.year, s.month)).collect();
    // The fixture has no entries on Feb 23..=28, but one on Mar 1.
    let entries = find_entries("root", &sels, &listings);
    assert_eq!(entries, vec!["root/2026/03/01-120000-march-note.md".to_string()]);
}
