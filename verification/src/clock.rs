//! The wall clock and the weekday of a date, obtained from chrono. Both are
//! trusted at this boundary; everything computed from their results is
//! verified against the contracts stated here.
use vstd::prelude::*;
use chrono::Datelike;
use chrono::Timelike;
use crate::dates::{CalendarDate, valid_ymd};

verus! {

/// The offset of a date's weekday from Monday (Monday is 0, Sunday is 6).
/// The weekday is a function of the calendar date alone; this name stands
/// for it without spelling out the calendar formula.
pub uninterp spec fn weekday_offset_of(y: int, m: int, d: int) -> int;

/// Relies on `chrono::Local::now` with the `Datelike` and `Timelike`
/// accessors: the components of the current local instant form a real
/// calendar date (month 1..=12, day within the month) and time of day
/// (hour 0..=23, minute and second 0..=59).
#[verifier::external_body]
pub fn current_date() -> (r: CalendarDate)
    ensures
        r.wf(),
{
    let now = chrono::Local::now();
    CalendarDate {
        year: now.year(),
        month: now.month(),
        day: now.day(),
        hour: now.hour(),
        minute: now.minute(),
        second: now.second(),
    }
}

/// Relies on `chrono::NaiveDate::from_ymd_opt` and
/// `Weekday::num_days_from_monday`: a real calendar date in this year range
/// is accepted, its weekday depends on the date alone, and the offset from
/// Monday lies in 0..=6.
#[verifier::external_body]
pub fn weekday_offset(y: i32, m: u32, d: u32) -> (r: u32)
    requires
        valid_ymd(y as int, m as int, d as int),
        1 <= y <= 9999,
    ensures
        r as int == weekday_offset_of(y as int, m as int, d as int),
        r < 7,
{
    chrono::NaiveDate::from_ymd_opt(y, m, d).unwrap().weekday().num_days_from_monday()
}

} // verus!
