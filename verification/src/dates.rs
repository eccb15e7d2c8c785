//! Calendar dates: validity, Gregorian month lengths, and day arithmetic for
//! week windows (Monday-start weeks never span more than two months).
use vstd::prelude::*;

verus! {

/// A wall-clock timestamp broken into calendar fields.
#[derive(Debug, Clone, Copy, PartialEq, Eq, Structural)]
pub struct CalendarDate {
    pub year: i32,
    pub month: u32,
    pub day: u32,
    pub hour: u32,
    pub minute: u32,
    pub second: u32,
}

/// The Gregorian leap-year rule.
pub open spec fn spec_leap_year(y: int) -> bool {
    (y % 4 == 0 && y % 100 != 0) || y % 400 == 0
}

/// Days in a month; months outside 1..=12 count 30, as a harmless default.
pub open spec fn spec_days_in_month(y: int, m: int) -> int {
    if m == 1 || m == 3 || m == 5 || m == 7 || m == 8 || m == 10 || m == 12 {
        31
    } else if m == 4 || m == 6 || m == 9 || m == 11 {
        30
    } else if m == 2 {
        if spec_leap_year(y) {
            29
        } else {
            28
        }
    } else {
        30
    }
}

/// A real Gregorian calendar day.
pub open spec fn valid_ymd(y: int, m: int, d: int) -> bool {
    1 <= m <= 12 && 1 <= d <= spec_days_in_month(y, m)
}

impl CalendarDate {
    /// The date names a real calendar day and time of day.
    pub open spec fn wf(self) -> bool {
        &&& valid_ymd(self.year as int, self.month as int, self.day as int)
        &&& self.hour < 24
        &&& self.minute < 60
        &&& self.second < 60
    }
}

/// Whether `y` is a leap year.
pub fn leap_year(y: i32) -> (r: bool)
    requires
        y >= 0,
    ensures
        r == spec_leap_year(y as int),
{
    (y % 4 == 0 && y % 100 != 0) || y % 400 == 0
}

/// The number of days in the given month.
pub fn days_in_month(y: i32, m: u32) -> (r: u32)
    requires
        y >= 0,
    ensures
        r == spec_days_in_month(y as int, m as int),
{
    match m {
        1 | 3 | 5 | 7 | 8 | 10 | 12 => 31,
        4 | 6 | 9 | 11 => 30,
        2 => if leap_year(y) {
            29
        } else {
            28
        },
        _ => 30,
    }
}

/// The calendar day before `(y, m, d)`.
pub open spec fn spec_prev_day(y: int, m: int, d: int) -> (int, int, int) {
    if d > 1 {
        (y, m, d - 1)
    } else if m > 1 {
        (y, m - 1, spec_days_in_month(y, m - 1))
    } else {
        (y - 1, 12, 31)
    }
}

/// The calendar day after `(y, m, d)`.
pub open spec fn spec_next_day(y: int, m: int, d: int) -> (int, int, int) {
    if d < spec_days_in_month(y, m) {
        (y, m, d + 1)
    } else if m < 12 {
        (y, m + 1, 1)
    } else {
        (y + 1, 1, 1)
    }
}

/// `(y, m, d)` taken back by `k` days.
pub open spec fn spec_minus_days(y: int, m: int, d: int, k: nat) -> (int, int, int)
    decreases k,
{
    if k == 0 {
        (y, m, d)
    } else {
        let p = spec_prev_day(y, m, d);
        spec_minus_days(p.0, p.1, p.2, (k - 1) as nat)
    }
}

/// `(y, m, d)` advanced by `k` days.
pub open spec fn spec_plus_days(y: int, m: int, d: int, k: nat) -> (int, int, int)
    decreases k,
{
    if k == 0 {
        (y, m, d)
    } else {
        let p = spec_next_day(y, m, d);
        spec_plus_days(p.0, p.1, p.2, (k - 1) as nat)
    }
}

/// Stepping back from a valid day yields a valid day and lowers the year by
/// at most one.
pub proof fn lemma_prev_day_valid(y: int, m: int, d: int)
    requires
        valid_ymd(y, m, d),
    ensures
        valid_ymd(spec_prev_day(y, m, d).0, spec_prev_day(y, m, d).1, spec_prev_day(y, m, d).2),
        y - 1 <= spec_prev_day(y, m, d).0 <= y,
{
}

/// Stepping forward from a valid day yields a valid day and raises the year
/// by at most one.
pub proof fn lemma_next_day_valid(y: int, m: int, d: int)
    requires
        valid_ymd(y, m, d),
    ensures
        valid_ymd(spec_next_day(y, m, d).0, spec_next_day(y, m, d).1, spec_next_day(y, m, d).2),
        y <= spec_next_day(y, m, d).0 <= y + 1,
{
}

/// The calendar day `k` days before `(y, m, d)`. At most a week back, so the
/// year drops by at most one.
pub fn ymd_minus_days(y: i32, m: u32, d: u32, k: u32) -> (r: (i32, u32, u32))
    requires
        valid_ymd(y as int, m as int, d as int),
        1 <= y <= 99999,
        k <= 6,
    ensures
        (r.0 as int, r.1 as int, r.2 as int) == spec_minus_days(
            y as int,
            m as int,
            d as int,
            k as nat,
        ),
        valid_ymd(r.0 as int, r.1 as int, r.2 as int),
        y - 1 <= r.0 <= y,
{
    let mut cy = y;
    let mut cm = m;
    let mut cd = d;
    let mut j: u32 = 0;
    while j < k
        invariant
            j <= k <= 6,
            1 <= y <= 99999,
            valid_ymd(cy as int, cm as int, cd as int),
            y - 1 <= cy <= y,
            cy < y ==> cm == 12 && cd + j >= 31,
            spec_minus_days(y as int, m as int, d as int, k as nat) == spec_minus_days(
                cy as int,
                cm as int,
                cd as int,
                (k - j) as nat,
            ),
        decreases k - j,
    {
        proof {
            lemma_prev_day_valid(cy as int, cm as int, cd as int);
        }
        if cd > 1 {
            cd -= 1;
        } else if cm > 1 {
            cm -= 1;
            cd = days_in_month(cy, cm);
        } else {
            cy -= 1;
            cm = 12;
            cd = 31;
        }
        j += 1;
    }
    (cy, cm, cd)
}

/// The calendar day `k` days after `(y, m, d)`. At most a week forward, so
/// the year rises by at most one.
pub fn ymd_plus_days(y: i32, m: u32, d: u32, k: u32) -> (r: (i32, u32, u32))
    requires
        valid_ymd(y as int, m as int, d as int),
        0 <= y <= 99999,
        k <= 6,
    ensures
        (r.0 as int, r.1 as int, r.2 as int) == spec_plus_days(
            y as int,
            m as int,
            d as int,
            k as nat,
        ),
        valid_ymd(r.0 as int, r.1 as int, r.2 as int),
        y <= r.0 <= y + 1,
{
    let mut cy = y;
    let mut cm = m;
    let mut cd = d;
    let mut j: u32 = 0;
    while j < k
        invariant
            j <= k <= 6,
            0 <= y <= 99999,
            valid_ymd(cy as int, cm as int, cd as int),
            y <= cy <= y + 1,
            cy > y ==> cm == 1 && cd <= 1 + j,
            spec_plus_days(y as int, m as int, d as int, k as nat) == spec_plus_days(
                cy as int,
                cm as int,
                cd as int,
                (k - j) as nat,
            ),
        decreases k - j,
    {
        proof {
            lemma_next_day_valid(cy as int, cm as int, cd as int);
        }
        if cd < days_in_month(cy, cm) {
            cd += 1;
        } else if cm < 12 {
            cm += 1;
            cd = 1;
        } else {
            cy += 1;
            cm = 1;
            cd = 1;
        }
        j += 1;
    }
    (cy, cm, cd)
}

} // verus!
