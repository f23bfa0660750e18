//! The Gregorian calendar: leap years, month lengths, ordinal days and the
//! day that follows a given one.
use vstd::prelude::*;

verus! {

/// A day of the proleptic Gregorian calendar.
#[derive(Clone, Copy, Debug, PartialEq, Eq, Structural)]
pub struct CalendarDate {
    pub year: i32,
    pub month: u32,
    pub day: u32,
}

/// Why a calendar computation was refused.
#[derive(Clone, Copy, Debug, PartialEq, Eq, Structural)]
pub enum DateError {
    /// The month is not in 1..=12, or the day is not in that month.
    InvalidDate,
}

/// Divisible by 4, and not by 100 unless by 400.
pub open spec fn is_leap_year(y: int) -> bool {
    (y % 4 == 0 && y % 100 != 0) || y % 400 == 0
}

/// The number of days of month `m` (1..=12) of year `y`.
pub open spec fn month_length(y: int, m: int) -> int {
    if m == 2 {
        if is_leap_year(y) { 29 } else { 28 }
    } else if m == 4 || m == 6 || m == 9 || m == 11 {
        30
    } else {
        31
    }
}

/// The number of days of year `y`.
pub open spec fn year_length(y: int) -> int {
    if is_leap_year(y) { 366 } else { 365 }
}

pub open spec fn is_valid_date(y: int, m: int, d: int) -> bool {
    1 <= m <= 12 && 1 <= d <= month_length(y, m)
}

/// The number of days in the months of year `y` that come before month `m`.
pub open spec fn days_before_month(y: int, m: int) -> int
    decreases m,
{
    if m <= 1 {
        0
    } else {
        days_before_month(y, m - 1) + month_length(y, m - 1)
    }
}

/// The ordinal day of `(y, m, d)` within its year, counted from 1.
pub open spec fn ordinal(y: int, m: int, d: int) -> int {
    days_before_month(y, m) + d
}

/// The day after `(y, m, d)`, as `(year, month, day)`.
pub open spec fn successor(y: int, m: int, d: int) -> (int, int, int) {
    if d < month_length(y, m) {
        (y, m, d + 1)
    } else if m < 12 {
        (y, m + 1, 1)
    } else {
        (y + 1, 1, 1)
    }
}

impl CalendarDate {
    pub open spec fn is_valid(self) -> bool {
        is_valid_date(self.year as int, self.month as int, self.day as int)
    }

    pub open spec fn ordinal_spec(self) -> int {
        ordinal(self.year as int, self.month as int, self.day as int)
    }

    /// The date that follows this one.
    pub open spec fn succ_spec(self) -> (int, int, int) {
        successor(self.year as int, self.month as int, self.day as int)
    }

    /// Whether the date that follows this one has a year that fits in `i32`.
    pub open spec fn has_successor(self) -> bool {
        self.succ_spec().0 <= i32::MAX
    }

    /// Whether `self` comes strictly before `other` on the calendar.
    pub open spec fn before_spec(self, other: CalendarDate) -> bool {
        ||| self.year < other.year
        ||| self.year == other.year && self.month < other.month
        ||| self.year == other.year && self.month == other.month && self.day < other.day
    }
}

fn is_leap(y: i32) -> (r: bool)
    ensures
        r == is_leap_year(y as int),
{
    (y % 4 == 0 && y % 100 != 0) || y % 400 == 0
}

fn days_in_month(y: i32, m: u32) -> (r: u32)
    requires
        1 <= m <= 12,
    ensures
        r == month_length(y as int, m as int),
        28 <= r <= 31,
{
    if m == 2 {
        if is_leap(y) { 29 } else { 28 }
    } else if m == 4 || m == 6 || m == 9 || m == 11 {
        30
    } else {
        31
    }
}

/// The months before `m` hold at least 28 days each and at most 31.
pub proof fn lemma_days_before_month_bounds(y: int, m: int)
    requires
        1 <= m <= 13,
    ensures
        28 * (m - 1) <= days_before_month(y, m) <= 31 * (m - 1),
    decreases m,
{
    if m > 1 {
        lemma_days_before_month_bounds(y, m - 1);
    }
}

/// The months of a year together hold exactly the days of that year.
pub proof fn lemma_whole_year(y: int)
    ensures
        days_before_month(y, 13) == year_length(y),
{
    reveal_with_fuel(days_before_month, 13);
}

/// The ordinal of a valid date lies in `1..=year_length(y)`, and it is
/// `year_length(y)` exactly on the last day of December.
pub proof fn lemma_ordinal_range(y: int, m: int, d: int)
    requires
        is_valid_date(y, m, d),
    ensures
        1 <= ordinal(y, m, d) <= year_length(y),
        ordinal(y, m, d) == year_length(y) <==> (m == 12 && d == 31),
    decreases 12 - m,
{
    lemma_days_before_month_bounds(y, m);
    if m == 12 {
        lemma_whole_year(y);
        assert(days_before_month(y, 13) == days_before_month(y, 12) + 31);
    } else {
        lemma_ordinal_range(y, m + 1, 1);
        assert(days_before_month(y, m + 1) == days_before_month(y, m) + month_length(y, m));
    }
}

/// The day after a valid date is a valid date, one ordinal later within the
/// year, or the first day of the next year after the last one.
pub proof fn lemma_successor_ordinal(y: int, m: int, d: int)
    requires
        is_valid_date(y, m, d),
    ensures
        is_valid_date(successor(y, m, d).0, successor(y, m, d).1, successor(y, m, d).2),
        ordinal(y, m, d) < year_length(y) ==> successor(y, m, d).0 == y && ordinal(
            successor(y, m, d).0,
            successor(y, m, d).1,
            successor(y, m, d).2,
        ) == ordinal(y, m, d) + 1,
        ordinal(y, m, d) == year_length(y) ==> successor(y, m, d) == (y + 1, 1int, 1int),
{
    lemma_ordinal_range(y, m, d);
    if d == month_length(y, m) && m < 12 {
        assert(days_before_month(y, m + 1) == days_before_month(y, m) + month_length(y, m));
    }
}

/// The ordinal day of `(y, m, d)` within its year, counted from 1, or
/// `InvalidDate` where the month or the day is out of range.
pub fn day_of_year(y: i32, m: u32, d: u32) -> (r: Result<u32, DateError>)
    ensures
        r is Ok <==> is_valid_date(y as int, m as int, d as int),
        r matches Ok(n) ==> n == ordinal(y as int, m as int, d as int) && 1 <= n <= year_length(
            y as int,
        ),
        r matches Err(e) ==> e == DateError::InvalidDate,
{
    if m < 1 || m > 12 || d < 1 || d > days_in_month(y, m) {
        return Err(DateError::InvalidDate);
    }
    proof {
        lemma_ordinal_range(y as int, m as int, d as int);
    }
    let mut before: u32 = 0;
    let mut i: u32 = 1;
    while i < m
        invariant
            1 <= i <= m <= 12,
            before == days_before_month(y as int, i as int),
        decreases m - i,
    {
        proof {
            lemma_days_before_month_bounds(y as int, i as int);
        }
        before = before + days_in_month(y, i);
        i = i + 1;
    }
    Ok(before + d)
}

/// The calendar day that follows `date`.
pub fn next_date(date: CalendarDate) -> (r: CalendarDate)
    requires
        date.is_valid(),
        date.has_successor(),
    ensures
        r.is_valid(),
        (r.year as int, r.month as int, r.day as int) == date.succ_spec(),
        date.before_spec(r),
{
    proof {
        lemma_successor_ordinal(date.year as int, date.month as int, date.day as int);
    }
    if date.day < days_in_month(date.year, date.month) {
        CalendarDate { year: date.year, month: date.month, day: date.day + 1 }
    } else if date.month < 12 {
        CalendarDate { year: date.year, month: date.month + 1, day: 1 }
    } else {
        CalendarDate { year: date.year + 1, month: 1, day: 1 }
    }
}

impl CalendarDate {
    /// Builds a date, or `InvalidDate` where it does not exist.
    pub fn new(year: i32, month: u32, day: u32) -> (r: Result<CalendarDate, DateError>)
        ensures
            r is Ok <==> is_valid_date(year as int, month as int, day as int),
            r matches Ok(date) ==> date.year == year && date.month == month && date.day == day,
            r matches Err(e) ==> e == DateError::InvalidDate,
    {
        if month < 1 || month > 12 || day < 1 || day > days_in_month(year, month) {
            Err(DateError::InvalidDate)
        } else {
            Ok(CalendarDate { year, month, day })
        }
    }

    /// Whether `self` comes strictly before `other` on the calendar.
    pub fn is_before(&self, other: &CalendarDate) -> (r: bool)
        ensures
            r == self.before_spec(*other),
    {
        self.year < other.year || (self.year == other.year && (self.month < other.month || (
        self.month == other.month && self.day < other.day)))
    }
}

} // verus!
