//! Clock times within a UTC day, and UTC instants built from a calendar day
//! and a clock time.
use vstd::prelude::*;
use crate::calendar::CalendarDate;

verus! {

/// The number of seconds in a day.
pub const SECONDS_PER_DAY: i64 = 86400;

/// The clock time `(hour, minute, second)` that lies `total` seconds after
/// midnight, hours counting on past 23.
pub open spec fn hms(total: int) -> (int, int, int) {
    (total / 3600, (total % 3600) / 60, total % 60)
}

/// The number of seconds after midnight of a clock time.
pub open spec fn seconds_of(h: int, m: int, s: int) -> int {
    h * 3600 + m * 60 + s
}

/// `x` brought into `[0, SECONDS_PER_DAY)` by whole days.
pub open spec fn wrap_day(x: int) -> int {
    x % (SECONDS_PER_DAY as int)
}

/// An instant on the UTC time line: a calendar day and a clock time on it.
#[derive(Clone, Copy, Debug, PartialEq, Eq, Structural)]
pub struct UtcInstant {
    pub date: CalendarDate,
    pub hour: u32,
    pub minute: u32,
    pub second: u32,
}

impl UtcInstant {
    pub open spec fn is_valid(self) -> bool {
        &&& self.date.is_valid()
        &&& self.hour < 24
        &&& self.minute < 60
        &&& self.second < 60
    }

    pub open spec fn second_of_day(self) -> int {
        seconds_of(self.hour as int, self.minute as int, self.second as int)
    }

    /// Whether `self` comes strictly before `other`: an earlier day, or the
    /// same day and an earlier clock time.
    pub open spec fn before_spec(self, other: UtcInstant) -> bool {
        ||| self.date.before_spec(other.date)
        ||| self.date == other.date && self.second_of_day() < other.second_of_day()
    }

    /// Builds an instant, or `None` where the date does not exist or the
    /// clock time is not one of a day.
    pub fn new(date: CalendarDate, hour: u32, minute: u32, second: u32) -> (r: Option<UtcInstant>)
        ensures
            r is Some <==> (UtcInstant { date, hour, minute, second }).is_valid(),
            r matches Some(t) ==> t == (UtcInstant { date, hour, minute, second }),
    {
        if hour < 24 && minute < 60 && second < 60 && CalendarDate::new(
            date.year,
            date.month,
            date.day,
        ).is_ok() {
            Some(UtcInstant { date, hour, minute, second })
        } else {
            None
        }
    }

    /// Whether `self` comes strictly before `other`.
    pub fn is_before(&self, other: &UtcInstant) -> (r: bool)
        requires
            self.is_valid(),
            other.is_valid(),
        ensures
            r == self.before_spec(*other),
    {
        if self.date.is_before(&other.date) {
            true
        } else if self.date == other.date {
            let a: u32 = self.hour * 3600 + self.minute * 60 + self.second;
            let b: u32 = other.hour * 3600 + other.minute * 60 + other.second;
            a < b
        } else {
            false
        }
    }
}

/// Splits a count of seconds into hours, minutes and seconds.
pub fn hms_of_seconds(total: u32) -> (r: (u32, u32, u32))
    ensures
        (r.0 as int, r.1 as int, r.2 as int) == hms(total as int),
        seconds_of(r.0 as int, r.1 as int, r.2 as int) == total,
        r.1 < 60,
        r.2 < 60,
{
    let h = total / 3600;
    let rest = total % 3600;
    let m = rest / 60;
    let s = total % 60;
    proof {
        lemma_hms_round_trip(total as int);
    }
    (h, m, s)
}

/// The clock time of day that lies `seconds` after (or, when negative,
/// before) some midnight: whole days are dropped, so the result is always
/// a time of one day.
pub fn time_of_day(seconds: i64) -> (r: (u32, u32, u32))
    ensures
        (r.0 as int, r.1 as int, r.2 as int) == hms(wrap_day(seconds as int)),
        seconds_of(r.0 as int, r.1 as int, r.2 as int) == wrap_day(seconds as int),
        r.0 < 24,
        r.1 < 60,
        r.2 < 60,
{
    let rem = seconds % SECONDS_PER_DAY;
    let wrapped: i64 = if rem < 0 { rem + SECONDS_PER_DAY } else { rem };
    assert(wrapped == wrap_day(seconds as int));
    hms_of_seconds(wrapped as u32)
}

/// The instant `ut_seconds` after midnight UTC, with whole days dropped, on
/// the calendar day `date`.
pub fn event_instant(date: CalendarDate, ut_seconds: i64) -> (r: UtcInstant)
    requires
        date.is_valid(),
    ensures
        r.is_valid(),
        r.date == date,
        r.second_of_day() == wrap_day(ut_seconds as int),
{
    let (hour, minute, second) = time_of_day(ut_seconds);
    UtcInstant { date, hour, minute, second }
}

/// Splitting a second count into a clock time and adding it back up gives
/// the count again.
pub proof fn lemma_hms_round_trip(total: int)
    requires
        0 <= total,
    ensures
        seconds_of(hms(total).0, hms(total).1, hms(total).2) == total,
        0 <= hms(total).1 < 60,
        0 <= hms(total).2 < 60,
{
    assert(seconds_of(hms(total).0, hms(total).1, hms(total).2) == total) by (nonlinear_arith)
        requires
            0 <= total,
    {
    }
    assert(0 <= hms(total).1 < 60) by (nonlinear_arith)
        requires
            0 <= total,
    {
    }
}

/// A clock time with minutes and seconds under 60, added up into seconds
/// and split again, gives the same clock time.
pub proof fn lemma_seconds_round_trip(h: int, m: int, s: int)
    requires
        0 <= h,
        0 <= m < 60,
        0 <= s < 60,
    ensures
        hms(seconds_of(h, m, s)) == (h, m, s),
{
    let t = seconds_of(h, m, s);
    assert(t / 3600 == h && t % 3600 == m * 60 + s) by (nonlinear_arith)
        requires
            t == h * 3600 + m * 60 + s,
            0 <= h,
            0 <= m < 60,
            0 <= s < 60,
    {
    }
    assert((m * 60 + s) / 60 == m && t % 60 == s) by (nonlinear_arith)
        requires
            t == h * 3600 + m * 60 + s,
            0 <= m < 60,
            0 <= s < 60,
    {
    }
}

/// Bringing a second count into one day is idempotent: a count already in
/// the day stays as it is.
pub proof fn lemma_wrap_day_idempotent(x: int)
    ensures
        0 <= wrap_day(x) < SECONDS_PER_DAY,
        wrap_day(wrap_day(x)) == wrap_day(x),
{
}

} // verus!
