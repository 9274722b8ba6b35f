//! Calendar dates. Whether a (year, month, day) triple is a real date of
//! the proleptic Gregorian calendar is decided by `chrono`, the external
//! calendar authority; `valid_ymd` states the condition it decides.

use vstd::prelude::*;

verus! {

/// The lowest year `chrono::NaiveDate` can represent.
pub const MIN_YEAR: i32 = -262143;

/// The highest year `chrono::NaiveDate` can represent.
pub const MAX_YEAR: i32 = 262142;

/// The proleptic Gregorian leap-year rule.
pub open spec fn is_leap_year(y: i32) -> bool {
    y as int % 4 == 0 && (y as int % 100 != 0 || y as int % 400 == 0)
}

/// How many days month `m` of year `y` has.
pub open spec fn days_in_month(y: i32, m: u32) -> u32
    recommends
        1 <= m <= 12,
{
    if m == 2 {
        if is_leap_year(y) {
            29
        } else {
            28
        }
    } else if m == 4 || m == 6 || m == 9 || m == 11 {
        30
    } else {
        31
    }
}

/// A real date of the proleptic Gregorian calendar, within the year range
/// that `chrono::NaiveDate` supports.
pub open spec fn valid_ymd(y: i32, m: u32, d: u32) -> bool {
    MIN_YEAR <= y <= MAX_YEAR && 1 <= m <= 12 && 1 <= d <= days_in_month(y, m)
}

/// Relies on `chrono::NaiveDate::from_ymd_opt`: it returns `Some` exactly
/// when (year, month, day) is a real proleptic Gregorian date — month in
/// 1..=12, day in 1..=(leap-aware days of the month) — and the year is
/// within the range `NaiveDate` supports; it never panics.
#[verifier::external_body]
fn ymd_is_valid(year: i32, month: u32, day: u32) -> (r: bool)
    ensures
        r == valid_ymd(year, month, day),
{
    chrono::NaiveDate::from_ymd_opt(year, month, day).is_some()
}

/// A calendar date that exists: constructors only ever hand one out after
/// the calendar authority has accepted the (year, month, day) triple.
#[derive(Debug, PartialEq, Eq, Structural, Clone, Copy)]
pub struct Date {
    pub year: i32,
    pub month: u32,
    pub day: u32,
}

impl Date {
    /// The triple this date is made of is a real calendar date.
    pub open spec fn valid(self) -> bool {
        valid_ymd(self.year, self.month, self.day)
    }

    /// Builds a date from a (year, month, day) triple, or `None` when the
    /// triple is not a real calendar date.
    pub fn from_ymd_opt(year: i32, month: u32, day: u32) -> (r: Option<Date>)
        ensures
            valid_ymd(year, month, day) ==> r == Some(Date { year, month, day }),
            !valid_ymd(year, month, day) ==> r is None,
    {
        if ymd_is_valid(year, month, day) {
            Some(Date { year, month, day })
        } else {
            None
        }
    }

    /// The year, a signed number of the proleptic Gregorian calendar.
    pub fn year(&self) -> (y: i32)
        ensures
            y == self.year,
    {
        self.year
    }

    /// The month, 1-based (January is 1).
    pub fn month(&self) -> (m: u32)
        ensures
            m == self.month,
    {
        self.month
    }

    /// The day of the month, 1-based.
    pub fn day(&self) -> (d: u32)
        ensures
            d == self.day,
    {
        self.day
    }
}

} // verus!
