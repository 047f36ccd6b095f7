//! Calendar dates at the precision the organizer needs: year, month, day.
//!
//! Access keys carry an issue month (two-digit year offset from 2000 plus a
//! month number); the classifier compares that month against a reference
//! month six calendar months before today. Only month granularity matters
//! for the comparison, since both sides are first-of-month dates.

use vstd::prelude::*;

verus! {

/// A calendar date. The organizer only ever compares first-of-month dates,
/// so no per-month day-count validation is required beyond the 1..=31 range.
#[derive(Clone, Copy, Debug, PartialEq, Eq, Structural)]
pub struct Date {
    pub year: i32,
    pub month: u8,
    pub day: u8,
}

/// Bound on years this crate manipulates. `current_date` relies on chrono,
/// whose `NaiveDate` is documented as limited to roughly +/- 262,000 years
/// around the common era, so every date that reaches the library lies well
/// within this bound; it keeps the month arithmetic free of overflow.
pub const YEAR_BOUND: i32 = 400000;

impl Date {
    /// A well-formed date: month and day in range, year within `YEAR_BOUND`.
    pub open spec fn wf(self) -> bool {
        &&& 1 <= self.month <= 12
        &&& 1 <= self.day <= 31
        &&& -YEAR_BOUND <= self.year <= YEAR_BOUND
    }

    /// Rank of this date's calendar month on the number line: months since
    /// the start of year 0. Two first-of-month dates compare exactly as
    /// their month indices do.
    pub open spec fn month_index(self) -> int {
        self.year * 12 + (self.month - 1)
    }

    pub fn new(year: i32, month: u8, day: u8) -> (r: Date)
        ensures
            r.year == year,
            r.month == month,
            r.day == day,
    {
        Date { year, month, day }
    }
}

/// Chronological order on dates, lexicographic on (year, month, day).
pub open spec fn date_lt(a: Date, b: Date) -> bool {
    ||| a.year < b.year
    ||| (a.year == b.year && a.month < b.month)
    ||| (a.year == b.year && a.month == b.month && a.day < b.day)
}

/// First day of the calendar month six months before `today`, the boundary
/// between the two age buckets. Month arithmetic is modulo 12, decrementing
/// the year on underflow.
pub fn reference_month(today: &Date) -> (r: Date)
    requires
        today.wf(),
    ensures
        1 <= r.month <= 12,
        r.day == 1,
        today.year - 1 <= r.year <= today.year,
        r.month_index() == today.month_index() - 6,
{
    let mut year: i32 = today.year;
    let mut month: i32 = today.month as i32 - 6;
    if month <= 0 {
        month = month + 12;
        year = year - 1;
    }
    Date { year, month: month as u8, day: 1 }
}

/// Relies on chrono: `Local::now().date_naive()` is today's date in the
/// local time zone; `Datelike::year/month/day` return the calendar fields,
/// with month in 1..=12 and day in 1..=31, and `NaiveDate` is documented as
/// limited to about +/- 262,000 years from the common era.
#[verifier::external_body]
pub fn current_date() -> (r: Date)
    ensures
        r.wf(),
{
    let d = chrono::Local::now().date_naive();
    Date {
        year: chrono::Datelike::year(&d),
        month: chrono::Datelike::month(&d) as u8,
        day: chrono::Datelike::day(&d) as u8,
    }
}

} // verus!
