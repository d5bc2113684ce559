//! Calendar dates and their encoding as a day count from 0000-01-01.
use chrono::Datelike;
use vstd::prelude::*;

verus! {

/// A proleptic Gregorian calendar date.
#[derive(Clone, Copy, Debug, PartialEq, Eq, Structural)]
pub struct Date {
    pub year: i32,
    pub month: u32,
    pub day: u32,
}

/// Whether `y` is a leap year of the proleptic Gregorian calendar.
pub open spec fn is_leap(y: int) -> bool {
    (y % 4 == 0 && y % 100 != 0) || y % 400 == 0
}

/// Number of days in month `m` (1-based) of year `y`.
pub open spec fn month_len(y: int, m: int) -> int {
    if m == 2 {
        if is_leap(y) { 29 } else { 28 }
    } else if m == 4 || m == 6 || m == 9 || m == 11 {
        30
    } else {
        31
    }
}

/// Days in the months of year `y` before month `m`.
pub open spec fn days_before_month(y: int, m: int) -> int
    decreases m,
{
    if m <= 1 { 0 } else { days_before_month(y, m - 1) + month_len(y, m - 1) }
}

/// Leap years in the half-open range of years `[0, y)` (negative when `y < 0`).
pub open spec fn leap_years_before(y: int) -> int {
    (y + 3) / 4 - (y + 99) / 100 + (y + 399) / 400
}

/// Day number of a calendar date, counted from 0000-01-01 (day 0).
pub open spec fn day_number(y: int, m: int, d: int) -> int {
    365 * y + leap_years_before(y) + days_before_month(y, m) + d - 1
}

/// The day number of the last date that the calendar library represents.
pub const MAX_DATE_OFFSET: u32 = 95745764;

/// The last date that the calendar library represents.
pub open spec fn last_representable() -> Date {
    Date { year: 262142, month: 12, day: 31 }
}

/// `MAX_DATE_OFFSET` is the day number of `last_representable()`.
pub proof fn lemma_max_date_offset()
    ensures
        last_representable().offset_spec() == MAX_DATE_OFFSET as int,
{
    reveal_with_fuel(days_before_month, 12);
    assert(!is_leap(262142));
}

impl Date {
    /// The date names a real day.
    pub open spec fn wf(self) -> bool {
        1 <= self.month <= 12 && 1 <= self.day <= month_len(self.year as int, self.month as int)
    }

    /// The day number of this date, counted from 0000-01-01.
    pub open spec fn offset_spec(self) -> int {
        day_number(self.year as int, self.month as int, self.day as int)
    }

    /// `self` falls strictly before `other`.
    pub open spec fn before(self, other: Date) -> bool {
        self.year < other.year || (self.year == other.year && (self.month < other.month || (
        self.month == other.month && self.day < other.day)))
    }

    /// The day number of this date, counted from 0000-01-01.
    pub fn offset(&self) -> (r: i64)
        requires
            self.wf(),
            0 <= self.year,
        ensures
            r as int == self.offset_spec(),
    {
        let y = self.year as i64;
        let leaps = (y + 3) / 4 - (y + 99) / 100 + (y + 399) / 400;
        let feb: i64 = if (y % 4 == 0 && y % 100 != 0) || y % 400 == 0 { 29 } else { 28 };
        let mut before: i64 = 0;
        let mut m: u32 = 1;
        while m < self.month
            invariant
                1 <= m <= self.month <= 12,
                before as int == days_before_month(y as int, m as int),
                feb as int == month_len(y as int, 2),
                0 <= before <= 31 * m,
            decreases self.month - m,
        {
            let len: i64 = if m == 2 {
                feb
            } else if m == 4 || m == 6 || m == 9 || m == 11 {
                30
            } else {
                31
            };
            before = before + len;
            m = m + 1;
        }
        365 * y + leaps + before + self.day as i64 - 1
    }

    /// Strict calendar order: `self` comes before `other`.
    pub fn is_before(&self, other: &Date) -> (r: bool)
        ensures
            r == self.before(*other),
    {
        self.year < other.year || (self.year == other.year && (self.month < other.month || (
        self.month == other.month && self.day < other.day)))
    }

    /// The first day of this date's month.
    pub fn first_of_month(&self) -> (r: Date)
        ensures
            r == (Date { year: self.year, month: self.month, day: 1 }),
    {
        Date { year: self.year, month: self.month, day: 1 }
    }

    /// The first day of the month after this date's month; December rolls
    /// over into January of the next year.
    pub fn first_of_next_month(&self) -> (r: Date)
        requires
            1 <= self.month <= 12,
            self.year < i32::MAX,
        ensures
            self.month < 12 ==> r == (Date { year: self.year, month: (self.month + 1) as u32, day: 1 }),
            self.month == 12 ==> r == (Date { year: (self.year + 1) as i32, month: 1, day: 1 }),
            r.wf(),
            self.before(r),
    {
        if self.month < 12 {
            Date { year: self.year, month: self.month + 1, day: 1 }
        } else {
            Date { year: self.year + 1, month: 1, day: 1 }
        }
    }
}

/// Relies on chrono's `NaiveDate::checked_add_days`: adding `d` days to
/// 0000-01-01 gives the date whose day number is `d`, and succeeds up to the
/// last representable date.
#[verifier::external_body]
fn chrono_epoch_plus(d: u32) -> (r: Option<Date>)
    ensures
        r is Some ==> r->0.wf() && r->0.offset_spec() == d as int,
        d <= MAX_DATE_OFFSET ==> r is Some,
{
    let zero = chrono::NaiveDate::from_ymd_opt(0, 1, 1)?;
    let t = zero.checked_add_days(chrono::Days::new(d as u64))?;
    Some(Date { year: t.year(), month: t.month(), day: t.day() })
}

/// The date `d` days after 0000-01-01, or `None` when that lies past the last
/// representable date.
pub fn epoch_plus(d: u32) -> (r: Option<Date>)
    ensures
        r is Some ==> r->0.wf() && r->0.offset_spec() == d as int,
        d <= MAX_DATE_OFFSET ==> r is Some,
{
    chrono_epoch_plus(d)
}

} // verus!
