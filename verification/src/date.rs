use vstd::prelude::*;

use crate::text::decimal;

verus! {

/// A leap year of the proleptic Gregorian calendar.
pub open spec fn leap_year(year: int) -> bool {
    year % 4 == 0 && (year % 100 != 0 || year % 400 == 0)
}

/// The number of days of a month, 1 to 12, of the proleptic Gregorian calendar.
pub open spec fn days_in_month(year: int, month: int) -> int {
    if month == 2 {
        if leap_year(year) {
            29
        } else {
            28
        }
    } else if month == 4 || month == 6 || month == 9 || month == 11 {
        30
    } else {
        31
    }
}

/// The first and last years that chrono's `NaiveDate` represents.
pub open spec fn first_year() -> int {
    -262143
}

pub open spec fn last_year() -> int {
    262142
}

/// `year-month-day` names a day of the proleptic Gregorian calendar within the years
/// that chrono's `NaiveDate` represents.
pub open spec fn calendar_date_exists(year: i32, month: u32, day: u32) -> bool {
    &&& first_year() <= year <= last_year()
    &&& 1 <= month <= 12
    &&& 1 <= day <= days_in_month(year as int, month as int)
}

/// `n` in decimal, with zeros in front up to `width` digits.
pub open spec fn zero_padded(n: nat, width: nat) -> Seq<char> {
    let digits = decimal(n);
    if digits.len() >= width {
        digits
    } else {
        Seq::new((width - digits.len()) as nat, |i: int| '0') + digits
    }
}

/// The year as chrono shows it: four digits for the years 0 to 9999, else a sign and
/// at least four digits.
pub open spec fn year_text(year: int) -> Seq<char> {
    if 0 <= year <= 9999 {
        zero_padded(year as nat, 4)
    } else if year > 9999 {
        seq!['+'] + zero_padded(year as nat, 4)
    } else {
        seq!['-'] + zero_padded((-year) as nat, 4)
    }
}

/// The text that chrono's `Display` for `NaiveDate` gives for `year-month-day`:
/// the year, then the month and the day in two digits each, joined by `-`.
pub open spec fn iso_date_text(year: i32, month: u32, day: u32) -> Seq<char> {
    year_text(year as int) + seq!['-'] + zero_padded(month as nat, 2) + seq!['-'] + zero_padded(
        day as nat,
        2,
    )
}

/// Calls `chrono::NaiveDate::from_ymd_opt` and reports whether it returned `Some`.
/// Trusted: chrono returns `Some` exactly for the days of the proleptic Gregorian
/// calendar from year -262143 to year 262142 (its `MIN_YEAR` and `MAX_YEAR`).
#[verifier::external_body]
fn chrono_date_exists(year: i32, month: u32, day: u32) -> (exists: bool)
    ensures
        exists == calendar_date_exists(year, month, day),
{
    chrono::NaiveDate::from_ymd_opt(year, month, day).is_some()
}

/// Formats the date `year-month-day` with chrono's `Display` for `NaiveDate`, which
/// writes the year in four digits for 0 to 9999 and as `{:+05}` otherwise, then `-`,
/// the month in two digits, `-`, the day in two digits.
/// Trusted: that text is `iso_date_text`.
#[verifier::external_body]
fn chrono_date_text(year: i32, month: u32, day: u32) -> (text: String)
    requires
        calendar_date_exists(year, month, day),
    ensures
        text@ == iso_date_text(year, month, day),
{
    match chrono::NaiveDate::from_ymd_opt(year, month, day) {
        Some(date) => date.to_string(),
        None => String::new(),
    }
}

/// A calendar day, as chrono's `NaiveDate` represents it: a year, a month and a day
/// that together name an existing day.
#[derive(Clone, Copy, PartialEq, Eq, Structural, Debug, Hash)]
pub struct Date {
    year: i32,
    month: u32,
    day: u32,
}

impl View for Date {
    type V = (i32, u32, u32);

    closed spec fn view(&self) -> (i32, u32, u32) {
        (self.year, self.month, self.day)
    }
}

/// Chronological order on `(year, month, day)` triples: `a` is on or before `b`.
pub open spec fn on_or_before(a: (i32, u32, u32), b: (i32, u32, u32)) -> bool {
    ||| a.0 < b.0
    ||| a.0 == b.0 && a.1 < b.1
    ||| a.0 == b.0 && a.1 == b.1 && a.2 <= b.2
}

impl Date {
    #[verifier::type_invariant]
    spec fn exists_in_calendar(self) -> bool {
        calendar_date_exists(self.year, self.month, self.day)
    }

    /// The date `year-month-day`, or `None` where chrono's `NaiveDate::from_ymd_opt`
    /// refuses it.
    pub fn from_ymd_opt(year: i32, month: u32, day: u32) -> (date: Option<Date>)
        ensures
            date is Some <==> calendar_date_exists(year, month, day),
            date matches Some(d) ==> d@ == (year, month, day),
    {
        if chrono_date_exists(year, month, day) {
            Some(Date { year, month, day })
        } else {
            None
        }
    }

    pub fn year(&self) -> (year: i32)
        ensures
            year == self@.0,
    {
        self.year
    }

    pub fn month(&self) -> (month: u32)
        ensures
            month == self@.1,
            1 <= month <= 12,
    {
        proof {
            use_type_invariant(self);
        }
        self.month
    }

    pub fn day(&self) -> (day: u32)
        ensures
            day == self@.2,
            1 <= day <= 31,
    {
        proof {
            use_type_invariant(self);
        }
        self.day
    }

    /// Whether `self` falls on or before `other`.
    pub fn on_or_before(&self, other: &Date) -> (before: bool)
        ensures
            before == on_or_before(self@, other@),
    {
        self.year < other.year || (self.year == other.year && (self.month < other.month || (
        self.month == other.month && self.day <= other.day)))
    }

    /// Whether `self` and `other` are the same day.
    pub fn same_day(&self, other: &Date) -> (same: bool)
        ensures
            same == (self@ == other@),
    {
        self.year == other.year && self.month == other.month && self.day == other.day
    }

    /// The date as chrono shows a `NaiveDate`, such as `2025-01-01`.
    pub fn to_string(&self) -> (text: String)
        ensures
            text@ == date_text(self@),
    {
        proof {
            use_type_invariant(self);
        }
        chrono_date_text(self.year, self.month, self.day)
    }
}

/// The text of a date.
pub open spec fn date_text(d: (i32, u32, u32)) -> Seq<char> {
    iso_date_text(d.0, d.1, d.2)
}

} // verus!
