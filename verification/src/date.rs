//! Calendar dates.

use vstd::prelude::*;
use chrono::{Datelike, NaiveDate, TimeDelta};

verus! {

/// A date of the proleptic Gregorian calendar. Year 0 is the one before year 1.
#[derive(Clone, Copy, Debug, PartialEq, Eq, Structural)]
pub struct Date {
    pub year: i32,
    pub month: u32,
    pub day: u32,
}

/// The first year that dates can be of.
pub const FIRST_YEAR: i32 = -262143;

/// The last year that dates can be of.
pub const LAST_YEAR: i32 = 262142;

pub open spec fn is_leap(year: int) -> bool {
    year % 4 == 0 && (year % 100 != 0 || year % 400 == 0)
}

pub open spec fn days_in_month(year: int, month: int) -> int {
    if month == 2 {
        if is_leap(year) {
            29
        } else {
            28
        }
    } else if month == 4 || month == 6 || month == 9 || month == 11 {
        30
    } else {
        31
    }
}

/// The days of a year before one of its months.
pub open spec fn days_before_month(year: int, month: int) -> int
    decreases month,
{
    if month <= 1 {
        0
    } else {
        days_before_month(year, month - 1) + days_in_month(year, month - 1)
    }
}

/// The days before a year, counted from the beginning of year 0, less the leap
/// day that year 0 has.
pub open spec fn days_before_year(year: int) -> int {
    365 * year + (year - 1) / 4 - (year - 1) / 100 + (year - 1) / 400
}

impl Date {
    /// Whether there is such a day, in a year that can be counted.
    pub open spec fn wf(self) -> bool {
        &&& FIRST_YEAR <= self.year <= LAST_YEAR
        &&& 1 <= self.month <= 12
        &&& 1 <= self.day <= days_in_month(self.year as int, self.month as int)
    }

    /// The number of the day: that of the day after it is one more.
    pub open spec fn number(self) -> int {
        days_before_year(self.year as int) + days_before_month(self.year as int, self.month as int)
            + self.day
    }

    /// The day of the week, Monday being 0.
    pub open spec fn weekday(self) -> int {
        (self.number() + 5) % 7
    }

    /// The first day of the month.
    pub open spec fn first(self) -> Date {
        Date { year: self.year, month: self.month, day: 1 }
    }
}

/// The first date.
pub open spec fn first_date() -> Date {
    Date { year: FIRST_YEAR, month: 1, day: 1 }
}

/// The last date.
pub open spec fn last_date() -> Date {
    Date { year: LAST_YEAR, month: 12, day: 31 }
}

/// The view of a year, a month and a day as a date.
pub open spec fn date_of(parts: (i32, u32, u32)) -> Date {
    Date { year: parts.0, month: parts.1, day: parts.2 }
}

/// The date that a text of the form `2026-09-16` stands for.
pub uninterp spec fn date_of_text(text: Seq<char>) -> Option<(i32, u32, u32)>;

/// `chrono::NaiveDate::parse_from_str` with the format `%Y-%m-%d`.
///
/// The result depends on the text alone, and is a date of the calendar.
#[verifier::external_body]
fn parse_parts(text: &str) -> (result: Option<(i32, u32, u32)>)
    ensures
        result == date_of_text(text@),
        result matches Some(parts) ==> date_of(parts).wf(),
{
    let date = NaiveDate::parse_from_str(text, "%Y-%m-%d").ok()?;
    Some((date.year(), date.month(), date.day()))
}

/// Reads a date from its year, month and day.
pub fn parse_date(text: &str) -> (result: Option<Date>)
    ensures
        match result {
            Some(date) => date.wf() && date_of_text(text@) == Some(
                (date.year, date.month, date.day),
            ),
            None => date_of_text(text@) is None,
        },
{
    match parse_parts(text) {
        Some((year, month, day)) => Some(Date { year, month, day }),
        None => None,
    }
}

/// `chrono::NaiveDate::from_ymd_opt`, and `chrono::Datelike::weekday` and
/// `chrono::Weekday::num_days_from_monday` of its result.
///
/// There is a date exactly if the calendar has it and its year is in range, and
/// its day of the week follows from its number.
#[verifier::external_body]
fn weekday_number(year: i32, month: u32, day: u32) -> (result: Option<u32>)
    ensures
        match result {
            Some(weekday) => date_of((year, month, day)).wf() && weekday == date_of(
                (year, month, day),
            ).weekday(),
            None => !date_of((year, month, day)).wf(),
        },
{
    NaiveDate::from_ymd_opt(year, month, day).map(|date| date.weekday().num_days_from_monday())
}

/// `chrono::NaiveDate::checked_add_signed` of a number of days.
///
/// The result is the date with that much higher a number, or nothing where the
/// start is no date or the result would be out of range.
#[verifier::external_body]
fn plus_days(year: i32, month: u32, day: u32, days: i64) -> (result: Option<(i32, u32, u32)>)
    requires
        -1_000_000_000 <= days <= 1_000_000_000,
    ensures
        match result {
            Some(parts) => date_of((year, month, day)).wf() && date_of(parts).wf() && date_of(
                parts,
            ).number() == date_of((year, month, day)).number() + days,
            None => {
                ||| !date_of((year, month, day)).wf()
                ||| date_of((year, month, day)).number() + days < first_date().number()
                ||| date_of((year, month, day)).number() + days > last_date().number()
            },
        },
{
    NaiveDate::from_ymd_opt(year, month, day).and_then(
        |date| date.checked_add_signed(TimeDelta::days(days)),
    ).map(|date| (date.year(), date.month(), date.day()))
}

impl Date {
    /// A date, if there is such a day.
    pub fn new(year: i32, month: u32, day: u32) -> (result: Option<Date>)
        ensures
            match result {
                Some(date) => date == date_of((year, month, day)) && date.wf(),
                None => !date_of((year, month, day)).wf(),
            },
    {
        match weekday_number(year, month, day) {
            Some(_) => Some(Date { year, month, day }),
            None => None,
        }
    }

    /// The day of the week, Monday being 0.
    pub fn days_from_monday(self) -> (result: u32)
        requires
            self.wf(),
        ensures
            result == self.weekday(),
            result < 7,
    {
        match weekday_number(self.year, self.month, self.day) {
            Some(weekday) => weekday,
            None => 0,
        }
    }

    /// The date some days later, unless it is out of range.
    pub fn plus(self, days: i64) -> (result: Option<Date>)
        requires
            self.wf(),
            -1_000_000_000 <= days <= 1_000_000_000,
        ensures
            match result {
                Some(date) => date.wf() && date.number() == self.number() + days,
                None => self.number() + days < first_date().number() || self.number() + days
                    > last_date().number(),
            },
    {
        match plus_days(self.year, self.month, self.day, days) {
            Some((year, month, day)) => Some(Date { year, month, day }),
            None => None,
        }
    }

    /// Whether the date comes after another one.
    pub open spec fn later(self, other: Date) -> bool {
        self.year > other.year || (self.year == other.year && (self.month > other.month || (
        self.month == other.month && self.day > other.day)))
    }

    pub fn is_later(self, other: Date) -> (result: bool)
        ensures
            result == self.later(other),
    {
        self.year > other.year || (self.year == other.year && (self.month > other.month || (
        self.month == other.month && self.day > other.day)))
    }
}

proof fn lemma_year_step(year: int)
    ensures
        days_before_year(year + 1) == days_before_year(year) + (if is_leap(year) {
            366int
        } else {
            365
        }),
{
}

proof fn lemma_years_ordered(early: int, late: int)
    requires
        early <= late,
    ensures
        days_before_year(late) >= days_before_year(early) + 365 * (late - early),
    decreases late - early,
{
    if early < late {
        lemma_years_ordered(early, late - 1);
        lemma_year_step(late - 1);
    }
}

proof fn lemma_months_ordered(year: int, early: int, late: int)
    requires
        1 <= early < late,
    ensures
        days_before_month(year, early) + days_in_month(year, early) <= days_before_month(year, late),
    decreases late - early,
{
    if early + 1 < late {
        lemma_months_ordered(year, early, late - 1);
    }
}

proof fn lemma_year_length(year: int)
    ensures
        days_before_month(year, 12) + 31 == (if is_leap(year) {
            366int
        } else {
            365
        }),
{
    reveal_with_fuel(days_before_month, 13);
}

/// A later date has a higher number.
pub proof fn law_later_dates_have_higher_numbers(early: Date, late: Date)
    requires
        early.wf(),
        late.wf(),
        late.later(early),
    ensures
        early.number() < late.number(),
{
    let year = early.year as int;
    if early.year < late.year {
        lemma_year_length(year);
        if early.month < 12 {
            lemma_months_ordered(year, early.month as int, 12);
        }
        lemma_year_step(year);
        lemma_years_ordered(year + 1, late.year as int);
        lemma_month_nonnegative(late.year as int, late.month as int);
    } else if early.month < late.month {
        lemma_months_ordered(year, early.month as int, late.month as int);
    }
}

proof fn lemma_month_nonnegative(year: int, month: int)
    ensures
        0 <= days_before_month(year, month),
    decreases month,
{
    if month > 1 {
        lemma_month_nonnegative(year, month - 1);
    }
}

/// A number stands for one date only.
pub proof fn law_numbers_tell_dates_apart(left: Date, right: Date)
    requires
        left.wf(),
        right.wf(),
        left.number() == right.number(),
    ensures
        left == right,
{
    if left.later(right) {
        law_later_dates_have_higher_numbers(right, left);
    } else if right.later(left) {
        law_later_dates_have_higher_numbers(left, right);
    }
}

/// The day after a date has the next number, within a month, at the end of a month and at
/// the end of a year; and the day of the week goes on by one.
pub proof fn law_days_follow_each_other(date: Date, next: Date)
    requires
        date.wf(),
        next.wf(),
        ({
            ||| next.year == date.year && next.month == date.month && next.day == date.day + 1
            ||| next.year == date.year && next.month == date.month + 1 && next.day == 1 && date.day
                == days_in_month(date.year as int, date.month as int)
            ||| next.year == date.year + 1 && next.month == 1 && next.day == 1 && date.month == 12
                && date.day == 31
        }),
    ensures
        next.number() == date.number() + 1,
        next.weekday() == (date.weekday() + 1) % 7,
        next.later(date),
        !date.later(next),
{
    if next.year == date.year + 1 {
        let year = date.year as int;
        reveal_with_fuel(days_before_month, 13);
        assert(days_before_month(year, 12) == if is_leap(year) {
            335int
        } else {
            334
        });
        assert(days_before_month(year + 1, 1) == 0);
        let (a, b, c) = (year / 4, year / 100, year / 400);
        assert((year - 1) / 4 == if year % 4 == 0 {
            a - 1
        } else {
            a
        });
        assert((year - 1) / 100 == if year % 100 == 0 {
            b - 1
        } else {
            b
        });
        assert((year - 1) / 400 == if year % 400 == 0 {
            c - 1
        } else {
            c
        });
    }
}

/// Every fourth year has a 29th of February, but of the full centuries only every fourth.
pub proof fn law_leap_years(year: int)
    ensures
        year % 400 == 0 ==> is_leap(year),
        year % 100 == 0 && year % 400 != 0 ==> !is_leap(year),
        year % 4 == 0 && year % 100 != 0 ==> is_leap(year),
        year % 4 != 0 ==> !is_leap(year),
        days_in_month(year, 2) == 28 + (if is_leap(year) {
            1int
        } else {
            0
        }),
        days_before_month(year, 13) == 365 + (if is_leap(year) {
            1int
        } else {
            0
        }),
{
    reveal_with_fuel(days_before_month, 14);
}

/// The first of January 2024 was a Monday, and the days of the week repeat every seven days
/// from there, in both directions.
pub proof fn law_weekdays_repeat(date: Date, other: Date)
    ensures
        date.weekday() == (date.number() - (Date { year: 2024, month: 1, day: 1 }).number()) % 7,
        other.number() == date.number() + 7 ==> other.weekday() == date.weekday(),
        0 <= date.weekday() < 7,
{
    assert(days_before_month(2024, 1) == 0);
    assert((Date { year: 2024, month: 1, day: 1 }).number() == 365 * 2024 + 2023int / 4 - 2023int
        / 100 + 2023int / 400 + 1);
}

} // verus!
