//! The simulated calendar.
//!
//! A [`Date`] is a day number of the proleptic Gregorian calendar, 1 being
//! January 1 of year 1. Adding and comparing days is plain integer arithmetic;
//! splitting a day number into year, month and day is left to `chrono`.

use chrono::{Datelike, Months, NaiveDate};
use vstd::prelude::*;

verus! {

/// Day number of 0001-01-01.
pub const FIRST_DAY: i32 = 1;

/// Day number of 9999-12-31, the last day the calendar is run to.
pub const LAST_DAY: i32 = 3_652_059;

/// The calendar year that `chrono` gives for a day number.
pub uninterp spec fn civil_year(days: int) -> int;

/// The month, 1 to 12, that `chrono` gives for a day number.
pub uninterp spec fn civil_month(days: int) -> int;

/// The day of the month, 1 to 31, that `chrono` gives for a day number.
pub uninterp spec fn civil_day(days: int) -> int;

/// The day number that `chrono` gives for a calendar date, if there is such a date.
pub uninterp spec fn day_number_of_ymd(year: int, month: int, day: int) -> Option<int>;

/// The day number that `chrono` gives for the `ordinal`-th day of a year, if the year has one.
pub uninterp spec fn day_number_of_yo(year: int, ordinal: int) -> Option<int>;

/// The day number that `chrono` gives for the date `months` months before a day, if it is in
/// `chrono`'s range.
pub uninterp spec fn day_number_months_before(days: int, months: int) -> Option<int>;

/// Whether a year of the Gregorian calendar has a February 29.
pub open spec fn is_leap_year(year: int) -> bool {
    (year % 4 == 0 && year % 100 != 0) || year % 400 == 0
}

/// The number of days of a month of the Gregorian calendar.
pub open spec fn days_in_month(year: int, month: int) -> int {
    if month == 2 {
        if is_leap_year(year) {
            29
        } else {
            28
        }
    } else if month == 4 || month == 6 || month == 9 || month == 11 {
        30
    } else {
        31
    }
}

/// Whether the Gregorian calendar has the given day of the given month of a year.
pub open spec fn is_day_of_month(year: int, month: int, day: int) -> bool {
    1 <= month <= 12 && 1 <= day <= days_in_month(year, month)
}

/// Whether a year of the Gregorian calendar has a day of that number.
pub open spec fn is_day_of_year(year: int, ordinal: int) -> bool {
    1 <= ordinal <= days_in_year(year)
}

/// The number of days of a year of the Gregorian calendar.
pub open spec fn days_in_year(year: int) -> int {
    if is_leap_year(year) {
        366
    } else {
        365
    }
}

/// A calendar day.
#[derive(Clone, Copy, PartialEq, Eq, Structural, Debug)]
pub struct Date {
    /// Days since December 31 of the year before year 1.
    pub days: i32,
}

/// The date the simulation has reached.
#[derive(Clone, Copy, Debug)]
pub struct GameDate {
    pub date: Date,
}

/// Notice that a new day has begun.
#[derive(Clone, Copy, Debug)]
pub struct DateChanged {
    pub date: Date,
}

/// Notice that the new day is the first of a month.
#[derive(Clone, Copy, Debug)]
pub struct MonthChanged;

/// `NaiveDate::from_num_days_from_ce_opt` followed by `Datelike::year`: the year of a day
/// number. `chrono` counts the days from January 1 of year 1 as day 1, and its count comes
/// to 3 652 059 on December 31 of year 9999, so that the days of the calendar lie in the
/// years 1 to 9999.
#[verifier::external_body]
fn chrono_year(days: i32) -> (year: i32)
    requires
        FIRST_DAY <= days <= LAST_DAY,
    ensures
        year == civil_year(days as int),
        1 <= year <= 9999,
{
    NaiveDate::from_num_days_from_ce_opt(days).unwrap().year()
}

/// `NaiveDate::from_num_days_from_ce_opt` followed by `Datelike::month`: the month of a day
/// number, which `chrono` documents as ranging from 1 to 12.
#[verifier::external_body]
fn chrono_month(days: i32) -> (month: u32)
    requires
        FIRST_DAY <= days <= LAST_DAY,
    ensures
        month == civil_month(days as int),
        1 <= month <= 12,
{
    NaiveDate::from_num_days_from_ce_opt(days).unwrap().month()
}

/// `NaiveDate::from_num_days_from_ce_opt` followed by `Datelike::day`: the day of the month of
/// a day number, which `chrono` documents as ranging from 1 to 31.
#[verifier::external_body]
fn chrono_day(days: i32) -> (day: u32)
    requires
        FIRST_DAY <= days <= LAST_DAY,
    ensures
        day == civil_day(days as int),
        1 <= day <= 31,
{
    NaiveDate::from_num_days_from_ce_opt(days).unwrap().day()
}

/// `NaiveDate::from_ymd_opt` followed by `Datelike::num_days_from_ce`: the day number of a
/// calendar date, `None` where `chrono` knows no such date. A date that comes back splits
/// into the year, month and day it was made from. In the years 1 to 9999 a date comes back
/// exactly for the days that the Gregorian calendar has, and its number lies on the
/// calendar.
#[verifier::external_body]
fn chrono_from_ymd(year: i32, month: u32, day: u32) -> (days: Option<i32>)
    ensures
        1 <= year <= 9999 ==> (days is Some <==> is_day_of_month(year as int, month as int, day as int)),
        1 <= year <= 9999 && days is Some ==> FIRST_DAY <= days->0 <= LAST_DAY,
        days matches Some(n) ==> day_number_of_ymd(year as int, month as int, day as int)
            == Some(n as int),
        days is None ==> day_number_of_ymd(year as int, month as int, day as int) is None,
        days matches Some(n) ==> civil_year(n as int) == year && civil_month(n as int) == month
            && civil_day(n as int) == day,
{
    match NaiveDate::from_ymd_opt(year, month, day) {
        Some(date) => Some(date.num_days_from_ce()),
        None => None,
    }
}

/// `NaiveDate::from_yo_opt` followed by `Datelike::num_days_from_ce`: the day number of the
/// `ordinal`-th day of a year, `None` where `chrono` knows no such date. A date that comes
/// back lies in the year it was made from. In the years 1 to 9999 a date comes back exactly
/// for the days that the year has, and its number lies on the calendar.
#[verifier::external_body]
fn chrono_from_yo(year: i32, ordinal: u32) -> (days: Option<i32>)
    ensures
        1 <= year <= 9999 ==> (days is Some <==> is_day_of_year(year as int, ordinal as int)),
        1 <= year <= 9999 && days is Some ==> FIRST_DAY <= days->0 <= LAST_DAY,
        days matches Some(n) ==> day_number_of_yo(year as int, ordinal as int) == Some(n as int),
        days is None ==> day_number_of_yo(year as int, ordinal as int) is None,
        days matches Some(n) ==> civil_year(n as int) == year,
{
    match NaiveDate::from_yo_opt(year, ordinal) {
        Some(date) => Some(date.num_days_from_ce()),
        None => None,
    }
}

/// `NaiveDate::checked_sub_months`: the day number of the date a number of months before a
/// day, `None` where the result leaves `chrono`'s range. A date that comes back lies that
/// many calendar months earlier: `chrono` takes the months off the count of months since
/// year 0 and keeps the day of the month as far as the month has it.
#[verifier::external_body]
fn chrono_sub_months(days: i32, months: u32) -> (earlier: Option<i32>)
    requires
        FIRST_DAY <= days <= LAST_DAY,
    ensures
        earlier matches Some(n) ==> day_number_months_before(days as int, months as int) == Some(
            n as int,
        ),
        earlier is None ==> day_number_months_before(days as int, months as int) is None,
        earlier matches Some(n) ==> months_between(n as int, days as int) == months,
{
    let date = NaiveDate::from_num_days_from_ce_opt(days).unwrap();
    match date.checked_sub_months(Months::new(months)) {
        Some(earlier) => Some(earlier.num_days_from_ce()),
        None => None,
    }
}

/// Whether the month and day `(m1, d1)` come earlier in a year than `(m2, d2)`.
pub open spec fn earlier_in_year(m1: int, d1: int, m2: int, d2: int) -> bool {
    m1 < m2 || (m1 == m2 && d1 < d2)
}

/// Whole years from day `base` to day `date`: the difference of the calendar years, less one
/// where `date` falls earlier in its year than `base` does in its own; `None` where that is
/// negative.
pub open spec fn years_between(base: int, date: int) -> Option<int> {
    let years = civil_year(date) - civil_year(base) - if earlier_in_year(
        civil_month(date),
        civil_day(date),
        civil_month(base),
        civil_day(base),
    ) {
        1int
    } else {
        0int
    };
    if years >= 0 {
        Some(years)
    } else {
        None
    }
}

/// Calendar months from day `base` to day `date`, counting every month boundary crossed and
/// ignoring the day of the month.
pub open spec fn months_between(base: int, date: int) -> int {
    (civil_year(date) - civil_year(base)) * 12 + civil_month(date) - civil_month(base)
}

impl Date {
    /// Whether the day lies between 0001-01-01 and 9999-12-31.
    pub open spec fn valid(self) -> bool {
        FIRST_DAY <= self.days <= LAST_DAY
    }

    /// The age in whole years of someone born on `birthday`, as of `self`. Zero where either
    /// date is outside the calendar or the birthday is still to come.
    pub open spec fn age_of(self, birthday: Date) -> int {
        if self.valid() && birthday.valid() {
            match years_between(birthday.days as int, self.days as int) {
                Some(years) => years,
                None => 0,
            }
        } else {
            0
        }
    }

    /// The age in calendar months of something born on `birthday`, as of `self`. Zero where
    /// either date is outside the calendar.
    pub open spec fn months_of(self, birthday: Date) -> int {
        if self.valid() && birthday.valid() {
            months_between(birthday.days as int, self.days as int)
        } else {
            0
        }
    }

    /// Whether `self` is the yearly return of `birthday`: same month, same day of the month.
    pub open spec fn is_anniversary_of(self, birthday: Date) -> bool {
        &&& self.valid()
        &&& birthday.valid()
        &&& civil_month(self.days as int) == civil_month(birthday.days as int)
        &&& civil_day(self.days as int) == civil_day(birthday.days as int)
    }

    /// Whether `self` is the given day of the given month, in any year.
    pub open spec fn falls_on(self, month: int, day: int) -> bool {
        &&& self.valid()
        &&& civil_month(self.days as int) == month
        &&& civil_day(self.days as int) == day
    }

    pub fn is_valid(self) -> (ok: bool)
        ensures
            ok == self.valid(),
    {
        FIRST_DAY <= self.days && self.days <= LAST_DAY
    }

    /// The date with the given day number, if it lies within the calendar.
    pub fn from_num_days(days: i32) -> (date: Option<Date>)
        ensures
            date == (if FIRST_DAY <= days <= LAST_DAY {
                Some(Date { days })
            } else {
                None
            }),
    {
        if FIRST_DAY <= days && days <= LAST_DAY {
            Some(Date { days })
        } else {
            None
        }
    }

    /// The date of a year, month and day, if there is such a date within the calendar. In
    /// the years 1 to 9999 there is one exactly for the days that the month has.
    pub fn from_ymd(year: i32, month: u32, day: u32) -> (date: Option<Date>)
        ensures
            1 <= year <= 9999 ==> (date is Some <==> is_day_of_month(
                year as int,
                month as int,
                day as int,
            )),
            date == (match day_number_of_ymd(year as int, month as int, day as int) {
                Some(n) if FIRST_DAY <= n <= LAST_DAY => Some(Date { days: n as i32 }),
                _ => None,
            }),
            date matches Some(d) ==> d.valid() && civil_year(d.days as int) == year && civil_month(
                d.days as int,
            ) == month && civil_day(d.days as int) == day,
    {
        match chrono_from_ymd(year, month, day) {
            Some(n) => Date::from_num_days(n),
            None => None,
        }
    }

    /// The date of the `ordinal`-th day of a year, if there is such a date within the
    /// calendar. In the years 1 to 9999 there is one exactly for the days that the year has.
    pub fn from_yo(year: i32, ordinal: u32) -> (date: Option<Date>)
        ensures
            1 <= year <= 9999 ==> (date is Some <==> is_day_of_year(year as int, ordinal as int)),
            date == (match day_number_of_yo(year as int, ordinal as int) {
                Some(n) if FIRST_DAY <= n <= LAST_DAY => Some(Date { days: n as i32 }),
                _ => None,
            }),
            date matches Some(d) ==> d.valid() && civil_year(d.days as int) == year,
    {
        match chrono_from_yo(year, ordinal) {
            Some(n) => Date::from_num_days(n),
            None => None,
        }
    }

    /// The calendar year, 1 to 9999, or `None` outside the calendar.
    pub fn year(self) -> (year: Option<i32>)
        ensures
            year == (if self.valid() {
                Some(civil_year(self.days as int) as i32)
            } else {
                None
            }),
            year matches Some(y) ==> 1 <= y <= 9999 && y == civil_year(self.days as int),
    {
        if self.is_valid() {
            Some(chrono_year(self.days))
        } else {
            None
        }
    }

    /// The month, 1 to 12, or `None` outside the calendar.
    pub fn month(self) -> (month: Option<u32>)
        ensures
            month == (if self.valid() {
                Some(civil_month(self.days as int) as u32)
            } else {
                None
            }),
            month matches Some(m) ==> 1 <= m <= 12 && m == civil_month(self.days as int),
    {
        if self.is_valid() {
            Some(chrono_month(self.days))
        } else {
            None
        }
    }

    /// The day of the month, 1 to 31, or `None` outside the calendar.
    pub fn day(self) -> (day: Option<u32>)
        ensures
            day == (if self.valid() {
                Some(civil_day(self.days as int) as u32)
            } else {
                None
            }),
            day matches Some(d) ==> 1 <= d <= 31 && d == civil_day(self.days as int),
    {
        if self.is_valid() {
            Some(chrono_day(self.days))
        } else {
            None
        }
    }

    /// The date `days` days later. The day number stops at the largest an `i32` holds.
    pub open spec fn later(self, days: u32) -> Date {
        Date {
            days: if self.days + days <= i32::MAX {
                (self.days + days) as i32
            } else {
                i32::MAX
            },
        }
    }

    /// The date `days` days later: see [`Date::later`].
    pub fn plus_days(self, days: u32) -> (later: Date)
        ensures
            later == self.later(days),
    {
        let sum: i64 = self.days as i64 + days as i64;
        if sum <= i32::MAX as i64 {
            Date { days: sum as i32 }
        } else {
            Date { days: i32::MAX }
        }
    }

    /// The number of days from `earlier` to `self`, negative where `earlier` is the later one.
    pub fn days_since(self, earlier: Date) -> (n: i64)
        ensures
            n == self.days - earlier.days,
    {
        self.days as i64 - earlier.days as i64
    }

    /// The date `months` months earlier, on the same day of the month or the last day of a
    /// shorter month. `None` where either end is outside the calendar.
    pub fn minus_months(self, months: u32) -> (earlier: Option<Date>)
        ensures
            earlier == (if self.valid() {
                match day_number_months_before(self.days as int, months as int) {
                    Some(n) if FIRST_DAY <= n <= LAST_DAY => Some(Date { days: n as i32 }),
                    _ => None,
                }
            } else {
                None
            }),
            earlier matches Some(d) ==> d.valid() && self.months_of(d) == months,
    {
        if self.is_valid() {
            match chrono_sub_months(self.days, months) {
                Some(n) => Date::from_num_days(n),
                None => None,
            }
        } else {
            None
        }
    }

    /// Whole years from `base` to `self`; `None` where `base` is the later date or either
    /// date is outside the calendar.
    pub fn years_since(self, base: Date) -> (years: Option<u32>)
        ensures
            years == (if self.valid() && base.valid() {
                match years_between(base.days as int, self.days as int) {
                    Some(n) => Some(n as u32),
                    None => None,
                }
            } else {
                None
            }),
            years matches Some(n) ==> n == self.age_of(base),
            years is None ==> self.age_of(base) == 0,
    {
        if !self.is_valid() || !base.is_valid() {
            return None;
        }
        let mut years: i64 = chrono_year(self.days) as i64 - chrono_year(base.days) as i64;
        let (m1, d1) = (chrono_month(self.days), chrono_day(self.days));
        let (m0, d0) = (chrono_month(base.days), chrono_day(base.days));
        if m1 < m0 || (m1 == m0 && d1 < d0) {
            years = years - 1;
        }
        if years >= 0 {
            Some(years as u32)
        } else {
            None
        }
    }

    /// The age in whole years of someone born on `birthday`, as of `self`.
    pub fn age(self, birthday: Date) -> (age: u32)
        ensures
            age == self.age_of(birthday),
    {
        match self.years_since(birthday) {
            Some(years) => years,
            None => 0,
        }
    }

    /// The age in calendar months of something born on `birthday`, as of `self`.
    pub fn age_in_months(self, birthday: Date) -> (months: i64)
        ensures
            months == self.months_of(birthday),
    {
        if !self.is_valid() || !birthday.is_valid() {
            return 0;
        }
        let years: i64 = chrono_year(self.days) as i64 - chrono_year(birthday.days) as i64;
        years * 12 + chrono_month(self.days) as i64 - chrono_month(birthday.days) as i64
    }

    /// Whether `self` is the yearly return of `birthday`.
    pub fn is_birthday_of(self, birthday: Date) -> (yes: bool)
        ensures
            yes == self.is_anniversary_of(birthday),
    {
        if !self.is_valid() || !birthday.is_valid() {
            return false;
        }
        chrono_month(self.days) == chrono_month(birthday.days) && chrono_day(self.days)
            == chrono_day(birthday.days)
    }

    /// Whether `self` is the given day of the given month.
    pub fn is_month_day(self, month: u32, day: u32) -> (yes: bool)
        ensures
            yes == self.falls_on(month as int, day as int),
    {
        if !self.is_valid() {
            return false;
        }
        chrono_month(self.days) == month && chrono_day(self.days) == day
    }
}

impl DateChanged {
    pub fn from_date(date: Date) -> (event: Self)
        ensures
            event.date == date,
    {
        Self { date }
    }
}

/// Whether a day opens a new month: it and the day before lie in different months.
pub open spec fn opens_month(date: Date) -> bool {
    &&& FIRST_DAY < date.days <= LAST_DAY
    &&& civil_month(date.days as int) != civil_month(date.days - 1)
}

/// Moves the calendar one day on, and reports the new day and whether it opens a month.
/// Past 9999-12-31 the days count on, but no month opens any more.
pub fn update_date(game_date: &mut GameDate) -> (changes: (DateChanged, Option<MonthChanged>))
    requires
        old(game_date).date.days < i32::MAX,
    ensures
        final(game_date).date.days == old(game_date).date.days + 1,
        changes.0.date == final(game_date).date,
        changes.1 is Some <==> opens_month(final(game_date).date),
{
    let before = game_date.date;
    let today = Date { days: before.days + 1 };
    game_date.date = today;
    let month_changed = match (before.month(), today.month()) {
        (Some(was), Some(is)) => was != is,
        _ => false,
    };
    (
        DateChanged::from_date(today),
        if month_changed {
            Some(MonthChanged)
        } else {
            None
        },
    )
}

} // verus!
