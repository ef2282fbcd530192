//! The proleptic Gregorian calendar: leap years and the lengths of months.

use vstd::prelude::*;

verus! {

/// The earliest year that a date can lie in.
pub const MIN_YEAR: i32 = -262_143;

/// The latest year that a date can lie in.
pub const MAX_YEAR: i32 = 262_142;

/// Whether `year` has a 29th of February: every fourth year, but of the
/// years that end a century only every fourth one.
pub open spec fn is_leap(year: int) -> bool {
    year % 4 == 0 && (year % 100 != 0 || year % 400 == 0)
}

/// The number of the last day of `month` (January = 1) in `year`. A number
/// that names no month counts as a month of 31 days.
pub open spec fn days_in_month(year: int, month: int) -> int {
    if month == 2 {
        if is_leap(year) {
            29
        } else {
            28
        }
    } else if month == 4 || month == 6 || month == 9 || month == 11 {
        30
    } else {
        31
    }
}

/// Whether `year`, `month` (January = 1) and `day` name a day of the calendar,
/// in any year whatever.
pub open spec fn is_calendar_day(year: int, month: int, day: int) -> bool {
    1 <= month <= 12 && 1 <= day <= days_in_month(year, month)
}

/// return whether the given year is a leap year
pub fn is_leap_year(year: i32) -> (leap: bool)
    ensures
        leap == is_leap(year as int),
{
    year % 4 == 0 && (year % 100 != 0 || year % 400 == 0)
}

/// return the last day of a given month/year, where month is zero-based (January = 0, February = 1, etc)
pub fn last_day_of_month_0(year: i32, month_0: u32) -> (last: u32)
    ensures
        last == days_in_month(year as int, month_0 + 1),
{
    if month_0 == u32::MAX {
        31
    } else {
        last_day_of_month(year, month_0 + 1)
    }
}

/// return the last day of a given month/year, where month is one-based (January = 1, February = 2, etc)
pub fn last_day_of_month(year: i32, month: u32) -> (last: u32)
    ensures
        last == days_in_month(year as int, month as int),
        28 <= last <= 31,
{
    if month == 2 {
        if is_leap_year(year) {
            29
        } else {
            28
        }
    } else if month == 4 || month == 6 || month == 9 || month == 11 {
        30
    } else {
        31
    }
}

/// The days of all the years before `year`, counted from the year 1: each has
/// 365, and each leap year one more. Before the year 1 the count is negative.
pub open spec fn days_before_year(year: int) -> int {
    365 * (year - 1) + (year - 1) / 4 - (year - 1) / 100 + (year - 1) / 400
}

/// The days of `year` that lie before its month `month` (January = 1).
pub open spec fn days_before_month(year: int, month: int) -> int
    decreases month,
{
    if month <= 1 {
        0
    } else {
        days_before_month(year, month - 1) + days_in_month(year, month - 1)
    }
}

/// The place of a day in the count of all days, in which the 1st of January
/// of the year 1 is day 1 and every day has the number after that of the day
/// before it.
pub open spec fn day_number(year: int, month: int, day: int) -> int {
    days_before_year(year) + days_before_month(year, month) + day
}

/// The number of the first day that can be represented.
pub open spec fn first_day_number() -> int {
    day_number(MIN_YEAR as int, 1, 1)
}

/// The number of the last day that can be represented.
pub open spec fn last_day_number() -> int {
    day_number(MAX_YEAR as int, 12, 31)
}

/// The days of `year`: 365, and one more in a leap year.
pub open spec fn days_in_year(year: int) -> int {
    if is_leap(year) {
        366
    } else {
        365
    }
}

/// The days before a year and the days of that year are the days before the
/// year after it.
pub proof fn lemma_days_before_next_year(year: int)
    ensures
        days_before_year(year + 1) == days_before_year(year) + days_in_year(year),
{
}

/// An earlier year has fewer days before it than a later one, by at least 365
/// for each year between them.
pub proof fn lemma_days_before_year_grows(year: int, later_year: int)
    requires
        year <= later_year,
    ensures
        days_before_year(year) + 365 * (later_year - year) <= days_before_year(later_year),
{
}

/// The days before each month of a year, and the days of the whole year.
pub proof fn lemma_days_before_months(year: int)
    ensures
        days_before_month(year, 1) == 0,
        days_before_month(year, 2) == 31,
        days_before_month(year, 3) == days_in_year(year) - 306,
        days_before_month(year, 4) == days_in_year(year) - 275,
        days_before_month(year, 5) == days_in_year(year) - 245,
        days_before_month(year, 6) == days_in_year(year) - 214,
        days_before_month(year, 7) == days_in_year(year) - 184,
        days_before_month(year, 8) == days_in_year(year) - 153,
        days_before_month(year, 9) == days_in_year(year) - 122,
        days_before_month(year, 10) == days_in_year(year) - 92,
        days_before_month(year, 11) == days_in_year(year) - 61,
        days_before_month(year, 12) == days_in_year(year) - 31,
{
    reveal_with_fuel(days_before_month, 13);
}

/// The count of days runs with the calendar: of two days of the calendar
/// the one with the earlier year, or in one year the earlier month, or in one
/// month the earlier day, has the smaller number.
pub proof fn lemma_day_number_orders_days(
    year: int,
    month: int,
    day: int,
    later_year: int,
    later_month: int,
    later_day: int,
)
    requires
        is_calendar_day(year, month, day),
        is_calendar_day(later_year, later_month, later_day),
        year < later_year || (year == later_year && (month < later_month || (month == later_month
            && day < later_day))),
    ensures
        day_number(year, month, day) < day_number(later_year, later_month, later_day),
{
    lemma_days_before_months(year);
    lemma_days_before_months(later_year);
    if year < later_year {
        lemma_days_before_next_year(year);
        lemma_days_before_year_grows(year + 1, later_year);
    }
}

/// Every day of a year that can be represented has its number between that of
/// the first such day and that of the last.
pub proof fn lemma_day_number_in_range(year: int, month: int, day: int)
    requires
        MIN_YEAR <= year <= MAX_YEAR,
        is_calendar_day(year, month, day),
    ensures
        first_day_number() <= day_number(year, month, day) <= last_day_number(),
{
    lemma_days_before_months(year);
    lemma_days_before_months(MAX_YEAR as int);
    lemma_days_before_year_grows(MIN_YEAR as int, year);
    lemma_days_before_next_year(year);
    lemma_days_before_year_grows(year + 1, MAX_YEAR + 1);
    lemma_days_before_next_year(MAX_YEAR as int);
}

/// Every number from that of the first day to that of the last is the number
/// of a day that can be represented: the count of days leaves none out.
pub proof fn lemma_every_number_has_a_day(number: int) -> (date: (int, int, int))
    requires
        first_day_number() <= number <= last_day_number(),
    ensures
        MIN_YEAR <= date.0 <= MAX_YEAR,
        is_calendar_day(date.0, date.1, date.2),
        day_number(date.0, date.1, date.2) == number,
    decreases number - first_day_number(),
{
    if number == first_day_number() {
        (MIN_YEAR as int, 1, 1)
    } else {
        let (year, month, day) = lemma_every_number_has_a_day(number - 1);
        lemma_days_before_months(year);
        if day < days_in_month(year, month) {
            (year, month, day + 1)
        } else if month < 12 {
            (year, month + 1, 1)
        } else {
            lemma_days_before_next_year(year);
            lemma_days_before_months(year + 1);
            (year + 1, 1, 1)
        }
    }
}

} // verus!
