use vstd::prelude::*;
use crate::calendar::{days_in_month, last_day_of_month_0, MAX_YEAR, MIN_YEAR};
use crate::civil::{CivilDateTime, Moment};
use crate::date_ops::{move_to_day, DateOp};

verus! {

/// InvalidDateHandling specifies what operations that result in invalid dates should return instead
#[derive(Clone, Copy, Debug, PartialEq, Eq)]
pub enum InvalidDateHandling {
    /// Return `None` instead of an invalid date
    Reject,
    /// Return the closest previous valid date instead of an invalid one (e.g. April 30th instead of April 31st)
    Previous,
    /// Return the closest subsequent valid date instead of an invalid one (e.g. May 1st instead of April 31st)
    Next,
}

/// A Duration in months that can be added to a date.
/// Note: Adding months can be a bit weird, because they have varying length. While
/// you can always add a month to e.g. 2017-05-01, you cannot "sanely" add a month
/// to e.g. 2017-01-30, as the 30th February doesn't exist. Still, such operations
/// can make sense, e.g. in the context of a date iterator.
/// In order to resolve this issue, this struct requires an `InvalidDateHandling`
/// to either skip or select the next closest date for invalid results.
#[derive(Clone, Copy, Debug, PartialEq, Eq)]
pub struct MonthDuration(pub i32, pub InvalidDateHandling);

/// The year in which the month lies that comes `months` months after the
/// month `month` (January = 1) of `year`: every twelve months carry one year,
/// backwards too.
pub open spec fn target_year(year: int, month: int, months: int) -> int {
    year + (month - 1 + months) / 12
}

/// The month (January = 1) that comes `months` months after the month `month`.
pub open spec fn target_month(month: int, months: int) -> int {
    (month - 1 + months) % 12 + 1
}

/// The moment `months` months after `start`. Where the month arrived at is
/// too short to have the day of `start`, `handling` decides: no moment at all,
/// the last day of that month, or the first day of the month after it.
pub open spec fn plus_months(start: Moment, months: int, handling: InvalidDateHandling) -> Option<
    Moment,
> {
    let year = target_year(start.year, start.month, months);
    let month = target_month(start.month, months);
    let last_day = days_in_month(year, month);
    if start.day <= last_day {
        start.on_day(year, month, start.day)
    } else {
        match handling {
            InvalidDateHandling::Reject => None,
            InvalidDateHandling::Previous => start.on_day(year, month, last_day),
            InvalidDateHandling::Next => if month == 12 {
                start.on_day(year + 1, 1, 1)
            } else {
                start.on_day(year, month + 1, 1)
            },
        }
    }
}

impl DateOp for MonthDuration {
    open spec fn scaled(&self, n: int) -> Option<Self> {
        if i32::MIN <= self.0 * n <= i32::MAX {
            Some(MonthDuration((self.0 * n) as i32, self.1))
        } else {
            None
        }
    }

    open spec fn applied(&self, start: Moment) -> Option<Moment> {
        plus_months(start, self.0 as int, self.1)
    }

    proof fn lemma_applied_is_valid(&self, start: Moment) {
    }

    proof fn lemma_taken_no_times(&self, start: Moment) {
    }

    fn times(&self, n: i32) -> (product: Option<Self>) {
        match self.0.checked_mul(n) {
            Some(months) => Some(MonthDuration(months, self.1)),
            None => None,
        }
    }

    fn add_to(&self, dt: &CivilDateTime) -> (sum: Option<CivilDateTime>) {
        proof {
            use_type_invariant(dt);
        }
        let months_on: i64 = dt.month0() as i64 + self.0 as i64;
        let additional_years: i64 = match months_on.checked_div_euclid(12) {
            Some(years) => years,
            None => return None,
        };
        let mut next_month_0: u32 = match months_on.checked_rem_euclid(12) {
            Some(month_0) => month_0 as u32,
            None => return None,
        };
        let mut next_year: i32 = dt.year() + additional_years as i32;
        let last_day: u32 = last_day_of_month_0(next_year, next_month_0);
        let mut next_day: u32 = dt.day();
        // check for invalid date
        if next_day > last_day {
            match self.1 {
                InvalidDateHandling::Reject => return None,
                InvalidDateHandling::Previous => next_day = last_day,
                InvalidDateHandling::Next => {
                    next_day = 1;
                    next_month_0 = (next_month_0 + 1) % 12;
                    if next_month_0 == 0 {
                        next_year = next_year + 1;
                    }
                },
            }
        }
        move_to_day(dt, next_year, next_month_0 + 1, next_day)
    }
}

/// The month arrived at is a month of the calendar, and the months gone
/// through are twelve for each year that was carried and those between the
/// two months.
pub proof fn lemma_target_is_a_month(year: int, month: int, months: int)
    ensures
        1 <= target_month(month, months) <= 12,
        12 * target_year(year, month, months) + target_month(month, months) == 12 * year + month
            + months,
{
}

/// Where the month arrived at has the day of `start`, every way of handling
/// gives that day of that month.
pub proof fn lemma_existing_day_is_kept(duration: MonthDuration, start: Moment)
    requires
        start.day <= days_in_month(
            target_year(start.year, start.month, duration.0 as int),
            target_month(start.month, duration.0 as int),
        ),
    ensures
        duration.applied(start) == start.on_day(
            target_year(start.year, start.month, duration.0 as int),
            target_month(start.month, duration.0 as int),
            start.day,
        ),
{
}

/// With `Reject`, a month arrived at that is too short for the day of `start`
/// gives nothing.
pub proof fn lemma_reject_refuses_missing_day(duration: MonthDuration, start: Moment)
    requires
        duration.1 == InvalidDateHandling::Reject,
        start.day > days_in_month(
            target_year(start.year, start.month, duration.0 as int),
            target_month(start.month, duration.0 as int),
        ),
    ensures
        duration.applied(start) is None,
{
}

/// With `Previous`, a month arrived at that is too short for the day of
/// `start` gives its own last day, at the same time of day, unless its year
/// cannot be represented.
pub proof fn lemma_previous_clamps_to_last_day(duration: MonthDuration, start: Moment)
    requires
        start.is_valid(),
        duration.1 == InvalidDateHandling::Previous,
        start.day > days_in_month(
            target_year(start.year, start.month, duration.0 as int),
            target_month(start.month, duration.0 as int),
        ),
    ensures
        match duration.applied(start) {
            Some(end) => {
                &&& end.year == target_year(start.year, start.month, duration.0 as int)
                &&& end.month == target_month(start.month, duration.0 as int)
                &&& end.day == days_in_month(end.year, end.month)
                &&& end.second == start.second
                &&& end.nanosecond == start.nanosecond
            },
            None => {
                let year = target_year(start.year, start.month, duration.0 as int);
                year < MIN_YEAR || year > MAX_YEAR
            },
        },
{
}

/// With `Next`, a month arrived at that is too short for the day of `start`
/// gives the first day of the month after it, at the same time of day, unless
/// the year of that day cannot be represented.
pub proof fn lemma_next_rolls_to_first_day(duration: MonthDuration, start: Moment)
    requires
        start.is_valid(),
        duration.1 == InvalidDateHandling::Next,
        start.day > days_in_month(
            target_year(start.year, start.month, duration.0 as int),
            target_month(start.month, duration.0 as int),
        ),
    ensures
        match duration.applied(start) {
            Some(end) => {
                &&& end.year == target_year(start.year, start.month, duration.0 as int + 1)
                &&& end.month == target_month(start.month, duration.0 as int + 1)
                &&& end.day == 1
                &&& end.second == start.second
                &&& end.nanosecond == start.nanosecond
            },
            None => {
                let year = target_year(start.year, start.month, duration.0 as int + 1);
                year < MIN_YEAR || year > MAX_YEAR
            },
        },
{
}

} // verus!
