use vstd::prelude::*;
use chrono::Datelike;
use crate::calendar::{
    day_number, first_day_number, is_calendar_day, last_day_number, MAX_YEAR, MIN_YEAR,
};
use crate::civil::{CivilDateTime, Moment};
use crate::date_ops::{move_to_day, DateOp};

verus! {

/// The number, in the count of days, of the day that has year, month and day
/// in this order.
spec fn day_number_of(date: (i32, u32, u32)) -> int {
    day_number(date.0 as int, date.1 as int, date.2 as int)
}

/// Calls `chrono::NaiveDate::checked_add_signed` on the date that
/// `chrono::NaiveDate::from_ymd_opt` makes, with `chrono::TimeDelta::days(days)`.
/// The contract claims of the sum what chrono documents: it is a day of the
/// calendar in a year that can be represented, `days` places further in the
/// count of days, and it is missing only where that place lies outside the
/// days that can be represented.
#[verifier::external_body]
fn days_after(start: (i32, u32, u32), days: i32) -> (sum: Option<(i32, u32, u32)>)
    requires
        MIN_YEAR <= start.0 <= MAX_YEAR,
        is_calendar_day(start.0 as int, start.1 as int, start.2 as int),
    ensures
        match sum {
            Some(end) => {
                &&& MIN_YEAR <= end.0 <= MAX_YEAR
                &&& is_calendar_day(end.0 as int, end.1 as int, end.2 as int)
                &&& day_number_of(end) == day_number_of(start) + days
            },
            None => !(first_day_number() <= day_number_of(start) + days <= last_day_number()),
        },
{
    let sum = chrono::NaiveDate::from_ymd_opt(start.0, start.1, start.2)?.checked_add_signed(
        chrono::TimeDelta::days(days.into()),
    )?;
    Some((sum.year(), sum.month(), sum.day()))
}

/// A Duration in days that can be added to a date
#[derive(Clone, Copy, Debug, PartialEq, Eq)]
pub struct DayDuration(pub i32);

impl DateOp for DayDuration {
    open spec fn scaled(&self, n: int) -> Option<Self> {
        if i32::MIN <= self.0 * n <= i32::MAX {
            Some(DayDuration((self.0 * n) as i32))
        } else {
            None
        }
    }

    /// The same time of day so many days on, by the count of days.
    open spec fn applied(&self, start: Moment) -> Option<Moment> {
        start.plus_days(self.0 as int)
    }

    proof fn lemma_applied_is_valid(&self, start: Moment) {
    }

    proof fn lemma_taken_no_times(&self, start: Moment) {
        start.lemma_at_own_instant();
    }

    fn times(&self, n: i32) -> (product: Option<Self>) {
        match self.0.checked_mul(n) {
            Some(days) => Some(DayDuration(days)),
            None => None,
        }
    }

    fn add_to(&self, dt: &CivilDateTime) -> (sum: Option<CivilDateTime>) {
        proof {
            use_type_invariant(dt);
        }
        match days_after((dt.year(), dt.month(), dt.day()), self.0) {
            Some((year, month, day)) => {
                proof {
                    let end = dt@.on_day(year as int, month as int, day as int).unwrap();
                    end.lemma_at_own_instant();
                }
                move_to_day(dt, year, month, day)
            },
            None => {
                proof {
                    if let Some(end) = dt@.plus_days(self.0 as int) {
                        dt@.lemma_plus_days_keeps_time_of_day(self.0 as int);
                    }
                }
                None
            },
        }
    }
}

} // verus!
