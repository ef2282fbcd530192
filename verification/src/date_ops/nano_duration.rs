use vstd::prelude::*;
use chrono::{Datelike, Timelike};
use crate::civil::{moment, CivilDateTime, Moment};
use crate::date_ops::DateOp;

verus! {

/// The moment that has year, month, day, second of the day and nanosecond
/// in this order.
spec fn moment_with(parts: (i32, u32, u32, u32, u32)) -> Moment {
    moment(parts.0 as int, parts.1 as int, parts.2 as int, parts.3 as int, parts.4 as int)
}

/// Calls `chrono::NaiveDateTime::checked_add_signed` on the date and time that
/// `chrono::NaiveDate::from_ymd_opt` and
/// `chrono::NaiveTime::from_num_seconds_from_midnight_opt` make, with
/// `chrono::TimeDelta::nanoseconds(nanos)`. The contract claims of the sum
/// what chrono documents for a time that is no leap second: it is a moment
/// that can be represented, `nanos` nanoseconds further on, and it is missing
/// only where that instant lies outside the years that can be represented.
#[verifier::external_body]
fn nanos_after(start: (i32, u32, u32, u32, u32), nanos: i64) -> (sum: Option<
    (i32, u32, u32, u32, u32),
>)
    requires
        moment_with(start).is_valid(),
    ensures
        match sum {
            Some(end) => moment_with(end).is_valid() && moment_with(end).instant() == moment_with(
                start,
            ).instant() + nanos,
            None => !(Moment::first_instant() <= moment_with(start).instant() + nanos
                <= Moment::last_instant()),
        },
{
    let date = chrono::NaiveDate::from_ymd_opt(start.0, start.1, start.2)?;
    let time = chrono::NaiveTime::from_num_seconds_from_midnight_opt(start.3, start.4)?;
    let sum = chrono::NaiveDateTime::new(date, time).checked_add_signed(
        chrono::TimeDelta::nanoseconds(nanos),
    )?;
    Some((sum.year(), sum.month(), sum.day(), sum.num_seconds_from_midnight(), sum.nanosecond()))
}

/// A length of time in nanoseconds that can be added to a date: the kind of
/// duration for what is shorter than a day.
#[derive(Clone, Copy, Debug, PartialEq, Eq)]
pub struct NanoDuration(pub i64);

impl DateOp for NanoDuration {
    open spec fn scaled(&self, n: int) -> Option<Self> {
        if i64::MIN <= self.0 * n <= i64::MAX {
            Some(NanoDuration((self.0 * n) as i64))
        } else {
            None
        }
    }

    /// The moment that lies so many nanoseconds on, through midnights and
    /// the ends of months and years.
    open spec fn applied(&self, start: Moment) -> Option<Moment> {
        start.plus_nanos(self.0 as int)
    }

    proof fn lemma_applied_is_valid(&self, start: Moment) {
    }

    proof fn lemma_taken_no_times(&self, start: Moment) {
        start.lemma_at_own_instant();
    }

    fn times(&self, n: i32) -> (product: Option<Self>) {
        match self.0.checked_mul(n as i64) {
            Some(nanos) => Some(NanoDuration(nanos)),
            None => None,
        }
    }

    fn add_to(&self, dt: &CivilDateTime) -> (sum: Option<CivilDateTime>) {
        proof {
            use_type_invariant(dt);
        }
        let start = (dt.year(), dt.month(), dt.day(), dt.second(), dt.nanosecond());
        match nanos_after(start, self.0) {
            Some(end) => {
                proof {
                    moment_with(end).lemma_at_own_instant();
                }
                CivilDateTime::new(end.0, end.1, end.2, end.3, end.4)
            },
            None => {
                proof {
                    Moment::lemma_no_moment_outside(dt@.instant() + self.0);
                }
                None
            },
        }
    }
}

} // verus!
