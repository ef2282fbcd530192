//! Operations that can be added to a date, e.g. "one month and two hours".

use vstd::prelude::*;
use crate::civil::{moment_of, CivilDateTime, Moment};

pub mod and_then;
pub mod day_duration;
pub mod month_duration;
pub mod nano_duration;
pub mod year_duration;

pub use and_then::AndThen;
pub use day_duration::DayDuration;
pub use month_duration::{InvalidDateHandling, MonthDuration};
pub use nano_duration::NanoDuration;
pub use year_duration::YearDuration;

verus! {

/// A `DateOp` is something that can be added to a `CivilDateTime`.
pub trait DateOp: Sized {
    /// This duration taken `n` times; nothing where the size of that can no
    /// longer be represented.
    spec fn scaled(&self, n: int) -> Option<Self>;

    /// The moment that lies this duration after `start`; nothing where there
    /// is no such moment.
    spec fn applied(&self, start: Moment) -> Option<Moment>;

    /// No duration leads out of the calendar: what it makes of a moment that
    /// can be represented is such a moment again, so its year lies from
    /// `MIN_YEAR` to `MAX_YEAR`.
    proof fn lemma_applied_is_valid(&self, start: Moment)
        requires
            start.is_valid(),
        ensures
            self.applied(start) matches Some(end) ==> end.is_valid(),
    ;

    /// Taken no times, a duration leaves every moment where it is.
    proof fn lemma_taken_no_times(&self, start: Moment)
        requires
            start.is_valid(),
        ensures
            self.scaled(0) matches Some(nothing) && nothing.applied(start) == Some(start),
    ;

    /// Multiplies the given DateOp by n (which can fail if e.g. n overflows).
    /// This is needed because adding one month to Jan 31st is impossible (Feb 31st doesn't exist),
    /// but adding two months works.
    fn times(&self, n: i32) -> (product: Option<Self>)
        ensures
            product == self.scaled(n as int),
    ;

    /// Returns `dt` with self added to it; can fail e.g. because of overflow or because of
    /// invalid date operations (e.g. adding one month to Jan 31st)
    fn add_to(&self, dt: &CivilDateTime) -> (sum: Option<CivilDateTime>)
        ensures
            moment_of(sum) == self.applied(dt@),
    ;
}

/// Every `DateOp` can be chained with another.
pub trait Chain: DateOp {
    /// Chain the other DateOp to be applied after this one
    fn and_then<O: DateOp>(self, other: O) -> (chain: AndThen<Self, O>)
        ensures
            chain.0 == self,
            chain.1 == other,
    ;
}

impl<Op: DateOp> Chain for Op {
    fn and_then<O: DateOp>(self, other: O) -> (chain: AndThen<Self, O>) {
        AndThen(self, other)
    }
}

/// `dt` moved to the day `year`-`month`-`day`, with its time of day kept:
/// field by field, through the first of the month so that no step on the way
/// can meet a day that does not exist.
pub(crate) fn move_to_day(dt: &CivilDateTime, year: i32, month: u32, day: u32) -> (moved: Option<
    CivilDateTime,
>)
    ensures
        moment_of(moved) == dt@.on_day(year as int, month as int, day as int),
{
    proof {
        use_type_invariant(dt);
    }
    // set days to 1 so that year and month are always valid
    let on_first = match dt.with_day(1) {
        Some(on_first) => on_first,
        None => return None,
    };
    let in_year = match on_first.with_year(year) {
        Some(in_year) => in_year,
        None => return None,
    };
    let in_month = match in_year.with_month(month) {
        Some(in_month) => in_month,
        None => return None,
    };
    in_month.with_day(day)
}

} // verus!
