use vstd::prelude::*;
use crate::civil::{CivilDateTime, Moment};
use crate::date_ops::DateOp;

verus! {

/// A Duration in years that can be added to a date
#[derive(Clone, Copy, Debug, PartialEq, Eq)]
pub struct YearDuration(pub i32);

impl DateOp for YearDuration {
    open spec fn scaled(&self, n: int) -> Option<Self> {
        if i32::MIN <= self.0 * n <= i32::MAX {
            Some(YearDuration((self.0 * n) as i32))
        } else {
            None
        }
    }

    /// The same month, day and time of day so many years on: there is none
    /// where that year has no such day (the 29th of February) or cannot be
    /// represented.
    open spec fn applied(&self, start: Moment) -> Option<Moment> {
        start.with_year(start.year + self.0)
    }

    proof fn lemma_applied_is_valid(&self, start: Moment) {
    }

    proof fn lemma_taken_no_times(&self, start: Moment) {
    }

    fn times(&self, n: i32) -> (product: Option<Self>) {
        match self.0.checked_mul(n) {
            Some(years) => Some(YearDuration(years)),
            None => None,
        }
    }

    fn add_to(&self, dt: &CivilDateTime) -> (sum: Option<CivilDateTime>) {
        match dt.year().checked_add(self.0) {
            Some(year) => dt.with_year(year),
            None => None,
        }
    }
}

} // verus!
