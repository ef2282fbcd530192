use vstd::prelude::*;
use crate::civil::{CivilDateTime, Moment};
use crate::date_ops::DateOp;

verus! {

/// AndThen represents the chaining of two DateOps, applied consecutively
#[derive(Debug)]
pub struct AndThen<Op1: DateOp, Op2: DateOp>(pub Op1, pub Op2);

impl<Op1: DateOp, Op2: DateOp> DateOp for AndThen<Op1, Op2> {
    /// Each of the two taken `n` times; nothing where either cannot be.
    open spec fn scaled(&self, n: int) -> Option<Self> {
        match (self.0.scaled(n), self.1.scaled(n)) {
            (Some(first), Some(second)) => Some(AndThen(first, second)),
            _ => None,
        }
    }

    /// The first applied to `start`, and the second to what that gave;
    /// nothing where either step gives nothing.
    open spec fn applied(&self, start: Moment) -> Option<Moment> {
        match self.0.applied(start) {
            Some(between) => self.1.applied(between),
            None => None,
        }
    }

    proof fn lemma_applied_is_valid(&self, start: Moment) {
        self.0.lemma_applied_is_valid(start);
        if let Some(between) = self.0.applied(start) {
            self.1.lemma_applied_is_valid(between);
        }
    }

    proof fn lemma_taken_no_times(&self, start: Moment) {
        self.0.lemma_taken_no_times(start);
        self.1.lemma_taken_no_times(start);
    }

    fn times(&self, n: i32) -> (product: Option<Self>) {
        let first = match self.0.times(n) {
            Some(first) => first,
            None => return None,
        };
        let second = match self.1.times(n) {
            Some(second) => second,
            None => return None,
        };
        Some(AndThen(first, second))
    }

    fn add_to(&self, dt: &CivilDateTime) -> (sum: Option<CivilDateTime>) {
        match self.0.add_to(dt) {
            Some(between) => self.1.add_to(&between),
            None => None,
        }
    }
}

/// A chain applies its first part and then its second to what the first
/// gave, and gives nothing exactly where one of the two steps gives nothing.
pub proof fn lemma_chain_applies_in_order<Op1: DateOp, Op2: DateOp>(
    first: Op1,
    second: Op2,
    start: Moment,
)
    ensures
        first.applied(start) matches Some(between) ==> AndThen(first, second).applied(start)
            == second.applied(between),
        AndThen(first, second).applied(start) is None <==> (first.applied(start) matches Some(
            between,
        ) ==> second.applied(between) is None),
{
}

/// A chain taken `n` times is each of its parts taken `n` times, and cannot
/// be taken so often exactly where one of its parts cannot.
pub proof fn lemma_chain_scales_both<Op1: DateOp, Op2: DateOp>(first: Op1, second: Op2, n: int)
    ensures
        AndThen(first, second).scaled(n) matches Some(product) ==> first.scaled(n) == Some(
            product.0,
        ) && second.scaled(n) == Some(product.1),
        AndThen(first, second).scaled(n) is None <==> first.scaled(n) is None || second.scaled(n)
            is None,
{
}

} // verus!
