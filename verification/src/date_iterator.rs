//! Exposes date iterators that can be used to express "start at time X and every hour afterwards"

use vstd::prelude::*;
use crate::civil::{moment_of, CivilDateTime, Moment};
use crate::date_ops::DateOp;

verus! {

/// The greatest number of times that a duration can be taken, and so the
/// last step that can have a date.
pub const LAST_STEP: u32 = 2_147_483_647;

/// The date `k` steps after `origin`: `duration` taken `k` times and then
/// applied to `origin` itself, never to the date of the step before. There is
/// none where `k` is no number of steps, where the duration cannot be taken so
/// often, or where the duration so taken leads to no date.
pub open spec fn nth_date<Op: DateOp>(origin: Moment, duration: Op, k: int) -> Option<Moment> {
    if 0 <= k <= LAST_STEP {
        match duration.scaled(k) {
            Some(total) => total.applied(origin),
            None => None,
        }
    } else {
        None
    }
}

/// Where an iterator stands: the mathematical value of an
/// [`OpenEndedDateIterator`] and of the pairwise iterator over it.
pub struct Cursor<Op> {
    /// the date that every step is reckoned from
    pub origin: Moment,
    /// the length of one step
    pub duration: Op,
    /// the number of the step that comes next
    pub step: nat,
}

impl<Op: DateOp> Cursor<Op> {
    /// The date of the step that comes next.
    pub open spec fn date(self) -> Option<Moment> {
        nth_date(self.origin, self.duration, self.step as int)
    }

    /// The cursor one step on. The count of steps stops where it can no longer
    /// be held; from `LAST_STEP` on no step has a date.
    pub open spec fn advanced(self) -> Cursor<Op> {
        Cursor {
            origin: self.origin,
            duration: self.duration,
            step: if self.step < u32::MAX {
                self.step + 1
            } else {
                self.step
            },
        }
    }

    /// The cursor `steps` steps on, where the count of steps can still be held.
    pub open spec fn skipped(self, steps: nat) -> Cursor<Op> {
        Cursor { origin: self.origin, duration: self.duration, step: self.step + steps }
    }

    /// The date of the step that comes next and the date of the step after
    /// it, both reckoned from the origin.
    pub open spec fn pair(self) -> Option<(Moment, Moment)> {
        match (self.date(), self.advanced().date()) {
            (Some(start), Some(end)) => Some((start, end)),
            _ => None,
        }
    }
}

/// Where an iterator with an end stands: the mathematical value of a
/// [`ClosedDateIterator`] and of a [`ClosedPairwiseDateIterator`].
pub struct BoundedCursor<Op> {
    pub cursor: Cursor<Op>,
    /// the date before which every date that is handed out lies
    pub to: Moment,
    /// whether the sequence has come to its end
    pub ended: bool,
}

impl<Op: DateOp> BoundedCursor<Op> {
    /// The date that comes next: that of the cursor where it lies before
    /// `to`, as long as the sequence has not ended.
    pub open spec fn date(self) -> Option<Moment> {
        match self.cursor.date() {
            Some(date) if !self.ended && date.precedes(self.to) => Some(date),
            _ => None,
        }
    }

    /// The pair that comes next: that of the cursor where its first date lies
    /// before `to`, as long as the sequence has not ended.
    pub open spec fn pair(self) -> Option<(Moment, Moment)> {
        match self.cursor.pair() {
            Some(pair) if !self.ended && pair.0.precedes(self.to) => Some(pair),
            _ => None,
        }
    }

    /// The same sequence `steps` steps on.
    pub open spec fn skipped(self, steps: nat) -> BoundedCursor<Op> {
        BoundedCursor { cursor: self.cursor.skipped(steps), to: self.to, ended: self.ended }
    }

    /// The state after a call, of which `found` says whether it handed
    /// anything out: the first call that hands out nothing ends the sequence
    /// for good, and an ended sequence stays as it is.
    pub open spec fn after(self, found: bool) -> BoundedCursor<Op> {
        if self.ended {
            self
        } else {
            BoundedCursor { cursor: self.cursor.advanced(), to: self.to, ended: !found }
        }
    }
}

/// The mathematical value of a pair of dates that may be missing.
pub open spec fn moments_of(pair: Option<(CivilDateTime, CivilDateTime)>) -> Option<
    (Moment, Moment),
> {
    match pair {
        Some((start, end)) => Some((start@, end@)),
        None => None,
    }
}

/// Iterator as returned by `date_iterator_from`
#[derive(Debug)]
pub struct OpenEndedDateIterator<Op: DateOp> {
    from: CivilDateTime,
    duration: Op,
    iterations: u32,
}

impl<Op: DateOp> View for OpenEndedDateIterator<Op> {
    type V = Cursor<Op>;

    closed spec fn view(&self) -> Cursor<Op> {
        Cursor { origin: self.from@, duration: self.duration, step: self.iterations as nat }
    }
}

impl<Op: DateOp> OpenEndedDateIterator<Op> {
    /// return a new DateIterator that stops iteration when `to` is reached (`to` is not included)
    pub fn to(self, to: CivilDateTime) -> (closed: ClosedDateIterator<Op>)
        ensures
            closed@ == (BoundedCursor { cursor: self@, to: to@, ended: false }),
    {
        date_iterator_to(self, to)
    }

    /// needed here so that pairwise can work
    fn current(&self) -> (date: Option<CivilDateTime>)
        ensures
            moment_of(date) == self@.date(),
    {
        if self.iterations > LAST_STEP {
            return None;
        }
        match self.duration.times(self.iterations as i32) {
            Some(total) => total.add_to(&self.from),
            None => None,
        }
    }

    /// returns a pairwise iterator of (next, after_next) dates. This is if you use the date iterator to
    /// e.g. slice a time range into Months. Note that it is not sufficient to take the date returned by
    /// `next()` and add `duration` as this can lead to overlapping slices.
    ///
    /// As an example e.g. if your starting date is
    /// e.g. January 31st and your duration is 1 month. pairwise iteration will yield (January 31st, Feb 28th),
    /// (Feb 28th, March 31st), (March 31st, April 30th), etc. This is different from if you simply used a
    /// date iterator (which would yield January 31st, Feb 28th, March 31st) and construct pairs by adding one
    /// month, which leads to errorneous (Feb 28th, March 28th) on the second iteration.
    pub fn pairwise(self) -> (pairs: OpenEndedPairwiseDateIterator<Op>)
        ensures
            pairs@ == self@,
    {
        OpenEndedPairwiseDateIterator { iter: self }
    }

    /// The date of the step that comes next, reckoned from the origin; the
    /// iterator then stands one step on, whether or not that step had a date.
    /// A step without a date is where the sequence ends.
    pub fn next(&mut self) -> (date: Option<CivilDateTime>)
        ensures
            moment_of(date) == old(self)@.date(),
            final(self)@ == old(self)@.advanced(),
    {
        let next = self.current();
        if self.iterations < u32::MAX {
            self.iterations = self.iterations + 1;
        }
        next
    }

    /// The dates of the next `n` steps, or of as many as come before the
    /// first step without a date. That step, where it was met, is used up too.
    pub fn take(&mut self, n: usize) -> (dates: Vec<CivilDateTime>)
        ensures
            dates@.len() <= n,
            forall|i: int|
                0 <= i < dates@.len() ==> old(self)@.skipped(i as nat).date() == Some(
                    #[trigger] dates@[i]@,
                ),
            dates@.len() < n ==> old(self)@.skipped(dates@.len()).date() is None,
            final(self)@ == if dates@.len() < n {
                old(self)@.skipped(dates@.len()).advanced()
            } else {
                old(self)@.skipped(dates@.len())
            },
    {
        let mut dates: Vec<CivilDateTime> = Vec::new();
        while dates.len() < n
            invariant
                dates@.len() <= n,
                forall|i: int|
                    0 <= i < dates@.len() ==> old(self)@.skipped(i as nat).date() == Some(
                        #[trigger] dates@[i]@,
                    ),
                self@ == old(self)@.skipped(dates@.len()),
            decreases n - dates@.len(),
        {
            match self.next() {
                Some(date) => dates.push(date),
                None => return dates,
            }
        }
        dates
    }
}

/// As returned by [`OpenEndedDateIterator::pairwise()`] method. See comment there.
///
/// [`OpenEndedDateIterator::pairwise()`]: struct.OpenEndedDateIterator.html#method.pairwise
#[derive(Debug)]
pub struct OpenEndedPairwiseDateIterator<Op: DateOp> {
    iter: OpenEndedDateIterator<Op>,
}

impl<Op: DateOp> View for OpenEndedPairwiseDateIterator<Op> {
    type V = Cursor<Op>;

    closed spec fn view(&self) -> Cursor<Op> {
        self.iter@
    }
}

impl<Op: DateOp> OpenEndedPairwiseDateIterator<Op> {
    /// The date of the step that comes next together with the date of the
    /// step after it, each reckoned from the origin; nothing where either is
    /// missing. The iterator then stands one step on.
    pub fn next(&mut self) -> (pair: Option<(CivilDateTime, CivilDateTime)>)
        ensures
            moments_of(pair) == old(self)@.pair(),
            final(self)@ == old(self)@.advanced(),
    {
        let start = match self.iter.next() {
            Some(start) => start,
            None => return None,
        };
        match self.iter.current() {
            Some(end) => Some((start, end)),
            None => None,
        }
    }
}

/// Iterator that yields dates that until the given `to` date. (All dates are smaller than `to`).
#[derive(Debug)]
pub struct ClosedDateIterator<Op: DateOp> {
    iter: OpenEndedDateIterator<Op>,
    to: CivilDateTime,
    ended: bool,
}

impl<Op: DateOp> View for ClosedDateIterator<Op> {
    type V = BoundedCursor<Op>;

    closed spec fn view(&self) -> BoundedCursor<Op> {
        BoundedCursor { cursor: self.iter@, to: self.to@, ended: self.ended }
    }
}

impl<Op: DateOp> ClosedDateIterator<Op> {
    /// see comment on [`OpenEndedDateIterator::pairwise()`]
    ///
    ///[`OpenEndedDateIterator::pairwise()`]: struct.OpenEndedDateIterator.html#method.pairwise
    pub fn pairwise(self) -> (pairs: ClosedPairwiseDateIterator<Op>)
        ensures
            pairs@ == self@,
    {
        ClosedPairwiseDateIterator { iter: self.iter.pairwise(), to: self.to, ended: self.ended }
    }

    /// The date of the step that comes next, where there is one and it lies
    /// before `to`. The first step without such a date ends the sequence:
    /// from then on every call hands out nothing and changes nothing.
    pub fn next(&mut self) -> (date: Option<CivilDateTime>)
        ensures
            moment_of(date) == old(self)@.date(),
            final(self)@ == old(self)@.after(date is Some),
            date matches Some(found) ==> found@.precedes(old(self)@.to),
    {
        if self.ended {
            return None;
        }
        match self.iter.next() {
            Some(dt) => {
                if dt.is_before(&self.to) {
                    Some(dt)
                } else {
                    self.ended = true;
                    None
                }
            },
            None => {
                self.ended = true;
                None
            },
        }
    }

    /// All the dates that are left: those of the steps that come next, up to
    /// the first step that has no date before `to`. With that the sequence
    /// has ended.
    pub fn collect(&mut self) -> (dates: Vec<CivilDateTime>)
        ensures
            forall|i: int|
                0 <= i < dates@.len() ==> old(self)@.skipped(i as nat).date() == Some(
                    #[trigger] dates@[i]@,
                ),
            forall|i: int| 0 <= i < dates@.len() ==> (#[trigger] dates@[i]@).precedes(old(self)@.to),
            old(self)@.skipped(dates@.len()).date() is None,
            final(self)@ == old(self)@.skipped(dates@.len()).after(false),
    {
        let mut dates: Vec<CivilDateTime> = Vec::new();
        loop
            invariant
                forall|i: int|
                    0 <= i < dates@.len() ==> old(self)@.skipped(i as nat).date() == Some(
                        #[trigger] dates@[i]@,
                    ),
                forall|i: int|
                    0 <= i < dates@.len() ==> (#[trigger] dates@[i]@).precedes(old(self)@.to),
                self@ == old(self)@.skipped(dates@.len()),
                self@.cursor.step <= u32::MAX,
            decreases u32::MAX - self@.cursor.step,
        {
            match self.next() {
                Some(date) => dates.push(date),
                None => return dates,
            }
        }
    }
}

/// As returned by [`ClosedDateIterator::pairwise()`]. See comment on [`OpenEndedDateIterator::pairwise()`]
///
///[`ClosedDateIterator::pairwise()`]: struct.ClosedDateIterator.html#method.pairwise
///[`OpenEndedDateIterator::pairwise()`]: struct.OpenEndedDateIterator.html#method.pairwise
#[derive(Debug)]
pub struct ClosedPairwiseDateIterator<Op: DateOp> {
    iter: OpenEndedPairwiseDateIterator<Op>,
    to: CivilDateTime,
    ended: bool,
}

impl<Op: DateOp> View for ClosedPairwiseDateIterator<Op> {
    type V = BoundedCursor<Op>;

    closed spec fn view(&self) -> BoundedCursor<Op> {
        BoundedCursor { cursor: self.iter@, to: self.to@, ended: self.ended }
    }
}

impl<Op: DateOp> ClosedPairwiseDateIterator<Op> {
    /// The pair of dates that comes next, where there is one and its first
    /// date lies before `to`. The first step without such a pair ends the
    /// sequence: from then on every call hands out nothing and changes
    /// nothing.
    pub fn next(&mut self) -> (pair: Option<(CivilDateTime, CivilDateTime)>)
        ensures
            moments_of(pair) == old(self)@.pair(),
            final(self)@ == old(self)@.after(pair is Some),
            pair matches Some(found) ==> found.0@.precedes(old(self)@.to),
    {
        if self.ended {
            return None;
        }
        match self.iter.next() {
            Some(dts) => {
                if dts.0.is_before(&self.to) {
                    Some(dts)
                } else {
                    self.ended = true;
                    None
                }
            },
            None => {
                self.ended = true;
                None
            },
        }
    }

    /// All the pairs that are left: those of the steps that come next, up to
    /// the first step that has no pair beginning before `to`. With that the
    /// sequence has ended.
    pub fn collect(&mut self) -> (pairs: Vec<(CivilDateTime, CivilDateTime)>)
        ensures
            forall|i: int|
                0 <= i < pairs@.len() ==> old(self)@.skipped(i as nat).pair() == Some(
                    ((#[trigger] pairs@[i]).0@, pairs@[i].1@),
                ),
            forall|i: int|
                0 <= i < pairs@.len() ==> (#[trigger] pairs@[i]).0@.precedes(old(self)@.to),
            old(self)@.skipped(pairs@.len()).pair() is None,
            final(self)@ == old(self)@.skipped(pairs@.len()).after(false),
    {
        let mut pairs: Vec<(CivilDateTime, CivilDateTime)> = Vec::new();
        loop
            invariant
                forall|i: int|
                    0 <= i < pairs@.len() ==> old(self)@.skipped(i as nat).pair() == Some(
                        ((#[trigger] pairs@[i]).0@, pairs@[i].1@),
                    ),
                forall|i: int|
                    0 <= i < pairs@.len() ==> (#[trigger] pairs@[i]).0@.precedes(old(self)@.to),
                self@ == old(self)@.skipped(pairs@.len()),
                self@.cursor.step <= u32::MAX,
            decreases u32::MAX - self@.cursor.step,
        {
            match self.next() {
                Some(pair) => pairs.push(pair),
                None => return pairs,
            }
        }
    }
}

/// returns an open ended iterator, that will first yield `dt`
pub fn date_iterator_from<Op: DateOp>(dt: CivilDateTime, duration: Op) -> (iter:
    OpenEndedDateIterator<Op>)
    ensures
        iter@ == (Cursor { origin: dt@, duration, step: 0 }),
        iter@.date() == Some(dt@),
{
    proof {
        use_type_invariant(&dt);
        duration.lemma_taken_no_times(dt@);
    }
    OpenEndedDateIterator { from: dt, duration: duration, iterations: 0 }
}

/// return a new DateIterator that stops iteration when `to` is reached (`to` is not included)
pub fn date_iterator_to<Op: DateOp>(iter: OpenEndedDateIterator<Op>, to: CivilDateTime) -> (closed:
    ClosedDateIterator<Op>)
    ensures
        closed@ == (BoundedCursor { cursor: iter@, to: to@, ended: false }),
{
    ClosedDateIterator { iter: iter, to: to, ended: false }
}

/// return a new DateIterator that starts at `from` and yields results for every added duration until `to` is reached (`to` is not included)
pub fn date_iterator_from_to<Op: DateOp>(from: CivilDateTime, duration: Op, to: CivilDateTime) -> (closed:
    ClosedDateIterator<Op>)
    ensures
        closed@ == (BoundedCursor {
            cursor: Cursor { origin: from@, duration, step: 0 },
            to: to@,
            ended: false,
        }),
{
    date_iterator_from(from, duration).to(to)
}

/// What an iterator hands out at a step is the duration taken as many times
/// as steps have gone before and then applied to the origin; it is nothing
/// where the duration cannot be taken so often.
pub proof fn lemma_step_is_scaled_duration_applied<Op: DateOp>(cursor: Cursor<Op>)
    requires
        cursor.step <= LAST_STEP,
    ensures
        cursor.duration.scaled(cursor.step as int) matches Some(total) ==> cursor.date()
            == total.applied(cursor.origin),
        cursor.duration.scaled(cursor.step as int) is None ==> cursor.date() is None,
{
}

/// Every date that an iterator hands out can be represented, where its
/// origin can.
pub proof fn lemma_dates_are_valid<Op: DateOp>(cursor: Cursor<Op>)
    requires
        cursor.origin.is_valid(),
    ensures
        cursor.date() matches Some(date) ==> date.is_valid(),
{
    if cursor.step <= LAST_STEP {
        if let Some(total) = cursor.duration.scaled(cursor.step as int) {
            total.lemma_applied_is_valid(cursor.origin);
        }
    }
}

/// The pairs of a pairwise iterator lie end to end: each begins with the
/// date of its own step and ends with the date of the step after it, which
/// is where the next pair begins.
pub proof fn lemma_pairs_are_adjacent<Op: DateOp>(cursor: Cursor<Op>)
    ensures
        cursor.pair() matches Some(pair) ==> cursor.date() == Some(pair.0)
            && cursor.advanced().date() == Some(pair.1),
        cursor.pair() matches Some(pair) ==> (cursor.advanced().pair() matches Some(next)
            ==> next.0 == pair.1),
{
}

/// An iterator with an end hands out no date that does not lie before its
/// end, and none at all once it has ended.
pub proof fn lemma_bound_is_exclusive<Op: DateOp>(bounded: BoundedCursor<Op>)
    ensures
        bounded.date() matches Some(date) ==> date.precedes(bounded.to) && date != bounded.to,
        bounded.pair() matches Some(pair) ==> pair.0.precedes(bounded.to) && pair.0 != bounded.to,
        bounded.ended ==> bounded.date() is None && bounded.pair() is None,
        bounded.ended ==> bounded.after(false) == bounded && bounded.after(true) == bounded,
        bounded.after(false).ended,
{
}

} // verus!
