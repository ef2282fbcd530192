//! The date and time of day that durations are applied to.

use vstd::prelude::*;
use crate::calendar::{
    day_number, days_before_month, days_before_year, first_day_number, is_calendar_day,
    last_day_number, last_day_of_month, lemma_day_number_in_range,
    lemma_day_number_orders_days, lemma_every_number_has_a_day, MAX_YEAR, MIN_YEAR,
};

verus! {

/// The seconds of one day.
pub const SECONDS_PER_DAY: u32 = 86_400;

/// The nanoseconds of one second.
pub const NANOS_PER_SECOND: u32 = 1_000_000_000;

/// The nanoseconds of one day.
pub const NANOS_PER_DAY: i64 = 86_400_000_000_000;

/// A point of civil time as five numbers: the mathematical value of a
/// [`CivilDateTime`].
pub struct Moment {
    pub year: int,
    /// January = 1
    pub month: int,
    pub day: int,
    /// seconds since midnight
    pub second: int,
    /// nanoseconds since the last whole second
    pub nanosecond: int,
}

/// The moment with these five numbers.
pub open spec fn moment(year: int, month: int, day: int, second: int, nanosecond: int) -> Moment {
    Moment { year, month, day, second, nanosecond }
}

/// An instant splits in one way only into whole days, whole seconds of the
/// day and nanoseconds of the second.
pub proof fn lemma_instant_parts(
    days: int,
    second: int,
    nanosecond: int,
    other_days: int,
    other_second: int,
    other_nanosecond: int,
)
    requires
        0 <= second < SECONDS_PER_DAY,
        0 <= other_second < SECONDS_PER_DAY,
        0 <= nanosecond < NANOS_PER_SECOND,
        0 <= other_nanosecond < NANOS_PER_SECOND,
        (days * SECONDS_PER_DAY + second) * NANOS_PER_SECOND + nanosecond == (other_days
            * SECONDS_PER_DAY + other_second) * NANOS_PER_SECOND + other_nanosecond,
    ensures
        days == other_days,
        second == other_second,
        nanosecond == other_nanosecond,
{
}

impl Moment {
    /// The five numbers name a day of the calendar in a year that can be
    /// represented, and a time within that day.
    pub open spec fn is_valid(self) -> bool {
        &&& MIN_YEAR <= self.year <= MAX_YEAR
        &&& is_calendar_day(self.year, self.month, self.day)
        &&& 0 <= self.second < SECONDS_PER_DAY
        &&& 0 <= self.nanosecond < NANOS_PER_SECOND
    }

    /// The number of the day, in the count in which the 1st of January of
    /// the year 1 is day 1.
    pub open spec fn day_number(self) -> int {
        day_number(self.year, self.month, self.day)
    }

    /// The nanoseconds from the midnight that day 0 begins with to this moment.
    pub open spec fn instant(self) -> int {
        (self.day_number() * SECONDS_PER_DAY + self.second) * NANOS_PER_SECOND + self.nanosecond
    }

    /// The instant of the first moment that can be represented.
    pub open spec fn first_instant() -> int {
        first_day_number() * SECONDS_PER_DAY * NANOS_PER_SECOND
    }

    /// The instant of the last moment that can be represented.
    pub open spec fn last_instant() -> int {
        (last_day_number() + 1) * SECONDS_PER_DAY * NANOS_PER_SECOND - 1
    }

    /// Every moment that can be represented has its instant between the first
    /// and the last.
    pub proof fn lemma_instant_in_range(self)
        requires
            self.is_valid(),
        ensures
            first_day_number() <= self.day_number() <= last_day_number(),
            Moment::first_instant() <= self.instant() <= Moment::last_instant(),
    {
        lemma_day_number_in_range(self.year, self.month, self.day);
    }

    /// The order of moments is the order of their instants.
    pub proof fn lemma_precedes_is_earlier_instant(self, other: Moment)
        requires
            self.is_valid(),
            other.is_valid(),
        ensures
            self.precedes(other) <==> self.instant() < other.instant(),
            self == other <==> self.instant() == other.instant(),
    {
        if self.year != other.year || self.month != other.month || self.day != other.day {
            if self.year < other.year || (self.year == other.year && (self.month < other.month || (
            self.month == other.month && self.day < other.day))) {
                lemma_day_number_orders_days(
                    self.year,
                    self.month,
                    self.day,
                    other.year,
                    other.month,
                    other.day,
                );
            } else {
                lemma_day_number_orders_days(
                    other.year,
                    other.month,
                    other.day,
                    self.year,
                    self.month,
                    self.day,
                );
            }
        }
    }

    /// The moment that can be represented and has the instant `instant`;
    /// nothing where no such moment has it. No two of them share an instant.
    pub open spec fn at_instant(instant: int) -> Option<Moment> {
        if exists|at: Moment| #[trigger] at.is_valid() && at.instant() == instant {
            Some(choose|at: Moment| #[trigger] at.is_valid() && at.instant() == instant)
        } else {
            None
        }
    }

    /// The moment `nanos` nanoseconds after this one (before it, where
    /// `nanos` is negative); nothing where that cannot be represented.
    pub open spec fn plus_nanos(self, nanos: int) -> Option<Moment> {
        Moment::at_instant(self.instant() + nanos)
    }

    /// The moment `days` whole days after this one (before it, where `days`
    /// is negative); nothing where that cannot be represented.
    pub open spec fn plus_days(self, days: int) -> Option<Moment> {
        self.plus_nanos(days * NANOS_PER_DAY)
    }

    /// A moment that can be represented is the one at its own instant.
    pub proof fn lemma_at_own_instant(self)
        requires
            self.is_valid(),
        ensures
            Moment::at_instant(self.instant()) == Some(self),
    {
        let found = choose|at: Moment| #[trigger] at.is_valid() && at.instant() == self.instant();
        found.lemma_precedes_is_earlier_instant(self);
    }

    /// Before the first instant and after the last there is no moment that
    /// can be represented.
    pub proof fn lemma_no_moment_outside(instant: int)
        requires
            !(Moment::first_instant() <= instant <= Moment::last_instant()),
        ensures
            Moment::at_instant(instant) is None,
    {
        assert forall|at: Moment| #[trigger] at.is_valid() implies at.instant() != instant by {
            at.lemma_instant_in_range();
        }
    }

    /// From the first instant to the last, every instant is that of a moment
    /// that can be represented.
    pub proof fn lemma_every_instant_has_a_moment(instant: int)
        requires
            Moment::first_instant() <= instant <= Moment::last_instant(),
        ensures
            Moment::at_instant(instant) is Some,
    {
        let days = instant / (NANOS_PER_DAY as int);
        let rest = instant % (NANOS_PER_DAY as int);
        let date = lemma_every_number_has_a_day(days);
        let at = moment(
            date.0,
            date.1,
            date.2,
            rest / (NANOS_PER_SECOND as int),
            rest % (NANOS_PER_SECOND as int),
        );
        assert(at.is_valid() && at.instant() == instant);
    }

    /// There is a moment `nanos` nanoseconds on exactly where its instant
    /// lies from the first instant to the last, and its instant is that one.
    pub proof fn lemma_plus_nanos_fails_out_of_range_only(self, nanos: int)
        requires
            self.is_valid(),
        ensures
            self.plus_nanos(nanos) is Some <==> Moment::first_instant() <= self.instant() + nanos
                <= Moment::last_instant(),
            self.plus_nanos(nanos) matches Some(end) ==> end.is_valid() && end.instant()
                == self.instant() + nanos,
    {
        if Moment::first_instant() <= self.instant() + nanos <= Moment::last_instant() {
            Moment::lemma_every_instant_has_a_moment(self.instant() + nanos);
        } else {
            Moment::lemma_no_moment_outside(self.instant() + nanos);
        }
    }

    /// Whole days on, the time of day is the same and the number of the day
    /// has grown by the days; and there is such a moment only where that
    /// number is one of a day that can be represented.
    pub proof fn lemma_plus_days_keeps_time_of_day(self, days: int)
        requires
            self.is_valid(),
        ensures
            self.plus_days(days) matches Some(end) ==> {
                &&& end.is_valid()
                &&& end.day_number() == self.day_number() + days
                &&& end.second == self.second
                &&& end.nanosecond == self.nanosecond
            },
            self.plus_days(days) is Some <==> first_day_number() <= self.day_number() + days
                <= last_day_number(),
    {
        self.lemma_plus_nanos_fails_out_of_range_only(days * NANOS_PER_DAY);
        if let Some(end) = self.plus_days(days) {
            end.lemma_instant_in_range();
            lemma_instant_parts(
                end.day_number(),
                end.second,
                end.nanosecond,
                self.day_number() + days,
                self.second,
                self.nanosecond,
            );
        }
    }

    /// The moment with these five numbers, if they name one.
    pub open spec fn checked(year: int, month: int, day: int, second: int, nanosecond: int)
        -> Option<Moment> {
        if moment(year, month, day, second, nanosecond).is_valid() {
            Some(moment(year, month, day, second, nanosecond))
        } else {
            None
        }
    }

    /// The same time of day on the day `year`-`month`-`day`, if there is such
    /// a day.
    pub open spec fn on_day(self, year: int, month: int, day: int) -> Option<Moment> {
        if MIN_YEAR <= year <= MAX_YEAR && is_calendar_day(year, month, day) {
            Some(Moment { year, month, day, second: self.second, nanosecond: self.nanosecond })
        } else {
            None
        }
    }

    /// The same month, day and time in another year.
    pub open spec fn with_year(self, year: int) -> Option<Moment> {
        self.on_day(year, self.month, self.day)
    }

    /// The same year, day and time in another month.
    pub open spec fn with_month(self, month: int) -> Option<Moment> {
        self.on_day(self.year, month, self.day)
    }

    /// The same year, month and time on another day of the month.
    pub open spec fn with_day(self, day: int) -> Option<Moment> {
        self.on_day(self.year, self.month, day)
    }

    /// Chronological order: `self` is strictly earlier than `other`.
    pub open spec fn precedes(self, other: Moment) -> bool {
        ||| self.year < other.year
        ||| self.year == other.year && self.month < other.month
        ||| self.year == other.year && self.month == other.month && self.day < other.day
        ||| self.year == other.year && self.month == other.month && self.day == other.day
            && self.second < other.second
        ||| self.year == other.year && self.month == other.month && self.day == other.day
            && self.second == other.second && self.nanosecond < other.nanosecond
    }
}

/// A date of the proleptic Gregorian calendar with a time of day, to the
/// nanosecond. Every value is a day that exists, in a year from `MIN_YEAR` to
/// `MAX_YEAR`.
#[derive(Clone, Copy, Debug, PartialEq, Eq, PartialOrd, Ord, Hash)]
pub struct CivilDateTime {
    year: i32,
    month: u32,
    day: u32,
    second: u32,
    nanosecond: u32,
}

impl View for CivilDateTime {
    type V = Moment;

    closed spec fn view(&self) -> Moment {
        Moment {
            year: self.year as int,
            month: self.month as int,
            day: self.day as int,
            second: self.second as int,
            nanosecond: self.nanosecond as int,
        }
    }
}

/// The mathematical value of a result that may be missing.
pub open spec fn moment_of(value: Option<CivilDateTime>) -> Option<Moment> {
    match value {
        Some(dt) => Some(dt@),
        None => None,
    }
}

impl CivilDateTime {
    #[verifier::type_invariant]
    pub open spec fn holds_valid_moment(&self) -> bool {
        self@.is_valid()
    }

    /// The date and time with these five numbers, if they name one: `month`
    /// counts from 1, `second` from midnight.
    pub fn new(year: i32, month: u32, day: u32, second: u32, nanosecond: u32) -> (made: Option<Self>)
        ensures
            moment_of(made) == Moment::checked(
                year as int,
                month as int,
                day as int,
                second as int,
                nanosecond as int,
            ),
    {
        if MIN_YEAR <= year && year <= MAX_YEAR && 1 <= month && month <= 12 && 1 <= day
            && day <= last_day_of_month(year, month) && second < SECONDS_PER_DAY
            && nanosecond < NANOS_PER_SECOND {
            Some(CivilDateTime { year, month, day, second, nanosecond })
        } else {
            None
        }
    }

    pub fn year(&self) -> (year: i32)
        ensures
            year == self@.year,
    {
        self.year
    }

    /// The month, counted from January = 1.
    pub fn month(&self) -> (month: u32)
        ensures
            month == self@.month,
    {
        self.month
    }

    /// The month, counted from January = 0.
    pub fn month0(&self) -> (month_0: u32)
        ensures
            month_0 == self@.month - 1,
    {
        proof {
            use_type_invariant(self);
        }
        self.month - 1
    }

    pub fn day(&self) -> (day: u32)
        ensures
            day == self@.day,
    {
        self.day
    }

    /// Seconds since midnight.
    pub fn second(&self) -> (second: u32)
        ensures
            second == self@.second,
    {
        self.second
    }

    /// Nanoseconds since the last whole second.
    pub fn nanosecond(&self) -> (nanosecond: u32)
        ensures
            nanosecond == self@.nanosecond,
    {
        self.nanosecond
    }

    /// The number of the day, in the count in which the 1st of January of
    /// the year 1 is day 1.
    pub fn day_number(&self) -> (number: i64)
        ensures
            number == self@.day_number(),
    {
        proof {
            use_type_invariant(self);
        }
        let before: i64 = self.year as i64 - 1;
        let fourth: i64 = match before.checked_div_euclid(4) {
            Some(fourth) => fourth,
            None => 0,
        };
        let hundredth: i64 = match before.checked_div_euclid(100) {
            Some(hundredth) => hundredth,
            None => 0,
        };
        let four_hundredth: i64 = match before.checked_div_euclid(400) {
            Some(four_hundredth) => four_hundredth,
            None => 0,
        };
        let mut number: i64 = 365 * before + fourth - hundredth + four_hundredth;
        let mut month: u32 = 1;
        while month < self.month
            invariant
                1 <= month <= self.month <= 12,
                number == days_before_year(self.year as int) + days_before_month(
                    self.year as int,
                    month as int,
                ),
                -96_000_000 <= days_before_year(self.year as int) <= 96_000_000,
                0 <= days_before_month(self.year as int, month as int) <= 31 * (month - 1),
            decreases self.month - month,
        {
            number = number + last_day_of_month(self.year, month) as i64;
            month = month + 1;
        }
        number + self.day as i64
    }

    /// The same time of day on another day, if that day exists.
    fn on_day(&self, year: i32, month: u32, day: u32) -> (moved: Option<Self>)
        ensures
            moment_of(moved) == self@.on_day(year as int, month as int, day as int),
    {
        proof {
            use_type_invariant(self);
        }
        if MIN_YEAR <= year && year <= MAX_YEAR && 1 <= month && month <= 12 && 1 <= day
            && day <= last_day_of_month(year, month) {
            Some(
                CivilDateTime {
                    year,
                    month,
                    day,
                    second: self.second,
                    nanosecond: self.nanosecond,
                },
            )
        } else {
            None
        }
    }

    /// The same month, day and time of day in the year `year`; nothing if that
    /// day does not exist there or the year cannot be represented.
    pub fn with_year(&self, year: i32) -> (moved: Option<Self>)
        ensures
            moment_of(moved) == self@.with_year(year as int),
    {
        self.on_day(year, self.month, self.day)
    }

    /// The same year, day and time of day in the month `month` (January = 1);
    /// nothing if that day does not exist there.
    pub fn with_month(&self, month: u32) -> (moved: Option<Self>)
        ensures
            moment_of(moved) == self@.with_month(month as int),
    {
        self.on_day(self.year, month, self.day)
    }

    /// The same year, month and time of day on the day `day` of the month;
    /// nothing if the month has no such day.
    pub fn with_day(&self, day: u32) -> (moved: Option<Self>)
        ensures
            moment_of(moved) == self@.with_day(day as int),
    {
        self.on_day(self.year, self.month, day)
    }

    /// Whether `self` is strictly earlier than `other`.
    pub fn is_before(&self, other: &Self) -> (earlier: bool)
        ensures
            earlier == self@.precedes(other@),
    {
        if self.year != other.year {
            self.year < other.year
        } else if self.month != other.month {
            self.month < other.month
        } else if self.day != other.day {
            self.day < other.day
        } else if self.second != other.second {
            self.second < other.second
        } else {
            self.nanosecond < other.nanosecond
        }
    }
}

} // verus!
