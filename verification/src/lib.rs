//! Calendar-aware durations and the date sequences built from them.
//!
//! A duration is a fixed shape of offset (so many days, months, years or
//! nanoseconds, or two of these in a row) that becomes a date only when it is
//! applied to an origin. The iterators step through the dates
//! `origin + k * duration`, always reckoned from the origin itself.

pub mod calendar;
pub mod civil;
pub mod date_iterator;
pub mod date_ops;

pub use calendar::{is_leap_year, last_day_of_month, last_day_of_month_0};
pub use civil::{CivilDateTime, Moment};
pub use date_iterator::{
    date_iterator_from, date_iterator_from_to, date_iterator_to, ClosedDateIterator,
    ClosedPairwiseDateIterator, OpenEndedDateIterator, OpenEndedPairwiseDateIterator,
};
pub use date_ops::{
    AndThen, Chain, DateOp, DayDuration, InvalidDateHandling, MonthDuration, NanoDuration,
    YearDuration,
};
