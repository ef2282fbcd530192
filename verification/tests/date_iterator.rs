use std::str::FromStr;

use chrono::{DateTime, Datelike, Duration as OldDuration, NaiveDate, NaiveTime, Timelike, Utc};
use date_steps::civil::CivilDateTime;
use date_steps::date_iterator::{date_iterator_from, date_iterator_from_to, date_iterator_to};
use date_steps::date_ops::InvalidDateHandling::Previous;
use date_steps::date_ops::{
    Chain, DateOp, DayDuration, InvalidDateHandling, MonthDuration, NanoDuration, YearDuration,
};

fn civil(input: &str) -> CivilDateTime {
    let dt = DateTime::<Utc>::from_str(input).unwrap();
    assert_eq!(input, format!("{:?}", dt));
    CivilDateTime::new(dt.year(), dt.month(), dt.day(), dt.num_seconds_from_midnight(), dt.nanosecond())
        .unwrap()
}

fn utc(dt: CivilDateTime) -> DateTime<Utc> {
    let date = NaiveDate::from_ymd_opt(dt.year(), dt.month(), dt.day()).unwrap();
    let time =
        NaiveTime::from_num_seconds_from_midnight_opt(dt.second(), dt.nanosecond()).unwrap();
    date.and_time(time).and_utc()
}

fn nanos(duration: OldDuration) -> NanoDuration {
    NanoDuration(duration.num_nanoseconds().unwrap())
}

fn day(year: i32, month: u32, day: u32) -> CivilDateTime {
    CivilDateTime::new(year, month, day, 0, 0).unwrap()
}

#[test]
pub fn test_date_iterator_from() {
    let input = "1996-12-25T16:39:57.123Z";
    let dt = civil(input);
    assert_eq!(input, format!("{:?}", utc(dt)));

    let duration = DayDuration(2)
        .and_then(nanos(OldDuration::minutes(4)))
        .and_then(YearDuration(3))
        .and_then(MonthDuration(1, Previous));

    let mut iter = date_iterator_from(dt, duration);
    let expected = vec![
        "1996-12-25T16:39:57.123Z",
        "2000-01-27T16:43:57.123Z",
        "2003-02-28T16:47:57.123Z",
        "2006-03-31T16:51:57.123Z",
    ];

    assert_eq!(
        expected,
        iter.take(4).into_iter().map(|d| format!("{:?}", utc(d))).collect::<Vec<_>>()
    );
}

#[test]
pub fn test_date_iterator_from_to() {
    let from_str = "1996-12-25T16:39:57.123Z";
    let from_dt = civil(from_str);
    assert_eq!(from_str, format!("{:?}", utc(from_dt)));

    let to_str = "2006-03-31T16:51:57.123Z";
    let to_dt = civil(to_str);
    assert_eq!(to_str, format!("{:?}", utc(to_dt)));

    let duration = DayDuration(2)
        .and_then(nanos(OldDuration::minutes(4)))
        .and_then(YearDuration(3))
        .and_then(MonthDuration(1, Previous));

    let mut iter = date_iterator_from(from_dt, duration).to(to_dt);
    let expected = vec![
        "1996-12-25T16:39:57.123Z",
        "2000-01-27T16:43:57.123Z",
        "2003-02-28T16:47:57.123Z",
    ];

    assert_eq!(
        expected,
        iter.collect().into_iter().map(|d| format!("{:?}", utc(d))).collect::<Vec<_>>()
    );
}

#[test]
pub fn test_date_iterator_from_to_pairwise() {
    let from_str = "1996-12-25T16:39:57.123Z";
    let from_dt = civil(from_str);
    assert_eq!(from_str, format!("{:?}", utc(from_dt)));

    let to_str = "2006-03-31T16:51:57.123Z";
    let to_dt = civil(to_str);
    assert_eq!(to_str, format!("{:?}", utc(to_dt)));

    let duration = DayDuration(2)
        .and_then(nanos(OldDuration::minutes(4)))
        .and_then(YearDuration(3))
        .and_then(MonthDuration(1, Previous));

    let mut iter = date_iterator_from(from_dt, duration).to(to_dt).pairwise();
    let expected = vec![
        "1996-12-25T16:39:57.123Z to 2000-01-27T16:43:57.123Z",
        "2000-01-27T16:43:57.123Z to 2003-02-28T16:47:57.123Z",
        "2003-02-28T16:47:57.123Z to 2006-03-31T16:51:57.123Z",
    ];

    assert_eq!(
        expected,
        iter.collect()
            .into_iter()
            .map(|d| format!("{:?} to {:?}", utc(d.0), utc(d.1)))
            .collect::<Vec<_>>()
    );
}

#[test]
fn open_ended_iterator_first_yields_the_origin() {
    let origin = civil("1996-12-25T16:39:57.123Z");
    let duration = DayDuration(2)
        .and_then(nanos(OldDuration::minutes(4)))
        .and_then(YearDuration(3))
        .and_then(MonthDuration(1, Previous));
    assert_eq!(date_iterator_from(origin, duration).next(), Some(origin));
}

#[test]
fn every_step_is_reckoned_from_the_origin() {
    let mut iter = date_iterator_from(day(1997, 1, 31), MonthDuration(1, Previous));
    assert_eq!(iter.next(), Some(day(1997, 1, 31)));
    assert_eq!(iter.next(), Some(day(1997, 2, 28)));
    assert_eq!(iter.next(), Some(day(1997, 3, 31)));
    assert_eq!(iter.next(), Some(day(1997, 4, 30)));
    assert_eq!(iter.next(), Some(day(1997, 5, 31)));
}

#[test]
fn nth_step_is_the_scaled_duration_applied_to_the_origin() {
    let origin = civil("1996-12-25T16:39:57.123Z");
    let duration = DayDuration(2)
        .and_then(nanos(OldDuration::minutes(4)))
        .and_then(YearDuration(3))
        .and_then(MonthDuration(1, Previous));
    let mut iter = date_iterator_from(origin, duration);
    for n in 0..40 {
        let duration = DayDuration(2)
            .and_then(nanos(OldDuration::minutes(4)))
            .and_then(YearDuration(3))
            .and_then(MonthDuration(1, Previous));
        assert_eq!(iter.next(), duration.times(n).unwrap().add_to(&origin));
    }
}

#[test]
fn open_ended_iterator_goes_on_after_a_step_without_a_date() {
    let reject = InvalidDateHandling::Reject;
    let mut iter = date_iterator_from(day(1997, 1, 31), MonthDuration(1, reject));
    assert_eq!(iter.next(), Some(day(1997, 1, 31)));
    assert_eq!(iter.next(), None);
    assert_eq!(iter.next(), Some(day(1997, 3, 31)));
    assert_eq!(iter.next(), None);
    assert_eq!(iter.next(), Some(day(1997, 5, 31)));
}

#[test]
fn take_stops_at_the_first_step_without_a_date() {
    let reject = InvalidDateHandling::Reject;
    let mut iter = date_iterator_from(day(1997, 3, 31), MonthDuration(2, reject));
    assert_eq!(iter.take(5), vec![day(1997, 3, 31), day(1997, 5, 31), day(1997, 7, 31)]);
    assert_eq!(iter.next(), None);
    assert_eq!(iter.next(), Some(day(1998, 1, 31)));
    let mut iter = date_iterator_from(day(1997, 3, 31), DayDuration(1));
    assert_eq!(iter.take(0), vec![]);
    assert_eq!(iter.take(2), vec![day(1997, 3, 31), day(1997, 4, 1)]);
    assert_eq!(iter.take(1), vec![day(1997, 4, 2)]);
}

#[test]
fn open_ended_iterator_ends_where_the_years_end() {
    let mut iter = date_iterator_from(day(262_140, 6, 1), YearDuration(1));
    assert_eq!(iter.take(10), vec![day(262_140, 6, 1), day(262_141, 6, 1), day(262_142, 6, 1)]);
    let mut iter = date_iterator_from(day(2000, 1, 1), DayDuration(i32::MAX));
    assert_eq!(iter.take(10), vec![day(2000, 1, 1)]);
}

#[test]
fn bounded_iterator_leaves_the_bound_out() {
    let mut iter = date_iterator_from_to(day(2000, 1, 1), DayDuration(1), day(2000, 1, 4));
    assert_eq!(iter.next(), Some(day(2000, 1, 1)));
    assert_eq!(iter.next(), Some(day(2000, 1, 2)));
    assert_eq!(iter.next(), Some(day(2000, 1, 3)));
    assert_eq!(iter.next(), None);
    assert_eq!(iter.next(), None);

    let mut iter = date_iterator_from_to(day(2000, 1, 1), DayDuration(2), day(2000, 1, 4));
    assert_eq!(iter.collect(), vec![day(2000, 1, 1), day(2000, 1, 3)]);

    let mut iter = date_iterator_from_to(day(2000, 1, 4), DayDuration(1), day(2000, 1, 4));
    assert_eq!(iter.collect(), vec![]);
    let mut iter = date_iterator_from_to(day(2000, 1, 5), DayDuration(1), day(2000, 1, 4));
    assert_eq!(iter.collect(), vec![]);
}

#[test]
fn bounded_iterator_stays_ended() {
    let mut iter = date_iterator_from_to(day(2000, 1, 3), DayDuration(-1), day(2000, 1, 3));
    assert_eq!(iter.next(), None);
    assert_eq!(iter.next(), None);
    assert_eq!(iter.next(), None);

    let reject = InvalidDateHandling::Reject;
    let mut iter = date_iterator_from_to(day(1997, 1, 31), MonthDuration(1, reject), day(1998, 1, 1));
    assert_eq!(iter.next(), Some(day(1997, 1, 31)));
    assert_eq!(iter.next(), None);
    assert_eq!(iter.next(), None);
}

#[test]
fn date_iterator_to_bounds_an_iterator_that_has_begun() {
    let mut open = date_iterator_from(day(2000, 1, 1), DayDuration(1));
    assert_eq!(open.next(), Some(day(2000, 1, 1)));
    let mut iter = date_iterator_to(open, day(2000, 1, 4));
    assert_eq!(iter.collect(), vec![day(2000, 1, 2), day(2000, 1, 3)]);
}

#[test]
fn pairwise_iterator_pairs_neighbouring_steps() {
    let mut iter = date_iterator_from(day(1997, 1, 31), MonthDuration(1, Previous)).pairwise();
    assert_eq!(iter.next(), Some((day(1997, 1, 31), day(1997, 2, 28))));
    assert_eq!(iter.next(), Some((day(1997, 2, 28), day(1997, 3, 31))));
    assert_eq!(iter.next(), Some((day(1997, 3, 31), day(1997, 4, 30))));
}

#[test]
fn pairwise_iterator_ends_where_either_date_is_missing() {
    let mut iter = date_iterator_from(day(262_141, 6, 1), YearDuration(1)).pairwise();
    assert_eq!(iter.next(), Some((day(262_141, 6, 1), day(262_142, 6, 1))));
    assert_eq!(iter.next(), None);
    assert_eq!(iter.next(), None);
}

#[test]
fn bounded_pairwise_iterator_bounds_the_first_date_only() {
    let mut iter =
        date_iterator_from_to(day(2000, 1, 1), DayDuration(2), day(2000, 1, 4)).pairwise();
    assert_eq!(iter.next(), Some((day(2000, 1, 1), day(2000, 1, 3))));
    assert_eq!(iter.next(), Some((day(2000, 1, 3), day(2000, 1, 5))));
    assert_eq!(iter.next(), None);
    assert_eq!(iter.next(), None);
}
