use date_steps::civil::CivilDateTime;
use date_steps::{is_leap_year, last_day_of_month, last_day_of_month_0};

#[test]
fn leap_years_follow_the_gregorian_rule() {
    assert!(is_leap_year(2000));
    assert!(is_leap_year(1996));
    assert!(is_leap_year(2004));
    assert!(!is_leap_year(1900));
    assert!(!is_leap_year(1997));
    assert!(!is_leap_year(2001));
    assert!(is_leap_year(0));
    assert!(is_leap_year(-4));
    assert!(!is_leap_year(-100));
    assert!(is_leap_year(-400));
    assert!(!is_leap_year(-1));
    assert!(is_leap_year(400_000));
    assert!(!is_leap_year(i32::MAX));
    assert!(is_leap_year(i32::MIN));
}

#[test]
fn last_days_of_the_months() {
    assert_eq!(last_day_of_month(2000, 2), 29);
    assert_eq!(last_day_of_month(1997, 2), 28);
    assert_eq!(last_day_of_month(1900, 2), 28);
    for month in [1, 3, 5, 7, 8, 10, 12] {
        assert_eq!(last_day_of_month(1997, month), 31);
        assert_eq!(last_day_of_month(2000, month), 31);
    }
    for month in [4, 6, 9, 11] {
        assert_eq!(last_day_of_month(1997, month), 30);
        assert_eq!(last_day_of_month(2000, month), 30);
    }
}

#[test]
fn last_days_of_the_months_counted_from_zero() {
    assert_eq!(last_day_of_month_0(2000, 1), 29);
    assert_eq!(last_day_of_month_0(1997, 1), 28);
    assert_eq!(last_day_of_month_0(1997, 0), 31);
    assert_eq!(last_day_of_month_0(1997, 3), 30);
    assert_eq!(last_day_of_month_0(1997, 11), 31);
    assert_eq!(last_day_of_month_0(1997, u32::MAX), 31);
}

#[test]
fn a_number_that_names_no_month_counts_as_31_days() {
    assert_eq!(last_day_of_month(1997, 0), 31);
    assert_eq!(last_day_of_month(1997, 13), 31);
    assert_eq!(last_day_of_month_0(1997, 12), 31);
}

#[test]
fn new_accepts_the_days_of_the_calendar_only() {
    assert!(CivilDateTime::new(2000, 2, 29, 0, 0).is_some());
    assert!(CivilDateTime::new(1900, 2, 29, 0, 0).is_none());
    assert!(CivilDateTime::new(1997, 4, 31, 0, 0).is_none());
    assert!(CivilDateTime::new(1997, 0, 1, 0, 0).is_none());
    assert!(CivilDateTime::new(1997, 13, 1, 0, 0).is_none());
    assert!(CivilDateTime::new(1997, 1, 0, 0, 0).is_none());
    assert!(CivilDateTime::new(1997, 1, 1, 86_399, 999_999_999).is_some());
    assert!(CivilDateTime::new(1997, 1, 1, 86_400, 0).is_none());
    assert!(CivilDateTime::new(1997, 1, 1, 0, 1_000_000_000).is_none());
    assert!(CivilDateTime::new(262_142, 12, 31, 0, 0).is_some());
    assert!(CivilDateTime::new(262_143, 1, 1, 0, 0).is_none());
    assert!(CivilDateTime::new(-262_143, 1, 1, 0, 0).is_some());
    assert!(CivilDateTime::new(-262_144, 12, 31, 0, 0).is_none());
}

#[test]
fn getters_give_the_numbers_back() {
    let dt = CivilDateTime::new(1996, 12, 25, 59_997, 123_000_000).unwrap();
    assert_eq!(dt.year(), 1996);
    assert_eq!(dt.month(), 12);
    assert_eq!(dt.month0(), 11);
    assert_eq!(dt.day(), 25);
    assert_eq!(dt.second(), 59_997);
    assert_eq!(dt.nanosecond(), 123_000_000);
}

#[test]
fn setters_change_one_field() {
    let dt = CivilDateTime::new(2000, 1, 31, 7, 9).unwrap();
    assert_eq!(dt.with_year(1999), CivilDateTime::new(1999, 1, 31, 7, 9));
    assert_eq!(dt.with_month(3), CivilDateTime::new(2000, 3, 31, 7, 9));
    assert_eq!(dt.with_day(1), CivilDateTime::new(2000, 1, 1, 7, 9));
    assert_eq!(dt.with_month(2), None);
    assert_eq!(dt.with_month(0), None);
    assert_eq!(dt.with_month(13), None);
    assert_eq!(dt.with_day(32), None);
    assert_eq!(dt.with_day(0), None);
    assert_eq!(dt.with_year(262_143), None);
    let leap_day = CivilDateTime::new(2000, 2, 29, 0, 0).unwrap();
    assert_eq!(leap_day.with_year(2001), None);
    assert_eq!(leap_day.with_year(2004), CivilDateTime::new(2004, 2, 29, 0, 0));
}

#[test]
fn is_before_is_the_order_of_time() {
    let base = CivilDateTime::new(2000, 6, 15, 100, 100).unwrap();
    assert!(!base.is_before(&base));
    let later = [
        CivilDateTime::new(2001, 1, 1, 0, 0).unwrap(),
        CivilDateTime::new(2000, 7, 1, 0, 0).unwrap(),
        CivilDateTime::new(2000, 6, 16, 0, 0).unwrap(),
        CivilDateTime::new(2000, 6, 15, 101, 0).unwrap(),
        CivilDateTime::new(2000, 6, 15, 100, 101).unwrap(),
    ];
    for other in later {
        assert!(base.is_before(&other));
        assert!(!other.is_before(&base));
        assert!(base < other);
    }
}

#[test]
fn day_number_counts_from_the_first_day_of_the_year_one() {
    assert_eq!(CivilDateTime::new(1, 1, 1, 0, 0).unwrap().day_number(), 1);
    assert_eq!(CivilDateTime::new(0, 12, 31, 0, 0).unwrap().day_number(), 0);
    assert_eq!(CivilDateTime::new(0, 1, 1, 0, 0).unwrap().day_number(), -365);
    assert_eq!(CivilDateTime::new(1970, 1, 1, 0, 0).unwrap().day_number(), 719_163);
    assert_eq!(CivilDateTime::new(2000, 3, 1, 86_399, 5).unwrap().day_number(), 730_180);
}
