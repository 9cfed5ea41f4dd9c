use chrono::{Datelike, NaiveDate, Utc};
use gitlab_tokens_exporter::date::Date;

fn days(from: (i32, u32, u32), to: (i32, u32, u32)) -> i64 {
    let today = Date::from_ymd(from.0, from.1, from.2).unwrap();
    let day = Date::from_ymd(to.0, to.1, to.2).unwrap();
    day.days_from(today)
}

#[test]
fn days_that_do_not_exist_give_no_date() {
    assert!(Date::from_ymd(2024, 2, 29).is_some());
    assert!(Date::from_ymd(2023, 2, 29).is_none());
    assert!(Date::from_ymd(1900, 2, 29).is_none());
    assert!(Date::from_ymd(2000, 2, 29).is_some());
    assert!(Date::from_ymd(2023, 4, 31).is_none());
    assert!(Date::from_ymd(2023, 0, 1).is_none());
    assert!(Date::from_ymd(2023, 13, 1).is_none());
    assert!(Date::from_ymd(2023, 1, 0).is_none());
    assert!(Date::from_ymd(2023, u32::MAX, u32::MAX).is_none());
}

#[test]
fn years_out_of_range_give_no_date() {
    assert!(Date::from_ymd(262142, 12, 31).is_some());
    assert!(Date::from_ymd(262143, 1, 1).is_none());
    assert!(Date::from_ymd(-262143, 1, 1).is_some());
    assert!(Date::from_ymd(-262144, 12, 31).is_none());
}

#[test]
fn days_between_dates() {
    assert_eq!(days((2014, 1, 1), (2014, 1, 1)), 0);
    assert_eq!(days((2013, 12, 31), (2014, 1, 1)), 1);
    assert_eq!(days((2014, 1, 2), (2014, 1, 1)), -1);
    assert_eq!(days((2013, 9, 23), (2014, 1, 1)), 100);
    assert_eq!(days((1614, 1, 1), (2014, 1, 1)), 365 * 400 + 97);
    assert_eq!(days((-1, 12, 31), (0, 1, 1)), 1);
    assert_eq!(days((-262143, 1, 1), (262142, 12, 31)), 191_491_528);
}

/// The number of a day in the calendar, 1 January of the year 1 being 1.
fn day_number(year: i64, month: i64, day: i64) -> i64 {
    let leap = year.rem_euclid(4) == 0 && (year.rem_euclid(100) != 0 || year.rem_euclid(400) == 0);
    let mut before = 0;
    for m in 1..month {
        before += match m {
            2 => 28 + i64::from(leap),
            4 | 6 | 9 | 11 => 30,
            _ => 31,
        };
    }
    let past = year - 1;
    365 * past + past.div_euclid(4) - past.div_euclid(100) + past.div_euclid(400) + before + day
}

#[test]
fn days_follow_the_calendar() {
    let origin = Date::from_ymd(1, 1, 1).unwrap();
    for year in [-262143, -401, -400, -100, -4, -1, 0, 1, 4, 100, 400, 1900, 2000, 2023, 2024, 262142] {
        for month in 1..=12 {
            for day in [1, 15, 28, 29, 30, 31] {
                if let Some(date) = Date::from_ymd(year, month, day) {
                    assert_eq!(
                        date.days_from(origin),
                        day_number(i64::from(year), i64::from(month), i64::from(day)) - 1
                    );
                }
            }
        }
    }
}

#[test]
fn sign_of_days_tells_order() {
    assert!(days((2024, 1, 31), (2024, 2, 1)) > 0);
    assert!(days((2024, 2, 1), (2024, 1, 31)) < 0);
    assert_eq!(days((2024, 2, 1), (2024, 2, 1)), 0);
}

#[test]
fn today_is_the_current_date() {
    let before = Utc::now().date_naive();
    let today = Date::today();
    let after = Utc::now().date_naive();
    let distance = |date: NaiveDate| {
        Date::from_ymd(date.year(), date.month(), date.day())
            .unwrap()
            .days_from(today)
    };
    assert!(distance(before) <= 0 && distance(after) >= 0);
}
