use chrono::{Datelike, Days, NaiveDate};
use resolution::calendar::{is_leap_year, month_of_year_from_name, YearAndDays};
use resolution::{Day, DayOfMonth, MonthOfYear};

#[test]
fn test_helpers() {
    assert!(is_leap_year(1904));
    assert!(is_leap_year(1996));
    assert!(is_leap_year(2000));
    assert!(!is_leap_year(1900));
}

#[test]
fn tests_test_date() {
    let chrono_base = NaiveDate::from_ymd_opt(0, 1, 1).unwrap();

    for i in -2_000_000..2_000_000_i32 {
        let chrono_adj = if i >= 0 {
            chrono_base + Days::new(i as u64)
        } else {
            chrono_base - Days::new(-i as u64)
        };
        let date = Day(i);
        assert_eq!(chrono_adj.year(), date.year_num());
        assert_eq!(chrono_adj.month() as u8, date.month_of_year().number());
        assert_eq!(chrono_adj.day() as u8, date.day_of_month());
    }
}

const MONTHS: [MonthOfYear; 12] = [
    MonthOfYear::Jan,
    MonthOfYear::Feb,
    MonthOfYear::Mar,
    MonthOfYear::Apr,
    MonthOfYear::May,
    MonthOfYear::Jun,
    MonthOfYear::Jul,
    MonthOfYear::Aug,
    MonthOfYear::Sep,
    MonthOfYear::Oct,
    MonthOfYear::Nov,
    MonthOfYear::Dec,
];

#[test]
fn test_new() {
    for year in 1840..10_000 {
        let chrono_start = NaiveDate::from_ymd_opt(year, 1, 1).unwrap();
        let date_start = Day::first_on_year(year);

        assert_eq!(chrono_start.year(), date_start.year_num());
        assert_eq!(chrono_start.month() as u8, date_start.month_of_year().number());
        assert_eq!(chrono_start.day() as u8, date_start.day_of_month());

        let chrono_end = NaiveDate::from_ymd_opt(year, 12, 31).unwrap();
        let date_end = Day::last_on_year(year);

        assert_eq!(chrono_end.year(), date_start.year_num());
        assert_eq!(chrono_end.month() as u8, date_end.month_of_year().number());
        assert_eq!(chrono_end.day() as u8, date_end.day_of_month());

        for month in MONTHS {
            let chrono_start = NaiveDate::from_ymd_opt(year, month.number() as u32, 1).unwrap();
            let date_start = Day::first_on_month(year, month);

            assert_eq!(chrono_start.year(), date_start.year_num());
            assert_eq!(chrono_start.month() as u8, date_start.month_of_year().number());
            assert_eq!(chrono_start.day() as u8, date_start.day_of_month());

            let chrono_end =
                NaiveDate::from_ymd_opt(year, month.number() as u32, month.num_days(year) as u32)
                    .unwrap();
            let date_end = Day::last_on_month(year, month);

            assert_eq!(chrono_end.year(), date_start.year_num());
            assert_eq!(chrono_end.month() as u8, date_end.month_of_year().number());
            assert_eq!(chrono_end.day() as u8, date_end.day_of_month());

            assert_eq!(date_start, Day::ymd(year, month, DayOfMonth::D1));
            assert_eq!(
                date_end,
                Day::first_on_month(year, month).succ_n(month.num_days(year) as u16 - 1)
            );
        }
    }
}

#[test]
fn leap_years_at_century_boundaries() {
    assert!(is_leap_year(0));
    assert!(is_leap_year(-4));
    assert!(!is_leap_year(-100));
    assert!(is_leap_year(-400));
    assert!(!is_leap_year(2100));
    assert!(is_leap_year(2400));
    assert!(!is_leap_year(2023));
}

#[test]
fn day_zero_is_first_of_year_zero() {
    assert_eq!(Day(0).to_ymd(), (0, 1, 1));
    assert_eq!(Day(-1).to_ymd(), (-1, 12, 31));
    assert_eq!(Day(59).to_ymd(), (0, 2, 29));
    assert_eq!(Day(366).to_ymd(), (1, 1, 1));
    assert_eq!(Day::first_on_year(2021).inner(), 738156);
    assert_eq!(Day::first_on_year(1970).inner(), 719528);
}

#[test]
fn round_trip_across_the_whole_range() {
    let mut d: i64 = i32::MIN as i64;
    while d <= i32::MAX as i64 {
        let day = Day(d as i32);
        let (y, m, dd) = day.to_ymd();
        assert_eq!(Day::from_ymd(y, m, dd), Some(day));
        d += 9973;
    }
    for d in [i32::MIN, i32::MIN + 1, -146097, -1, 0, 1, 146096, 146097, i32::MAX - 1, i32::MAX] {
        let day = Day(d);
        let (y, m, dd) = day.to_ymd();
        assert_eq!(Day::from_ymd(y, m, dd), Some(day));
    }
}

#[test]
fn extreme_days() {
    assert_eq!(Day(i32::MIN).to_ymd(), (-5879611, 6, 22));
    assert_eq!(Day(i32::MAX).to_ymd(), (5879610, 7, 11));
}

#[test]
fn cross_validation_at_boundary_years() {
    for year in [-400, -100, -4, -1, 0, 1, 4, 100, 400, 1600, 1700, 1900, 2000, 2100, 2400] {
        for (m, d) in [(1, 1), (2, 28), (3, 1), (12, 31)] {
            let c = NaiveDate::from_ymd_opt(year, m, d).unwrap();
            let day = Day::from_ymd(year, m as u8, d as u8).unwrap();
            assert_eq!(day.inner(), c.num_days_from_ce() + 365);
            assert_eq!(day.to_ymd(), (year, m as u8, d as u8));
        }
        let has_feb_29 = NaiveDate::from_ymd_opt(year, 2, 29).is_some();
        assert_eq!(Day::from_ymd(year, 2, 29).is_some(), has_feb_29);
        assert_eq!(is_leap_year(year), has_feb_29);
    }
}

#[test]
fn from_ymd_rejects_invalid_dates() {
    assert_eq!(Day::from_ymd(2021, 2, 29), None);
    assert_eq!(Day::from_ymd(2021, 13, 1), None);
    assert_eq!(Day::from_ymd(2021, 0, 1), None);
    assert_eq!(Day::from_ymd(2021, 4, 31), None);
    assert_eq!(Day::from_ymd(2021, 4, 0), None);
    assert_eq!(Day::from_ymd(2020, 2, 29), Some(Day::ymd(2020, MonthOfYear::Feb, DayOfMonth::D28).succ()));
    assert_eq!(Day::from_ymd(6_000_000, 1, 1), None);
}

#[test]
fn year_and_days_split() {
    let s = YearAndDays::calculate(Day::from_ymd(2000, 12, 31).unwrap().inner());
    assert_eq!(s.year, 2000);
    assert!(s.leap());
    assert_eq!(s.days_through(), 365);
    assert_eq!(s.month(), MonthOfYear::Dec);
    assert_eq!(s.day(), 31);
    let s = YearAndDays::calculate(Day::from_ymd(1900, 3, 1).unwrap().inner());
    assert!(!s.leap());
    assert_eq!(s.days_through(), 59);
}

#[test]
fn month_tables() {
    assert_eq!(MonthOfYear::Feb.num_days(2000), 29);
    assert_eq!(MonthOfYear::Feb.num_days(1900), 28);
    assert_eq!(MonthOfYear::Mar.cumulative_days(2024), 60);
    assert_eq!(MonthOfYear::Mar.cumulative_days(2023), 59);
    assert_eq!(MonthOfYear::Dec.cumulative_days(2023), 334);
    assert_eq!(MonthOfYear::Sep.name(), "Sep");
    assert_eq!(MonthOfYear::from_number(7), Some(MonthOfYear::Jul));
    assert_eq!(MonthOfYear::from_number(0), None);
    assert_eq!(MonthOfYear::from_number(13), None);
    assert_eq!(MonthOfYear::Oct.months_from_jan(), 9);
    assert_eq!(DayOfMonth::D17.number(), 17);
    assert_eq!(DayOfMonth::D1.offset(), 0);
}

#[test]
fn month_names() {
    assert_eq!(month_of_year_from_name("Jan").unwrap(), MonthOfYear::Jan);
    assert_eq!(month_of_year_from_name("dec").unwrap(), MonthOfYear::Dec);
    assert_eq!(month_of_year_from_name("SEP").unwrap(), MonthOfYear::Sep);
    assert_eq!(month_of_year_from_name("August").unwrap(), MonthOfYear::Aug);
    assert_eq!(
        month_of_year_from_name("Foo").unwrap_err(),
        "Unexpected month name: `Foo`"
    );
    assert!(month_of_year_from_name("Ja").is_err());
}

#[test]
fn with_day_moves_within_month() {
    let d = Day::from_ymd(2021, 5, 17).unwrap();
    assert_eq!(d.with_day(DayOfMonth::D3).to_ymd(), (2021, 5, 3));
    assert_eq!(d.with_day(DayOfMonth::D28).to_ymd(), (2021, 5, 28));
    assert_eq!(d.with_day(DayOfMonth::D17), d);
}
