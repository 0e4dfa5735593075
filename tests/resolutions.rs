use chrono::{Datelike, NaiveDate};
use resolution::{
    DateResolutionBuilder, Error, MinutesParseErrorKind, Day, DayOfMonth, DaySubdivison, Friday, Minutes, Monday, Month,
    MonthOfYear, Quarter, QuarterOfYear, Saturday, Sunday, Thursday, Tuesday, Wednesday, Week,
    Weekday, Year,
};

fn chrono_day(d: NaiveDate) -> Day {
    Day(d.num_days_from_ce() + 365)
}

#[test]
fn test_builder() {
    assert_eq!(2024.q1(), Quarter::from_parts(Year::new(2024), QuarterOfYear::Q1));
    assert_eq!(2024.q1(), Year::new(2024).first_quarter());
    assert_eq!(Year::new(2024).q1(), Year::new(2024).first_quarter());
}

#[test]
fn day_test_parse_date_syntax() {
    assert_eq!(
        "2021-01-01".parse::<Day>().unwrap(),
        chrono_day(NaiveDate::from_ymd_opt(2021, 1, 1).unwrap()),
    );
    assert_eq!(
        "2021-01-01".parse::<Day>().unwrap().succ(),
        chrono_day(NaiveDate::from_ymd_opt(2021, 1, 2).unwrap()),
    );
    assert_eq!(
        "2021-01-01".parse::<Day>().unwrap().succ().pred(),
        chrono_day(NaiveDate::from_ymd_opt(2021, 1, 1).unwrap()),
    );
}

#[test]
fn day_test_start() {
    assert_eq!(Day(2), chrono_day(NaiveDate::from_ymd_opt(0, 1, 3).unwrap()));
    assert_eq!(Day(1), chrono_day(NaiveDate::from_ymd_opt(0, 1, 2).unwrap()));
    assert_eq!(Day(0), chrono_day(NaiveDate::from_ymd_opt(0, 1, 1).unwrap()));
    assert_eq!(Day(-1), chrono_day(NaiveDate::from_ymd_opt(-1, 12, 31).unwrap()));
    assert_eq!(Day(-2), chrono_day(NaiveDate::from_ymd_opt(-1, 12, 30).unwrap()));
}

#[test]
fn month_test_parse() {
    assert_eq!(
        "Jan-2021".parse::<Month>().unwrap().start(),
        Day::ymd(2021, MonthOfYear::Jan, DayOfMonth::D1)
    );
    assert_eq!(
        "Jan-2021".parse::<Month>().unwrap().succ().start(),
        Day::ymd(2021, MonthOfYear::Feb, DayOfMonth::D1)
    );
    assert_eq!(
        "Jan-2021".parse::<Month>().unwrap().succ().pred().start(),
        Day::ymd(2021, MonthOfYear::Jan, DayOfMonth::D1)
    );
}

#[test]
fn month_test_start() {
    assert_eq!(
        Month(24240).start(),
        Day::ymd(2020, MonthOfYear::Jan, DayOfMonth::D1)
    );
    assert_eq!(
        Month(24249).start(),
        Day::ymd(2020, MonthOfYear::Oct, DayOfMonth::D1)
    );
    assert_eq!(Month(15).start(), Day::ymd(1, MonthOfYear::Apr, DayOfMonth::D1));
    assert_eq!(Month(2).start(), Day::ymd(0, MonthOfYear::Mar, DayOfMonth::D1));
    assert_eq!(Month(1).start(), Day::ymd(0, MonthOfYear::Feb, DayOfMonth::D1));
    assert_eq!(Month(0).start(), Day::ymd(0, MonthOfYear::Jan, DayOfMonth::D1));
    assert_eq!(Month(-1).start(), Day::ymd(-1, MonthOfYear::Dec, DayOfMonth::D1));
    assert_eq!(Month(-2).start(), Day::ymd(-1, MonthOfYear::Nov, DayOfMonth::D1));
    assert_eq!(Month(-15).start(), Day::ymd(-2, MonthOfYear::Oct, DayOfMonth::D1));
}

#[test]
fn test_parse_quarter_syntax() {
    assert_eq!(
        "Q1-2021".parse::<Quarter>().unwrap().start(),
        chrono_day(NaiveDate::from_ymd_opt(2021, 1, 1).unwrap()),
    );
    assert_eq!(
        "Q1-2021".parse::<Quarter>().unwrap().succ().start(),
        chrono_day(NaiveDate::from_ymd_opt(2021, 4, 1).unwrap()),
    );
    assert_eq!(
        "Q1-2021".parse::<Quarter>().unwrap().succ().pred().start(),
        chrono_day(NaiveDate::from_ymd_opt(2021, 1, 1).unwrap()),
    );
}

#[test]
fn quarter_test_parse_date_syntax() {
    assert_eq!(
        "2021-01-01".parse::<Quarter>().unwrap().start(),
        chrono_day(NaiveDate::from_ymd_opt(2021, 1, 1).unwrap()),
    );
    assert_eq!(
        "2021-01-01".parse::<Quarter>().unwrap().succ().start(),
        chrono_day(NaiveDate::from_ymd_opt(2021, 4, 1).unwrap()),
    );
    assert_eq!(
        "2021-01-01"
            .parse::<Quarter>()
            .unwrap()
            .succ()
            .pred()
            .start(),
        chrono_day(NaiveDate::from_ymd_opt(2021, 1, 1).unwrap()),
    );
}

#[test]
fn quarter_test_start() {
    assert_eq!(Quarter(2).start(), chrono_day(NaiveDate::from_ymd_opt(0, 7, 1).unwrap()));
    assert_eq!(Quarter(1).start(), chrono_day(NaiveDate::from_ymd_opt(0, 4, 1).unwrap()));
    assert_eq!(Quarter(0).start(), chrono_day(NaiveDate::from_ymd_opt(0, 1, 1).unwrap()));
    assert_eq!(Quarter(-1).start(), chrono_day(NaiveDate::from_ymd_opt(-1, 10, 1).unwrap()));
    assert_eq!(Quarter(-2).start(), chrono_day(NaiveDate::from_ymd_opt(-1, 7, 1).unwrap()));
}

#[test]
fn year_test_parse() {
    assert_eq!(
        "2021".parse::<Year>().unwrap().start(),
        Day::ymd(2021, MonthOfYear::Jan, DayOfMonth::D1),
    );
    assert_eq!(
        "2021".parse::<Year>().unwrap().succ().start(),
        Day::ymd(2022, MonthOfYear::Jan, DayOfMonth::D1),
    );
    assert_eq!(
        "2021".parse::<Year>().unwrap().succ().pred().start(),
        Day::ymd(2021, MonthOfYear::Jan, DayOfMonth::D1),
    );

    assert!("a2021".parse::<Year>().is_err(),);
}

#[test]
fn week_test_parse() {
    assert_eq!(
        "Week starting 2021-12-06"
            .parse::<Week<Monday>>()
            .unwrap()
            .start(),
        Day::ymd(2021, MonthOfYear::Dec, DayOfMonth::D6),
    );
    assert_eq!(
        "Week starting 2021-12-06"
            .parse::<Week<Monday>>()
            .unwrap()
            .succ()
            .start(),
        Day::ymd(2021, MonthOfYear::Dec, DayOfMonth::D13),
    );
    assert_eq!(
        "Week starting 2021-12-06"
            .parse::<Week<Monday>>()
            .unwrap()
            .succ()
            .pred()
            .start(),
        Day::ymd(2021, MonthOfYear::Dec, DayOfMonth::D6),
    );

    assert!("Week starting 2021-12-06".parse::<Week<Tuesday>>().is_err(),);
    assert!("Week starting 2021-12-06"
        .parse::<Week<Wednesday>>()
        .is_err(),);
    assert!("Week starting 2021-12-06"
        .parse::<Week<Thursday>>()
        .is_err(),);
    assert!("Week starting 2021-12-06".parse::<Week<Friday>>().is_err(),);
    assert!("Week starting 2021-12-06"
        .parse::<Week<Saturday>>()
        .is_err(),);
    assert!("Week starting 2021-12-06".parse::<Week<Sunday>>().is_err(),);
}

#[test]
fn week_holds_its_days() {
    let dt = Day::ymd(2021, MonthOfYear::Dec, DayOfMonth::D6);
    let wk = Week::<Monday>::new(dt);
    assert!(wk.start() <= dt && wk.end() >= dt);
    let wk = Week::<Tuesday>::new(dt);
    assert!(wk.start() <= dt && wk.end() >= dt);
    assert_eq!(wk.start().to_ymd(), (2021, 11, 30));
    let wk = Week::<Sunday>::new(dt);
    assert!(wk.start() <= dt && wk.end() >= dt);
    assert_eq!(wk.start().to_ymd(), (2021, 12, 5));
    assert_eq!(Weekday::of_day(dt), Weekday::Mon);
    assert_eq!(Weekday::of_day(Day(0)), Weekday::Sat);
    assert_eq!(Weekday::Wed.name(), "Wednesday");
}

#[test]
fn week_with_wrong_start_day_reports_it() {
    match "Week starting 2021-12-06".parse::<Week<Friday>>() {
        Err(Error::UnexpectedStartDate { date, required, actual }) => {
            assert_eq!(date, Day::ymd(2021, MonthOfYear::Dec, DayOfMonth::D6));
            assert_eq!(required, Weekday::Fri);
            assert_eq!(actual, Weekday::Mon);
        }
        other => panic!("unexpected {:?}", other),
    }
    assert!(matches!(
        "Week beginning 2021-12-06".parse::<Week<Monday>>(),
        Err(Error::ParseCustom { .. })
    ));
}

fn check_relative<const N: u16>(base: Minutes<N>, periods: u16) {
    for i in 0..periods {
        assert_eq!(
            base.succ_n(i).relative(),
            DaySubdivison::<N>::new(i + 1).unwrap()
        );
        let same_place_later_day =
            Minutes::<N>::from_monotonic(base.to_monotonic() + i as i32 * periods as i32);
        assert_eq!(same_place_later_day.relative().index(), 1);
        assert_eq!(base.succ_n(i).relative().index(), i + 1,);
    }
}

#[test]
fn test_relative() {
    let base = "2021-01-01P0001/1440".parse::<Minutes<1>>().unwrap();
    check_relative(base, 1440);

    let base = "2021-01-01P0001/0720".parse::<Minutes<2>>().unwrap();
    check_relative(base, 720);

    let base = "2021-01-01P0001/0288".parse::<Minutes<5>>().unwrap();
    check_relative(base, 288);

    let base = "2021-01-01P0001/0048".parse::<Minutes<30>>().unwrap();
    check_relative(base, 48);

    let base = "2021-01-01P0001/0024".parse::<Minutes<60>>().unwrap();
    check_relative(base, 24);

    let base = "2021-01-01P0001/0012".parse::<Minutes<120>>().unwrap();
    check_relative(base, 12);
}

#[test]
fn group_laws() {
    let d = Day(738156);
    assert_eq!(d.succ_n(400).pred_n(400), d);
    assert_eq!(d.succ().pred(), d);
    let m = Month(-7);
    assert_eq!(m.succ_n(65535).pred_n(65535), m);
    assert_eq!(m.pred().succ(), m);
    let q = Quarter(8085);
    assert_eq!(q.succ_n(3).pred_n(3), q);
    let y = Year::new(-44);
    assert_eq!(y.succ_n(100).pred_n(100), y);
    let w = Week::<Thursday>::from_monotonic(12);
    assert_eq!(w.succ_n(52).pred_n(52), w);
    let x = Minutes::<15>::from_monotonic(-3);
    assert_eq!(x.succ_n(96).pred_n(96), x);
    assert_eq!(x.succ().pred(), x);
}

#[test]
fn monotonic_round_trip() {
    for i in [i32::MIN, -1, 0, 1, 24240, i32::MAX] {
        assert_eq!(Day::from_monotonic(i).to_monotonic(), i);
        assert_eq!(Month::from_monotonic(i).to_monotonic(), i);
        assert_eq!(Quarter::from_monotonic(i).to_monotonic(), i);
        assert_eq!(Year::from_monotonic(i).to_monotonic(), i);
        assert_eq!(Week::<Monday>::from_monotonic(i).to_monotonic(), i);
        assert_eq!(Minutes::<720>::from_monotonic(i).to_monotonic(), i);
        assert_eq!(Minutes::<1>::from_monotonic(i).to_monotonic(), i);
    }
    let d = Day(5);
    assert_eq!(Day::from_monotonic(d.to_monotonic()), d);
    assert_eq!(Day(3).between(Day(10)), 7);
}

#[test]
fn nesting_consistency() {
    for y in [-401, -1, 0, 1, 1900, 2000, 2024] {
        let jan = Year::new(y).jan();
        assert_eq!(Month::from_day(jan.start()), jan);
    }
    for d in [-1000, -1, 0, 59, 60, 738156, 738520] {
        let day = Day(d);
        let q = Quarter::from_day(day);
        assert!(q.first_month().start() <= day && day <= q.last_month().last_day());
    }
    let q = Quarter::from_day(Day::from_ymd(2021, 8, 15).unwrap());
    assert_eq!(q.quarter_num(), 3);
    assert_eq!(q.year_num(), 2021);
    assert_eq!(q.first_month(), Year::new(2021).jul());
    assert_eq!(q.last_month(), Year::new(2021).sep());
    assert_eq!(q.end().to_ymd(), (2021, 9, 30));
    assert_eq!(Year::new(2021).with_month(MonthOfYear::Mar), Year::new(2021).mar());
    assert_eq!(Month(24250).quarter(), Quarter(8083));
    assert_eq!(Month(24250).year(), Year::new(2020));
    assert_eq!(Month(24250).month_of_year(), MonthOfYear::Nov);
    assert_eq!(Month(24241).last_day().to_ymd(), (2020, 2, 29));
    assert_eq!(Month(24241).with_day(DayOfMonth::D10).to_ymd(), (2020, 2, 10));
    assert_eq!(Year::new(2020).end().to_ymd(), (2020, 12, 31));
}

#[test]
fn string_round_trips() {
    for s in ["2021-01-01", "0000-02-29", "-0001-12-31", "12345-06-07", "5879610-07-11"] {
        assert_eq!(s.parse::<Day>().unwrap().to_string(), s);
    }
    assert_eq!("2021-01-01".parse::<Day>().unwrap().succ().to_string(), "2021-01-02");
    for s in ["Jan-2021", "Dec-0000", "Feb--0044"] {
        assert_eq!(s.parse::<Month>().unwrap().to_string(), s);
    }
    for s in ["Q1-2021", "Q4-1999", "Q2--0001"] {
        assert_eq!(s.parse::<Quarter>().unwrap().to_string(), s);
    }
    assert_eq!("Q1-2021".parse::<Quarter>().unwrap().succ().to_string(), "Q2-2021");
    assert_eq!(
        "Q1-2021".parse::<Quarter>().unwrap().succ().start().to_string(),
        "2021-04-01"
    );
    assert_eq!("2021-Q3".parse::<Quarter>().unwrap().to_string(), "Q3-2021");
    for s in ["2021-Q3", "-0001-Q4"] {
        assert_eq!(s.parse::<Quarter>().unwrap().to_string_year_first(), s);
    }
    assert_eq!("2021-08-30".parse::<Quarter>().unwrap().to_string(), "Q3-2021");
    for s in ["2021", "-5", "0"] {
        assert_eq!(s.parse::<Year>().unwrap().to_string(), s);
    }
    let s = "Week starting 2021-12-06";
    assert_eq!(s.parse::<Week<Monday>>().unwrap().to_string(), s);
    for s in ["2021-01-01P0001/0048", "2021-01-01P0048/0048", "-0001-12-31P0017/0048"] {
        assert_eq!(s.parse::<Minutes<30>>().unwrap().to_string(), s);
    }
    assert_eq!(Minutes::<60>::first_on_day(Day(0)).to_string(), "0000-01-01P0001/0024");
}

#[test]
fn parse_errors() {
    assert!(matches!("2021-02-30".parse::<Day>(), Err(Error::ParseCustom { ty_name: "Day", .. })));
    assert!("2021-1-01".parse::<Day>().is_err());
    assert!("Foo-2021".parse::<Month>().is_err());
    assert!("Jan2021".parse::<Month>().is_err());
    assert!("Q5-2021".parse::<Quarter>().is_err());
    assert!("".parse::<Year>().is_err());
    let kind = |s: &str| s.parse::<Minutes<30>>().unwrap_err().kind;
    assert_eq!(kind("2021-01-01P0001/0024"), MinutesParseErrorKind::WrongPeriodsPerDay { expected: 48, got: 24 });
    assert_eq!(kind("2021-01-01P0000/0048"), MinutesParseErrorKind::CurrentPeriodZero);
    assert_eq!(kind("2021-01-01P0049/0048"), MinutesParseErrorKind::CurrentPeriodTooLarge { max: 48, got: 49 });
    assert_eq!(kind("2021-01-01X0001/0048"), MinutesParseErrorKind::MissingP);
    assert_eq!(kind("2021-01-01P0001-0048"), MinutesParseErrorKind::MissingSlash);
    assert_eq!(kind("2021-01-01P00a1/0048"), MinutesParseErrorKind::InvalidCharacterAtIndex { idx: 13, char: b'a' });
    assert_eq!(kind("2021-13-01P0001/0048"), MinutesParseErrorKind::InvalidDate);
    assert_eq!(kind("P0001/0048"), MinutesParseErrorKind::TooShort);
    assert_eq!(kind("2021-01-01P0001/0048é"), MinutesParseErrorKind::NonAscii);
    assert_eq!("2021-01-01P0001/0024".parse::<Minutes<30>>().unwrap_err().raw_data, "2021-01-01P0001/0024");
}

#[test]
fn minutes_and_days() {
    let m = "2021-01-01P0003/0048".parse::<Minutes<30>>().unwrap();
    assert_eq!(m.day(), Day::from_ymd(2021, 1, 1).unwrap());
    assert_eq!(m.relative().index(), 3);
    assert_eq!(m.start_minute(), Minutes::<1>::first_on_day(m.day()).succ_n(60));
    assert_eq!(Minutes::<30>::from_minute(m.start_minute().succ_n(29)), m);
    let h: Minutes<60> = m.change_resolution();
    assert_eq!(h, Minutes::<60>::first_on_day(m.day()).succ());
    let five: Minutes<5> = m.change_resolution();
    assert_eq!(five, Minutes::<5>::first_on_day(m.day()).succ_n(12));
    let before = Minutes::<30>::from_monotonic(-1);
    assert_eq!(before.day(), Day(-1));
    assert_eq!(before.relative().index(), 48);
    assert_eq!(Minutes::<30>::last_on_day(Day(0)), Minutes::<30>::first_on_day(Day(1)).pred());
    assert_eq!(DaySubdivison::<30>::new(0), None);
    assert_eq!(DaySubdivison::<30>::new(49), None);
    assert_eq!(DaySubdivison::<30>::new(5).unwrap().on_date(Day(1)), Minutes::<30>::from_monotonic(52));
    assert_eq!(m.month(), Year::new(2021).jan());
    assert_eq!(m.year(), Year::new(2021));
}

#[test]
fn tagged_forms_check_their_tag() {
    let m = Minutes::<30>::from_tagged(7, 30).unwrap();
    assert_eq!(m, Minutes::<30>::from_monotonic(7));
    assert_eq!(m.length(), 30);
    match Minutes::<30>::from_tagged(7, 5) {
        Err(Error::WrongMinutesLength { expected, got }) => assert_eq!((expected, got), (30, 5)),
        other => panic!("unexpected {:?}", other),
    }
    assert_eq!(
        Minutes::<30>::from_tagged(7, 5).unwrap_err().message(),
        "Expected periods of 30 minutes but got periods of 5 minutes"
    );
    let w = Week::<Monday>::from_tagged(3, "Monday").unwrap();
    assert_eq!(w, Week::<Monday>::from_monotonic(3));
    assert_eq!(w.start_day_name(), "Monday");
    assert!(Week::<Monday>::from_tagged(3, "Mon").is_err());
    assert!(Week::<Monday>::from_tagged(3, "Mondays").is_err());
    match Week::<Sunday>::from_tagged(3, "Monday") {
        Err(Error::WrongStartDay { expected, got }) => {
            assert_eq!(expected, Weekday::Sun);
            assert_eq!(got, "Monday");
        }
        other => panic!("unexpected {:?}", other),
    }
}

#[test]
fn partial_last_year_is_reachable() {
    assert_eq!(Day::first_on_year(5879610).to_ymd(), (5879610, 1, 1));
    assert_eq!(
        Day::first_on_month(5879610, MonthOfYear::Jul).to_ymd(),
        (5879610, 7, 1)
    );
    assert_eq!(Day::ymd(5879610, MonthOfYear::Jul, DayOfMonth::D11), Day(i32::MAX));
    assert_eq!(Month(5879610 * 12 + 6).start().to_ymd(), (5879610, 7, 1));
    assert_eq!(Month(5879610 * 12 + 5).last_day().to_ymd(), (5879610, 6, 30));
    assert_eq!(Day::last_on_year(-5879611).to_ymd(), (-5879611, 12, 31));
}

#[test]
fn years_of_ten_digits() {
    for s in ["2147483647", "-2147483648", "1000000000"] {
        assert_eq!(s.parse::<Year>().unwrap().to_string(), s);
    }
    assert!("2147483648".parse::<Year>().is_err());
    assert!("-2147483649".parse::<Year>().is_err());
    assert!("12345678901".parse::<Year>().is_err());
}

#[test]
fn unsupported_minutes_length() {
    let e = "2021-01-01P0001/0206".parse::<Minutes<7>>().unwrap_err();
    assert_eq!(e.kind, MinutesParseErrorKind::UnsupportedLength { length: 7 });
    assert_eq!(e.raw_data, "2021-01-01P0001/0206");
}
