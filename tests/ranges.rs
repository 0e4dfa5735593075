use resolution::{
    format_erased_resolution, rescale, to_sub_date_resolution, Cache, CacheResponse, Day, Error,
    HalfHour, Monday, Month, Quarter, ResolutionKind, Sunday, TimeRange, Week, Weekday, Year,
};

fn days(a: i32, b: i32) -> TimeRange<Day> {
    TimeRange::from_bounds(Day(a), Day(b)).unwrap()
}

#[test]
fn range_bounds_and_length() {
    let r = days(10, 14);
    assert_eq!(r.start(), Day(10));
    assert_eq!(r.end(), Day(14));
    assert_eq!(r.len(), 5);
    assert_eq!(r.iter().len() as u64, r.len());
    assert_eq!(r.iter(), vec![Day(10), Day(11), Day(12), Day(13), Day(14)]);
    assert_eq!(r.rev_iter(), vec![Day(14), Day(13), Day(12), Day(11), Day(10)]);
    assert_eq!(TimeRange::new(Day(10), 5), r);
    let single = days(3, 3);
    assert_eq!(single.len(), 1);
    assert_eq!(single.iter(), vec![Day(3)]);
    let years = TimeRange::from_bounds(Year::new(2022), Year::new(2024)).unwrap();
    assert_eq!(years.iter().len(), 3);
}

#[test]
fn empty_range_is_an_error() {
    assert!(matches!(
        TimeRange::from_bounds(Day(5), Day(4)),
        Err(Error::EmptyRange)
    ));
}

#[test]
fn contains_and_index_of() {
    let r = TimeRange::from_bounds(Month(24240), Month(24251)).unwrap();
    assert!(r.contains(Month(24240)));
    assert!(r.contains(Month(24251)));
    assert!(!r.contains(Month(24252)));
    assert_eq!(r.index_of(Month(24245)), Some(5));
    assert_eq!(r.index_of(Month(24239)), None);
}

#[test]
fn intersection_and_union() {
    let a = days(1, 5);
    let b = days(4, 9);
    let c = days(6, 9);
    let d = days(8, 12);
    assert_eq!(a.intersection(&b), Some(days(4, 5)));
    assert_eq!(a.intersection(&c), None);
    assert_eq!(a.union(&b), Some(days(1, 9)));
    assert_eq!(a.union(&c), Some(days(1, 9)));
    assert_eq!(a.union(&d), None);
    assert_eq!(c.intersection(&d), Some(days(8, 9)));
    assert_eq!(d.union(&a), None);
    for (x, y) in [(a, b), (a, c), (a, d), (b, c), (b, d), (c, d)] {
        let share = x.iter().iter().any(|p| y.contains(*p));
        assert_eq!(x.intersection(&y).is_some(), share);
        let adjacent = x.end().succ() == y.start() || y.end().succ() == x.start();
        assert_eq!(x.union(&y).is_some(), share || adjacent);
    }
}

#[test]
fn cache_coalescing() {
    let mut cache: Cache<Day> = Cache::empty();
    cache.add(&days(1, 5), &vec![10, 20, 30, 40, 50]).unwrap();
    match cache.get(&days(1, 10)) {
        CacheResponse::Miss(gaps) => assert_eq!(gaps, vec![days(6, 10)]),
        other => panic!("unexpected {:?}", other),
    }
    cache.add(&days(6, 10), &vec![60, 70, 80, 90, 100]).unwrap();
    match cache.get(&days(1, 10)) {
        CacheResponse::Hit(data) => {
            assert_eq!(data, vec![10, 20, 30, 40, 50, 60, 70, 80, 90, 100])
        }
        other => panic!("unexpected {:?}", other),
    }
    match cache.add(&days(3, 4), &vec![30, 41]) {
        Err(Error::GotNonMatchingNewData { point, old, new }) => {
            assert_eq!((point, old, new), (4, 40, 41));
        }
        other => panic!("unexpected {:?}", other),
    }
    match cache.get(&days(4, 4)) {
        CacheResponse::Hit(data) => assert_eq!(data, vec![40]),
        other => panic!("unexpected {:?}", other),
    }
    cache.add(&days(3, 4), &vec![30, 40]).unwrap();
}

#[test]
fn cache_reports_every_gap() {
    let mut cache: Cache<Day> = Cache::empty();
    match cache.get(&days(0, 3)) {
        CacheResponse::Miss(gaps) => assert_eq!(gaps, vec![days(0, 3)]),
        other => panic!("unexpected {:?}", other),
    }
    cache.add(&days(2, 3), &vec![1, 2]).unwrap();
    cache.add(&days(7, 7), &vec![3]).unwrap();
    match cache.get(&days(0, 9)) {
        CacheResponse::Miss(gaps) => {
            assert_eq!(gaps, vec![days(0, 1), days(4, 6), days(8, 9)])
        }
        other => panic!("unexpected {:?}", other),
    }
    match cache.get(&days(2, 3)) {
        CacheResponse::Hit(data) => assert_eq!(data, vec![1, 2]),
        other => panic!("unexpected {:?}", other),
    }
}

#[test]
fn cache_rejects_data_of_the_wrong_length() {
    let mut cache: Cache<Day> = Cache::empty();
    assert!(matches!(
        cache.add(&days(1, 3), &vec![1, 2]),
        Err(Error::NonMatchingLength { range: 3, data: 2 })
    ));
    match cache.get(&days(1, 3)) {
        CacheResponse::Miss(gaps) => assert_eq!(gaps, vec![days(1, 3)]),
        other => panic!("unexpected {:?}", other),
    }
}

#[test]
fn rescale_to_shorter_resolutions() {
    let y = Year::new(2021);
    let months: TimeRange<Month> = rescale(y);
    assert_eq!(months.start(), y.jan());
    assert_eq!(months.end(), y.dec());
    assert_eq!(months.len(), 12);
    let q: Quarter = y.q1();
    let days: TimeRange<Day> = rescale(q);
    assert_eq!(days.start().to_ymd(), (2021, 1, 1));
    assert_eq!(days.end().to_ymd(), (2021, 3, 31));
    assert_eq!(days.len(), 90);
    let weeks: TimeRange<Week<Monday>> = rescale(Year::new(2021).feb());
    assert_eq!(weeks.start().start().to_ymd(), (2021, 2, 1));
    assert_eq!(weeks.end().start().to_ymd(), (2021, 2, 22));
    let halves: TimeRange<HalfHour> = to_sub_date_resolution(Day::from_ymd(2021, 1, 1).unwrap());
    assert_eq!(halves.len(), 48);
    assert_eq!(halves.start().to_string(), "2021-01-01P0001/0048");
    assert_eq!(halves.end().to_string(), "2021-01-01P0048/0048");
}

#[test]
fn error_messages() {
    assert_eq!(
        Error::GotNonMatchingNewData { point: 4, old: 40, new: -41 }.message(),
        "Got new data for 4: -41 different from data already in the cache 40"
    );
    assert_eq!(
        Error::EmptyRange.message(),
        "Time range cannot be created from an empty set of periods"
    );
    assert_eq!(
        Error::NonMatchingLength { range: 3, data: 2 }.message(),
        "A range of 3 periods cannot hold 2 values"
    );
    assert_eq!(
        "x".parse::<Day>().unwrap_err().message(),
        "Error parsing Day from input: x"
    );
    assert_eq!(
        "Week starting 2021-12-06"
            .parse::<Week<Sunday>>()
            .unwrap_err()
            .message(),
        "The week starting 2021-12-06 starts on a Monday but must start on a Sunday"
    );
}

#[test]
fn erased_resolutions() {
    assert_eq!(format_erased_resolution(ResolutionKind::Day, 738156), "Day:2021-01-01");
    assert_eq!(format_erased_resolution(ResolutionKind::Month, 24252), "Month:Jan-2021");
    assert_eq!(format_erased_resolution(ResolutionKind::Quarter, 8084), "Quarter:Q1-2021");
    assert_eq!(format_erased_resolution(ResolutionKind::Year, -3), "Year:-3");
    assert_eq!(
        format_erased_resolution(ResolutionKind::HalfHour, 48 * 738156 + 1),
        "HalfHour:2021-01-01P0002/0048"
    );
    assert_eq!(
        format_erased_resolution(ResolutionKind::Week(Weekday::Mon), 105499),
        "Week:Week starting 2021-12-06"
    );
}

#[test]
fn formattable_periods() {
    assert!(resolution::is_formattable(ResolutionKind::Day, i32::MIN));
    assert!(resolution::is_formattable(ResolutionKind::Week(Weekday::Mon), 105499));
    assert!(!resolution::is_formattable(ResolutionKind::Week(Weekday::Mon), i32::MAX));
    assert!(!resolution::is_formattable(ResolutionKind::Week(Weekday::Sat), -306783379));
    assert!(resolution::is_formattable(ResolutionKind::Week(Weekday::Sat), -306783378));
}
