//! Days, numbered by their day count since 0000-01-01.
use vstd::prelude::*;

use crate::{DateResolution, FromMonotonic, Monotonic, TimeResolution};
use crate::calendar::{
    days_in_year, day_count_of, day_of_year, days_before_month, first_day_count_wide,
    first_day_of_year, leap, lemma_day_count_round_trip, lemma_year_of_i32, lemma_ymd_round_trip,
    valid_ymd, year_length, year_of, ymd_of, DayOfMonth, MonthOfYear, YearAndDays,
};
use crate::error::{is_parse_error, parse_error, Error};
use crate::minutes::Minutes;
use crate::text::{
    all_digits, digits_value, lemma_padded, lemma_padded_len, lemma_signed_padded, padded,
    parse_digits, parse_signed, push_padded, push_signed_padded, signed_padded, signed_value,
};

verus! {

/// A day of the proleptic Gregorian calendar: its day count since 0000-01-01.
#[derive(Clone, Copy, Debug, PartialEq, Eq, Hash, PartialOrd, Ord)]
pub struct Day(pub i32);

impl Day {
    /// The day with day count `days`.
    pub fn new(days: i32) -> (r: Day)
        ensures
            r.0 == days,
    {
        Day(days)
    }

    /// The day count.
    pub fn inner(self) -> (r: i32)
        ensures
            r == self.0,
    {
        self.0
    }

    /// The day `n` days later.
    pub fn succ_n(self, n: u16) -> (r: Day)
        requires
            self.0 + n <= i32::MAX,
        ensures
            r.0 == self.0 + n,
    {
        Day(self.0 + n as i32)
    }

    /// The day `n` days earlier.
    pub fn pred_n(self, n: u16) -> (r: Day)
        requires
            self.0 - n >= i32::MIN,
        ensures
            r.0 == self.0 - n,
    {
        Day(self.0 - n as i32)
    }

    /// The next day.
    pub fn succ(self) -> (r: Day)
        requires
            self.0 < i32::MAX,
        ensures
            r.0 == self.0 + 1,
    {
        Day(self.0 + 1)
    }

    /// The previous day.
    pub fn pred(self) -> (r: Day)
        requires
            self.0 > i32::MIN,
        ensures
            r.0 == self.0 - 1,
    {
        Day(self.0 - 1)
    }

    /// The first of January of `year`, whose day count must fit in an `i32`.
    pub fn first_on_year(year: i32) -> (r: Day)
        requires
            i32::MIN <= first_day_of_year(year as int) <= i32::MAX,
        ensures
            r.0 == first_day_of_year(year as int),
    {
        Day(first_day_count_wide(year) as i32)
    }

    /// The 31st of December of `year`, whose day count must fit in an `i32`.
    pub fn last_on_year(year: i32) -> (r: Day)
        requires
            i32::MIN <= first_day_of_year(year as int) + year_length(year as int) - 1 <= i32::MAX,
        ensures
            r.0 == first_day_of_year(year as int) + year_length(year as int) - 1,
    {
        Day((first_day_count_wide(year) + days_in_year(year) as i64 - 1) as i32)
    }

    /// The first day of `month` of `year`, whose day count must fit in an
    /// `i32`.
    pub fn first_on_month(year: i32, month: MonthOfYear) -> (r: Day)
        requires
            i32::MIN <= day_count_of(year as int, month.index() + 1, 1) <= i32::MAX,
        ensures
            r.0 == day_count_of(year as int, month.index() + 1, 1),
    {
        Day((first_day_count_wide(year) + month.cumulative_days(year) as i64) as i32)
    }

    /// The last day of `month` of `year`, whose day count must fit in an
    /// `i32`.
    pub fn last_on_month(year: i32, month: MonthOfYear) -> (r: Day)
        requires
            i32::MIN <= day_count_of(
                year as int,
                month.index() + 1,
                days_before_month(month.index() + 1, leap(year as int)) - days_before_month(
                    month.index(),
                    leap(year as int),
                ),
            ) <= i32::MAX,
        ensures
            r.0 == day_count_of(
                year as int,
                month.index() + 1,
                days_before_month(month.index() + 1, leap(year as int)) - days_before_month(
                    month.index(),
                    leap(year as int),
                ),
            ),
    {
        Day(
            (first_day_count_wide(year) + month.cumulative_days(year) as i64 + month.num_days(year)
                as i64 - 1) as i32,
        )
    }

    /// Day `day` of `month` of `year`, whose day count must fit in an `i32`.
    pub fn ymd(year: i32, month: MonthOfYear, day: DayOfMonth) -> (r: Day)
        requires
            i32::MIN <= day_count_of(year as int, month.index() + 1, day.value()) <= i32::MAX,
        ensures
            r.0 == day_count_of(year as int, month.index() + 1, day.value()),
    {
        Day((first_day_count_wide(year) + month.cumulative_days(year) as i64 + day.offset() as i64)
            as i32)
    }

    /// Day `day` of month `month` (1 for January) of `year`, if that is a day
    /// of the calendar whose day count fits in an `i32`.
    pub fn from_ymd(year: i32, month: u8, day: u8) -> (r: Option<Day>)
        ensures
            r.is_some() <==> valid_ymd(year as int, month as int, day as int) && i32::MIN
                <= day_count_of(year as int, month as int, day as int) <= i32::MAX,
            r.is_some() ==> r.unwrap().0 == day_count_of(year as int, month as int, day as int),
    {
        match MonthOfYear::from_number(month) {
            None => None,
            Some(m) => {
                if day == 0 || day > m.num_days(year) {
                    None
                } else {
                    let count: i64 = first_day_count_wide(year) + m.cumulative_days(year) as i64
                        + day as i64 - 1;
                    if count < i32::MIN as i64 || count > i32::MAX as i64 {
                        None
                    } else {
                        Some(Day(count as i32))
                    }
                }
            },
        }
    }

    /// The split of this day into year and days through the year.
    pub fn through(&self) -> (r: YearAndDays)
        ensures
            r.wf(),
            r.year == year_of(self.0 as int),
            r.days_through == day_of_year(self.0 as int),
    {
        YearAndDays::calculate(self.0)
    }

    /// The year this day falls in.
    pub fn year_num(&self) -> (r: i32)
        ensures
            r == ymd_of(self.0 as int).0,
    {
        self.through().year
    }

    /// The month of the year this day falls in.
    pub fn month_of_year(&self) -> (r: MonthOfYear)
        ensures
            r.index() == ymd_of(self.0 as int).1 - 1,
    {
        self.through().month()
    }

    /// The day of the month, 1 to 31.
    pub fn day_of_month(&self) -> (r: u8)
        ensures
            r == ymd_of(self.0 as int).2,
    {
        self.through().day()
    }

    /// Year, month (1 to 12) and day of the month (1 to 31).
    pub fn to_ymd(self) -> (r: (i32, u8, u8))
        ensures
            (r.0 as int, r.1 as int, r.2 as int) == ymd_of(self.0 as int),
    {
        let through = self.through();
        (through.year, through.month().number(), through.day())
    }

    /// This day moved within its month to day `day`.
    #[verifier::rlimit(30)]
    pub fn with_day(self, day: DayOfMonth) -> (r: Day)
        requires
            i32::MIN <= self.0 + day.value() - ymd_of(self.0 as int).2 <= i32::MAX,
        ensures
            r.0 == self.0 + day.value() - ymd_of(self.0 as int).2,
            ymd_of(r.0 as int) == (ymd_of(self.0 as int).0, ymd_of(self.0 as int).1, day.value()),
    {
        let current_day = self.day_of_month();
        proof {
            let ymd = ymd_of(self.0 as int);
            lemma_ymd_round_trip(self.0 as int);
            lemma_day_count_round_trip(ymd.0, ymd.1, day.value());
        }
        if current_day == day.number() {
            self
        } else if current_day < day.number() {
            Day(self.0 + (day.number() - current_day) as i32)
        } else {
            Day(self.0 - (current_day - day.number()) as i32)
        }
    }

    /// The day count, which numbers the days in order.
    pub fn to_monotonic(self) -> (r: i32)
        ensures
            r == self.0,
    {
        self.0
    }

    /// The day with day count `idx`.
    pub fn from_monotonic(idx: i32) -> (r: Day)
        ensures
            r.0 == idx,
    {
        Day(idx)
    }

    /// How many days `other` lies after this day.
    pub fn between(self, other: Day) -> (r: i32)
        requires
            i32::MIN <= other.0 - self.0 <= i32::MAX,
        ensures
            r == other.0 - self.0,
    {
        other.0 - self.0
    }
}

/// The text `YYYY-MM-DD` of the day with count `d`: the year with at least
/// four digits and a minus sign when negative, the month and the day with two.
pub open spec fn day_text(d: int) -> Seq<char> {
    signed_padded(ymd_of(d).0, 4) + seq!['-'] + padded(ymd_of(d).1 as nat, 2) + seq!['-'] + padded(
        ymd_of(d).2 as nat,
        2,
    )
}

/// The day count that the text `s` of the form `YYYY-MM-DD` names, if it names
/// a day of the calendar with an `i32` day count; the year may have a minus
/// sign and one to nine digits.
pub open spec fn day_of_text(s: Seq<char>) -> Option<int> {
    let n = s.len() as int;
    if n < 7 || s[n - 6] != '-' || s[n - 3] != '-' {
        None
    } else {
        let ms = s.subrange(n - 5, n - 3);
        let ds = s.subrange(n - 2, n);
        match signed_value(s.subrange(0, n - 6)) {
            None => None,
            Some(y) => {
                let m = digits_value(ms);
                let dd = digits_value(ds);
                if all_digits(ms) && all_digits(ds) && valid_ymd(y, m, dd) && i32::MIN
                    <= day_count_of(y, m, dd) <= i32::MAX {
                    Some(day_count_of(y, m, dd))
                } else {
                    None
                }
            },
        }
    }
}

impl Day {
    /// The text `YYYY-MM-DD` of the day.
    pub fn to_string(&self) -> (r: String)
        ensures
            r@ == day_text(self.0 as int),
    {
        proof {
            lemma_year_of_i32(self.0 as int);
            lemma_ymd_round_trip(self.0 as int);
        }
        let (y, m, d) = self.to_ymd();
        let mut out = String::new();
        push_signed_padded(&mut out, y, 4);
        proof {
            reveal_strlit("-");
        }
        out.append("-");
        push_padded(&mut out, m as u32, 2);
        out.append("-");
        push_padded(&mut out, d as u32, 2);
        out
    }

    /// The day that the text `s` of the form `YYYY-MM-DD` names.
    #[verifier::rlimit(30)]
    pub fn parse(s: &str) -> (r: Result<Day, Error>)
        ensures
            day_of_text(s@).is_some() ==> r == Ok::<Day, Error>(Day(day_of_text(s@).unwrap() as i32)),
            day_of_text(s@).is_none() ==> is_parse_error(r, "Day"@, s@),
    {
        proof {
            reveal_strlit("Day");
        }
        let n = s.unicode_len();
        if n < 7 || s.get_char(n - 6) != '-' || s.get_char(n - 3) != '-' {
            return Err(parse_error("Day", s));
        }
        let y = parse_signed(s, 0, n - 6);
        let m = parse_digits(s, n - 5, n - 3);
        let d = parse_digits(s, n - 2, n);
        match (y, m, d) {
            (Some(y), Some(m), Some(d)) => {
                if m > 12 || d > 31 {
                    return Err(parse_error("Day", s));
                }
                match Day::from_ymd(y, m as u8, d as u8) {
                    Some(day) => Ok(day),
                    None => Err(parse_error("Day", s)),
                }
            },
            _ => Err(parse_error("Day", s)),
        }
    }
}

/// Writing a day as text and reading the text back gives the day, for every
/// day with an `i32` day count.
#[verifier::rlimit(30)]
pub proof fn lemma_day_text_round_trip(d: int)
    requires
        i32::MIN <= d <= i32::MAX,
    ensures
        day_of_text(day_text(d)) == Some(d),
{
    let (y, m, dd) = ymd_of(d);
    lemma_year_of_i32(d);
    lemma_ymd_round_trip(d);
    lemma_signed_padded(y, 4);
    lemma_padded(m as nat, 2);
    lemma_padded_len(m as nat, 2);
    lemma_padded(dd as nat, 2);
    lemma_padded_len(dd as nat, 2);
    let a = signed_padded(y, 4);
    let s = day_text(d);
    let n = s.len() as int;
    assert(n == a.len() + 6);
    assert(s.subrange(0, n - 6) =~= a);
    assert(s.subrange(n - 5, n - 3) =~= padded(m as nat, 2));
    assert(s.subrange(n - 2, n) =~= padded(dd as nat, 2));
    assert(s[n - 6] == '-');
    assert(s[n - 3] == '-');
}

/// Text in the form that days are written in reads as a day that is written
/// as the same text.
pub proof fn lemma_day_text_canonical(s: Seq<char>, d: int)
    requires
        i32::MIN <= d <= i32::MAX,
        s == day_text(d),
    ensures
        day_of_text(s) == Some(d),
        day_text(day_of_text(s)->Some_0) == s,
{
    lemma_day_text_round_trip(d);
}

impl core::str::FromStr for Day {
    type Err = Error;

    fn from_str(s: &str) -> (r: Result<Day, Error>)
        ensures
            day_of_text(s@).is_some() ==> r == Ok::<Day, Error>(Day(day_of_text(s@).unwrap() as i32)),
            day_of_text(s@).is_none() ==> is_parse_error(r, "Day"@, s@),
    {
        Day::parse(s)
    }
}

impl Monotonic for Day {
    open spec fn index(self) -> int {
        self.0 as int
    }

    proof fn lemma_index_bounds(self) {
    }

    proof fn lemma_index_injective(self, other: Self) {
    }

    fn to_monotonic(self) -> (r: i32) {
        self.0
    }

    fn between(self, other: Self) -> (r: i32) {
        other.0 - self.0
    }
}

impl FromMonotonic for Day {
    fn from_monotonic(idx: i32) -> (r: Self) {
        Day(idx)
    }
}

impl TimeResolution for Day {
    fn succ_n(self, n: u16) -> (r: Self) {
        assert(self.index() == self.0 as int);
        Day(self.0 + n as i32)
    }

    fn pred_n(self, n: u16) -> (r: Self) {
        assert(self.index() == self.0 as int);
        Day(self.0 - n as i32)
    }
}

impl DateResolution for Day {
    open spec fn period_of_day(d: int) -> int {
        d
    }

    open spec fn first_day(self) -> int {
        self.0 as int
    }

    open spec fn last_day(self) -> int {
        self.0 as int
    }

    open spec fn days_in_range(self) -> bool {
        true
    }

    proof fn lemma_days(self) {
    }

    proof fn lemma_period_of_day_monotone(a: int, b: int) {
    }

    fn first(self) -> (r: Day) {
        self
    }

    fn last(self) -> (r: Day) {
        self
    }

    fn of_day(day: Day) -> (r: Self) {
        day
    }
}

impl Day {
    /// The first one-minute period of the period.
    pub fn start_minute(self) -> (r: Minutes<1>)
        requires
            self.days_in_range(),
            i32::MIN <= DateResolution::first_day(self) * 1440,
            DateResolution::first_day(self) * 1440 <= i32::MAX,
        ensures
            r.index == DateResolution::first_day(self) * 1440,
    {
        Minutes::<1>::first_on_day(DateResolution::first(self))
    }

    /// The first five-minute period of the period.
    pub fn five_minute(self) -> (r: Minutes<5>)
        requires
            self.days_in_range(),
            i32::MIN <= DateResolution::first_day(self) * 288,
            DateResolution::first_day(self) * 288 <= i32::MAX,
        ensures
            r.index == DateResolution::first_day(self) * 288,
    {
        Minutes::<5>::first_on_day(DateResolution::first(self))
    }

    /// The first half hour of the period.
    pub fn half_hour(self) -> (r: Minutes<30>)
        requires
            self.days_in_range(),
            i32::MIN <= DateResolution::first_day(self) * 48,
            DateResolution::first_day(self) * 48 <= i32::MAX,
        ensures
            r.index == DateResolution::first_day(self) * 48,
    {
        Minutes::<30>::first_on_day(DateResolution::first(self))
    }

    /// The first hour of the period.
    pub fn hour(self) -> (r: Minutes<60>)
        requires
            self.days_in_range(),
            i32::MIN <= DateResolution::first_day(self) * 24,
            DateResolution::first_day(self) * 24 <= i32::MAX,
        ensures
            r.index == DateResolution::first_day(self) * 24,
    {
        Minutes::<60>::first_on_day(DateResolution::first(self))
    }

    /// The number of the month of the day: 1 for January, 12 for December.
    pub fn month_num(&self) -> (r: u8)
        ensures
            r == ymd_of(self.0 as int).1,
    {
        self.month_of_year().number()
    }
}

} // verus!
