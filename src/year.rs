//! Years, numbered by themselves.
use vstd::prelude::*;

use crate::{DateResolution, FromMonotonic, Monotonic, TimeResolution};
use crate::calendar::{
    first_day_of_year, lemma_year_of, lemma_year_of_monotone, year_length, ymd_of, MonthOfYear,
};
use crate::day::Day;
use crate::error::{is_parse_error, parse_error, Error};
use crate::minutes::Minutes;
use crate::month::Month;
use crate::quarter::{Quarter, QuarterOfYear};
use crate::text::{
    lemma_signed_padded, parse_signed, push_signed_padded, signed_padded, signed_value,
};

verus! {

/// A year of the proleptic Gregorian calendar.
#[derive(Clone, Copy, Debug, PartialEq, Eq, Hash, PartialOrd, Ord)]
pub struct Year(pub i32);

impl Year {
    /// The year `n` years later.
    pub fn succ_n(self, n: u16) -> (r: Year)
        requires
            self.0 + n <= i32::MAX,
        ensures
            r.0 == self.0 + n,
    {
        Year(self.0 + n as i32)
    }

    /// The year `n` years earlier.
    pub fn pred_n(self, n: u16) -> (r: Year)
        requires
            self.0 - n >= i32::MIN,
        ensures
            r.0 == self.0 - n,
    {
        Year(self.0 - n as i32)
    }

    /// The next year.
    pub fn succ(self) -> (r: Year)
        requires
            self.0 < i32::MAX,
        ensures
            r.0 == self.0 + 1,
    {
        Year(self.0 + 1)
    }

    /// The previous year.
    pub fn pred(self) -> (r: Year)
        requires
            self.0 > i32::MIN,
        ensures
            r.0 == self.0 - 1,
    {
        Year(self.0 - 1)
    }

    /// The number of the year, which numbers years in order.
    pub fn to_monotonic(self) -> (r: i32)
        ensures
            r == self.0,
    {
        self.0
    }

    /// The year with number `idx`.
    pub fn from_monotonic(idx: i32) -> (r: Year)
        ensures
            r.0 == idx,
    {
        Year(idx)
    }

    /// How many years `other` lies after this one.
    pub fn between(self, other: Year) -> (r: i32)
        requires
            i32::MIN <= other.0 - self.0 <= i32::MAX,
        ensures
            r == other.0 - self.0,
    {
        other.0 - self.0
    }

    /// The year `year`.
    pub fn new(year: i32) -> (r: Year)
        ensures
            r.0 == year,
    {
        Year(year)
    }

    /// The number of the year.
    pub fn year_num(self) -> (r: i32)
        ensures
            r == self.0,
    {
        self.0
    }

    /// The first day of the year.
    pub fn start(self) -> (r: Day)
        requires
            i32::MIN <= first_day_of_year(self.0 as int) <= i32::MAX,
        ensures
            r.0 == first_day_of_year(self.0 as int),
    {
        Day::first_on_year(self.0)
    }

    /// The last day of the year.
    pub fn end(self) -> (r: Day)
        requires
            i32::MIN <= first_day_of_year(self.0 as int) + year_length(self.0 as int) - 1
                <= i32::MAX,
        ensures
            r.0 == first_day_of_year(self.0 as int) + year_length(self.0 as int) - 1,
    {
        Day::last_on_year(self.0)
    }

    /// The year that `day` falls in.
    pub fn from_day(day: Day) -> (r: Year)
        ensures
            r.0 == ymd_of(day.0 as int).0,
    {
        Year(day.year_num())
    }

    /// Month `month` of this year.
    pub fn with_month(self, month: MonthOfYear) -> (r: Month)
        requires
            i32::MIN <= self.0 * 12 <= i32::MAX - 11,
        ensures
            r.0 == self.0 * 12 + month.index(),
    {
        Month::from_year_month(self.0, month)
    }

    /// Quarter `quarter` of this year.
    pub fn with_quarter(self, quarter: QuarterOfYear) -> (r: Quarter)
        requires
            i32::MIN <= self.0 * 4 <= i32::MAX - 3,
        ensures
            r.0 == self.0 * 4 + quarter.index(),
    {
        Quarter::from_parts(self, quarter)
    }

    /// January of this year.
    pub fn first_month(self) -> (r: Month)
        requires
            i32::MIN <= self.0 * 12 <= i32::MAX - 11,
        ensures
            r.0 == self.0 * 12,
    {
        self.jan()
    }

    /// December of this year.
    pub fn last_month(self) -> (r: Month)
        requires
            i32::MIN <= self.0 * 12 <= i32::MAX - 11,
        ensures
            r.0 == self.0 * 12 + 11,
    {
        self.dec()
    }

    /// The first quarter of this year.
    pub fn first_quarter(self) -> (r: Quarter)
        requires
            i32::MIN <= self.0 * 4 <= i32::MAX - 3,
        ensures
            r.0 == self.0 * 4,
    {
        self.q1()
    }

    /// The last quarter of this year.
    pub fn last_quarter(self) -> (r: Quarter)
        requires
            i32::MIN <= self.0 * 4 <= i32::MAX - 3,
        ensures
            r.0 == self.0 * 4 + 3,
    {
        self.q4()
    }

    /// Quarter 1 of this year.
    pub fn q1(self) -> (r: Quarter)
        requires
            i32::MIN <= self.0 * 4 <= i32::MAX - 3,
        ensures
            r.0 == self.0 * 4 + 0,
    {
        Quarter::from_parts(self, QuarterOfYear::Q1)
    }

    /// Quarter 2 of this year.
    pub fn q2(self) -> (r: Quarter)
        requires
            i32::MIN <= self.0 * 4 <= i32::MAX - 3,
        ensures
            r.0 == self.0 * 4 + 1,
    {
        Quarter::from_parts(self, QuarterOfYear::Q2)
    }

    /// Quarter 3 of this year.
    pub fn q3(self) -> (r: Quarter)
        requires
            i32::MIN <= self.0 * 4 <= i32::MAX - 3,
        ensures
            r.0 == self.0 * 4 + 2,
    {
        Quarter::from_parts(self, QuarterOfYear::Q3)
    }

    /// Quarter 4 of this year.
    pub fn q4(self) -> (r: Quarter)
        requires
            i32::MIN <= self.0 * 4 <= i32::MAX - 3,
        ensures
            r.0 == self.0 * 4 + 3,
    {
        Quarter::from_parts(self, QuarterOfYear::Q4)
    }

    /// January of this year.
    pub fn jan(self) -> (r: Month)
        requires
            i32::MIN <= self.0 * 12 <= i32::MAX - 11,
        ensures
            r.0 == self.0 * 12 + 0,
    {
        Month::from_year_month(self.0, MonthOfYear::Jan)
    }

    /// February of this year.
    pub fn feb(self) -> (r: Month)
        requires
            i32::MIN <= self.0 * 12 <= i32::MAX - 11,
        ensures
            r.0 == self.0 * 12 + 1,
    {
        Month::from_year_month(self.0, MonthOfYear::Feb)
    }

    /// March of this year.
    pub fn mar(self) -> (r: Month)
        requires
            i32::MIN <= self.0 * 12 <= i32::MAX - 11,
        ensures
            r.0 == self.0 * 12 + 2,
    {
        Month::from_year_month(self.0, MonthOfYear::Mar)
    }

    /// April of this year.
    pub fn apr(self) -> (r: Month)
        requires
            i32::MIN <= self.0 * 12 <= i32::MAX - 11,
        ensures
            r.0 == self.0 * 12 + 3,
    {
        Month::from_year_month(self.0, MonthOfYear::Apr)
    }

    /// May of this year.
    pub fn may(self) -> (r: Month)
        requires
            i32::MIN <= self.0 * 12 <= i32::MAX - 11,
        ensures
            r.0 == self.0 * 12 + 4,
    {
        Month::from_year_month(self.0, MonthOfYear::May)
    }

    /// June of this year.
    pub fn jun(self) -> (r: Month)
        requires
            i32::MIN <= self.0 * 12 <= i32::MAX - 11,
        ensures
            r.0 == self.0 * 12 + 5,
    {
        Month::from_year_month(self.0, MonthOfYear::Jun)
    }

    /// July of this year.
    pub fn jul(self) -> (r: Month)
        requires
            i32::MIN <= self.0 * 12 <= i32::MAX - 11,
        ensures
            r.0 == self.0 * 12 + 6,
    {
        Month::from_year_month(self.0, MonthOfYear::Jul)
    }

    /// August of this year.
    pub fn aug(self) -> (r: Month)
        requires
            i32::MIN <= self.0 * 12 <= i32::MAX - 11,
        ensures
            r.0 == self.0 * 12 + 7,
    {
        Month::from_year_month(self.0, MonthOfYear::Aug)
    }

    /// September of this year.
    pub fn sep(self) -> (r: Month)
        requires
            i32::MIN <= self.0 * 12 <= i32::MAX - 11,
        ensures
            r.0 == self.0 * 12 + 8,
    {
        Month::from_year_month(self.0, MonthOfYear::Sep)
    }

    /// October of this year.
    pub fn oct(self) -> (r: Month)
        requires
            i32::MIN <= self.0 * 12 <= i32::MAX - 11,
        ensures
            r.0 == self.0 * 12 + 9,
    {
        Month::from_year_month(self.0, MonthOfYear::Oct)
    }

    /// November of this year.
    pub fn nov(self) -> (r: Month)
        requires
            i32::MIN <= self.0 * 12 <= i32::MAX - 11,
        ensures
            r.0 == self.0 * 12 + 10,
    {
        Month::from_year_month(self.0, MonthOfYear::Nov)
    }

    /// December of this year.
    pub fn dec(self) -> (r: Month)
        requires
            i32::MIN <= self.0 * 12 <= i32::MAX - 11,
        ensures
            r.0 == self.0 * 12 + 11,
    {
        Month::from_year_month(self.0, MonthOfYear::Dec)
    }
}

impl Year {
    /// The number of the year in decimal, with a minus sign when negative.
    pub fn to_string(&self) -> (r: String)
        ensures
            r@ == signed_padded(self.0 as int, 1),
    {
        let mut out = String::new();
        push_signed_padded(&mut out, self.0, 1);
        out
    }

    /// The year that the text `s` names: one to nine digits with an optional
    /// minus sign.
    pub fn parse(s: &str) -> (r: Result<Year, Error>)
        ensures
            signed_value(s@).is_some() ==> r == Ok::<Year, Error>(Year(signed_value(s@).unwrap() as i32)),
            signed_value(s@).is_none() ==> is_parse_error(r, "Year"@, s@),
    {
        proof {
            reveal_strlit("Year");
            assert(s@.subrange(0, s@.len() as int) =~= s@);
        }
        match parse_signed(s, 0, s.unicode_len()) {
            Some(y) => Ok(Year(y)),
            None => Err(parse_error("Year", s)),
        }
    }
}

/// Reading the text of a year gives the year back, for every `i32` year.
pub proof fn lemma_year_text_round_trip(y: int)
    requires
        i32::MIN <= y <= i32::MAX,
    ensures
        signed_value(signed_padded(y, 1)) == Some(y),
{
    lemma_signed_padded(y, 1);
}

impl core::str::FromStr for Year {
    type Err = Error;

    fn from_str(s: &str) -> (r: Result<Year, Error>)
        ensures
            signed_value(s@).is_some() ==> r == Ok::<Year, Error>(Year(signed_value(s@).unwrap() as i32)),
            signed_value(s@).is_none() ==> is_parse_error(r, "Year"@, s@),
    {
        Year::parse(s)
    }
}

/// The quarters and months of a year, from something that names the year.
pub trait DateResolutionBuilder: Sized {
    /// The number of the year.
    spec fn year_number(self) -> int;

    /// Quarter 1 of the year.
    fn q1(self) -> (r: Quarter)
        requires
            i32::MIN <= self.year_number() * 4,
            self.year_number() * 4 + 3 <= i32::MAX,
        ensures
            r.0 == self.year_number() * 4 + 0,
    ;

    /// Quarter 2 of the year.
    fn q2(self) -> (r: Quarter)
        requires
            i32::MIN <= self.year_number() * 4,
            self.year_number() * 4 + 3 <= i32::MAX,
        ensures
            r.0 == self.year_number() * 4 + 1,
    ;

    /// Quarter 3 of the year.
    fn q3(self) -> (r: Quarter)
        requires
            i32::MIN <= self.year_number() * 4,
            self.year_number() * 4 + 3 <= i32::MAX,
        ensures
            r.0 == self.year_number() * 4 + 2,
    ;

    /// Quarter 4 of the year.
    fn q4(self) -> (r: Quarter)
        requires
            i32::MIN <= self.year_number() * 4,
            self.year_number() * 4 + 3 <= i32::MAX,
        ensures
            r.0 == self.year_number() * 4 + 3,
    ;

    /// January of the year.
    fn jan(self) -> (r: Month)
        requires
            i32::MIN <= self.year_number() * 12,
            self.year_number() * 12 + 11 <= i32::MAX,
        ensures
            r.0 == self.year_number() * 12 + 0,
    ;

    /// February of the year.
    fn feb(self) -> (r: Month)
        requires
            i32::MIN <= self.year_number() * 12,
            self.year_number() * 12 + 11 <= i32::MAX,
        ensures
            r.0 == self.year_number() * 12 + 1,
    ;

    /// March of the year.
    fn mar(self) -> (r: Month)
        requires
            i32::MIN <= self.year_number() * 12,
            self.year_number() * 12 + 11 <= i32::MAX,
        ensures
            r.0 == self.year_number() * 12 + 2,
    ;

    /// April of the year.
    fn apr(self) -> (r: Month)
        requires
            i32::MIN <= self.year_number() * 12,
            self.year_number() * 12 + 11 <= i32::MAX,
        ensures
            r.0 == self.year_number() * 12 + 3,
    ;

    /// May of the year.
    fn may(self) -> (r: Month)
        requires
            i32::MIN <= self.year_number() * 12,
            self.year_number() * 12 + 11 <= i32::MAX,
        ensures
            r.0 == self.year_number() * 12 + 4,
    ;

    /// June of the year.
    fn jun(self) -> (r: Month)
        requires
            i32::MIN <= self.year_number() * 12,
            self.year_number() * 12 + 11 <= i32::MAX,
        ensures
            r.0 == self.year_number() * 12 + 5,
    ;

    /// July of the year.
    fn jul(self) -> (r: Month)
        requires
            i32::MIN <= self.year_number() * 12,
            self.year_number() * 12 + 11 <= i32::MAX,
        ensures
            r.0 == self.year_number() * 12 + 6,
    ;

    /// August of the year.
    fn aug(self) -> (r: Month)
        requires
            i32::MIN <= self.year_number() * 12,
            self.year_number() * 12 + 11 <= i32::MAX,
        ensures
            r.0 == self.year_number() * 12 + 7,
    ;

    /// September of the year.
    fn sep(self) -> (r: Month)
        requires
            i32::MIN <= self.year_number() * 12,
            self.year_number() * 12 + 11 <= i32::MAX,
        ensures
            r.0 == self.year_number() * 12 + 8,
    ;

    /// October of the year.
    fn oct(self) -> (r: Month)
        requires
            i32::MIN <= self.year_number() * 12,
            self.year_number() * 12 + 11 <= i32::MAX,
        ensures
            r.0 == self.year_number() * 12 + 9,
    ;

    /// November of the year.
    fn nov(self) -> (r: Month)
        requires
            i32::MIN <= self.year_number() * 12,
            self.year_number() * 12 + 11 <= i32::MAX,
        ensures
            r.0 == self.year_number() * 12 + 10,
    ;

    /// December of the year.
    fn dec(self) -> (r: Month)
        requires
            i32::MIN <= self.year_number() * 12,
            self.year_number() * 12 + 11 <= i32::MAX,
        ensures
            r.0 == self.year_number() * 12 + 11,
    ;
}

impl DateResolutionBuilder for i16 {
    open spec fn year_number(self) -> int {
        self as int
    }

    fn q1(self) -> (r: Quarter) {
        Quarter::from_parts(Year(self as i32), QuarterOfYear::Q1)
    }

    fn q2(self) -> (r: Quarter) {
        Quarter::from_parts(Year(self as i32), QuarterOfYear::Q2)
    }

    fn q3(self) -> (r: Quarter) {
        Quarter::from_parts(Year(self as i32), QuarterOfYear::Q3)
    }

    fn q4(self) -> (r: Quarter) {
        Quarter::from_parts(Year(self as i32), QuarterOfYear::Q4)
    }

    fn jan(self) -> (r: Month) {
        Month::from_year_month(Year(self as i32).0, MonthOfYear::Jan)
    }

    fn feb(self) -> (r: Month) {
        Month::from_year_month(Year(self as i32).0, MonthOfYear::Feb)
    }

    fn mar(self) -> (r: Month) {
        Month::from_year_month(Year(self as i32).0, MonthOfYear::Mar)
    }

    fn apr(self) -> (r: Month) {
        Month::from_year_month(Year(self as i32).0, MonthOfYear::Apr)
    }

    fn may(self) -> (r: Month) {
        Month::from_year_month(Year(self as i32).0, MonthOfYear::May)
    }

    fn jun(self) -> (r: Month) {
        Month::from_year_month(Year(self as i32).0, MonthOfYear::Jun)
    }

    fn jul(self) -> (r: Month) {
        Month::from_year_month(Year(self as i32).0, MonthOfYear::Jul)
    }

    fn aug(self) -> (r: Month) {
        Month::from_year_month(Year(self as i32).0, MonthOfYear::Aug)
    }

    fn sep(self) -> (r: Month) {
        Month::from_year_month(Year(self as i32).0, MonthOfYear::Sep)
    }

    fn oct(self) -> (r: Month) {
        Month::from_year_month(Year(self as i32).0, MonthOfYear::Oct)
    }

    fn nov(self) -> (r: Month) {
        Month::from_year_month(Year(self as i32).0, MonthOfYear::Nov)
    }

    fn dec(self) -> (r: Month) {
        Month::from_year_month(Year(self as i32).0, MonthOfYear::Dec)
    }
}

impl DateResolutionBuilder for Year {
    open spec fn year_number(self) -> int {
        self.0 as int
    }

    fn q1(self) -> (r: Quarter) {
        Quarter::from_parts(self, QuarterOfYear::Q1)
    }

    fn q2(self) -> (r: Quarter) {
        Quarter::from_parts(self, QuarterOfYear::Q2)
    }

    fn q3(self) -> (r: Quarter) {
        Quarter::from_parts(self, QuarterOfYear::Q3)
    }

    fn q4(self) -> (r: Quarter) {
        Quarter::from_parts(self, QuarterOfYear::Q4)
    }

    fn jan(self) -> (r: Month) {
        Month::from_year_month(self.0, MonthOfYear::Jan)
    }

    fn feb(self) -> (r: Month) {
        Month::from_year_month(self.0, MonthOfYear::Feb)
    }

    fn mar(self) -> (r: Month) {
        Month::from_year_month(self.0, MonthOfYear::Mar)
    }

    fn apr(self) -> (r: Month) {
        Month::from_year_month(self.0, MonthOfYear::Apr)
    }

    fn may(self) -> (r: Month) {
        Month::from_year_month(self.0, MonthOfYear::May)
    }

    fn jun(self) -> (r: Month) {
        Month::from_year_month(self.0, MonthOfYear::Jun)
    }

    fn jul(self) -> (r: Month) {
        Month::from_year_month(self.0, MonthOfYear::Jul)
    }

    fn aug(self) -> (r: Month) {
        Month::from_year_month(self.0, MonthOfYear::Aug)
    }

    fn sep(self) -> (r: Month) {
        Month::from_year_month(self.0, MonthOfYear::Sep)
    }

    fn oct(self) -> (r: Month) {
        Month::from_year_month(self.0, MonthOfYear::Oct)
    }

    fn nov(self) -> (r: Month) {
        Month::from_year_month(self.0, MonthOfYear::Nov)
    }

    fn dec(self) -> (r: Month) {
        Month::from_year_month(self.0, MonthOfYear::Dec)
    }
}

impl Day {
    /// The year this day falls in.
    pub fn year(self) -> (r: Year)
        ensures
            r.0 == ymd_of(self.0 as int).0,
    {
        Year::from_day(self)
    }
}

impl Monotonic for Year {
    open spec fn index(self) -> int {
        self.0 as int
    }

    proof fn lemma_index_bounds(self) {
    }

    proof fn lemma_index_injective(self, other: Self) {
    }

    fn to_monotonic(self) -> (r: i32) {
        self.0
    }

    fn between(self, other: Self) -> (r: i32) {
        other.0 - self.0
    }
}

impl FromMonotonic for Year {
    fn from_monotonic(idx: i32) -> (r: Self) {
        Year(idx)
    }
}

impl TimeResolution for Year {
    fn succ_n(self, n: u16) -> (r: Self) {
        assert(self.index() == self.0 as int);
        Year(self.0 + n as i32)
    }

    fn pred_n(self, n: u16) -> (r: Self) {
        assert(self.index() == self.0 as int);
        Year(self.0 - n as i32)
    }
}

impl DateResolution for Year {
    open spec fn period_of_day(d: int) -> int {
        ymd_of(d).0
    }

    open spec fn first_day(self) -> int {
        first_day_of_year(self.0 as int)
    }

    open spec fn last_day(self) -> int {
        first_day_of_year(self.0 as int) + year_length(self.0 as int) - 1
    }

    open spec fn days_in_range(self) -> bool {
        i32::MIN <= first_day_of_year(self.0 as int) && first_day_of_year(self.0 as int)
            + year_length(self.0 as int) - 1 <= i32::MAX
    }

    proof fn lemma_days(self) {
        let y = self.0 as int;
        lemma_year_of(first_day_of_year(y));
        lemma_year_of(first_day_of_year(y) + year_length(y) - 1);
        assert(crate::calendar::is_year_split(first_day_of_year(y), y, 0));
        assert(crate::calendar::is_year_split(
            first_day_of_year(y) + year_length(y) - 1,
            y,
            year_length(y) - 1,
        ));
    }

    proof fn lemma_period_of_day_monotone(a: int, b: int) {
        lemma_year_of_monotone(a, b);
    }

    fn first(self) -> (r: Day) {
        self.start()
    }

    fn last(self) -> (r: Day) {
        self.end()
    }

    fn of_day(day: Day) -> (r: Self) {
        Year::from_day(day)
    }
}

impl Year {
    /// The first one-minute period of the period.
    pub fn start_minute(self) -> (r: Minutes<1>)
        requires
            self.days_in_range(),
            i32::MIN <= DateResolution::first_day(self) * 1440,
            DateResolution::first_day(self) * 1440 <= i32::MAX,
        ensures
            r.index == DateResolution::first_day(self) * 1440,
    {
        Minutes::<1>::first_on_day(DateResolution::first(self))
    }

    /// The first five-minute period of the period.
    pub fn five_minute(self) -> (r: Minutes<5>)
        requires
            self.days_in_range(),
            i32::MIN <= DateResolution::first_day(self) * 288,
            DateResolution::first_day(self) * 288 <= i32::MAX,
        ensures
            r.index == DateResolution::first_day(self) * 288,
    {
        Minutes::<5>::first_on_day(DateResolution::first(self))
    }

    /// The first half hour of the period.
    pub fn half_hour(self) -> (r: Minutes<30>)
        requires
            self.days_in_range(),
            i32::MIN <= DateResolution::first_day(self) * 48,
            DateResolution::first_day(self) * 48 <= i32::MAX,
        ensures
            r.index == DateResolution::first_day(self) * 48,
    {
        Minutes::<30>::first_on_day(DateResolution::first(self))
    }

    /// The first hour of the period.
    pub fn hour(self) -> (r: Minutes<60>)
        requires
            self.days_in_range(),
            i32::MIN <= DateResolution::first_day(self) * 24,
            DateResolution::first_day(self) * 24 <= i32::MAX,
        ensures
            r.index == DateResolution::first_day(self) * 24,
    {
        Minutes::<60>::first_on_day(DateResolution::first(self))
    }

    /// The first day of the year.
    pub fn day(self) -> (r: Day)
        requires
            self.days_in_range(),
        ensures
            r.0 == DateResolution::first_day(self),
    {
        self.start()
    }

    /// January of the year.
    pub fn month(self) -> (r: Month)
        requires
            i32::MIN <= self.0 * 12 <= i32::MAX - 11,
        ensures
            r.0 == self.0 * 12,
    {
        self.jan()
    }

    /// The year itself.
    pub fn year(self) -> (r: Year)
        ensures
            r == self,
    {
        self
    }
}

} // verus!
