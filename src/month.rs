//! Months, numbered by months since January of year 0.
use vstd::prelude::*;

use crate::{DateResolution, FromMonotonic, Monotonic, TimeResolution};
use crate::calendar::{
    day_count_of, days_before_month, leap, lemma_day_count_round_trip, lemma_year_of_i32,
    lemma_year_of_monotone, lemma_ymd_round_trip, month_abbrev, month_of_year_from_name,
    names_month, ymd_of, DayOfMonth, MonthOfYear,
};
use crate::day::Day;
use crate::error::{is_parse_error, parse_error, Error};
use crate::minutes::Minutes;
use crate::quarter::Quarter;
use crate::text::{
    lemma_signed_padded, parse_signed, push_signed_padded, signed_padded, signed_value,
};
use crate::year::Year;

verus! {

/// The day count of the first day of the month with number `m`.
pub open spec fn month_start(m: int) -> int {
    day_count_of(m / 12, m % 12 + 1, 1)
}

/// The day count of the last day of the month with number `m`.
pub open spec fn month_end(m: int) -> int {
    let y = m / 12;
    day_count_of(
        y,
        m % 12 + 1,
        days_before_month(m % 12 + 1, leap(y)) - days_before_month(m % 12, leap(y)),
    )
}

/// The number of the month that the day with count `d` falls in.
pub open spec fn month_of_day(d: int) -> int {
    ymd_of(d).0 * 12 + ymd_of(d).1 - 1
}

/// A month: the number of months since January of year 0.
#[derive(Clone, Copy, Debug, PartialEq, Eq, Hash, PartialOrd, Ord)]
pub struct Month(pub i32);

impl Month {
    /// The month `n` months later.
    pub fn succ_n(self, n: u16) -> (r: Month)
        requires
            self.0 + n <= i32::MAX,
        ensures
            r.0 == self.0 + n,
    {
        Month(self.0 + n as i32)
    }

    /// The month `n` months earlier.
    pub fn pred_n(self, n: u16) -> (r: Month)
        requires
            self.0 - n >= i32::MIN,
        ensures
            r.0 == self.0 - n,
    {
        Month(self.0 - n as i32)
    }

    /// The next month.
    pub fn succ(self) -> (r: Month)
        requires
            self.0 < i32::MAX,
        ensures
            r.0 == self.0 + 1,
    {
        Month(self.0 + 1)
    }

    /// The previous month.
    pub fn pred(self) -> (r: Month)
        requires
            self.0 > i32::MIN,
        ensures
            r.0 == self.0 - 1,
    {
        Month(self.0 - 1)
    }

    /// The number of the month, which numbers months in order.
    pub fn to_monotonic(self) -> (r: i32)
        ensures
            r == self.0,
    {
        self.0
    }

    /// The month with number `idx`.
    pub fn from_monotonic(idx: i32) -> (r: Month)
        ensures
            r.0 == idx,
    {
        Month(idx)
    }

    /// How many months `other` lies after this one.
    pub fn between(self, other: Month) -> (r: i32)
        requires
            i32::MIN <= other.0 - self.0 <= i32::MAX,
        ensures
            r == other.0 - self.0,
    {
        other.0 - self.0
    }

    /// The month `month` of year `y`.
    pub fn from_year_month(y: i32, month: MonthOfYear) -> (r: Month)
        requires
            i32::MIN <= y * 12,
            y * 12 + month.index() <= i32::MAX,
        ensures
            r.0 == y * 12 + month.index(),
    {
        Month(y * 12 + month.months_from_jan() as i32)
    }

    /// The month `month` of `year`.
    pub fn from_parts(year: Year, month: MonthOfYear) -> (r: Month)
        requires
            i32::MIN <= year.0 * 12,
            year.0 * 12 + month.index() <= i32::MAX,
        ensures
            r.0 == year.0 * 12 + month.index(),
    {
        Self::from_year_month(year.0, month)
    }

    /// The year this month falls in.
    pub fn year_num(self) -> (r: i32)
        ensures
            r == self.0 / 12,
    {
        self.0.checked_div_euclid(12).unwrap()
    }

    /// The year this month falls in.
    pub fn year(self) -> (r: Year)
        ensures
            r.0 == self.0 / 12,
    {
        Year(self.year_num())
    }

    /// The month of the year.
    pub fn month_of_year(self) -> (r: MonthOfYear)
        ensures
            r.index() == self.0 % 12,
    {
        let m = self.0.checked_rem_euclid(12).unwrap();
        MonthOfYear::from_number(m as u8 + 1).unwrap()
    }

    /// The number of the month in its year: 1 for January, 12 for December.
    pub fn month_num(self) -> (r: u8)
        ensures
            r == self.0 % 12 + 1,
    {
        self.month_of_year().number()
    }

    /// The quarter this month falls in.
    pub fn quarter(self) -> (r: Quarter)
        ensures
            r.0 == (self.0 / 12) * 4 + (self.0 % 12) / 3,
    {
        let m = self.0.checked_rem_euclid(12).unwrap();
        Quarter(self.year_num() * 4 + m / 3)
    }

    /// The first day of the month.
    pub fn start(self) -> (r: Day)
        requires
            i32::MIN <= month_start(self.0 as int) <= i32::MAX,
        ensures
            r.0 == month_start(self.0 as int),
    {
        Day::first_on_month(self.year_num(), self.month_of_year())
    }

    /// The first day of the month.
    pub fn first_day(self) -> (r: Day)
        requires
            i32::MIN <= month_start(self.0 as int) <= i32::MAX,
        ensures
            r.0 == month_start(self.0 as int),
    {
        self.start()
    }

    /// The last day of the month.
    pub fn last_day(self) -> (r: Day)
        requires
            i32::MIN <= month_end(self.0 as int) <= i32::MAX,
        ensures
            r.0 == month_end(self.0 as int),
    {
        Day::last_on_month(self.year_num(), self.month_of_year())
    }

    /// The last day of the month.
    pub fn end(self) -> (r: Day)
        requires
            i32::MIN <= month_end(self.0 as int) <= i32::MAX,
        ensures
            r.0 == month_end(self.0 as int),
    {
        self.last_day()
    }

    /// Day `day` of this month.
    pub fn with_day(self, day: DayOfMonth) -> (r: Day)
        requires
            i32::MIN <= month_start(self.0 as int) + day.value() - 1 <= i32::MAX,
        ensures
            r.0 == month_start(self.0 as int) + day.value() - 1,
    {
        Day::ymd(self.year_num(), self.month_of_year(), day)
    }

    /// The month that `day` falls in.
    pub fn from_day(day: Day) -> (r: Month)
        ensures
            r.0 == month_of_day(day.0 as int),
    {
        proof {
            lemma_year_of_i32(day.0 as int);
        }
        let (y, m, _) = day.to_ymd();
        Month(y * 12 + m as i32 - 1)
    }
}

/// The text `Mon-YYYY` of the month with number `m`, such as `Jan-2021`.
pub open spec fn month_text(m: int) -> Seq<char> {
    month_abbrev(m % 12) + seq!['-'] + signed_padded(m / 12, 4)
}

/// Whether `s` has the form `Mon-YYYY` of a month with an `i32` number: a
/// three-letter month abbreviation in any case, a dash, and a year of one to
/// nine digits with an optional minus sign.
pub open spec fn is_month_text(s: Seq<char>) -> bool {
    &&& s.len() >= 5
    &&& s[3] == '-'
    &&& exists|k: int| 0 <= k < 12 && #[trigger] names_month(s, k)
    &&& signed_value(s.subrange(4, s.len() as int)).is_some()
    &&& i32::MIN <= signed_value(s.subrange(4, s.len() as int)).unwrap() * 12
    &&& signed_value(s.subrange(4, s.len() as int)).unwrap() * 12 + 11 <= i32::MAX
}

impl Month {
    /// The text `Mon-YYYY` of the month, such as `Jan-2021`.
    pub fn to_string(&self) -> (r: String)
        ensures
            r@ == month_text(self.0 as int),
    {
        let mut out = String::from_str(self.month_of_year().name());
        proof {
            reveal_strlit("-");
        }
        out.append("-");
        push_signed_padded(&mut out, self.year_num(), 4);
        out
    }

    /// The month that the text `s` of the form `Mon-YYYY` names.
    #[verifier::rlimit(30)]
    pub fn parse(s: &str) -> (r: Result<Month, Error>)
        ensures
            r.is_ok() <==> is_month_text(s@),
            r.is_ok() ==> names_month(s@, r.unwrap().0 as int % 12) && r.unwrap().0 / 12 == signed_value(
                s@.subrange(4, s@.len() as int),
            ).unwrap(),
            r.is_err() ==> is_parse_error(r, "Month"@, s@),
    {
        proof {
            reveal_strlit("Month");
        }
        let n = s.unicode_len();
        if n < 5 || s.get_char(3) != '-' {
            return Err(parse_error("Month", s));
        }
        let month = match month_of_year_from_name(s) {
            Ok(m) => m,
            Err(_) => {
                return Err(parse_error("Month", s));
            },
        };
        match parse_signed(s, 4, n) {
            Some(y) => {
                if y < -178956970 || y > 178956969 {
                    return Err(parse_error("Month", s));
                }
                let r = Month::from_year_month(y, month);
                assert(r.0 % 12 == month.index());
                Ok(r)
            },
            None => Err(parse_error("Month", s)),
        }
    }
}

/// Reading the text of a month gives the month back, for every month all of
/// whose year's months have `i32` numbers.
#[verifier::rlimit(30)]
pub proof fn lemma_month_text_round_trip(m: int)
    requires
        i32::MIN <= (m / 12) * 12,
        (m / 12) * 12 + 11 <= i32::MAX,
    ensures
        is_month_text(month_text(m)),
        signed_value(month_text(m).subrange(4, month_text(m).len() as int)) == Some(m / 12),
        names_month(month_text(m), m % 12),
{
    let t = month_text(m);
    lemma_signed_padded(m / 12, 4);
    assert(t.subrange(4, t.len() as int) =~= signed_padded(m / 12, 4));
    let a = month_abbrev(m % 12);
    assert(t[0] == a[0] && t[1] == a[1] && t[2] == a[2]);
    assert(names_month(t, m % 12));
}

impl core::str::FromStr for Month {
    type Err = Error;

    fn from_str(s: &str) -> (r: Result<Month, Error>)
        ensures
            r.is_ok() <==> is_month_text(s@),
            r.is_ok() ==> names_month(s@, r.unwrap().0 as int % 12) && r.unwrap().0 / 12 == signed_value(
                s@.subrange(4, s@.len() as int),
            ).unwrap(),
            r.is_err() ==> is_parse_error(r, "Month"@, s@),
    {
        Month::parse(s)
    }
}

impl Day {
    /// The month this day falls in.
    pub fn month(self) -> (r: Month)
        ensures
            r.0 == month_of_day(self.0 as int),
    {
        Month::from_day(self)
    }
}

/// A month is the month of its own first day.
pub proof fn lemma_month_of_month_start(m: int)
    ensures
        month_of_day(month_start(m)) == m,
{
    lemma_day_count_round_trip(m / 12, m % 12 + 1, 1);
}

/// Later days fall in the same or later months.
pub proof fn lemma_month_of_day_monotone(a: int, b: int)
    requires
        a <= b,
    ensures
        month_of_day(a) <= month_of_day(b),
{
    lemma_year_of_monotone(a, b);
}

/// A month runs from its first day to its last, and holds both.
pub proof fn lemma_month_span(m: int)
    ensures
        month_start(m) <= month_end(m),
        month_of_day(month_start(m)) == m,
        month_of_day(month_end(m)) == m,
{
    let y = m / 12;
    lemma_month_of_month_start(m);
    let len = days_before_month(m % 12 + 1, leap(y)) - days_before_month(m % 12, leap(y));
    lemma_day_count_round_trip(y, m % 12 + 1, len);
}

/// Later months start later: the order of month numbers is the order of their
/// first days.
pub proof fn lemma_month_start_ordered(a: int, b: int)
    ensures
        a < b <==> month_start(a) < month_start(b),
{
    lemma_month_of_month_start(a);
    lemma_month_of_month_start(b);
    if month_start(b) <= month_start(a) {
        lemma_month_of_day_monotone(month_start(b), month_start(a));
    }
    if month_start(a) <= month_start(b) {
        lemma_month_of_day_monotone(month_start(a), month_start(b));
    }
}

/// Every day lies between the first and last days of its month.
pub proof fn lemma_month_contains_day(d: int)
    ensures
        month_start(month_of_day(d)) <= d <= month_end(month_of_day(d)),
{
    lemma_ymd_round_trip(d);
}

impl Monotonic for Month {
    open spec fn index(self) -> int {
        self.0 as int
    }

    proof fn lemma_index_bounds(self) {
    }

    proof fn lemma_index_injective(self, other: Self) {
    }

    fn to_monotonic(self) -> (r: i32) {
        self.0
    }

    fn between(self, other: Self) -> (r: i32) {
        other.0 - self.0
    }
}

impl FromMonotonic for Month {
    fn from_monotonic(idx: i32) -> (r: Self) {
        Month(idx)
    }
}

impl TimeResolution for Month {
    fn succ_n(self, n: u16) -> (r: Self) {
        assert(self.index() == self.0 as int);
        Month(self.0 + n as i32)
    }

    fn pred_n(self, n: u16) -> (r: Self) {
        assert(self.index() == self.0 as int);
        Month(self.0 - n as i32)
    }
}

impl DateResolution for Month {
    open spec fn period_of_day(d: int) -> int {
        month_of_day(d)
    }

    open spec fn first_day(self) -> int {
        month_start(self.0 as int)
    }

    open spec fn last_day(self) -> int {
        month_end(self.0 as int)
    }

    open spec fn days_in_range(self) -> bool {
        i32::MIN <= month_start(self.0 as int) && month_end(self.0 as int) <= i32::MAX
    }

    proof fn lemma_days(self) {
        lemma_month_span(self.0 as int);
    }

    proof fn lemma_period_of_day_monotone(a: int, b: int) {
        lemma_month_of_day_monotone(a, b);
    }

    fn first(self) -> (r: Day) {
        self.start()
    }

    fn last(self) -> (r: Day) {
        self.last_day()
    }

    fn of_day(day: Day) -> (r: Self) {
        Month::from_day(day)
    }
}

impl Month {
    /// The first one-minute period of the period.
    pub fn start_minute(self) -> (r: Minutes<1>)
        requires
            self.days_in_range(),
            i32::MIN <= DateResolution::first_day(self) * 1440,
            DateResolution::first_day(self) * 1440 <= i32::MAX,
        ensures
            r.index == DateResolution::first_day(self) * 1440,
    {
        Minutes::<1>::first_on_day(DateResolution::first(self))
    }

    /// The first five-minute period of the period.
    pub fn five_minute(self) -> (r: Minutes<5>)
        requires
            self.days_in_range(),
            i32::MIN <= DateResolution::first_day(self) * 288,
            DateResolution::first_day(self) * 288 <= i32::MAX,
        ensures
            r.index == DateResolution::first_day(self) * 288,
    {
        Minutes::<5>::first_on_day(DateResolution::first(self))
    }

    /// The first half hour of the period.
    pub fn half_hour(self) -> (r: Minutes<30>)
        requires
            self.days_in_range(),
            i32::MIN <= DateResolution::first_day(self) * 48,
            DateResolution::first_day(self) * 48 <= i32::MAX,
        ensures
            r.index == DateResolution::first_day(self) * 48,
    {
        Minutes::<30>::first_on_day(DateResolution::first(self))
    }

    /// The first hour of the period.
    pub fn hour(self) -> (r: Minutes<60>)
        requires
            self.days_in_range(),
            i32::MIN <= DateResolution::first_day(self) * 24,
            DateResolution::first_day(self) * 24 <= i32::MAX,
        ensures
            r.index == DateResolution::first_day(self) * 24,
    {
        Minutes::<60>::first_on_day(DateResolution::first(self))
    }

    /// The first day of the month.
    pub fn day(self) -> (r: Day)
        requires
            self.days_in_range(),
        ensures
            r.0 == DateResolution::first_day(self),
    {
        self.start()
    }

    /// The month itself.
    pub fn month(self) -> (r: Month)
        ensures
            r == self,
    {
        self
    }
}

} // verus!
