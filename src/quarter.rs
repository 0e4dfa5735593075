//! Quarters of the year, numbered by quarters since the start of year 0.
use vstd::prelude::*;

use crate::{DateResolution, FromMonotonic, Monotonic, TimeResolution};
use crate::calendar::{lemma_shift_div, lemma_year_of_i32, lemma_ymd_round_trip, ymd_of};
use crate::day::{day_of_text, Day};
use crate::error::{is_parse_error, parse_error, Error};
use crate::minutes::Minutes;
use crate::month::{
    lemma_month_of_day_monotone, lemma_month_span, month_end, month_of_day, month_start, Month,
};
use crate::text::{
    digit_char, lemma_signed_padded, parse_signed, push_signed_padded, signed_padded, signed_value,
};
use crate::year::Year;

verus! {

/// The number of the quarter that the day with count `d` falls in.
pub open spec fn quarter_of_day(d: int) -> int {
    ymd_of(d).0 * 4 + (ymd_of(d).1 - 1) / 3
}

/// The number of the first month of the quarter with number `q`.
pub open spec fn quarter_first_month(q: int) -> int {
    (q / 4) * 12 + (q % 4) * 3
}

/// A quarter of the year.
#[derive(Clone, Copy, Debug, PartialEq, Eq, Hash, PartialOrd, Ord)]
pub enum QuarterOfYear {
    Q1,
    Q2,
    Q3,
    Q4,
}

impl QuarterOfYear {
    /// Quarters since the start of the year: 0 to 3.
    pub open spec fn index(self) -> int {
        match self {
            QuarterOfYear::Q1 => 0,
            QuarterOfYear::Q2 => 1,
            QuarterOfYear::Q3 => 2,
            QuarterOfYear::Q4 => 3,
        }
    }

    /// The number of the quarter: 1 to 4.
    pub fn number(self) -> (r: u8)
        ensures
            r == self.index() + 1,
    {
        match self {
            QuarterOfYear::Q1 => 1,
            QuarterOfYear::Q2 => 2,
            QuarterOfYear::Q3 => 3,
            QuarterOfYear::Q4 => 4,
        }
    }

    /// The quarter with number `n` (1 to 4), if there is one.
    pub fn from_number(n: u8) -> (r: Option<QuarterOfYear>)
        ensures
            r.is_some() <==> 1 <= n <= 4,
            r.is_some() ==> r.unwrap().index() == n - 1,
    {
        match n {
            1 => Some(QuarterOfYear::Q1),
            2 => Some(QuarterOfYear::Q2),
            3 => Some(QuarterOfYear::Q3),
            4 => Some(QuarterOfYear::Q4),
            _ => None,
        }
    }
}

/// A quarter: the number of quarters since the start of year 0.
#[derive(Clone, Copy, Debug, PartialEq, Eq, Hash, PartialOrd, Ord)]
pub struct Quarter(pub i32);

impl Quarter {
    /// The quarter `n` quarters later.
    pub fn succ_n(self, n: u16) -> (r: Quarter)
        requires
            self.0 + n <= i32::MAX,
        ensures
            r.0 == self.0 + n,
    {
        Quarter(self.0 + n as i32)
    }

    /// The quarter `n` quarters earlier.
    pub fn pred_n(self, n: u16) -> (r: Quarter)
        requires
            self.0 - n >= i32::MIN,
        ensures
            r.0 == self.0 - n,
    {
        Quarter(self.0 - n as i32)
    }

    /// The next quarter.
    pub fn succ(self) -> (r: Quarter)
        requires
            self.0 < i32::MAX,
        ensures
            r.0 == self.0 + 1,
    {
        Quarter(self.0 + 1)
    }

    /// The previous quarter.
    pub fn pred(self) -> (r: Quarter)
        requires
            self.0 > i32::MIN,
        ensures
            r.0 == self.0 - 1,
    {
        Quarter(self.0 - 1)
    }

    /// The number of the quarter, which numbers quarters in order.
    pub fn to_monotonic(self) -> (r: i32)
        ensures
            r == self.0,
    {
        self.0
    }

    /// The quarter with number `idx`.
    pub fn from_monotonic(idx: i32) -> (r: Quarter)
        ensures
            r.0 == idx,
    {
        Quarter(idx)
    }

    /// How many quarters `other` lies after this one.
    pub fn between(self, other: Quarter) -> (r: i32)
        requires
            i32::MIN <= other.0 - self.0 <= i32::MAX,
        ensures
            r == other.0 - self.0,
    {
        other.0 - self.0
    }

    /// Quarter `quarter` of `year`.
    pub fn from_parts(year: Year, quarter: QuarterOfYear) -> (r: Quarter)
        requires
            i32::MIN <= year.0 * 4,
            year.0 * 4 + quarter.index() <= i32::MAX,
        ensures
            r.0 == year.0 * 4 + quarter.index(),
    {
        Quarter(year.0 * 4 + (quarter.number() as i32 - 1))
    }

    /// The year this quarter falls in.
    pub fn year_num(self) -> (r: i32)
        ensures
            r == self.0 / 4,
    {
        self.0.checked_div_euclid(4).unwrap()
    }

    /// The year this quarter falls in.
    pub fn year(self) -> (r: Year)
        ensures
            r.0 == self.0 / 4,
    {
        Year(self.year_num())
    }

    /// The number of the quarter in its year: 1 to 4.
    pub fn quarter_num(self) -> (r: u8)
        ensures
            r == self.0 % 4 + 1,
    {
        (self.0.checked_rem_euclid(4).unwrap() + 1) as u8
    }

    /// The quarter of the year.
    pub fn quarter_of_year(self) -> (r: QuarterOfYear)
        ensures
            r.index() == self.0 % 4,
    {
        QuarterOfYear::from_number(self.quarter_num()).unwrap()
    }

    /// The first month of the quarter.
    pub fn first_month(self) -> (r: Month)
        requires
            quarter_months_fit(self.0 as int),
        ensures
            r.0 == quarter_first_month(self.0 as int),
    {
        let q = self.0.checked_rem_euclid(4).unwrap();
        Month((self.year_num() as i64 * 12 + q as i64 * 3) as i32)
    }

    /// The last month of the quarter.
    pub fn last_month(self) -> (r: Month)
        requires
            quarter_months_fit(self.0 as int),
        ensures
            r.0 == quarter_first_month(self.0 as int) + 2,
    {
        let first = self.first_month();
        Month(first.0 + 2)
    }

    /// The first day of the quarter.
    pub fn start(self) -> (r: Day)
        requires
            quarter_months_fit(self.0 as int),
            i32::MIN <= month_start(quarter_first_month(self.0 as int)) <= i32::MAX,
        ensures
            r.0 == month_start(quarter_first_month(self.0 as int)),
    {
        self.first_month().start()
    }

    /// The last day of the quarter.
    pub fn end(self) -> (r: Day)
        requires
            quarter_months_fit(self.0 as int),
            i32::MIN <= month_end(quarter_first_month(self.0 as int) + 2) <= i32::MAX,
        ensures
            r.0 == month_end(quarter_first_month(self.0 as int) + 2),
    {
        self.last_month().last_day()
    }

    /// The quarter that `day` falls in.
    pub fn from_day(day: Day) -> (r: Quarter)
        ensures
            r.0 == quarter_of_day(day.0 as int),
    {
        proof {
            lemma_year_of_i32(day.0 as int);
        }
        let (y, m, _) = day.to_ymd();
        Quarter(y * 4 + (m as i32 - 1) / 3)
    }
}

/// The text `Q<n>-YYYY` of the quarter with number `q`, such as `Q1-2021`.
pub open spec fn quarter_text(q: int) -> Seq<char> {
    seq!['Q', digit_char(q % 4 + 1), '-'] + signed_padded(q / 4, 4)
}

/// Whether `c` is the digit of a quarter, 1 to 4.
pub open spec fn is_quarter_digit(c: char) -> bool {
    '1' <= c && c <= '4'
}

/// Quarter `n` (1 to 4) of year `y`, if its number fits in an `i32`.
pub open spec fn quarter_number(y: int, n: int) -> Option<int> {
    if i32::MIN <= y * 4 && y * 4 + 3 <= i32::MAX {
        Some(y * 4 + n - 1)
    } else {
        None
    }
}

/// The quarter that the text `s` names, in the form `Q<n>-YYYY`, else
/// `YYYY-Q<n>`, else as a day `YYYY-MM-DD` that the quarter holds.
pub open spec fn quarter_of_text(s: Seq<char>) -> Option<int> {
    let n = s.len() as int;
    if n >= 4 && s[0] == 'Q' && is_quarter_digit(s[1]) && s[2] == '-' && signed_value(
        s.subrange(3, n),
    ).is_some() {
        quarter_number(signed_value(s.subrange(3, n)).unwrap(), s[1] as int - '0' as int)
    } else if n >= 4 && s[n - 3] == '-' && s[n - 2] == 'Q' && is_quarter_digit(s[n - 1])
        && signed_value(s.subrange(0, n - 3)).is_some() {
        quarter_number(signed_value(s.subrange(0, n - 3)).unwrap(), s[n - 1] as int - '0' as int)
    } else {
        match day_of_text(s) {
            Some(d) => Some(quarter_of_day(d)),
            None => None,
        }
    }
}

impl Quarter {
    /// The text `Q<n>-YYYY` of the quarter, such as `Q1-2021`.
    pub fn to_string(&self) -> (r: String)
        ensures
            r@ == quarter_text(self.0 as int),
    {
        let mut out = String::new();
        proof {
            reveal_strlit("Q");
            reveal_strlit("-");
        }
        out.append("Q");
        crate::text::push_decimal(&mut out, self.quarter_num() as u64);
        proof {
            reveal_with_fuel(crate::text::decimal, 2);
        }
        out.append("-");
        push_signed_padded(&mut out, self.year_num(), 4);
        out
    }

    /// The text `YYYY-Q<n>` of the quarter, such as `2021-Q1`.
    pub fn to_string_year_first(&self) -> (r: String)
        ensures
            r@ == signed_padded(self.0 / 4, 4) + seq!['-', 'Q', digit_char(self.0 % 4 + 1)],
    {
        let mut out = String::new();
        push_signed_padded(&mut out, self.year_num(), 4);
        proof {
            reveal_strlit("-Q");
        }
        out.append("-Q");
        crate::text::push_decimal(&mut out, self.quarter_num() as u64);
        proof {
            reveal_with_fuel(crate::text::decimal, 2);
        }
        out
    }

    /// The quarter that the text `s` names: `Q1-2021`, `2021-Q1`, or a day
    /// such as `2021-01-01` that the quarter holds.
    #[verifier::rlimit(30)]
    pub fn parse(s: &str) -> (r: Result<Quarter, Error>)
        ensures
            quarter_of_text(s@).is_some() ==> r == Ok::<Quarter, Error>(
                Quarter(quarter_of_text(s@).unwrap() as i32),
            ),
            quarter_of_text(s@).is_none() ==> is_parse_error(r, "Quarter"@, s@),
    {
        proof {
            reveal_strlit("Quarter");
        }
        let n = s.unicode_len();
        if n >= 4 {
            let c0 = s.get_char(0);
            let c1 = s.get_char(1);
            let c2 = s.get_char(2);
            if c0 == 'Q' && '1' <= c1 && c1 <= '4' && c2 == '-' {
                if let Some(y) = parse_signed(s, 3, n) {
                    let q = (c1 as u32 - '0' as u32) as i32;
                    if y < -536870912 || y > 536870911 {
                        return Err(parse_error("Quarter", s));
                    }
                    return Ok(Quarter(y * 4 + (q - 1)));
                }
            }
            let d0 = s.get_char(n - 3);
            let d1 = s.get_char(n - 2);
            let d2 = s.get_char(n - 1);
            if d0 == '-' && d1 == 'Q' && '1' <= d2 && d2 <= '4' {
                if let Some(y) = parse_signed(s, 0, n - 3) {
                    let q = (d2 as u32 - '0' as u32) as i32;
                    if y < -536870912 || y > 536870911 {
                        return Err(parse_error("Quarter", s));
                    }
                    return Ok(Quarter(y * 4 + (q - 1)));
                }
            }
        }
        match Day::parse(s) {
            Ok(d) => Ok(Quarter::from_day(d)),
            Err(_) => Err(parse_error("Quarter", s)),
        }
    }
}

/// Reading the text of a quarter gives the quarter back, for every quarter with
/// an `i32` number.
#[verifier::rlimit(30)]
pub proof fn lemma_quarter_text_round_trip(q: int)
    requires
        i32::MIN <= q <= i32::MAX,
    ensures
        quarter_of_text(quarter_text(q)) == Some(q),
{
    let t = quarter_text(q);
    lemma_signed_padded(q / 4, 4);
    assert(t.subrange(3, t.len() as int) =~= signed_padded(q / 4, 4));
    assert(t[1] == digit_char(q % 4 + 1));
}

impl core::str::FromStr for Quarter {
    type Err = Error;

    fn from_str(s: &str) -> (r: Result<Quarter, Error>)
        ensures
            quarter_of_text(s@).is_some() ==> r == Ok::<Quarter, Error>(
                Quarter(quarter_of_text(s@).unwrap() as i32),
            ),
            quarter_of_text(s@).is_none() ==> is_parse_error(r, "Quarter"@, s@),
    {
        Quarter::parse(s)
    }
}

impl Day {
    /// The quarter this day falls in.
    pub fn quarter(self) -> (r: Quarter)
        ensures
            r.0 == quarter_of_day(self.0 as int),
    {
        Quarter::from_day(self)
    }
}

/// Whether the months of quarter `q` all have `i32` numbers.
pub open spec fn quarter_months_fit(q: int) -> bool {
    i32::MIN <= quarter_first_month(q) && quarter_first_month(q) + 2 <= i32::MAX
}

/// The quarter of a day is the quarter that its month falls in.
pub proof fn lemma_quarter_of_day_by_month(d: int)
    ensures
        quarter_of_day(d) == month_of_day(d) / 3,
{
    lemma_ymd_round_trip(d);
    let y = ymd_of(d).0;
    let k = ymd_of(d).1 - 1;
    lemma_shift_div(y * 12 + k, k, 3, 4 * y);
}

/// The first month of a quarter, and the two after it, lie in the quarter.
pub proof fn lemma_quarter_first_month(q: int)
    ensures
        quarter_first_month(q) / 3 == q,
        (quarter_first_month(q) + 2) / 3 == q,
{
    lemma_shift_div(quarter_first_month(q), (q % 4) * 3, 3, 4 * (q / 4));
    lemma_shift_div(quarter_first_month(q) + 2, (q % 4) * 3 + 2, 3, 4 * (q / 4));
}

/// Every day lies between the first day of the first month and the last day of
/// the last month of its quarter.
#[verifier::rlimit(30)]
pub proof fn lemma_quarter_contains_day(d: int)
    ensures
        month_start(quarter_first_month(quarter_of_day(d))) <= d,
        d <= month_end(quarter_first_month(quarter_of_day(d)) + 2),
{
    lemma_ymd_round_trip(d);
    let y = ymd_of(d).0;
    let k = (ymd_of(d).1 - 1) / 3;
    let q = quarter_of_day(d);
    lemma_shift_div(q, k, 4, y);
    let m = quarter_first_month(q);
    assert(m == y * 12 + 3 * k);
    lemma_shift_div(m, 3 * k, 12, y);
    lemma_shift_div(m + 2, 3 * k + 2, 12, y);
    lemma_days_of_quarter(y, k, ymd_of(d).1, ymd_of(d).2);
}

/// Within a year, the days of the months of quarter `k` (0 to 3) run from
/// the first of its first month to the end of its last month.
proof fn lemma_days_of_quarter(y: int, k: int, mm: int, dd: int)
    requires
        0 <= k < 4,
        3 * k + 1 <= mm <= 3 * k + 3,
        crate::calendar::valid_ymd(y, mm, dd),
    ensures
        crate::calendar::day_count_of(y, 3 * k + 1, 1) <= crate::calendar::day_count_of(y, mm, dd),
        crate::calendar::day_count_of(y, mm, dd) <= crate::calendar::day_count_of(
            y,
            3 * k + 3,
            crate::calendar::days_before_month(3 * k + 3, crate::calendar::leap(y))
                - crate::calendar::days_before_month(3 * k + 2, crate::calendar::leap(y)),
        ),
{
}

impl Monotonic for Quarter {
    open spec fn index(self) -> int {
        self.0 as int
    }

    proof fn lemma_index_bounds(self) {
    }

    proof fn lemma_index_injective(self, other: Self) {
    }

    fn to_monotonic(self) -> (r: i32) {
        self.0
    }

    fn between(self, other: Self) -> (r: i32) {
        other.0 - self.0
    }
}

impl FromMonotonic for Quarter {
    fn from_monotonic(idx: i32) -> (r: Self) {
        Quarter(idx)
    }
}

impl TimeResolution for Quarter {
    fn succ_n(self, n: u16) -> (r: Self) {
        assert(self.index() == self.0 as int);
        Quarter(self.0 + n as i32)
    }

    fn pred_n(self, n: u16) -> (r: Self) {
        assert(self.index() == self.0 as int);
        Quarter(self.0 - n as i32)
    }
}

impl DateResolution for Quarter {
    open spec fn period_of_day(d: int) -> int {
        quarter_of_day(d)
    }

    open spec fn first_day(self) -> int {
        month_start(quarter_first_month(self.0 as int))
    }

    open spec fn last_day(self) -> int {
        month_end(quarter_first_month(self.0 as int) + 2)
    }

    open spec fn days_in_range(self) -> bool {
        quarter_months_fit(self.0 as int) && i32::MIN <= month_start(
            quarter_first_month(self.0 as int),
        ) && month_end(quarter_first_month(self.0 as int) + 2) <= i32::MAX
    }

    proof fn lemma_days(self) {
        let m = quarter_first_month(self.0 as int);
        lemma_quarter_first_month(self.0 as int);
        lemma_month_span(m);
        lemma_month_span(m + 2);
        if month_end(m + 2) < month_start(m) {
            lemma_month_of_day_monotone(month_end(m + 2), month_start(m));
        }
        lemma_quarter_of_day_by_month(month_start(m));
        lemma_quarter_of_day_by_month(month_end(m + 2));
    }

    proof fn lemma_period_of_day_monotone(a: int, b: int) {
        lemma_month_of_day_monotone(a, b);
        lemma_quarter_of_day_by_month(a);
        lemma_quarter_of_day_by_month(b);
    }

    fn first(self) -> (r: Day) {
        self.start()
    }

    fn last(self) -> (r: Day) {
        self.end()
    }

    fn of_day(day: Day) -> (r: Self) {
        Quarter::from_day(day)
    }
}

impl Quarter {
    /// The first one-minute period of the period.
    pub fn start_minute(self) -> (r: Minutes<1>)
        requires
            self.days_in_range(),
            i32::MIN <= DateResolution::first_day(self) * 1440,
            DateResolution::first_day(self) * 1440 <= i32::MAX,
        ensures
            r.index == DateResolution::first_day(self) * 1440,
    {
        Minutes::<1>::first_on_day(DateResolution::first(self))
    }

    /// The first five-minute period of the period.
    pub fn five_minute(self) -> (r: Minutes<5>)
        requires
            self.days_in_range(),
            i32::MIN <= DateResolution::first_day(self) * 288,
            DateResolution::first_day(self) * 288 <= i32::MAX,
        ensures
            r.index == DateResolution::first_day(self) * 288,
    {
        Minutes::<5>::first_on_day(DateResolution::first(self))
    }

    /// The first half hour of the period.
    pub fn half_hour(self) -> (r: Minutes<30>)
        requires
            self.days_in_range(),
            i32::MIN <= DateResolution::first_day(self) * 48,
            DateResolution::first_day(self) * 48 <= i32::MAX,
        ensures
            r.index == DateResolution::first_day(self) * 48,
    {
        Minutes::<30>::first_on_day(DateResolution::first(self))
    }

    /// The first hour of the period.
    pub fn hour(self) -> (r: Minutes<60>)
        requires
            self.days_in_range(),
            i32::MIN <= DateResolution::first_day(self) * 24,
            DateResolution::first_day(self) * 24 <= i32::MAX,
        ensures
            r.index == DateResolution::first_day(self) * 24,
    {
        Minutes::<60>::first_on_day(DateResolution::first(self))
    }

    /// The first day of the quarter.
    pub fn day(self) -> (r: Day)
        requires
            self.days_in_range(),
        ensures
            r.0 == DateResolution::first_day(self),
    {
        self.start()
    }

    /// The first month of the quarter.
    pub fn month(self) -> (r: Month)
        requires
            quarter_months_fit(self.0 as int),
        ensures
            r.0 == quarter_first_month(self.0 as int),
    {
        self.first_month()
    }
}

} // verus!
