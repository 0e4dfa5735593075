//! Fixed subdivisions of the day, `N` minutes long.
use vstd::prelude::*;

use vstd::arithmetic::div_mod::{lemma_fundamental_div_mod, lemma_fundamental_div_mod_converse};
use crate::{FromMonotonic, Monotonic, TimeResolution};
use crate::calendar::ymd_of;
use crate::error::Error;
use vstd::utf8::is_ascii_chars;
use crate::day::{day_of_text, day_text, lemma_day_text_round_trip, Day};
use crate::month::{month_of_day, Month};
use crate::text::{
    all_digits, digits_value, is_digit, lemma_digits_bound, lemma_padded, lemma_padded_len,
    lemma_pow10_bound, padded, parse_digits, push_padded,
};
use crate::year::Year;

verus! {

/// The number of minutes in a day; leap seconds are ignored.
pub const MINUTES_PER_DAY: i32 = 1440;

/// Whether `n` minutes is a supported length: one that divides an hour, or a
/// whole number of hours that divides a day.
pub open spec fn valid_width(n: int) -> bool {
n == 1 || n == 2 || n == 3 || n == 4 || n == 5 || n == 6 || n == 10 || n == 15 || n == 20 || n == 30 || n == 60 || n == 120 || n == 180 || n == 240 || n == 360 || n == 720
}

/// The number of periods of `n` minutes in a day.
pub open spec fn periods_per_day(n: int) -> int {
    1440int / n
}

/// A period of `N` minutes: the number of such periods since 0000-01-01 00:00.
#[derive(Clone, Copy, Debug, PartialEq, Eq, Hash, PartialOrd, Ord)]
pub struct Minutes<const N: u16> {
    pub index: i32,
}

/// The position of a period of `N` minutes within its day, counted from 0.
#[derive(Clone, Copy, Debug, PartialEq, Eq, Hash, PartialOrd, Ord)]
pub struct DaySubdivison<const N: u16> {
    pub index: u16,
}

/// Whether `N` is a supported length.
pub fn is_valid_width(n: u16) -> (r: bool)
    ensures
        r == valid_width(n as int),
{
    n == 1 || n == 2 || n == 3 || n == 4 || n == 5 || n == 6 || n == 10 || n == 15 || n == 20 || n == 30 || n == 60 || n == 120 || n == 180 || n == 240 || n == 360 || n == 720
}

/// Dividing an `i32` by a positive number gives an `i32`.
proof fn lemma_div_bounds(x: int, p: int)
    requires
        p >= 1,
        i32::MIN <= x <= i32::MAX,
    ensures
        i32::MIN <= x / p <= i32::MAX,
        0 <= x % p < p,
{
    assert(i32::MIN <= x / p <= i32::MAX) by (nonlinear_arith)
        requires
            p >= 1,
            i32::MIN <= x <= i32::MAX,
    ;
}

/// Going from periods of `n` minutes to periods `k` times as long divides the
/// number by `k`, rounding down.
proof fn lemma_coarser(i: int, n: int, k: int)
    requires
        n > 0,
        k > 0,
    ensures
        (i * n) / (n * k) == i / k,
{
    lemma_fundamental_div_mod(i, k);
    let q = i / k;
    let r = i % k;
    assert(i * n == q * (n * k) + r * n) by (nonlinear_arith)
        requires
            i == k * q + r,
    ;
    assert(0 <= r * n < n * k) by (nonlinear_arith)
        requires
            0 <= r < k,
            n > 0,
    ;
    lemma_fundamental_div_mod_converse(i * n, n * k, q, r * n);
}

/// Going from periods of `n` minutes to periods `k` times shorter multiplies
/// the number by `k`.
proof fn lemma_finer(i: int, n2: int, k: int)
    requires
        n2 > 0,
    ensures
        (i * (n2 * k)) / n2 == i * k,
{
    assert(i * (n2 * k) == (i * k) * n2 + 0) by (nonlinear_arith);
    lemma_fundamental_div_mod_converse(i * (n2 * k), n2, i * k, 0);
}

impl<const N: u16> Minutes<N> {
    /// The number of periods in a day.
    pub fn periods_per_day() -> (r: i32)
        requires
            valid_width(N as int),
        ensures
            r == periods_per_day(N as int),
            1 <= r <= 1440,
    {
        MINUTES_PER_DAY / N as i32
    }

    /// The period `n` periods later.
    pub fn succ_n(self, n: u16) -> (r: Minutes<N>)
        requires
            self.index + n <= i32::MAX,
        ensures
            r.index == self.index + n,
    {
        Minutes { index: self.index + n as i32 }
    }

    /// The period `n` periods earlier.
    pub fn pred_n(self, n: u16) -> (r: Minutes<N>)
        requires
            self.index - n >= i32::MIN,
        ensures
            r.index == self.index - n,
    {
        Minutes { index: self.index - n as i32 }
    }

    /// The next period.
    pub fn succ(self) -> (r: Minutes<N>)
        requires
            self.index < i32::MAX,
        ensures
            r.index == self.index + 1,
    {
        self.succ_n(1)
    }

    /// The previous period.
    pub fn pred(self) -> (r: Minutes<N>)
        requires
            self.index > i32::MIN,
        ensures
            r.index == self.index - 1,
    {
        self.pred_n(1)
    }

    /// The number of the period.
    pub fn to_monotonic(self) -> (r: i32)
        ensures
            r == self.index,
    {
        self.index
    }

    /// How many periods `other` lies after this one.
    pub fn between(self, other: Self) -> (r: i32)
        requires
            i32::MIN <= other.index - self.index <= i32::MAX,
        ensures
            r == other.index - self.index,
    {
        other.index - self.index
    }

    /// The period with number `index`.
    pub fn from_monotonic(index: i32) -> (r: Minutes<N>)
        ensures
            r.index == index,
    {
        Minutes { index }
    }

    /// The day the period falls on.
    pub fn occurs_on_day(self) -> (r: Day)
        requires
            valid_width(N as int),
        ensures
            r.0 == (self.index as int) / periods_per_day(N as int),
    {
        let p = Self::periods_per_day();
        proof {
            lemma_div_bounds(self.index as int, p as int);
        }
        Day(self.index.checked_div_euclid(p).unwrap())
    }

    /// The day the period falls on.
    pub fn day(self) -> (r: Day)
        requires
            valid_width(N as int),
        ensures
            r.0 == (self.index as int) / periods_per_day(N as int),
    {
        self.occurs_on_day()
    }

    /// The month the period falls in.
    pub fn month(self) -> (r: Month)
        requires
            valid_width(N as int),
        ensures
            r.0 == month_of_day((self.index as int) / periods_per_day(N as int)),
    {
        Month::from_day(self.occurs_on_day())
    }

    /// The year the period falls in.
    pub fn year(self) -> (r: Year)
        requires
            valid_width(N as int),
        ensures
            r.0 == ymd_of((self.index as int) / periods_per_day(N as int)).0,
    {
        Year::from_day(self.occurs_on_day())
    }

    /// The first period of `day`.
    pub fn first_on_day(day: Day) -> (r: Minutes<N>)
        requires
            valid_width(N as int),
            i32::MIN <= day.0 * periods_per_day(N as int) <= i32::MAX,
        ensures
            r.index == day.0 * periods_per_day(N as int),
    {
        Minutes { index: day.0 * Self::periods_per_day() }
    }

    /// The last period of `day`.
    pub fn last_on_day(day: Day) -> (r: Minutes<N>)
        requires
            valid_width(N as int),
            i32::MIN <= day.0 * periods_per_day(N as int),
            (day.0 + 1) * periods_per_day(N as int) - 1 <= i32::MAX,
        ensures
            r.index == (day.0 + 1) * periods_per_day(N as int) - 1,
    {
        let p = Self::periods_per_day();
        assert((day.0 + 1) * p == day.0 * p + p) by (nonlinear_arith);
        Minutes { index: day.0 * p + (p - 1) }
    }

    /// The position of the period within its day.
    pub fn relative(self) -> (r: DaySubdivison<N>)
        requires
            valid_width(N as int),
        ensures
            r.index == (self.index as int) % periods_per_day(N as int),
            r.wf(),
    {
        let p = Self::periods_per_day();
        proof {
            lemma_div_bounds(self.index as int, p as int);
        }
        let i = self.index.checked_rem_euclid(p).unwrap();
        DaySubdivison { index: i as u16 }
    }

    /// The one-minute period this period starts with.
    pub fn start_minute(self) -> (r: Minutes<1>)
        requires
            i32::MIN <= self.index * N <= i32::MAX,
        ensures
            r.index == self.index * N,
    {
        Minutes { index: self.index * N as i32 }
    }

    /// The period that `minute` falls in.
    pub fn from_minute(minute: Minutes<1>) -> (r: Minutes<N>)
        requires
            valid_width(N as int),
        ensures
            r.index == (minute.index as int) / (N as int),
    {
        proof {
            lemma_div_bounds(minute.index as int, N as int);
        }
        Minutes { index: minute.index.checked_div_euclid(N as i32).unwrap() }
    }

    /// The period of `N2` minutes that holds the start of this period, where
    /// one of `N` and `N2` divides the other.
    pub fn change_resolution<const N2: u16>(self) -> (r: Minutes<N2>)
        requires
            valid_width(N as int),
            valid_width(N2 as int),
            N2 % N == 0 || N % N2 == 0,
            i32::MIN <= (self.index as int) * (N as int) / (N2 as int) <= i32::MAX,
        ensures
            r.index == (self.index as int) * (N as int) / (N2 as int),
    {
        if N2 % N == 0 {
            let k = N2 / N;
            proof {
                lemma_coarser(self.index as int, N as int, k as int);
                lemma_div_bounds(self.index as int, k as int);
            }
            Minutes { index: self.index.checked_div_euclid(k as i32).unwrap() }
        } else {
            let k = N / N2;
            proof {
                lemma_finer(self.index as int, N2 as int, k as int);
            }
            Minutes { index: self.index * k as i32 }
        }
    }
}

impl<const N: u16> DaySubdivison<N> {
    /// The position lies within a day.
    pub open spec fn wf(self) -> bool {
        valid_width(N as int) && self.index < periods_per_day(N as int)
    }

    /// The number of periods in a day.
    pub fn periods() -> (r: u16)
        requires
            valid_width(N as int),
        ensures
            r == periods_per_day(N as int),
    {
        1440 / N
    }

    /// The period at this position on `date`.
    pub fn on_date(self, date: Day) -> (r: Minutes<N>)
        requires
            self.wf(),
            i32::MIN <= date.0 * periods_per_day(N as int),
            date.0 * periods_per_day(N as int) + self.index <= i32::MAX,
        ensures
            r.index == date.0 * periods_per_day(N as int) + self.index,
    {
        let first = Minutes::<N>::first_on_day(date);
        Minutes { index: first.index + self.index as i32 }
    }

    /// The position of the `period_no`-th period of the day (counted from 1),
    /// if the day has that many.
    pub fn new(period_no: u16) -> (r: Option<DaySubdivison<N>>)
        requires
            valid_width(N as int),
        ensures
            r.is_some() <==> 1 <= period_no <= periods_per_day(N as int),
            r.is_some() ==> r.unwrap().index == period_no - 1 && r.unwrap().wf(),
    {
        if period_no == 0 || period_no > Self::periods() {
            None
        } else {
            Some(DaySubdivison { index: period_no - 1 })
        }
    }

    /// The number of the period in its day, counted from 1.
    pub fn index(self) -> (r: u16)
        requires
            self.wf(),
        ensures
            r == self.index + 1,
            r >= 1,
    {
        self.index + 1
    }
}

/// Why text does not name a period of `N` minutes.
#[derive(Clone, Copy, Debug, PartialEq, Eq)]
pub enum MinutesParseErrorKind {
    /// The text holds a character that is not ASCII.
    NonAscii,
    /// The text is too short to hold a day and a period.
    TooShort,
    /// There is no `P` between the day and the period.
    MissingP,
    /// There is no `/` between the period and the number of periods.
    MissingSlash,
    /// The character at `idx` should be a digit.
    InvalidCharacterAtIndex { idx: usize, char: u8 },
    /// The day is not a day of the calendar: its month or day is wrong.
    InvalidDate,
    /// The number of periods in a day should be `expected`, not `got`.
    WrongPeriodsPerDay { expected: i32, got: i32 },
    /// Periods are counted from 1.
    CurrentPeriodZero,
    /// The day has `max` periods only, not `got`.
    CurrentPeriodTooLarge { max: i32, got: i32 },
    /// The period's number does not fit in an `i32`.
    OutOfRange,
    /// Periods of `length` minutes are not supported.
    UnsupportedLength { length: u16 },
}

/// Text that does not name a period of `N` minutes, and why.
#[derive(Clone, Debug)]
pub struct ParseError {
    pub kind: MinutesParseErrorKind,
    pub raw_data: String,
}

/// The text `YYYY-MM-DDPxxxx/yyyy` of period `idx` of `n` minutes: its day,
/// its place in the day counted from 1, and the number of periods in a day,
/// each with four digits.
pub open spec fn minutes_text(n: int, idx: int) -> Seq<char> {
    let p = periods_per_day(n);
    day_text(idx / p) + seq!['P'] + padded((idx % p + 1) as nat, 4) + seq!['/'] + padded(
        p as nat,
        4,
    )
}

/// The number of the period of `n` minutes that the text `s` of the form
/// `YYYY-MM-DDPxxxx/yyyy` names.
pub open spec fn minutes_of_text(n: int, s: Seq<char>) -> Option<int> {
    let len = s.len() as int;
    let p = periods_per_day(n);
    if len < 17 || s[len - 10] != 'P' || s[len - 5] != '/' {
        None
    } else {
        let cur = s.subrange(len - 9, len - 5);
        let total = s.subrange(len - 4, len);
        match day_of_text(s.subrange(0, len - 10)) {
            Some(d) => {
                if all_digits(cur) && all_digits(total) && digits_value(total) == p && 1
                    <= digits_value(cur) <= p && i32::MIN <= d * p + digits_value(cur) - 1
                    <= i32::MAX {
                    Some(d * p + digits_value(cur) - 1)
                } else {
                    None
                }
            },
            None => None,
        }
    }
}

/// The index of the first character of `s[i..to]` that is not a digit, or
/// `to` if they all are.
pub open spec fn first_non_digit_from(s: Seq<char>, i: int, to: int) -> int
    decreases to - i,
{
    if i >= to {
        to
    } else if !is_digit(s[i]) {
        i
    } else {
        first_non_digit_from(s, i + 1, to)
    }
}

/// The index of the first character that is not a digit in the place of the
/// period, else in the place of the number of periods, of text of length
/// `len`.
pub open spec fn bad_digit_index(s: Seq<char>, len: int) -> int {
    if first_non_digit_from(s, len - 9, len - 5) < len - 5 {
        first_non_digit_from(s, len - 9, len - 5)
    } else {
        first_non_digit_from(s, len - 4, len)
    }
}

/// What reading the text `s` as a period of `n` minutes gives: the number of
/// the period, or why the text names none. The checks come in this order:
/// ASCII, length, the `P` and the `/`, the digits, the day, the number of
/// periods in a day, the place of the period, and the range of the number.
pub open spec fn minutes_outcome(n: int, s: Seq<char>) -> Result<int, MinutesParseErrorKind> {
    let len = s.len() as int;
    let p = periods_per_day(n);
    let cur = s.subrange(len - 9, len - 5);
    let total = s.subrange(len - 4, len);
    if !is_ascii_chars(s) {
        Err(MinutesParseErrorKind::NonAscii)
    } else if len < 17 {
        Err(MinutesParseErrorKind::TooShort)
    } else if s[len - 10] != 'P' {
        Err(MinutesParseErrorKind::MissingP)
    } else if s[len - 5] != '/' {
        Err(MinutesParseErrorKind::MissingSlash)
    } else if !all_digits(cur) || !all_digits(total) {
        let i = bad_digit_index(s, len);
        Err(MinutesParseErrorKind::InvalidCharacterAtIndex { idx: i as usize, char: s[i] as u8 })
    } else if day_of_text(s.subrange(0, len - 10)).is_none() {
        Err(MinutesParseErrorKind::InvalidDate)
    } else if digits_value(total) != p {
        Err(MinutesParseErrorKind::WrongPeriodsPerDay { expected: p as i32, got: digits_value(total) as i32 })
    } else if digits_value(cur) == 0 {
        Err(MinutesParseErrorKind::CurrentPeriodZero)
    } else if digits_value(cur) > p {
        Err(MinutesParseErrorKind::CurrentPeriodTooLarge { max: p as i32, got: digits_value(cur) as i32 })
    } else {
        let d = day_of_text(s.subrange(0, len - 10)).unwrap();
        let idx = d * p + digits_value(cur) - 1;
        if idx < i32::MIN || idx > i32::MAX {
            Err(MinutesParseErrorKind::OutOfRange)
        } else {
            Ok(idx)
        }
    }
}

/// Reading succeeds exactly on ASCII text of the form `YYYY-MM-DDPxxxx/yyyy`
/// that names a period, and gives its number.
pub proof fn lemma_outcome_is_text(n: int, s: Seq<char>)
    requires
        valid_width(n),
    ensures
        minutes_outcome(n, s).is_ok() <==> is_ascii_chars(s) && minutes_of_text(n, s).is_some(),
        minutes_outcome(n, s).is_ok() ==> minutes_outcome(n, s)->Ok_0 == minutes_of_text(
            n,
            s,
        )->Some_0,
{
    let len = s.len() as int;
    if len >= 17 {
        let cur = s.subrange(len - 9, len - 5);
        if all_digits(cur) {
            lemma_digits_bound(cur);
        }
    }
}

/// The index of the first character of `s@[from..to]` that is not a digit.
fn first_non_digit(s: &str, from: usize, to: usize) -> (r: usize)
    requires
        from <= to <= s@.len(),
    ensures
        r == first_non_digit_from(s@, from as int, to as int),
        from <= r <= to,
        forall|i: int| from <= i < r ==> is_digit(#[trigger] s@[i]),
        r < to ==> !is_digit(s@[r as int]),
{
    let mut i = from;
    while i < to
        invariant
            from <= i <= to <= s@.len(),
            forall|j: int| from <= j < i ==> is_digit(#[trigger] s@[j]),
            first_non_digit_from(s@, from as int, to as int) == first_non_digit_from(
                s@,
                i as int,
                to as int,
            ),
        decreases to - i,
    {
        let c = s.get_char(i);
        if c < '0' || c > '9' {
            return i;
        }
        i = i + 1;
    }
    i
}

impl<const N: u16> Minutes<N> {
    /// The text `YYYY-MM-DDPxxxx/yyyy` of the period.
    pub fn to_string(&self) -> (r: String)
        requires
            valid_width(N as int),
        ensures
            r@ == minutes_text(N as int, self.index as int),
    {
        let day = self.occurs_on_day();
        let sub = self.relative().index();
        let mut out = day.to_string();
        proof {
            reveal_strlit("P");
            reveal_strlit("/");
        }
        out.append("P");
        push_padded(&mut out, sub as u32, 4);
        out.append("/");
        push_padded(&mut out, Self::periods_per_day() as u32, 4);
        out
    }

    #[verifier::rlimit(30)]
    fn parse_kind(s: &str) -> (r: Result<Minutes<N>, MinutesParseErrorKind>)
        requires
            valid_width(N as int),
        ensures
            minutes_outcome(N as int, s@).is_ok() ==> r.is_ok() && r.unwrap().index
                == minutes_outcome(N as int, s@)->Ok_0,
            minutes_outcome(N as int, s@).is_err() ==> r == Err::<Minutes<N>, MinutesParseErrorKind>(
                minutes_outcome(N as int, s@)->Err_0,
            ),
    {
        if !s.is_ascii() {
            return Err(MinutesParseErrorKind::NonAscii);
        }
        let len = s.unicode_len();
        if len < 17 {
            return Err(MinutesParseErrorKind::TooShort);
        }
        if s.get_char(len - 10) != 'P' {
            return Err(MinutesParseErrorKind::MissingP);
        }
        if s.get_char(len - 5) != '/' {
            return Err(MinutesParseErrorKind::MissingSlash);
        }
        let cur = parse_digits(s, len - 9, len - 5);
        let total = parse_digits(s, len - 4, len);
        let (cur, total) = match (cur, total) {
            (Some(c), Some(t)) => (c, t),
            _ => {
                let i = first_non_digit(s, len - 9, len - 5);
                let i = if i < len - 5 {
                    i
                } else {
                    first_non_digit(s, len - 4, len)
                };
                proof {
                    if i >= len {
                        assert(all_digits(s@.subrange(len - 9, len - 5)));
                        assert(all_digits(s@.subrange(len - 4, len as int)));
                    }
                    assert(i == bad_digit_index(s@, len as int));
                }
                let c = s.get_char(i) as u8;
                return Err(MinutesParseErrorKind::InvalidCharacterAtIndex { idx: i, char: c });
            },
        };
        proof {
            lemma_digits_bound(s@.subrange(len - 9, len - 5));
            lemma_digits_bound(s@.subrange(len - 4, len as int));
            lemma_pow10_bound(4);
        }
        let p = Self::periods_per_day();
        let day = match Day::parse(s.substring_char(0, len - 10)) {
            Ok(d) => d,
            Err(_) => {
                return Err(MinutesParseErrorKind::InvalidDate);
            },
        };
        if total as i32 != p {
            return Err(MinutesParseErrorKind::WrongPeriodsPerDay { expected: p, got: total as i32 });
        }
        if cur == 0 {
            return Err(MinutesParseErrorKind::CurrentPeriodZero);
        }
        if cur as i32 > p {
            return Err(MinutesParseErrorKind::CurrentPeriodTooLarge { max: p, got: cur as i32 });
        }
        assert(-2147483648 * 1440 <= day.0 as i64 * p as i64 <= 2147483647 * 1440) by (nonlinear_arith)
            requires
                1 <= p <= 1440,
                i32::MIN <= day.0 <= i32::MAX,
        ;
        let idx: i64 = day.0 as i64 * p as i64 + cur as i64 - 1;
        if idx < i32::MIN as i64 || idx > i32::MAX as i64 {
            return Err(MinutesParseErrorKind::OutOfRange);
        }
        Ok(Minutes { index: idx as i32 })
    }

    /// The period that the text `s` of the form `YYYY-MM-DDPxxxx/yyyy` names,
    /// where `yyyy` must be the number of periods of `N` minutes in a day.
    pub fn parse(s: &str) -> (r: Result<Minutes<N>, ParseError>)
        requires
            valid_width(N as int),
        ensures
            r.is_ok() <==> minutes_outcome(N as int, s@).is_ok(),
            r.is_ok() ==> r.unwrap().index == minutes_outcome(N as int, s@)->Ok_0,
            r.is_err() ==> r.unwrap_err().kind == minutes_outcome(N as int, s@)->Err_0
                && r.unwrap_err().raw_data@ == s@,
            r.is_ok() <==> minutes_of_text(N as int, s@).is_some() && s.is_ascii(),
            r.is_ok() ==> r.unwrap().index == minutes_of_text(N as int, s@).unwrap(),
    {
        proof {
            lemma_outcome_is_text(N as int, s@);
        }
        match Self::parse_kind(s) {
            Ok(m) => Ok(m),
            Err(kind) => Err(ParseError { kind, raw_data: String::from_str(s) }),
        }
    }
}

impl<const N: u16> Minutes<N> {
    /// The length of the periods in minutes: the tag stored beside the number
    /// in compact forms.
    pub fn length(&self) -> (r: u16)
        ensures
            r == N,
    {
        N
    }

    /// The period with number `index`, from a compact form whose tag says its
    /// periods are `length` minutes long; an error when that is not `N`.
    pub fn from_tagged(index: i32, length: u16) -> (r: Result<Minutes<N>, Error>)
        ensures
            length == N ==> r == Ok::<Minutes<N>, Error>(Minutes { index }),
            length != N ==> r == Err::<Minutes<N>, Error>(
                Error::WrongMinutesLength { expected: N, got: length },
            ),
    {
        if length == N {
            Ok(Minutes { index })
        } else {
            Err(Error::WrongMinutesLength { expected: N, got: length })
        }
    }
}

impl<const N: u16> core::str::FromStr for Minutes<N> {
    type Err = ParseError;

    fn from_str(s: &str) -> (r: Result<Minutes<N>, ParseError>)
        ensures
            !valid_width(N as int) ==> r.is_err() && r.unwrap_err().kind == (
                MinutesParseErrorKind::UnsupportedLength { length: N }) && r.unwrap_err().raw_data@
                == s@,
            valid_width(N as int) ==> (r.is_ok() <==> minutes_outcome(N as int, s@).is_ok()),
            valid_width(N as int) && r.is_ok() ==> r.unwrap().index == minutes_outcome(
                N as int,
                s@,
            )->Ok_0,
            valid_width(N as int) && r.is_err() ==> r.unwrap_err().kind == minutes_outcome(
                N as int,
                s@,
            )->Err_0 && r.unwrap_err().raw_data@ == s@,
    {
        if is_valid_width(N) {
            Minutes::parse(s)
        } else {
            Err(
                ParseError {
                    kind: MinutesParseErrorKind::UnsupportedLength { length: N },
                    raw_data: <String as vstd::string::StringExecFns>::from_str(s),
                },
            )
        }
    }
}

/// Reading the text of a period gives the period back, for every supported
/// length.
#[verifier::rlimit(30)]
pub proof fn lemma_minutes_text_round_trip(n: int, idx: int)
    requires
        valid_width(n),
        i32::MIN <= idx <= i32::MAX,
    ensures
        minutes_of_text(n, minutes_text(n, idx)) == Some(idx),
{
    let p = periods_per_day(n);
    let d = idx / p;
    lemma_div_bounds(idx, p);
    lemma_fundamental_div_mod(idx, p);
    lemma_day_text_round_trip(d);
    lemma_padded((idx % p + 1) as nat, 4);
    lemma_padded_len((idx % p + 1) as nat, 4);
    lemma_padded(p as nat, 4);
    lemma_padded_len(p as nat, 4);
    let t = minutes_text(n, idx);
    let len = t.len() as int;
    let dt = day_text(d);
    assert(len == dt.len() + 10);
    assert(t.subrange(0, len - 10) =~= dt);
    assert(t.subrange(len - 9, len - 5) =~= padded((idx % p + 1) as nat, 4));
    assert(t.subrange(len - 4, len) =~= padded(p as nat, 4));
    assert(t[len - 10] == 'P');
    assert(t[len - 5] == '/');
    assert(d * p + (idx % p + 1) - 1 == idx);
}

/// Text in the form that periods are written in reads as a period that is
/// written as the same text.
pub proof fn lemma_minutes_text_canonical(n: int, s: Seq<char>, idx: int)
    requires
        valid_width(n),
        i32::MIN <= idx <= i32::MAX,
        s == minutes_text(n, idx),
    ensures
        minutes_of_text(n, s) == Some(idx),
        minutes_text(n, minutes_of_text(n, s)->Some_0) == s,
{
    lemma_minutes_text_round_trip(n, idx);
}

impl<const N: u16> Monotonic for Minutes<N> {
    open spec fn index(self) -> int {
        self.index as int
    }

    proof fn lemma_index_bounds(self) {
    }

    proof fn lemma_index_injective(self, other: Self) {
    }

    fn to_monotonic(self) -> (r: i32) {
        self.index
    }

    fn between(self, other: Self) -> (r: i32) {
        other.index - self.index
    }
}

impl<const N: u16> FromMonotonic for Minutes<N> {
    fn from_monotonic(idx: i32) -> (r: Self) {
        Minutes { index: idx }
    }
}

impl<const N: u16> TimeResolution for Minutes<N> {
    fn succ_n(self, n: u16) -> (r: Self) {
        assert(self.index() == self.index as int);
        Minutes { index: self.index + n as i32 }
    }

    fn pred_n(self, n: u16) -> (r: Self) {
        assert(self.index() == self.index as int);
        Minutes { index: self.index - n as i32 }
    }
}

} // verus!
