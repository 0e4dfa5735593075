//! Calendar-correct arithmetic over discrete periods of time (days, weeks,
//! months, quarters, years and fixed sub-day subdivisions), contiguous ranges of
//! such periods, and a cache that coalesces requests for ranges of data.
use vstd::prelude::*;

use minutes::{periods_per_day, valid_width};

pub mod cache;
pub mod calendar;
pub mod day;
pub mod erased;
pub mod error;
pub mod minutes;
pub mod month;
pub mod quarter;
pub mod range;
pub mod text;
pub mod week;
pub mod year;

pub use cache::{Cache, CacheResponse};
pub use calendar::{DayOfMonth, MonthOfYear, YearAndDays};
pub use day::Day;
pub use erased::{format_erased_resolution, is_formattable, ResolutionKind};
pub use error::Error;
pub use minutes::{DaySubdivison, Minutes, MinutesParseErrorKind, ParseError};
pub use month::Month;
pub use quarter::{Quarter, QuarterOfYear};
pub use range::TimeRange;
pub use week::{
    Friday, Monday, Saturday, StartDay, Sunday, Thursday, Tuesday, Wednesday, Week, Weekday,
};
pub use year::{DateResolutionBuilder, Year};

verus! {

/// A period type whose values are numbered by consecutive `i32`s, in
/// chronological order.
pub trait Monotonic: Sized + Copy {
    /// The number of the period.
    spec fn index(self) -> int;

    /// Numbers fit in an `i32`.
    proof fn lemma_index_bounds(self)
        ensures
            i32::MIN <= self.index() <= i32::MAX,
    ;

    /// Two periods with one number are one period.
    proof fn lemma_index_injective(self, other: Self)
        requires
            self.index() == other.index(),
        ensures
            self == other,
    ;

    /// The number of the period.
    fn to_monotonic(self) -> (r: i32)
        ensures
            r == self.index(),
    ;

    /// How many periods `other` lies after `self`.
    fn between(self, other: Self) -> (r: i32)
        requires
            i32::MIN <= other.index() - self.index() <= i32::MAX,
        ensures
            r == other.index() - self.index(),
    ;
}

/// A period type that has a period for every `i32` number.
pub trait FromMonotonic: Monotonic {
    /// The period with number `idx`.
    fn from_monotonic(idx: i32) -> (r: Self)
        ensures
            r.index() == idx,
    ;
}

/// Reading back the number of a period gives the period: whatever
/// `from_monotonic` returns for `x.to_monotonic()`, which has the number of `x`,
/// is `x`. This holds for every resolution, `Minutes<N>` of every length
/// included.
pub proof fn lemma_monotonic_round_trip<T: FromMonotonic>(x: T, back: T)
    requires
        back.index() == x.index(),
    ensures
        back == x,
{
    back.lemma_index_injective(x);
}

/// A resolution of time: a period type whose periods follow one another.
pub trait TimeResolution: FromMonotonic {
    /// The period `n` periods later.
    fn succ_n(self, n: u16) -> (r: Self)
        requires
            self.index() + n <= i32::MAX,
        ensures
            r.index() == self.index() + n,
    ;

    /// The period `n` periods earlier.
    fn pred_n(self, n: u16) -> (r: Self)
        requires
            self.index() - n >= i32::MIN,
        ensures
            r.index() == self.index() - n,
    ;

    /// The next period.
    fn succ(self) -> (r: Self)
        requires
            self.index() < i32::MAX,
        ensures
            r.index() == self.index() + 1,
    {
        self.succ_n(1)
    }

    /// The previous period.
    fn pred(self) -> (r: Self)
        requires
            self.index() > i32::MIN,
        ensures
            r.index() == self.index() - 1,
    {
        self.pred_n(1)
    }
}

/// Moving `n` periods forward and then `n` periods back returns to the start:
/// whatever `pred_n(n)` returns for whatever `succ_n(n)` returned for `x`, which
/// have the numbers that the two functions promise, is `x`. With `n` equal to
/// 1 this is `x.succ().pred() == x`.
pub proof fn lemma_succ_pred<T: TimeResolution>(x: T, later: T, back: T, n: int)
    requires
        later.index() == x.index() + n,
        back.index() == later.index() - n,
    ensures
        back == x,
{
    back.lemma_index_injective(x);
}

/// A resolution whose periods are one or more whole days.
pub trait DateResolution: TimeResolution {
    /// The number of the period that holds the day with count `d`.
    spec fn period_of_day(d: int) -> int;

    /// The day count of the first day of the period.
    spec fn first_day(self) -> int;

    /// The day count of the last day of the period.
    spec fn last_day(self) -> int;

    /// Whether every day of the period has an `i32` day count.
    spec fn days_in_range(self) -> bool;

    /// A period runs from its first day to its last, and holds both.
    proof fn lemma_days(self)
        requires
            self.days_in_range(),
        ensures
            i32::MIN <= self.first_day() <= self.last_day() <= i32::MAX,
            Self::period_of_day(self.first_day()) == self.index(),
            Self::period_of_day(self.last_day()) == self.index(),
    ;

    /// Later days fall in the same or later periods.
    proof fn lemma_period_of_day_monotone(a: int, b: int)
        requires
            a <= b,
        ensures
            Self::period_of_day(a) <= Self::period_of_day(b),
    ;

    /// The first day of the period.
    fn first(self) -> (r: Day)
        requires
            self.days_in_range(),
        ensures
            r.0 == self.first_day(),
    ;

    /// The last day of the period.
    fn last(self) -> (r: Day)
        requires
            self.days_in_range(),
        ensures
            r.0 == self.last_day(),
    ;

    /// The period that holds `day`.
    fn of_day(day: Day) -> (r: Self)
        ensures
            r.index() == Self::period_of_day(day.0 as int),
    ;
}

/// The periods of the shorter resolution `Out` that cover the period `x`.
pub fn rescale<In, Out>(x: In) -> (r: TimeRange<Out>) where
    In: DateResolution + LongerThan<Out>,
    Out: DateResolution,
    requires
        x.days_in_range(),
    ensures
        r.first() == Out::period_of_day(x.first_day()),
        r.last() == Out::period_of_day(x.last_day()),
{
    proof {
        x.lemma_days();
        Out::lemma_period_of_day_monotone(x.first_day(), x.last_day());
    }
    let a = Out::of_day(x.first());
    let b = Out::of_day(x.last());
    proof {
        a.lemma_index_bounds();
        b.lemma_index_bounds();
    }
    let length = (b.to_monotonic() as i64 - a.to_monotonic() as i64 + 1) as u64;
    TimeRange::new(a, length)
}

/// The periods of `M` minutes that cover the period `x`.
pub fn to_sub_date_resolution<In: DateResolution, const M: u16>(x: In) -> (r: TimeRange<
    Minutes<M>,
>)
    requires
        x.days_in_range(),
        valid_width(M as int),
        i32::MIN <= x.first_day() * periods_per_day(M as int),
        (x.last_day() + 1) * periods_per_day(M as int) - 1 <= i32::MAX,
    ensures
        r.first() == x.first_day() * periods_per_day(M as int),
        r.last() == (x.last_day() + 1) * periods_per_day(M as int) - 1,
{
    proof {
        x.lemma_days();
        let p = periods_per_day(M as int);
        assert(x.first_day() * p <= x.last_day() * p) by (nonlinear_arith)
            requires
                x.first_day() <= x.last_day(),
                p >= 1,
        ;
        assert((x.last_day() + 1) * p == x.last_day() * p + p) by (nonlinear_arith);
    }
    let a = Minutes::<M>::first_on_day(x.first());
    let b = Minutes::<M>::last_on_day(x.last());
    TimeRange::new(a, (b.index as i64 - a.index as i64 + 1) as u64)
}

/// `Self` periods are at least as long as `T` periods, and each holds whole
/// `T` periods.
pub trait LongerThanOrEqual<T> {

}

/// `Self` periods are longer than `T` periods, and each holds whole `T`
/// periods.
pub trait LongerThan<T>: LongerThanOrEqual<T> {

}

/// `Self` periods are at most as long as `T` periods.
pub trait ShorterThanOrEqual<T> {

}

/// `Self` periods are shorter than `T` periods.
pub trait ShorterThan<T>: ShorterThanOrEqual<T> {

}

impl<T> LongerThanOrEqual<T> for T {

}

impl<Long, Short> ShorterThanOrEqual<Long> for Short where Long: LongerThan<Short> {

}

impl<Long, Short> ShorterThan<Long> for Short where Long: LongerThan<Short> {

}

impl LongerThanOrEqual<Minute> for FiveMinute {

}

impl LongerThan<Minute> for FiveMinute {

}

impl LongerThanOrEqual<Minute> for HalfHour {

}

impl LongerThan<Minute> for HalfHour {

}

impl LongerThanOrEqual<Minute> for Hour {

}

impl LongerThan<Minute> for Hour {

}

impl LongerThanOrEqual<Minute> for Day {

}

impl LongerThan<Minute> for Day {

}

impl<D: StartDay> LongerThanOrEqual<Minute> for Week<D> {

}

impl<D: StartDay> LongerThan<Minute> for Week<D> {

}

impl LongerThanOrEqual<Minute> for Month {

}

impl LongerThan<Minute> for Month {

}

impl LongerThanOrEqual<Minute> for Quarter {

}

impl LongerThan<Minute> for Quarter {

}

impl LongerThanOrEqual<Minute> for Year {

}

impl LongerThan<Minute> for Year {

}

impl LongerThanOrEqual<FiveMinute> for HalfHour {

}

impl LongerThan<FiveMinute> for HalfHour {

}

impl LongerThanOrEqual<FiveMinute> for Hour {

}

impl LongerThan<FiveMinute> for Hour {

}

impl LongerThanOrEqual<FiveMinute> for Day {

}

impl LongerThan<FiveMinute> for Day {

}

impl<D: StartDay> LongerThanOrEqual<FiveMinute> for Week<D> {

}

impl<D: StartDay> LongerThan<FiveMinute> for Week<D> {

}

impl LongerThanOrEqual<FiveMinute> for Month {

}

impl LongerThan<FiveMinute> for Month {

}

impl LongerThanOrEqual<FiveMinute> for Quarter {

}

impl LongerThan<FiveMinute> for Quarter {

}

impl LongerThanOrEqual<FiveMinute> for Year {

}

impl LongerThan<FiveMinute> for Year {

}

impl LongerThanOrEqual<HalfHour> for Hour {

}

impl LongerThan<HalfHour> for Hour {

}

impl LongerThanOrEqual<HalfHour> for Day {

}

impl LongerThan<HalfHour> for Day {

}

impl<D: StartDay> LongerThanOrEqual<HalfHour> for Week<D> {

}

impl<D: StartDay> LongerThan<HalfHour> for Week<D> {

}

impl LongerThanOrEqual<HalfHour> for Month {

}

impl LongerThan<HalfHour> for Month {

}

impl LongerThanOrEqual<HalfHour> for Quarter {

}

impl LongerThan<HalfHour> for Quarter {

}

impl LongerThanOrEqual<HalfHour> for Year {

}

impl LongerThan<HalfHour> for Year {

}

impl LongerThanOrEqual<Hour> for Day {

}

impl LongerThan<Hour> for Day {

}

impl<D: StartDay> LongerThanOrEqual<Hour> for Week<D> {

}

impl<D: StartDay> LongerThan<Hour> for Week<D> {

}

impl LongerThanOrEqual<Hour> for Month {

}

impl LongerThan<Hour> for Month {

}

impl LongerThanOrEqual<Hour> for Quarter {

}

impl LongerThan<Hour> for Quarter {

}

impl LongerThanOrEqual<Hour> for Year {

}

impl LongerThan<Hour> for Year {

}

impl<D: StartDay> LongerThanOrEqual<Day> for Week<D> {

}

impl<D: StartDay> LongerThan<Day> for Week<D> {

}

impl LongerThanOrEqual<Day> for Month {

}

impl LongerThan<Day> for Month {

}

impl LongerThanOrEqual<Day> for Quarter {

}

impl LongerThan<Day> for Quarter {

}

impl LongerThanOrEqual<Day> for Year {

}

impl LongerThan<Day> for Year {

}

impl<D: StartDay> LongerThanOrEqual<Week<D>> for Month {

}

impl<D: StartDay> LongerThan<Week<D>> for Month {

}

impl<D: StartDay> LongerThanOrEqual<Week<D>> for Quarter {

}

impl<D: StartDay> LongerThan<Week<D>> for Quarter {

}

impl<D: StartDay> LongerThanOrEqual<Week<D>> for Year {

}

impl<D: StartDay> LongerThan<Week<D>> for Year {

}

impl LongerThanOrEqual<Month> for Quarter {

}

impl LongerThan<Month> for Quarter {

}

impl LongerThanOrEqual<Month> for Year {

}

impl LongerThan<Month> for Year {

}

impl LongerThanOrEqual<Quarter> for Year {

}

impl LongerThan<Quarter> for Year {

}

/// Periods of one minute.
pub type Minute = Minutes<1>;

/// Periods of five minutes.
pub type FiveMinute = Minutes<5>;

/// Periods of half an hour.
pub type HalfHour = Minutes<30>;

/// Periods of an hour.
pub type Hour = Minutes<60>;

} // verus!
