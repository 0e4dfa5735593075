//! The proleptic Gregorian calendar: day counts since 0000-01-01 and their
//! decomposition into year, month and day.
use vstd::prelude::*;

use vstd::arithmetic::div_mod::{lemma_fundamental_div_mod, lemma_fundamental_div_mod_converse};

verus! {

/// Whether `y` is a leap year of the proleptic Gregorian calendar.
pub open spec fn leap(y: int) -> bool {
    y % 4 == 0 && (y % 100 != 0 || y % 400 == 0)
}

/// The number of days in year `y`.
pub open spec fn year_length(y: int) -> int {
    if leap(y) {
        366
    } else {
        365
    }
}

/// The day count of the first of January of year `y`, where day 0 is 0000-01-01.
pub open spec fn first_day_of_year(y: int) -> int {
    365 * y + (y - 1) / 4 - (y - 1) / 100 + (y - 1) / 400 + 1
}

/// Consecutive years follow one another without gap or overlap.
pub proof fn lemma_next_year(y: int)
    ensures
        first_day_of_year(y + 1) == first_day_of_year(y) + year_length(y),
{
}

/// Shifting a year by whole 400-year cycles shifts its first day by whole cycles
/// of 146097 days and keeps its leap status.
pub proof fn lemma_400_year_cycle(b: int, r: int)
    ensures
        first_day_of_year(400 * b + r) == 146097 * b + first_day_of_year(r),
        leap(400 * b + r) == leap(r),
{
    let y = 400 * b + r;
    lemma_shift_div(y - 1, r - 1, 4, 100 * b);
    lemma_shift_div(y - 1, r - 1, 100, 4 * b);
    lemma_shift_div(y - 1, r - 1, 400, b);
    lemma_shift_div(y, r, 4, 100 * b);
    lemma_shift_div(y, r, 100, 4 * b);
    lemma_shift_div(y, r, 400, b);
}

/// Adding a multiple of `d` adds to the quotient and keeps the remainder.
pub proof fn lemma_shift_div(x: int, r: int, d: int, k: int)
    requires
        d > 0,
        x == r + k * d,
    ensures
        x / d == k + r / d,
        x % d == r % d,
{
    lemma_fundamental_div_mod(r, d);
    let q = r / d;
    let m = r % d;
    assert(x == (k + q) * d + m) by (nonlinear_arith)
        requires
            x == r + k * d,
            r == d * q + m,
    ;
    lemma_fundamental_div_mod_converse(x, d, k + q, m);
}

/// How the days of a four-year cycle whose first year is a leap year split
/// into a year of the cycle and a day of that year.
pub open spec fn cycle_year(days: int) -> int {
    if days < 366 {
        0
    } else if days < 731 {
        1
    } else if days < 1096 {
        2
    } else {
        3
    }
}

/// The day of the year that `days` into such a four-year cycle falls on.
pub open spec fn cycle_day(days: int) -> int {
    if days < 366 {
        days
    } else if days < 731 {
        days - 366
    } else if days < 1096 {
        days - 731
    } else {
        days - 1096
    }
}

/// Whether day `t` of year `y` is the day with count `d`.
pub open spec fn is_year_split(d: int, y: int, t: int) -> bool {
    0 <= t < year_length(y) && first_day_of_year(y) + t == d
}

/// The first century of a 400-year cycle: its four-year cycles all start
/// with a leap year.
pub proof fn lemma_first_century(c: int, dc: int)
    requires
        0 <= c <= 24,
        0 <= dc < 1461,
    ensures
        is_year_split(1461 * c + dc, 4 * c + cycle_year(dc), cycle_day(dc)),
{
}

/// The other three centuries of a 400-year cycle start with a year that is not
/// leap. Counted from one day before the century starts, the four-year cycles
/// line up as in the first century, but for the first year of the century,
/// which is one day shorter.
pub proof fn lemma_later_century(k: int, c: int, dc: int)
    requires
        1 <= k <= 3,
        0 <= c <= 24,
        0 <= dc < 1461,
        1 <= 1461 * c + dc < 36525,
    ensures
        is_year_split(
            36524 * k + 1461 * c + dc,
            100 * k + 4 * c + cycle_year(dc),
            if c == 0 && cycle_year(dc) == 0 {
                cycle_day(dc) - 1
            } else {
                cycle_day(dc)
            },
        ),
{
}

/// Later years start later: a year starts no earlier than the end of any year
/// before it.
pub proof fn lemma_years_ordered(a: int, b: int)
    requires
        a < b,
    ensures
        first_day_of_year(a) + year_length(a) <= first_day_of_year(b),
    decreases b - a,
{
    lemma_next_year(a);
    if a + 1 < b {
        lemma_years_ordered(a + 1, b);
    }
}

/// A day belongs to one year only.
pub proof fn lemma_year_split_unique(d: int, y1: int, t1: int, y2: int, t2: int)
    requires
        is_year_split(d, y1, t1),
        is_year_split(d, y2, t2),
    ensures
        y1 == y2,
        t1 == t2,
{
    if y1 < y2 {
        lemma_years_ordered(y1, y2);
    } else if y2 < y1 {
        lemma_years_ordered(y2, y1);
    }
}

/// The year and the day of that year of the day with count `d`, found by
/// splitting off 400-year cycles, then centuries, then four-year cycles.
#[verifier::rlimit(30)]
pub proof fn lemma_year_split(d: int) -> (r: (int, int))
    ensures
        is_year_split(d, r.0, r.1),
{
    let block = d / 146097;
    let rem = d % 146097;
    lemma_400_year_cycle(block, 0);
    let (y, t) = if rem < 36525 {
        lemma_first_century(rem / 1461, rem % 1461);
        (4 * (rem / 1461) + cycle_year(rem % 1461), cycle_day(rem % 1461))
    } else {
        let k = (rem - 1) / 36524;
        let dtb = rem - 36524 * k;
        let c = dtb / 1461;
        let dc = dtb % 1461;
        lemma_later_century(k, c, dc);
        let t = if c == 0 && cycle_year(dc) == 0 {
            cycle_day(dc) - 1
        } else {
            cycle_day(dc)
        };
        (100 * k + 4 * c + cycle_year(dc), t)
    };
    lemma_400_year_cycle(block, y);
    (400 * block + y, t)
}

/// A day `rem` days into a 400-year cycle splits as the same day of a year
/// whole cycles later.
#[verifier::rlimit(30)]
proof fn lemma_split_by_cycles(d: int, block: int, rem: int, y: int, t: int)
    requires
        i32::MIN <= d <= i32::MAX,
        block == d / 146097,
        rem == d % 146097,
        0 <= y < 400,
        is_year_split(rem, y, t),
    ensures
        -14700 <= block <= 14700,
        is_year_split(d, 400 * block + y, t),
        year_of(d) == 400 * block + y,
        day_of_year(d) == t,
{
    lemma_400_year_cycle(block, y);
    lemma_year_of(d);
}

/// The year that the day with count `d` falls in.
pub open spec fn year_of(d: int) -> int {
    choose|y: int| #[trigger] first_day_of_year(y) <= d < first_day_of_year(y) + year_length(y)
}

/// How many days of its year come before the day with count `d`.
pub open spec fn day_of_year(d: int) -> int {
    d - first_day_of_year(year_of(d))
}

/// `year_of` and `day_of_year` give the one split of `d`.
#[verifier::rlimit(30)]
pub proof fn lemma_year_of(d: int)
    ensures
        is_year_split(d, year_of(d), day_of_year(d)),
        forall|y: int, t: int| #[trigger] is_year_split(d, y, t) ==> y == year_of(d) && t == day_of_year(d),
{
    let r = lemma_year_split(d);
    assert(first_day_of_year(r.0) <= d < first_day_of_year(r.0) + year_length(r.0));
    assert forall|y: int, t: int| is_year_split(d, y, t) implies y == year_of(d) && t == day_of_year(
        d,
    ) by {
        lemma_year_split_unique(d, y, t, year_of(d), day_of_year(d));
    }
}

/// Later days fall in the same or later years.
pub proof fn lemma_year_of_monotone(a: int, b: int)
    requires
        a <= b,
    ensures
        year_of(a) <= year_of(b),
        year_of(a) == year_of(b) ==> day_of_year(a) <= day_of_year(b),
{
    lemma_year_of(a);
    lemma_year_of(b);
    if year_of(a) > year_of(b) {
        lemma_years_ordered(year_of(b), year_of(a));
    }
}

/// Days in the months of a year before month `m` (0 for January, 12 for the
/// whole year).
pub open spec fn days_before_month(m: int, leap: bool) -> int {
    let extra = if leap && m >= 2 {
        1int
    } else {
        0
    };
    extra + if m <= 0 {
        0int
    } else if m == 1 {
        31
    } else if m == 2 {
        59
    } else if m == 3 {
        90
    } else if m == 4 {
        120
    } else if m == 5 {
        151
    } else if m == 6 {
        181
    } else if m == 7 {
        212
    } else if m == 8 {
        243
    } else if m == 9 {
        273
    } else if m == 10 {
        304
    } else if m == 11 {
        334
    } else {
        365
    }
}

/// The month (0 for January) that day `t` of a year falls in.
pub open spec fn month_of_day_of_year(t: int, leap: bool) -> int {
    if t < days_before_month(1, leap) {
        0
    } else if t < days_before_month(2, leap) {
        1
    } else if t < days_before_month(3, leap) {
        2
    } else if t < days_before_month(4, leap) {
        3
    } else if t < days_before_month(5, leap) {
        4
    } else if t < days_before_month(6, leap) {
        5
    } else if t < days_before_month(7, leap) {
        6
    } else if t < days_before_month(8, leap) {
        7
    } else if t < days_before_month(9, leap) {
        8
    } else if t < days_before_month(10, leap) {
        9
    } else if t < days_before_month(11, leap) {
        10
    } else {
        11
    }
}

/// The (year, month 1..=12, day of month 1..=31) of the day with count `d`.
pub open spec fn ymd_of(d: int) -> (int, int, int) {
    let y = year_of(d);
    let t = day_of_year(d);
    let m = month_of_day_of_year(t, leap(y));
    (y, m + 1, t - days_before_month(m, leap(y)) + 1)
}

/// Whether (year, month, day) names a day of the calendar.
pub open spec fn valid_ymd(y: int, m: int, dd: int) -> bool {
    1 <= m <= 12 && 1 <= dd <= days_before_month(m, leap(y)) - days_before_month(m - 1, leap(y))
}

/// The day count of day `dd` of month `m` (1..=12) of year `y`.
pub open spec fn day_count_of(y: int, m: int, dd: int) -> int {
    first_day_of_year(y) + days_before_month(m - 1, leap(y)) + dd - 1
}

/// Converting a day count to year, month and day and back gives the day count
/// again, for every day count.
pub proof fn lemma_ymd_round_trip(d: int)
    ensures
        valid_ymd(ymd_of(d).0, ymd_of(d).1, ymd_of(d).2),
        day_count_of(ymd_of(d).0, ymd_of(d).1, ymd_of(d).2) == d,
{
    lemma_year_of(d);
}

/// Converting a valid (year, month, day) to a day count and back gives the
/// same year, month and day.
pub proof fn lemma_day_count_round_trip(y: int, m: int, dd: int)
    requires
        valid_ymd(y, m, dd),
    ensures
        ymd_of(day_count_of(y, m, dd)) == (y, m, dd),
{
    let d = day_count_of(y, m, dd);
    lemma_year_of(d);
    assert(is_year_split(d, y, days_before_month(m - 1, leap(y)) + dd - 1));
}

/// Number of days in 400 years.
pub const DAYS_PER_400Y: i32 = 146097;

/// Number of days in a century that does not start with a leap year.
pub const DAYS_PER_MOST_100Y: i32 = 36524;

/// Number of days in four years that hold one leap year.
pub const DAYS_PER_MOST_4Y: i32 = 1461;

const B1: i32 = 36525;

const B2: i32 = 73049;

const B3: i32 = 109573;

/// The earliest year all of whose days have an `i32` day count.
pub const MIN_YEAR: i32 = -5879610;

/// The latest year all of whose days have an `i32` day count.
pub const MAX_YEAR: i32 = 5879609;

/// Whether `year` is not a leap year.
pub fn is_not_leap_year(year: i32) -> (r: bool)
    ensures
        r == !leap(year as int),
{
    let r4 = year.checked_rem_euclid(4).unwrap();
    let r100 = year.checked_rem_euclid(100).unwrap();
    let r400 = year.checked_rem_euclid(400).unwrap();
    r4 != 0 || (r100 == 0 && r400 != 0)
}

/// Whether `year` is a leap year.
pub fn is_leap_year(year: i32) -> (r: bool)
    ensures
        r == leap(year as int),
{
    !is_not_leap_year(year)
}

/// The number of days in `year`.
pub fn days_in_year(year: i32) -> (r: i32)
    ensures
        r == year_length(year as int),
{
    if is_leap_year(year) {
        366
    } else {
        365
    }
}

/// The day count of the first of January of `year`, for every `i32` year.
pub fn first_day_count_wide(year: i32) -> (r: i64)
    ensures
        r == first_day_of_year(year as int),
{
    let y: i64 = year as i64 - 1;
    let long_cycles = y.checked_div_euclid(400).unwrap();
    let mid_cycles = y.checked_div_euclid(100).unwrap();
    let cycles = y.checked_div_euclid(4).unwrap();
    (year as i64) * 365 + cycles - mid_cycles + long_cycles + 1
}

proof fn lemma_year_bounds_ordered(a: int, b: int)
    requires
        a <= b,
    ensures
        first_day_of_year(a) <= first_day_of_year(b),
{
    if a < b {
        lemma_years_ordered(a, b);
    }
}

/// The year of a day with an `i32` day count lies within one year of the year
/// bounds.
pub proof fn lemma_year_of_i32(d: int)
    requires
        i32::MIN <= d <= i32::MAX,
    ensures
        MIN_YEAR - 1 <= year_of(d) <= MAX_YEAR + 1,
        MIN_YEAR - 1 <= ymd_of(d).0 <= MAX_YEAR + 1,
{
    lemma_year_of(d);
    let y = year_of(d);
    if y > MAX_YEAR + 1 {
        lemma_year_bounds_ordered(MAX_YEAR + 2, y);
    }
    if y < MIN_YEAR - 1 {
        lemma_years_ordered(y, MIN_YEAR - 1);
    }
}

/// The day count of the first of January of `year`, which must fit in an
/// `i32`.
pub fn first_day_count_of_year(year: i32) -> (r: i32)
    requires
        i32::MIN <= first_day_of_year(year as int) <= i32::MAX,
    ensures
        r == first_day_of_year(year as int),
{
    first_day_count_wide(year) as i32
}

struct CycleSplit {
    year_diff: i32,
    days_thru_year: i32,
}

impl CycleSplit {
    fn new(days: i32) -> (r: CycleSplit)
        requires
            0 <= days < 1461,
        ensures
            r.year_diff == cycle_year(days as int),
            r.days_thru_year == cycle_day(days as int),
    {
        if days < 366 {
            CycleSplit { year_diff: 0, days_thru_year: days }
        } else if days < 731 {
            CycleSplit { year_diff: 1, days_thru_year: days - 366 }
        } else if days < 1096 {
            CycleSplit { year_diff: 2, days_thru_year: days - 731 }
        } else {
            CycleSplit { year_diff: 3, days_thru_year: days - 1096 }
        }
    }
}

/// A day split into its year and the number of days of that year before it.
#[derive(Clone, Copy, Debug, PartialEq, Eq, Hash, PartialOrd, Ord)]
pub struct YearAndDays {
    pub year: i32,
    pub leap: bool,
    pub days_through: i32,
}

impl YearAndDays {
    /// `leap` is the leap status of `year` and `days_through` a day of it.
    pub open spec fn wf(self) -> bool {
        self.leap == leap(self.year as int) && 0 <= self.days_through < year_length(
            self.year as int,
        )
    }

    /// The split of the day that is `remainder` days into a 400-year cycle
    /// starting with year 0.
    #[verifier::rlimit(30)]
    fn split_cycle_day(remainder: i32) -> (r: (i32, i32))
        requires
            0 <= remainder < DAYS_PER_400Y,
        ensures
            0 <= r.0 < 400,
            is_year_split(remainder as int, r.0 as int, r.1 as int),
    {
        let rem = remainder as u32;
        if remainder < B1 {
            // the first century holds the extra leap day of the 400 years
            let cycles_through_block = rem / 1461;
            let days_through_cycle = rem % 1461;
            proof {
                lemma_first_century(cycles_through_block as int, days_through_cycle as int);
            }
            let split = CycleSplit::new(days_through_cycle as i32);
            (cycles_through_block as i32 * 4 + split.year_diff, split.days_thru_year)
        } else {
            // count from one day early, so that the four-year cycles line up
            // with those of the first century
            let century: u32 = if remainder < B2 {
                1
            } else if remainder < B3 {
                2
            } else {
                3
            };
            let days_thru_block = rem - century * 36524;
            let cycles_through_block = days_thru_block / 1461;
            let days_through_cycle = days_thru_block % 1461;
            proof {
                lemma_later_century(
                    century as int,
                    cycles_through_block as int,
                    days_through_cycle as int,
                );
            }
            let mut split = CycleSplit::new(days_through_cycle as i32);
            if split.year_diff == 0 && cycles_through_block == 0 {
                // the first year of the century is not leap: take back the day
                split.days_thru_year = split.days_thru_year - 1;
            }
            (
                cycles_through_block as i32 * 4 + century as i32 * 100 + split.year_diff,
                split.days_thru_year,
            )
        }
    }

    /// The split of the day with count `date`, for every `i32`.
    #[verifier::rlimit(30)]
    pub fn calculate(date: i32) -> (r: YearAndDays)
        ensures
            r.wf(),
            is_year_split(date as int, r.year as int, r.days_through as int),
            r.year == year_of(date as int),
            r.days_through == day_of_year(date as int),
    {
        let block = date.checked_div_euclid(DAYS_PER_400Y).unwrap();
        let remainder = date.checked_rem_euclid(DAYS_PER_400Y).unwrap();
        let (ext_years, days) = Self::split_cycle_day(remainder);
        proof {
            lemma_split_by_cycles(date as int, block as int, remainder as int, ext_years as int, days as int);
        }
        let proposed_year = 400 * block + ext_years;
        YearAndDays { year: proposed_year, leap: is_leap_year(proposed_year), days_through: days }
    }

    /// Whether the year is a leap year.
    pub fn leap(self) -> (r: bool)
        ensures
            r == self.leap,
    {
        self.leap
    }

    /// The number of days of the year before this day.
    pub fn days_through(self) -> (r: i32)
        ensures
            r == self.days_through,
    {
        self.days_through
    }
}

/// A month of the year.
#[derive(Clone, Copy, Debug, PartialEq, Eq, Hash, PartialOrd, Ord)]
pub enum MonthOfYear {
    Jan,
    Feb,
    Mar,
    Apr,
    May,
    Jun,
    Jul,
    Aug,
    Sep,
    Oct,
    Nov,
    Dec,
}

/// The abbreviation of month `m` (0 for January), in lower case.
pub open spec fn month_abbrev_lower(m: int) -> Seq<char> {
    if m == 0 {
        seq!['j', 'a', 'n']
    } else     if m == 1 {
        seq!['f', 'e', 'b']
    } else     if m == 2 {
        seq!['m', 'a', 'r']
    } else     if m == 3 {
        seq!['a', 'p', 'r']
    } else     if m == 4 {
        seq!['m', 'a', 'y']
    } else     if m == 5 {
        seq!['j', 'u', 'n']
    } else     if m == 6 {
        seq!['j', 'u', 'l']
    } else     if m == 7 {
        seq!['a', 'u', 'g']
    } else     if m == 8 {
        seq!['s', 'e', 'p']
    } else     if m == 9 {
        seq!['o', 'c', 't']
    } else     if m == 10 {
        seq!['n', 'o', 'v']
    } else {
        seq!['d', 'e', 'c']
    }
}

/// The abbreviation of month `m` (0 for January), capitalised.
pub open spec fn month_abbrev(m: int) -> Seq<char> {
    if m == 0 {
        seq!['J', 'a', 'n']
    } else     if m == 1 {
        seq!['F', 'e', 'b']
    } else     if m == 2 {
        seq!['M', 'a', 'r']
    } else     if m == 3 {
        seq!['A', 'p', 'r']
    } else     if m == 4 {
        seq!['M', 'a', 'y']
    } else     if m == 5 {
        seq!['J', 'u', 'n']
    } else     if m == 6 {
        seq!['J', 'u', 'l']
    } else     if m == 7 {
        seq!['A', 'u', 'g']
    } else     if m == 8 {
        seq!['S', 'e', 'p']
    } else     if m == 9 {
        seq!['O', 'c', 't']
    } else     if m == 10 {
        seq!['N', 'o', 'v']
    } else {
        seq!['D', 'e', 'c']
    }
}

/// Whether `c` is the lower-case ASCII letter `lower`, in either case.
pub open spec fn same_letter(c: char, lower: char) -> bool {
    c == lower || c as u32 + 32 == lower as u32
}

/// Whether `s` starts with the abbreviation of month `m`, in any case.
pub open spec fn names_month(s: Seq<char>, m: int) -> bool {
    s.len() >= 3 && forall|i: int| 0 <= i < 3 ==> same_letter(s[i], #[trigger] month_abbrev_lower(m)[i])
}

impl MonthOfYear {
    /// Months since January: 0 for January, 11 for December.
    pub open spec fn index(self) -> int {
        match self {
            MonthOfYear::Jan => 0,
            MonthOfYear::Feb => 1,
            MonthOfYear::Mar => 2,
            MonthOfYear::Apr => 3,
            MonthOfYear::May => 4,
            MonthOfYear::Jun => 5,
            MonthOfYear::Jul => 6,
            MonthOfYear::Aug => 7,
            MonthOfYear::Sep => 8,
            MonthOfYear::Oct => 9,
            MonthOfYear::Nov => 10,
            MonthOfYear::Dec => 11,
        }
    }

    /// The number of days of this month in `year`.
    pub fn num_days(self, year: i32) -> (r: u8)
        ensures
            r == days_before_month(self.index() + 1, leap(year as int)) - days_before_month(
                self.index(),
                leap(year as int),
            ),
    {
        match self {
            MonthOfYear::Jan => 31,
            MonthOfYear::Feb => if is_leap_year(year) {
                29
            } else {
                28
            },
            MonthOfYear::Mar => 31,
            MonthOfYear::Apr => 30,
            MonthOfYear::May => 31,
            MonthOfYear::Jun => 30,
            MonthOfYear::Jul => 31,
            MonthOfYear::Aug => 31,
            MonthOfYear::Sep => 30,
            MonthOfYear::Oct => 31,
            MonthOfYear::Nov => 30,
            MonthOfYear::Dec => 31,
        }
    }

    /// The number of days of `year` before this month.
    pub fn cumulative_days(self, year: i32) -> (r: u16)
        ensures
            r == days_before_month(self.index(), leap(year as int)),
    {
        let extra: u16 = if self.index_u16() >= 2 && is_leap_year(year) {
            1
        } else {
            0
        };
        let base: u16 = match self {
            MonthOfYear::Jan => 0,
            MonthOfYear::Feb => 31,
            MonthOfYear::Mar => 59,
            MonthOfYear::Apr => 90,
            MonthOfYear::May => 120,
            MonthOfYear::Jun => 151,
            MonthOfYear::Jul => 181,
            MonthOfYear::Aug => 212,
            MonthOfYear::Sep => 243,
            MonthOfYear::Oct => 273,
            MonthOfYear::Nov => 304,
            MonthOfYear::Dec => 334,
        };
        base + extra
    }

    fn index_u16(self) -> (r: u16)
        ensures
            r == self.index(),
    {
        self.months_from_jan() as u16
    }

    /// The three-letter English abbreviation, capitalised.
    pub fn name(self) -> (r: &'static str)
        ensures
            r@ == month_abbrev(self.index()),
    {
        match self {
            MonthOfYear::Jan => {
                proof {
                    reveal_strlit("Jan");
                }
                "Jan"
            },
            MonthOfYear::Feb => {
                proof {
                    reveal_strlit("Feb");
                }
                "Feb"
            },
            MonthOfYear::Mar => {
                proof {
                    reveal_strlit("Mar");
                }
                "Mar"
            },
            MonthOfYear::Apr => {
                proof {
                    reveal_strlit("Apr");
                }
                "Apr"
            },
            MonthOfYear::May => {
                proof {
                    reveal_strlit("May");
                }
                "May"
            },
            MonthOfYear::Jun => {
                proof {
                    reveal_strlit("Jun");
                }
                "Jun"
            },
            MonthOfYear::Jul => {
                proof {
                    reveal_strlit("Jul");
                }
                "Jul"
            },
            MonthOfYear::Aug => {
                proof {
                    reveal_strlit("Aug");
                }
                "Aug"
            },
            MonthOfYear::Sep => {
                proof {
                    reveal_strlit("Sep");
                }
                "Sep"
            },
            MonthOfYear::Oct => {
                proof {
                    reveal_strlit("Oct");
                }
                "Oct"
            },
            MonthOfYear::Nov => {
                proof {
                    reveal_strlit("Nov");
                }
                "Nov"
            },
            MonthOfYear::Dec => {
                proof {
                    reveal_strlit("Dec");
                }
                "Dec"
            },
        }
    }

    fn lower_letters(self) -> (r: (char, char, char))
        ensures
            seq![r.0, r.1, r.2] == month_abbrev_lower(self.index()),
    {
        match self {
            MonthOfYear::Jan => ('j', 'a', 'n'),
            MonthOfYear::Feb => ('f', 'e', 'b'),
            MonthOfYear::Mar => ('m', 'a', 'r'),
            MonthOfYear::Apr => ('a', 'p', 'r'),
            MonthOfYear::May => ('m', 'a', 'y'),
            MonthOfYear::Jun => ('j', 'u', 'n'),
            MonthOfYear::Jul => ('j', 'u', 'l'),
            MonthOfYear::Aug => ('a', 'u', 'g'),
            MonthOfYear::Sep => ('s', 'e', 'p'),
            MonthOfYear::Oct => ('o', 'c', 't'),
            MonthOfYear::Nov => ('n', 'o', 'v'),
            MonthOfYear::Dec => ('d', 'e', 'c'),
        }
    }

    /// The month with number `m` (1 for January), if there is one.
    pub fn from_number(m: u8) -> (r: Option<MonthOfYear>)
        ensures
            r.is_some() <==> 1 <= m <= 12,
            r.is_some() ==> r.unwrap().index() == m - 1,
    {
        match m {
            1 => Some(MonthOfYear::Jan),
            2 => Some(MonthOfYear::Feb),
            3 => Some(MonthOfYear::Mar),
            4 => Some(MonthOfYear::Apr),
            5 => Some(MonthOfYear::May),
            6 => Some(MonthOfYear::Jun),
            7 => Some(MonthOfYear::Jul),
            8 => Some(MonthOfYear::Aug),
            9 => Some(MonthOfYear::Sep),
            10 => Some(MonthOfYear::Oct),
            11 => Some(MonthOfYear::Nov),
            12 => Some(MonthOfYear::Dec),
            _ => None,
        }
    }

    /// The number of the month: 1 for January, 12 for December.
    pub fn number(self) -> (r: u8)
        ensures
            r == self.index() + 1,
    {
        match self {
            MonthOfYear::Jan => 1,
            MonthOfYear::Feb => 2,
            MonthOfYear::Mar => 3,
            MonthOfYear::Apr => 4,
            MonthOfYear::May => 5,
            MonthOfYear::Jun => 6,
            MonthOfYear::Jul => 7,
            MonthOfYear::Aug => 8,
            MonthOfYear::Sep => 9,
            MonthOfYear::Oct => 10,
            MonthOfYear::Nov => 11,
            MonthOfYear::Dec => 12,
        }
    }

    /// Months since January: 0 for January, 11 for December.
    pub fn months_from_jan(self) -> (r: u8)
        ensures
            r == self.index(),
    {
        self.number() - 1
    }
}

/// The month whose three-letter abbreviation starts `name`, in any case:
/// "Jan", "jan", "JAN" and "January" all give January.
#[verifier::rlimit(30)]
pub fn month_of_year_from_name(name: &str) -> (r: Result<MonthOfYear, String>)
    ensures
        r.is_ok() <==> exists|m: int| 0 <= m < 12 && #[trigger] names_month(name@, m),
        r.is_ok() ==> names_month(name@, r.unwrap().index()),
{
    let n = name.unicode_len();
    if n >= 3 {
        let c0 = name.get_char(0);
        let c1 = name.get_char(1);
        let c2 = name.get_char(2);
        let mut k: u8 = 1;
        while k <= 12
            invariant
                1 <= k <= 13,
                n == name@.len(),
                n >= 3,
                c0 == name@[0],
                c1 == name@[1],
                c2 == name@[2],
                forall|m: int| 0 <= m < k - 1 ==> !#[trigger] names_month(name@, m),
            decreases 13 - k,
        {
            let month = MonthOfYear::from_number(k).unwrap();
            let (l0, l1, l2) = month.lower_letters();
            let hit = (c0 == l0 || c0 as u32 + 32 == l0 as u32) && (c1
                == l1 || c1 as u32 + 32 == l1 as u32) && (c2 == l2 || c2 as u32 + 32 == l2 as u32);
            proof {
                let lw = month_abbrev_lower(month.index());
                assert(lw[0] == l0 && lw[1] == l1 && lw[2] == l2);
                if hit {
                    assert forall|i: int| 0 <= i < 3 implies same_letter(
                        name@[i],
                        #[trigger] month_abbrev_lower(month.index())[i],
                    ) by {}
                    assert(names_month(name@, month.index()));
                } else {
                    assert(!same_letter(name@[0], lw[0]) || !same_letter(name@[1], lw[1])
                        || !same_letter(name@[2], lw[2]));
                }
            }
            if hit {
                return Ok(month);
            }
            k = k + 1;
        }
    }
    let mut msg = String::from_str("Unexpected month name: `");
    msg.append(name);
    msg.append("`");
    Err(msg)
}

/// A day of a month that every month has: the 1st to the 28th.
#[derive(Clone, Copy, Debug, PartialEq, Eq, Hash, PartialOrd, Ord)]
pub enum DayOfMonth {
    D1,
    D2,
    D3,
    D4,
    D5,
    D6,
    D7,
    D8,
    D9,
    D10,
    D11,
    D12,
    D13,
    D14,
    D15,
    D16,
    D17,
    D18,
    D19,
    D20,
    D21,
    D22,
    D23,
    D24,
    D25,
    D26,
    D27,
    D28,
}

impl DayOfMonth {
    /// The number of the day in its month, 1 to 28.
    pub open spec fn value(self) -> int {
        match self {
            DayOfMonth::D1 => 1,
            DayOfMonth::D2 => 2,
            DayOfMonth::D3 => 3,
            DayOfMonth::D4 => 4,
            DayOfMonth::D5 => 5,
            DayOfMonth::D6 => 6,
            DayOfMonth::D7 => 7,
            DayOfMonth::D8 => 8,
            DayOfMonth::D9 => 9,
            DayOfMonth::D10 => 10,
            DayOfMonth::D11 => 11,
            DayOfMonth::D12 => 12,
            DayOfMonth::D13 => 13,
            DayOfMonth::D14 => 14,
            DayOfMonth::D15 => 15,
            DayOfMonth::D16 => 16,
            DayOfMonth::D17 => 17,
            DayOfMonth::D18 => 18,
            DayOfMonth::D19 => 19,
            DayOfMonth::D20 => 20,
            DayOfMonth::D21 => 21,
            DayOfMonth::D22 => 22,
            DayOfMonth::D23 => 23,
            DayOfMonth::D24 => 24,
            DayOfMonth::D25 => 25,
            DayOfMonth::D26 => 26,
            DayOfMonth::D27 => 27,
            DayOfMonth::D28 => 28,
        }
    }

    /// The number of the day in its month, 1 to 28.
    pub fn number(&self) -> (r: u8)
        ensures
            r == self.value(),
            1 <= r <= 28,
    {
        match self {
            DayOfMonth::D1 => 1,
            DayOfMonth::D2 => 2,
            DayOfMonth::D3 => 3,
            DayOfMonth::D4 => 4,
            DayOfMonth::D5 => 5,
            DayOfMonth::D6 => 6,
            DayOfMonth::D7 => 7,
            DayOfMonth::D8 => 8,
            DayOfMonth::D9 => 9,
            DayOfMonth::D10 => 10,
            DayOfMonth::D11 => 11,
            DayOfMonth::D12 => 12,
            DayOfMonth::D13 => 13,
            DayOfMonth::D14 => 14,
            DayOfMonth::D15 => 15,
            DayOfMonth::D16 => 16,
            DayOfMonth::D17 => 17,
            DayOfMonth::D18 => 18,
            DayOfMonth::D19 => 19,
            DayOfMonth::D20 => 20,
            DayOfMonth::D21 => 21,
            DayOfMonth::D22 => 22,
            DayOfMonth::D23 => 23,
            DayOfMonth::D24 => 24,
            DayOfMonth::D25 => 25,
            DayOfMonth::D26 => 26,
            DayOfMonth::D27 => 27,
            DayOfMonth::D28 => 28,
        }
    }

    /// The number of days of the month before this day.
    pub fn offset(&self) -> (r: u8)
        ensures
            r == self.value() - 1,
    {
        self.number() - 1
    }
}

impl YearAndDays {
    /// The month this day falls in.
    pub fn month(&self) -> (r: MonthOfYear)
        requires
            self.wf(),
        ensures
            r.index() == month_of_day_of_year(self.days_through as int, self.leap),
    {
        let t = self.days_through;
        let e: i32 = if self.leap {
            1
        } else {
            0
        };
        if t < 31 {
            MonthOfYear::Jan
        } else if t < 59 + e {
            MonthOfYear::Feb
        } else if t < 90 + e {
            MonthOfYear::Mar
        } else if t < 120 + e {
            MonthOfYear::Apr
        } else if t < 151 + e {
            MonthOfYear::May
        } else if t < 181 + e {
            MonthOfYear::Jun
        } else if t < 212 + e {
            MonthOfYear::Jul
        } else if t < 243 + e {
            MonthOfYear::Aug
        } else if t < 273 + e {
            MonthOfYear::Sep
        } else if t < 304 + e {
            MonthOfYear::Oct
        } else if t < 334 + e {
            MonthOfYear::Nov
        } else {
            MonthOfYear::Dec
        }
    }

    /// The day of the month of this day, 1 to 31.
    pub fn day(&self) -> (r: u8)
        requires
            self.wf(),
        ensures
            r == self.days_through - days_before_month(
                month_of_day_of_year(self.days_through as int, self.leap),
                self.leap,
            ) + 1,
    {
        let m = self.month();
        let before = m.cumulative_days(self.year);
        (self.days_through - before as i32 + 1) as u8
    }
}

} // verus!
