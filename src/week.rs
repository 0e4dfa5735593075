//! Weeks, each starting on a fixed day of the week.
use vstd::prelude::*;

use crate::{DateResolution, FromMonotonic, Monotonic, TimeResolution};
use crate::calendar::ymd_of;
use crate::day::{day_of_text, day_text, lemma_day_text_round_trip, Day};
use crate::error::{is_parse_error, parse_error, Error};
use crate::minutes::Minutes;
use crate::month::{month_of_day, Month};
use crate::text::has_prefix;
use crate::year::Year;

verus! {

/// The day of the week (0 for Monday, 6 for Sunday) of the day with count `d`;
/// 0000-01-01 was a Saturday.
pub open spec fn weekday_of(d: int) -> int {
    (d + 5) % 7
}

/// A day of the week.
#[derive(Clone, Copy, Debug, PartialEq, Eq, Hash, PartialOrd, Ord)]
pub enum Weekday {
    Mon,
    Tue,
    Wed,
    Thu,
    Fri,
    Sat,
    Sun,
}

impl Weekday {
    /// Days since Monday: 0 for Monday, 6 for Sunday.
    pub open spec fn index(self) -> int {
        match self {
            Weekday::Mon => 0,
            Weekday::Tue => 1,
            Weekday::Wed => 2,
            Weekday::Thu => 3,
            Weekday::Fri => 4,
            Weekday::Sat => 5,
            Weekday::Sun => 6,
        }
    }

    /// The English name of the day.
    pub fn name(&self) -> (r: &'static str)
        ensures
            r@ == weekday_name(self.index()),
    {
        match self {
            Weekday::Mon => {
                proof {
                    reveal_strlit("Monday");
                }
                "Monday"
            },
            Weekday::Tue => {
                proof {
                    reveal_strlit("Tuesday");
                }
                "Tuesday"
            },
            Weekday::Wed => {
                proof {
                    reveal_strlit("Wednesday");
                }
                "Wednesday"
            },
            Weekday::Thu => {
                proof {
                    reveal_strlit("Thursday");
                }
                "Thursday"
            },
            Weekday::Fri => {
                proof {
                    reveal_strlit("Friday");
                }
                "Friday"
            },
            Weekday::Sat => {
                proof {
                    reveal_strlit("Saturday");
                }
                "Saturday"
            },
            Weekday::Sun => {
                proof {
                    reveal_strlit("Sunday");
                }
                "Sunday"
            },
        }
    }

    /// The day of the week of `day`.
    pub fn of_day(day: Day) -> (r: Weekday)
        ensures
            r.index() == weekday_of(day.0 as int),
    {
        let i = (day.0 as i64 + 5).checked_rem_euclid(7).unwrap();
        match i {
            0 => Weekday::Mon,
            1 => Weekday::Tue,
            2 => Weekday::Wed,
            3 => Weekday::Thu,
            4 => Weekday::Fri,
            5 => Weekday::Sat,
            _ => Weekday::Sun,
        }
    }
}

/// The English name of day of the week `i` (0 for Monday).
pub open spec fn weekday_name(i: int) -> Seq<char> {
    if i == 0 {
        "Monday"@
    } else     if i == 1 {
        "Tuesday"@
    } else     if i == 2 {
        "Wednesday"@
    } else     if i == 3 {
        "Thursday"@
    } else     if i == 4 {
        "Friday"@
    } else     if i == 5 {
        "Saturday"@
    } else {
        "Sunday"@
    }
}

/// The day of the week that weeks start on, as a type, so that weeks with
/// different start days are different types.
pub trait StartDay: Copy {
    /// Days since Monday of the start day: 0 for Monday, 6 for Sunday.
    spec fn start_index() -> int;

    /// The start day.
    fn weekday() -> (r: Weekday)
        ensures
            r.index() == Self::start_index(),
    ;

    /// The start day's index is a day of the week.
    proof fn lemma_start_index()
        ensures
            0 <= Self::start_index() < 7,
    ;

    /// The one value of the type.
    fn marker() -> Self;

    /// The type has one value only.
    proof fn lemma_single(a: Self, b: Self)
        ensures
            a == b,
    ;
}

/// The day count of the first day of week 0 of weeks that start on the day of
/// the week `start` (0 for Monday): the first such day from 0000-01-01 on.
pub open spec fn week_offset(start: int) -> int {
    (start + 2) % 7
}

/// The day count of the first day of week `n` of weeks that start on `start`.
pub open spec fn week_start(start: int, n: int) -> int {
    7 * n + week_offset(start)
}

/// The number of the week, of weeks that start on `start`, that holds the day
/// with count `d`.
pub open spec fn week_of_day(start: int, d: int) -> int {
    (d - week_offset(start)) / 7
}

/// Weeks that start on Monday.
#[derive(Clone, Copy, Debug, PartialEq, Eq, Hash, PartialOrd, Ord)]
pub struct Monday;

impl StartDay for Monday {
    fn marker() -> Self {
        Monday
    }

    proof fn lemma_single(a: Self, b: Self) {
    }

    open spec fn start_index() -> int {
        0
    }

    fn weekday() -> (r: Weekday) {
        Weekday::Mon
    }

    proof fn lemma_start_index() {
    }
}

/// Weeks that start on Tuesday.
#[derive(Clone, Copy, Debug, PartialEq, Eq, Hash, PartialOrd, Ord)]
pub struct Tuesday;

impl StartDay for Tuesday {
    fn marker() -> Self {
        Tuesday
    }

    proof fn lemma_single(a: Self, b: Self) {
    }

    open spec fn start_index() -> int {
        1
    }

    fn weekday() -> (r: Weekday) {
        Weekday::Tue
    }

    proof fn lemma_start_index() {
    }
}

/// Weeks that start on Wednesday.
#[derive(Clone, Copy, Debug, PartialEq, Eq, Hash, PartialOrd, Ord)]
pub struct Wednesday;

impl StartDay for Wednesday {
    fn marker() -> Self {
        Wednesday
    }

    proof fn lemma_single(a: Self, b: Self) {
    }

    open spec fn start_index() -> int {
        2
    }

    fn weekday() -> (r: Weekday) {
        Weekday::Wed
    }

    proof fn lemma_start_index() {
    }
}

/// Weeks that start on Thursday.
#[derive(Clone, Copy, Debug, PartialEq, Eq, Hash, PartialOrd, Ord)]
pub struct Thursday;

impl StartDay for Thursday {
    fn marker() -> Self {
        Thursday
    }

    proof fn lemma_single(a: Self, b: Self) {
    }

    open spec fn start_index() -> int {
        3
    }

    fn weekday() -> (r: Weekday) {
        Weekday::Thu
    }

    proof fn lemma_start_index() {
    }
}

/// Weeks that start on Friday.
#[derive(Clone, Copy, Debug, PartialEq, Eq, Hash, PartialOrd, Ord)]
pub struct Friday;

impl StartDay for Friday {
    fn marker() -> Self {
        Friday
    }

    proof fn lemma_single(a: Self, b: Self) {
    }

    open spec fn start_index() -> int {
        4
    }

    fn weekday() -> (r: Weekday) {
        Weekday::Fri
    }

    proof fn lemma_start_index() {
    }
}

/// Weeks that start on Saturday.
#[derive(Clone, Copy, Debug, PartialEq, Eq, Hash, PartialOrd, Ord)]
pub struct Saturday;

impl StartDay for Saturday {
    fn marker() -> Self {
        Saturday
    }

    proof fn lemma_single(a: Self, b: Self) {
    }

    open spec fn start_index() -> int {
        5
    }

    fn weekday() -> (r: Weekday) {
        Weekday::Sat
    }

    proof fn lemma_start_index() {
    }
}

/// Weeks that start on Sunday.
#[derive(Clone, Copy, Debug, PartialEq, Eq, Hash, PartialOrd, Ord)]
pub struct Sunday;

impl StartDay for Sunday {
    fn marker() -> Self {
        Sunday
    }

    proof fn lemma_single(a: Self, b: Self) {
    }

    open spec fn start_index() -> int {
        6
    }

    fn weekday() -> (r: Weekday) {
        Weekday::Sun
    }

    proof fn lemma_start_index() {
    }
}

/// A week starting on the day of the week `D`: the number of such weeks since
/// the first one that starts on or after 0000-01-01.
#[derive(Clone, Copy, Debug, PartialEq, Eq, Hash, PartialOrd, Ord)]
pub struct Week<D: StartDay> {
    pub n: i32,
    pub start_day: D,
}

impl<D: StartDay> Week<D> {
    /// The week that `date` falls in.
    pub fn new(date: Day) -> (r: Week<D>)
        ensures
            r.n == week_of_day(D::start_index(), date.0 as int),
    {
        Self::from_day(date)
    }

    /// The number of the week.
    pub fn to_monotonic(self) -> (r: i32)
        ensures
            r == self.n,
    {
        self.n
    }

    /// How many weeks `other` lies after this one.
    pub fn between(self, other: Self) -> (r: i32)
        requires
            i32::MIN <= other.n - self.n <= i32::MAX,
        ensures
            r == other.n - self.n,
    {
        other.n - self.n
    }

    /// The week with number `idx`.
    pub fn from_monotonic(idx: i32) -> (r: Week<D>)
        ensures
            r.n == idx,
    {
        Week { n: idx, start_day: D::marker() }
    }

    /// The offset of week 0 from day 0.
    fn offset() -> (r: i32)
        ensures
            r == week_offset(D::start_index()),
            0 <= r < 7,
    {
        proof {
            D::lemma_start_index();
        }
        let s = D::weekday();
        match s {
            Weekday::Mon => 2,
            Weekday::Tue => 3,
            Weekday::Wed => 4,
            Weekday::Thu => 5,
            Weekday::Fri => 6,
            Weekday::Sat => 0,
            Weekday::Sun => 1,
        }
    }

    /// The first day of the week.
    pub fn start(self) -> (r: Day)
        requires
            i32::MIN <= week_start(D::start_index(), self.n as int) <= i32::MAX,
        ensures
            r.0 == week_start(D::start_index(), self.n as int),
    {
        let s: i64 = 7 * (self.n as i64) + Self::offset() as i64;
        Day(s as i32)
    }

    /// The last day of the week.
    pub fn end(self) -> (r: Day)
        requires
            i32::MIN <= week_start(D::start_index(), self.n as int) + 6 <= i32::MAX,
        ensures
            r.0 == week_start(D::start_index(), self.n as int) + 6,
    {
        let s: i64 = 7 * (self.n as i64) + Self::offset() as i64 + 6;
        Day(s as i32)
    }

    /// The week that `date` falls in.
    pub fn from_day(date: Day) -> (r: Week<D>)
        ensures
            r.n == week_of_day(D::start_index(), date.0 as int),
    {
        let n = (date.0 as i64 - Self::offset() as i64).checked_div_euclid(7).unwrap();
        Week { n: n as i32, start_day: D::marker() }
    }

    /// The week `n` weeks later.
    pub fn succ_n(self, n: u16) -> (r: Week<D>)
        requires
            self.n + n <= i32::MAX,
        ensures
            r.n == self.n + n,
    {
        Week { n: self.n + n as i32, start_day: D::marker() }
    }

    /// The week `n` weeks earlier.
    pub fn pred_n(self, n: u16) -> (r: Week<D>)
        requires
            self.n - n >= i32::MIN,
        ensures
            r.n == self.n - n,
    {
        Week { n: self.n - n as i32, start_day: D::marker() }
    }

    /// The next week.
    pub fn succ(self) -> (r: Week<D>)
        requires
            self.n < i32::MAX,
        ensures
            r.n == self.n + 1,
    {
        self.succ_n(1)
    }

    /// The previous week.
    pub fn pred(self) -> (r: Week<D>)
        requires
            self.n > i32::MIN,
        ensures
            r.n == self.n - 1,
    {
        self.pred_n(1)
    }

    /// The first day of the week.
    pub fn day(self) -> (r: Day)
        requires
            i32::MIN <= week_start(D::start_index(), self.n as int) <= i32::MAX,
        ensures
            r.0 == week_start(D::start_index(), self.n as int),
    {
        self.start()
    }

    /// The month that the week starts in.
    pub fn month(self) -> (r: Month)
        requires
            i32::MIN <= week_start(D::start_index(), self.n as int) <= i32::MAX,
        ensures
            r.0 == month_of_day(week_start(D::start_index(), self.n as int)),
    {
        Month::from_day(self.start())
    }

    /// The year that the week starts in.
    pub fn year(self) -> (r: Year)
        requires
            i32::MIN <= week_start(D::start_index(), self.n as int) <= i32::MAX,
        ensures
            r.0 == ymd_of(week_start(D::start_index(), self.n as int)).0,
    {
        Year::from_day(self.start())
    }
}

/// A week starts on its start day, and holds the seven days from its start.
pub proof fn lemma_week_start<D: StartDay>(n: int)
    ensures
        weekday_of(week_start(D::start_index(), n)) == D::start_index(),
        forall|i: int|
            0 <= i < 7 ==> #[trigger] week_of_day(D::start_index(), week_start(D::start_index(), n) + i)
                == n,
{
    D::lemma_start_index();
}

/// The text `Week starting YYYY-MM-DD` of week `n` of weeks that start on
/// `start`.
pub open spec fn week_text(start: int, n: int) -> Seq<char> {
    "Week starting "@ + day_text(week_start(start, n))
}

/// The day that the text `s` of the form `Week starting YYYY-MM-DD` names as
/// the start of a week.
pub open spec fn week_start_of_text(s: Seq<char>) -> Option<int> {
    if s.len() >= 14 && s.subrange(0, 14) == "Week starting "@ {
        day_of_text(s.subrange(14, s.len() as int))
    } else {
        None
    }
}

/// Whether `r` is the error for a week that would start on the day with
/// count `d`, which is not day of the week `start`.
pub open spec fn is_start_day_error<T>(r: Result<T, Error>, d: int, start: int) -> bool {
    match r {
        Err(Error::UnexpectedStartDate { date, required, actual }) => date.0 == d
            && required.index() == start && actual.index() == weekday_of(d),
        _ => false,
    }
}

impl<D: StartDay> Week<D> {
    /// The text `Week starting YYYY-MM-DD` of the week.
    pub fn to_string(&self) -> (r: String)
        requires
            i32::MIN <= week_start(D::start_index(), self.n as int) <= i32::MAX,
        ensures
            r@ == week_text(D::start_index(), self.n as int),
    {
        proof {
            reveal_strlit("Week starting ");
        }
        let mut out = String::from_str("Week starting ");
        let day = self.start().to_string();
        out.append(day.as_str());
        out
    }

    /// The week that the text `s` of the form `Week starting YYYY-MM-DD`
    /// names; the day must be a `D`.
    #[verifier::rlimit(30)]
    pub fn parse(s: &str) -> (r: Result<Week<D>, Error>)
        ensures
            week_start_of_text(s@).is_none() ==> is_parse_error(r, "Week"@, s@),
            week_start_of_text(s@).is_some() ==> {
                let d = week_start_of_text(s@).unwrap();
                if weekday_of(d) == D::start_index() {
                    r.is_ok() && r.unwrap().n == week_of_day(D::start_index(), d) && week_start(
                        D::start_index(),
                        r.unwrap().n as int,
                    ) == d
                } else {
                    is_start_day_error(r, d, D::start_index())
                }
            },
    {
        proof {
            D::lemma_start_index();
        }
        let day = match parse_week_start_day(s) {
            Ok(day) => day,
            Err(e) => {
                return Err(e);
            },
        };
        let actual = Weekday::of_day(day);
        let required = D::weekday();
        if actual.index_u8() != required.index_u8() {
            Err(Error::UnexpectedStartDate { date: day, required, actual })
        } else {
            proof {
                lemma_week_of_start_day(D::start_index(), day.0 as int);
            }
            Ok(Self::from_day(day))
        }
    }
}

/// The day named by text of the form `Week starting YYYY-MM-DD`.
fn parse_week_start_day(s: &str) -> (r: Result<Day, Error>)
    ensures
        week_start_of_text(s@).is_none() ==> is_parse_error(r, "Week"@, s@),
        week_start_of_text(s@).is_some() ==> r.is_ok() && r.unwrap().0 == week_start_of_text(
            s@,
        ).unwrap(),
{
    proof {
        reveal_strlit("Week");
        reveal_strlit("Week starting ");
    }
    if !has_prefix(s, "Week starting ") {
        return Err(parse_error("Week", s));
    }
    let n = s.unicode_len();
    let rest = s.substring_char(14, n);
    match Day::parse(rest) {
        Ok(day) => Ok(day),
        Err(_) => Err(parse_error("Week", s)),
    }
}

/// A day that is a start day starts the week it falls in.
proof fn lemma_week_of_start_day(start: int, d: int)
    requires
        0 <= start < 7,
        weekday_of(d) == start,
    ensures
        week_start(start, week_of_day(start, d)) == d,
{
}

impl<D: StartDay> Week<D> {
    /// The name of the day the weeks start on: the tag stored beside the
    /// number in compact forms.
    pub fn start_day_name(&self) -> (r: &'static str)
        ensures
            r@ == weekday_name(D::start_index()),
    {
        D::weekday().name()
    }

    /// The week with number `n`, from a compact form whose tag names the day
    /// its weeks start on; an error when that is not `D`'s name.
    pub fn from_tagged(n: i32, start_day: &str) -> (r: Result<Week<D>, Error>)
        ensures
            start_day@ == weekday_name(D::start_index()) ==> r.is_ok() && r.unwrap().n == n,
            start_day@ != weekday_name(D::start_index()) ==> is_start_day_tag_error(
                r,
                D::start_index(),
                start_day@,
            ),
    {
        let name = D::weekday().name();
        proof {
            assert(start_day@.subrange(0, start_day@.len() as int) =~= start_day@);
        }
        if has_prefix(start_day, name) && start_day.unicode_len() == name.unicode_len() {
            proof {
                assert(start_day@ =~= start_day@.subrange(0, name@.len() as int));
            }
            Ok(Week { n, start_day: D::marker() })
        } else {
            Err(Error::WrongStartDay { expected: D::weekday(), got: String::from_str(start_day) })
        }
    }
}

/// Whether `r` is the error for data tagged for weeks starting on `got` where
/// weeks starting on day `start` were expected.
pub open spec fn is_start_day_tag_error<T>(r: Result<T, Error>, start: int, got: Seq<char>) -> bool {
    match r {
        Err(Error::WrongStartDay { expected, got: g }) => expected.index() == start && g@ == got,
        _ => false,
    }
}

impl Weekday {
    fn index_u8(&self) -> (r: u8)
        ensures
            r == self.index(),
    {
        match self {
            Weekday::Mon => 0,
            Weekday::Tue => 1,
            Weekday::Wed => 2,
            Weekday::Thu => 3,
            Weekday::Fri => 4,
            Weekday::Sat => 5,
            Weekday::Sun => 6,
        }
    }
}

#[verifier::rlimit(30)]
proof fn lemma_week_text_day(d: int)
    requires
        i32::MIN <= d <= i32::MAX,
    ensures
        week_start_of_text("Week starting "@ + day_text(d)) == Some(d),
{
    reveal_strlit("Week starting ");
    let p = "Week starting "@;
    let t = p + day_text(d);
    lemma_day_text_round_trip(d);
    assert(t.subrange(0, 14) =~= p);
    assert(t.subrange(14, t.len() as int) =~= day_text(d));
}

/// Reading the text of a week gives the week back.
pub proof fn lemma_week_text_round_trip<D: StartDay>(n: int)
    requires
        i32::MIN <= week_start(D::start_index(), n) <= i32::MAX,
    ensures
        week_start_of_text(week_text(D::start_index(), n)) == Some(week_start(D::start_index(), n)),
        weekday_of(week_start(D::start_index(), n)) == D::start_index(),
        week_of_day(D::start_index(), week_start(D::start_index(), n)) == n,
{
    lemma_week_start::<D>(n);
    assert(week_of_day(D::start_index(), week_start(D::start_index(), n) + 0) == n);
    lemma_week_text_day(week_start(D::start_index(), n));
}

impl<D: StartDay> core::str::FromStr for Week<D> {
    type Err = Error;

    fn from_str(s: &str) -> (r: Result<Week<D>, Error>)
        ensures
            week_start_of_text(s@).is_none() ==> is_parse_error(r, "Week"@, s@),
            week_start_of_text(s@).is_some() ==> {
                let d = week_start_of_text(s@).unwrap();
                if weekday_of(d) == D::start_index() {
                    r.is_ok() && r.unwrap().n == week_of_day(D::start_index(), d) && week_start(
                        D::start_index(),
                        r.unwrap().n as int,
                    ) == d
                } else {
                    is_start_day_error(r, d, D::start_index())
                }
            },
    {
        Week::parse(s)
    }
}

/// Moving `k` weeks moves the first day of the week by `7 * k` days.
pub proof fn lemma_week_start_shift(start: int, n: int, k: int)
    ensures
        week_start(start, n + k) == week_start(start, n) + 7 * k,
{
}

impl Day {
    /// The week, of weeks starting on `D`, that this day falls in.
    pub fn week<D: StartDay>(self) -> (r: Week<D>)
        ensures
            r.n == week_of_day(D::start_index(), self.0 as int),
    {
        Week::from_day(self)
    }
}

impl<D: StartDay> Monotonic for Week<D> {
    open spec fn index(self) -> int {
        self.n as int
    }

    proof fn lemma_index_bounds(self) {
    }

    proof fn lemma_index_injective(self, other: Self) {
        D::lemma_single(self.start_day, other.start_day);
    }

    fn to_monotonic(self) -> (r: i32) {
        self.n
    }

    fn between(self, other: Self) -> (r: i32) {
        other.n - self.n
    }
}

impl<D: StartDay> FromMonotonic for Week<D> {
    fn from_monotonic(idx: i32) -> (r: Self) {
        Week { n: idx, start_day: D::marker() }
    }
}

impl<D: StartDay> TimeResolution for Week<D> {
    fn succ_n(self, n: u16) -> (r: Self) {
        assert(self.index() == self.n as int);
        Week { n: self.n + n as i32, start_day: D::marker() }
    }

    fn pred_n(self, n: u16) -> (r: Self) {
        assert(self.index() == self.n as int);
        Week { n: self.n - n as i32, start_day: D::marker() }
    }
}

impl<D: StartDay> DateResolution for Week<D> {
    open spec fn period_of_day(d: int) -> int {
        week_of_day(D::start_index(), d)
    }

    open spec fn first_day(self) -> int {
        week_start(D::start_index(), self.n as int)
    }

    open spec fn last_day(self) -> int {
        week_start(D::start_index(), self.n as int) + 6
    }

    open spec fn days_in_range(self) -> bool {
        i32::MIN <= week_start(D::start_index(), self.n as int) && week_start(
            D::start_index(),
            self.n as int,
        ) + 6 <= i32::MAX
    }

    proof fn lemma_days(self) {
        lemma_week_start::<D>(self.n as int);
        assert(week_of_day(D::start_index(), week_start(D::start_index(), self.n as int) + 0)
            == self.n);
        assert(week_of_day(D::start_index(), week_start(D::start_index(), self.n as int) + 6)
            == self.n);
    }

    proof fn lemma_period_of_day_monotone(a: int, b: int) {
        D::lemma_start_index();
    }

    fn first(self) -> (r: Day) {
        self.start()
    }

    fn last(self) -> (r: Day) {
        self.end()
    }

    fn of_day(day: Day) -> (r: Self) {
        Week::from_day(day)
    }
}

impl<D: StartDay> Week<D> {
    /// The first one-minute period of the period.
    pub fn start_minute(self) -> (r: Minutes<1>)
        requires
            self.days_in_range(),
            i32::MIN <= DateResolution::first_day(self) * 1440,
            DateResolution::first_day(self) * 1440 <= i32::MAX,
        ensures
            r.index == DateResolution::first_day(self) * 1440,
    {
        Minutes::<1>::first_on_day(DateResolution::first(self))
    }

    /// The first five-minute period of the period.
    pub fn five_minute(self) -> (r: Minutes<5>)
        requires
            self.days_in_range(),
            i32::MIN <= DateResolution::first_day(self) * 288,
            DateResolution::first_day(self) * 288 <= i32::MAX,
        ensures
            r.index == DateResolution::first_day(self) * 288,
    {
        Minutes::<5>::first_on_day(DateResolution::first(self))
    }

    /// The first half hour of the period.
    pub fn half_hour(self) -> (r: Minutes<30>)
        requires
            self.days_in_range(),
            i32::MIN <= DateResolution::first_day(self) * 48,
            DateResolution::first_day(self) * 48 <= i32::MAX,
        ensures
            r.index == DateResolution::first_day(self) * 48,
    {
        Minutes::<30>::first_on_day(DateResolution::first(self))
    }

    /// The first hour of the period.
    pub fn hour(self) -> (r: Minutes<60>)
        requires
            self.days_in_range(),
            i32::MIN <= DateResolution::first_day(self) * 24,
            DateResolution::first_day(self) * 24 <= i32::MAX,
        ensures
            r.index == DateResolution::first_day(self) * 24,
    {
        Minutes::<60>::first_on_day(DateResolution::first(self))
    }

}

} // verus!
