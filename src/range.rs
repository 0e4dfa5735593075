//! Contiguous, non-empty ranges of periods of one resolution.
use vstd::prelude::*;

use crate::{FromMonotonic, Monotonic, TimeResolution};
use crate::error::Error;

verus! {

/// The larger of two integers.
pub open spec fn max_int(a: int, b: int) -> int {
    if a >= b {
        a
    } else {
        b
    }
}

/// The smaller of two integers.
pub open spec fn min_int(a: int, b: int) -> int {
    if a <= b {
        a
    } else {
        b
    }
}

/// A contiguous range of periods, from `start` to `start` moved on by
/// `length - 1` periods, both included; a range is never empty.
#[derive(Copy, Debug, PartialEq, Eq, Hash)]
pub struct TimeRange<R: TimeResolution> {
    start: R,
    length: u64,
}

impl<R: TimeResolution> TimeRange<R> {
    #[verifier::type_invariant]
    spec fn inv(self) -> bool {
        1 <= self.length && self.start.index() + self.length - 1 <= i32::MAX && i32::MIN
            <= self.start.index()
    }

    /// The number of the first period of the range.
    pub closed spec fn first(self) -> int {
        self.start.index()
    }

    /// The number of the last period of the range.
    pub closed spec fn last(self) -> int {
        self.start.index() + self.length - 1
    }

    /// The range of `length` periods from `start`.
    pub fn new(start: R, length: u64) -> (r: TimeRange<R>)
        requires
            length >= 1,
            start.index() + length - 1 <= i32::MAX,
        ensures
            r.first() == start.index(),
            r.last() == start.index() + length - 1,
    {
        proof {
            start.lemma_index_bounds();
        }
        TimeRange { start, length }
    }

    /// The range from `start` to `end`, both included; an `EmptyRange` error
    /// when `end` comes before `start`.
    pub fn from_bounds(start: R, end: R) -> (r: Result<TimeRange<R>, Error>)
        ensures
            r.is_ok() <==> start.index() <= end.index(),
            r.is_ok() ==> r.unwrap().first() == start.index() && r.unwrap().last() == end.index(),
            r.is_err() ==> r == Err::<TimeRange<R>, Error>(Error::EmptyRange),
    {
        let s = start.to_monotonic();
        let e = end.to_monotonic();
        if e < s {
            Err(Error::EmptyRange)
        } else {
            let length = (e as i64 - s as i64 + 1) as u64;
            Ok(TimeRange { start, length })
        }
    }

    fn from_indices(first: i32, last: i32) -> (r: TimeRange<R>)
        requires
            first <= last,
        ensures
            r.first() == first,
            r.last() == last,
    {
        let start = R::from_monotonic(first);
        TimeRange { start, length: (last as i64 - first as i64 + 1) as u64 }
    }

    /// The first period of the range.
    pub fn start(&self) -> (r: R)
        ensures
            r.index() == self.first(),
    {
        self.start
    }

    /// The last period of the range.
    pub fn end(&self) -> (r: R)
        ensures
            r.index() == self.last(),
    {
        proof {
            use_type_invariant(self);
        }
        R::from_monotonic(self.last_index())
    }

    fn first_index(&self) -> (r: i32)
        ensures
            r == self.first(),
    {
        self.start.to_monotonic()
    }

    fn last_index(&self) -> (r: i32)
        ensures
            r == self.last(),
    {
        proof {
            use_type_invariant(self);
        }
        (self.start.to_monotonic() as i64 + self.length as i64 - 1) as i32
    }

    /// The number of periods in the range.
    pub fn len(&self) -> (r: u64)
        ensures
            r == self.last() - self.first() + 1,
            r >= 1,
            i32::MIN <= self.first(),
            self.last() <= i32::MAX,
    {
        proof {
            use_type_invariant(self);
        }
        self.length
    }

    /// Whether `period` lies in the range.
    pub fn contains(&self, period: R) -> (r: bool)
        ensures
            r == (self.first() <= period.index() <= self.last()),
    {
        let p = period.to_monotonic();
        p >= self.first_index() && p <= self.last_index()
    }

    /// How many periods into the range `period` lies, if it lies in the range.
    pub fn index_of(&self, period: R) -> (r: Option<u64>)
        ensures
            r.is_some() <==> self.first() <= period.index() <= self.last(),
            r.is_some() ==> r.unwrap() == period.index() - self.first(),
    {
        if self.contains(period) {
            Some((period.to_monotonic() as i64 - self.first_index() as i64) as u64)
        } else {
            None
        }
    }

    /// The periods that lie in both ranges, if there are any.
    pub fn intersection(&self, other: &TimeRange<R>) -> (r: Option<TimeRange<R>>)
        ensures
            r.is_some() <==> overlaps(self.first(), self.last(), other.first(), other.last()),
            r.is_some() ==> r.unwrap().first() == max_int(self.first(), other.first())
                && r.unwrap().last() == min_int(self.last(), other.last()),
    {
        let a0 = self.first_index();
        let a1 = self.last_index();
        let b0 = other.first_index();
        let b1 = other.last_index();
        let lo = if a0 >= b0 {
            a0
        } else {
            b0
        };
        let hi = if a1 <= b1 {
            a1
        } else {
            b1
        };
        if lo <= hi {
            Some(Self::from_indices(lo, hi))
        } else {
            None
        }
    }

    /// The range that the two ranges make together, if they overlap or are
    /// adjacent; never a range with a gap.
    pub fn union(&self, other: &TimeRange<R>) -> (r: Option<TimeRange<R>>)
        ensures
            r.is_some() <==> overlaps(self.first(), self.last(), other.first(), other.last())
                || adjacent(self.first(), self.last(), other.first(), other.last()),
            r.is_some() ==> r.unwrap().first() == min_int(self.first(), other.first())
                && r.unwrap().last() == max_int(self.last(), other.last()),
    {
        proof {
            use_type_invariant(self);
            use_type_invariant(other);
        }
        let a0 = self.first_index();
        let a1 = self.last_index();
        let b0 = other.first_index();
        let b1 = other.last_index();
        let lo = if a0 >= b0 {
            a0
        } else {
            b0
        };
        let hi = if a1 <= b1 {
            a1
        } else {
            b1
        };
        if lo as i64 <= hi as i64 + 1 {
            let first = if a0 <= b0 {
                a0
            } else {
                b0
            };
            let last = if a1 >= b1 {
                a1
            } else {
                b1
            };
            Some(Self::from_indices(first, last))
        } else {
            None
        }
    }

    /// The periods of the range, first to last.
    pub fn iter(&self) -> (r: Vec<R>)
        ensures
            r@.len() == self.last() - self.first() + 1,
            forall|i: int| 0 <= i < r@.len() ==> #[trigger] r@[i].index() == self.first() + i,
    {
        proof {
            use_type_invariant(self);
        }
        let first = self.first_index();
        let last = self.last_index();
        let mut out: Vec<R> = Vec::new();
        let mut i: i64 = first as i64;
        while i <= last as i64
            invariant
                first <= i <= last as i64 + 1,
                out@.len() == i - first,
                forall|j: int| 0 <= j < out@.len() ==> #[trigger] out@[j].index() == first + j,
            decreases last as i64 + 1 - i,
        {
            out.push(R::from_monotonic(i as i32));
            i = i + 1;
        }
        out
    }

    /// The periods of the range, last to first.
    pub fn rev_iter(&self) -> (r: Vec<R>)
        ensures
            r@.len() == self.last() - self.first() + 1,
            forall|i: int| 0 <= i < r@.len() ==> #[trigger] r@[i].index() == self.last() - i,
    {
        proof {
            use_type_invariant(self);
        }
        let first = self.first_index();
        let last = self.last_index();
        let mut out: Vec<R> = Vec::new();
        let mut i: i64 = last as i64;
        while i >= first as i64
            invariant
                first as i64 - 1 <= i <= last,
                out@.len() == last - i,
                forall|j: int| 0 <= j < out@.len() ==> #[trigger] out@[j].index() == last - j,
            decreases i - first as i64 + 1,
        {
            out.push(R::from_monotonic(i as i32));
            i = i - 1;
        }
        out
    }
}

impl<R: TimeResolution> Clone for TimeRange<R> {
    fn clone(&self) -> (r: Self)
        ensures
            r == *self,
    {
        *self
    }
}

/// Whether `i` lies in the range of numbers `first..=last`.
pub open spec fn within(first: int, last: int, i: int) -> bool {
    first <= i <= last
}

/// Whether the ranges of numbers `a0..=a1` and `b0..=b1` share a number.
pub open spec fn overlaps(a0: int, a1: int, b0: int, b1: int) -> bool {
    max_int(a0, b0) <= min_int(a1, b1)
}

/// Whether one of the ranges of numbers `a0..=a1` and `b0..=b1` ends right
/// before the other starts.
pub open spec fn adjacent(a0: int, a1: int, b0: int, b1: int) -> bool {
    a1 + 1 == b0 || b1 + 1 == a0
}

/// Two ranges have an intersection exactly when some period lies in both; they
/// have a union exactly when they intersect or are adjacent.
pub proof fn lemma_range_set_algebra<R: TimeResolution>(a: TimeRange<R>, b: TimeRange<R>)
    ensures
        overlaps(a.first(), a.last(), b.first(), b.last()) <==> exists|i: int|
            #[trigger] within(a.first(), a.last(), i) && within(b.first(), b.last(), i),
{
    if overlaps(a.first(), a.last(), b.first(), b.last()) {
        let i = max_int(a.first(), b.first());
        assert(within(a.first(), a.last(), i) && within(b.first(), b.last(), i));
    }
}

} // verus!
