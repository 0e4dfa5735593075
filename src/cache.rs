//! A cache of data over ranges of periods, which answers a request with the
//! data it holds or with the ranges it lacks, and refuses data that disagrees
//! with what it holds.
use vstd::prelude::*;

use core::marker::PhantomData;
use crate::{FromMonotonic, Monotonic, TimeResolution};
use crate::error::Error;
use crate::range::TimeRange;

verus! {

/// The value stored last for number `k` in a list of (number, value) pairs.
pub open spec fn find(s: Seq<(i32, i64)>, k: int) -> Option<i64>
    decreases s.len(),
{
    if s.len() == 0 {
        None
    } else if s.last().0 == k {
        Some(s.last().1)
    } else {
        find(s.drop_last(), k)
    }
}

/// What a cache answers to a request for a range.
#[derive(Debug)]
pub enum CacheResponse<R: TimeResolution> {
    /// The cache holds data for every period of the range: here it is, in order.
    Hit(Vec<i64>),
    /// The cache lacks data for these ranges, in order; they are the largest
    /// runs of periods without data.
    Miss(Vec<TimeRange<R>>),
}

/// Data for single periods of the resolution `R`, gathered from the answers
/// to earlier requests.
#[derive(Debug)]
pub struct Cache<R: TimeResolution> {
    points: Vec<(i32, i64)>,
    resolution: PhantomData<R>,
}

/// Whether some range of `gaps` holds the number `x`.
pub open spec fn covered<R: TimeResolution>(gaps: Seq<TimeRange<R>>, x: int) -> bool {
    exists|j: int| 0 <= j < gaps.len() && (#[trigger] gaps[j]).first() <= x <= gaps[j].last()
}

/// Adding a range to a list of ranges covers what the list covered and what
/// the range holds.
proof fn lemma_covered_push<R: TimeResolution>(gaps: Seq<TimeRange<R>>, g: TimeRange<R>, x: int)
    ensures
        covered(gaps.push(g), x) == (covered(gaps, x) || g.first() <= x <= g.last()),
{
    if covered(gaps, x) {
        let j = choose|j: int| 0 <= j < gaps.len() && (#[trigger] gaps[j]).first() <= x <= gaps[j].last();
        assert(gaps.push(g)[j] == gaps[j]);
    }
    if g.first() <= x <= g.last() {
        assert(gaps.push(g)[gaps.len() as int] == g);
    }
    if covered(gaps.push(g), x) {
        let j = choose|j: int| 0 <= j < gaps.push(g).len() && (#[trigger] gaps.push(g)[j]).first() <= x <= gaps.push(g)[j].last();
        if j < gaps.len() {
            assert(gaps.push(g)[j] == gaps[j]);
        }
    }
}

/// Storing a pair makes it the value found for its number.
proof fn lemma_find_push(s: Seq<(i32, i64)>, p: (i32, i64), x: int)
    ensures
        find(s.push(p), x) == if x == p.0 {
            Some(p.1)
        } else {
            find(s, x)
        },
{
    assert(s.push(p).drop_last() =~= s);
}

impl<R: TimeResolution> Cache<R> {
    /// The data held for the period with number `k`.
    pub closed spec fn stored(self, k: int) -> Option<i64> {
        find(self.points@, k)
    }

    /// Whether the data held for number `first + i` is not `data[i]`.
    pub open spec fn conflict(self, first: int, data: Seq<i64>, i: int) -> bool {
        self.stored(first + i).is_some() && self.stored(first + i).unwrap() != data[i]
    }

    /// Whether `gaps` are the largest runs of numbers in `first..=last` that
    /// the cache holds no data for, in order.
    pub open spec fn exact_gaps(self, first: int, last: int, gaps: Seq<TimeRange<R>>) -> bool {
        &&& gaps.len() >= 1
        &&& forall|j: int|
            0 <= j < gaps.len() ==> first <= (#[trigger] gaps[j]).first() && gaps[j].first()
                <= gaps[j].last() && gaps[j].last() <= last
        &&& forall|j: int|
            0 <= j < gaps.len() - 1 ==> (#[trigger] gaps[j]).last() + 1 < gaps[j + 1].first()
        &&& forall|i: int| first <= i <= last ==> (#[trigger] self.stored(i).is_none() <==> covered(gaps, i))
    }

    /// What adding `data` for `first..=last` to the cache `before` returns:
    /// a length error when the lengths differ, else an error for the first
    /// number whose held data differs, else success.
    pub open spec fn add_result(
        before: Cache<R>,
        first: int,
        last: int,
        data: Seq<i64>,
        r: Result<(), Error>,
    ) -> bool {
        if data.len() != last - first + 1 {
            match r {
                Err(Error::NonMatchingLength { range, data: n }) => range == last - first + 1 && n
                    == data.len(),
                _ => false,
            }
        } else if exists|i: int| 0 <= i < data.len() && #[trigger] before.conflict(first, data, i) {
            match r {
                Err(Error::GotNonMatchingNewData { point, old, new }) => {
                    let i = point - first;
                    &&& 0 <= i < data.len()
                    &&& before.conflict(first, data, i)
                    &&& forall|j: int| 0 <= j < i ==> !#[trigger] before.conflict(first, data, j)
                    &&& old == before.stored(point as int).unwrap()
                    &&& new == data[i]
                },
                _ => false,
            }
        } else {
            r.is_ok()
        }
    }

    /// Whether `r` answers a request for `first..=last`: all the data, in
    /// order, when the cache holds data for every number; else the largest
    /// runs of numbers it holds no data for.
    pub open spec fn answers(self, first: int, last: int, r: CacheResponse<R>) -> bool {
        match r {
            CacheResponse::Hit(v) => {
                &&& forall|i: int| first <= i <= last ==> (#[trigger] self.stored(i)).is_some()
                &&& v@.len() == last - first + 1
                &&& forall|j: int| 0 <= j < v@.len() ==> #[trigger] v@[j] == self.stored(first + j).unwrap()
            },
            CacheResponse::Miss(g) => self.exact_gaps(first, last, g@),
        }
    }

    /// A cache that holds nothing.
    pub fn empty() -> (r: Cache<R>)
        ensures
            forall|k: int| r.stored(k).is_none(),
    {
        Cache { points: Vec::new(), resolution: PhantomData }
    }

    /// The data held for the period with number `k`.
    fn lookup(&self, k: i32) -> (r: Option<i64>)
        ensures
            r == self.stored(k as int),
    {
        let mut j = self.points.len();
        assert(self.points@.subrange(0, j as int) =~= self.points@);
        while j > 0
            invariant
                j <= self.points@.len(),
                find(self.points@, k as int) == find(self.points@.subrange(0, j as int), k as int),
            decreases j,
        {
            let (key, value) = self.points[j - 1];
            assert(self.points@.subrange(0, j as int).drop_last() =~= self.points@.subrange(
                0,
                j - 1,
            ));
            if key == k {
                return Some(value);
            }
            j = j - 1;
        }
        None
    }
}

impl<R: TimeResolution> Cache<R> {
    /// Answers a request for `range`: `Hit` with the data for each of its
    /// periods when the cache holds all of them, else `Miss` with the largest
    /// runs of periods of `range` that it holds no data for.
    #[verifier::rlimit(30)]
    pub fn get(&self, range: &TimeRange<R>) -> (r: CacheResponse<R>)
        ensures
            self.answers(range.first(), range.last(), r),
    {
        let n = range.len();
        let first = range.start().to_monotonic();
        let last: i32 = (first as i64 + n as i64 - 1) as i32;
        let mut gaps: Vec<TimeRange<R>> = Vec::new();
        let mut in_run = false;
        let mut run_start: i32 = first;
        let mut i: i64 = first as i64;
        while i <= last as i64
            invariant
                first == range.first(),
                last == range.last(),
                first <= last,
                first <= i <= last as i64 + 1,
                in_run ==> first <= run_start < i,
                forall|j: int|
                    0 <= j < gaps@.len() ==> first <= (#[trigger] gaps@[j]).first() && gaps@[j].first()
                        <= gaps@[j].last() && gaps@[j].last() + 1 < i,
                forall|j: int|
                    0 <= j < gaps@.len() - 1 ==> (#[trigger] gaps@[j]).last() + 1 < gaps@[j + 1].first(),
                in_run && gaps@.len() > 0 ==> gaps@[gaps@.len() - 1].last() + 1 < run_start,
                forall|x: int|
                    first <= x < i ==> ((#[trigger] self.stored(x)).is_none() <==> covered(gaps@, x) || (
                    in_run && run_start <= x)),
            decreases last as i64 + 1 - i,
        {
            let k = i as i32;
            if self.lookup(k).is_none() {
                if !in_run {
                    in_run = true;
                    run_start = k;
                }
            } else if in_run {
                let ghost before = gaps@;
                let gap = TimeRange::new(R::from_monotonic(run_start), (k as i64 - run_start as i64) as u64);
                gaps.push(gap);
                in_run = false;
                proof {
                    assert forall|x: int| first <= x <= i implies ((#[trigger] self.stored(x)).is_none()
                        <==> covered(gaps@, x)) by {
                        lemma_covered_push(before, gap, x);
                        if x == i {
                            if covered(before, x) {
                                let j = choose|j: int| 0 <= j < before.len() && (#[trigger] before[j]).first() <= x <= before[j].last();
                            }
                        }
                    }
                }
            }
            i = i + 1;
        }
        if in_run {
            let ghost before = gaps@;
            let gap = TimeRange::new(R::from_monotonic(run_start), (last as i64 - run_start as i64 + 1) as u64);
            gaps.push(gap);
            proof {
                assert forall|x: int| first <= x <= last implies ((#[trigger] self.stored(x)).is_none()
                    <==> covered(gaps@, x)) by {
                    lemma_covered_push(before, gap, x);
                }
            }
        }
        if gaps.len() > 0 {
            return CacheResponse::Miss(gaps);
        }
        let mut values: Vec<i64> = Vec::new();
        let mut j: u64 = 0;
        while j < n
            invariant
                n == last - first + 1,
                first == range.first(),
                last == range.last(),
                j <= n,
                gaps@.len() == 0,
                forall|x: int|
                    first <= x <= last ==> ((#[trigger] self.stored(x)).is_none() <==> covered(gaps@, x)),
                values@.len() == j,
                forall|m: int| 0 <= m < j ==> #[trigger] values@[m] == self.stored(first + m).unwrap(),
            decreases n - j,
        {
            let k = (first as i64 + j as i64) as i32;
            let v = self.lookup(k);
            assert(self.stored(k as int).is_some());
            values.push(v.unwrap());
            j = j + 1;
        }
        CacheResponse::Hit(values)
    }

    /// Adds `data` for the periods of `range`, in order. Where the cache already
    /// holds data for a period, the new data must agree with it: the first
    /// period where it does not is reported, and nothing is added. Nothing is
    /// added either when `data` is not as long as `range`.
    #[verifier::rlimit(30)]
    pub fn add(&mut self, range: &TimeRange<R>, data: &Vec<i64>) -> (r: Result<(), Error>)
        ensures
            Self::add_result(*old(self), range.first(), range.last(), data@, r),
            r.is_err() ==> forall|k: int| #[trigger] final(self).stored(k) == old(self).stored(k),
            r.is_ok() ==> forall|k: int|
                #[trigger] final(self).stored(k) == if range.first() <= k <= range.last() {
                    Some(data@[k - range.first()])
                } else {
                    old(self).stored(k)
                },
    {
        let n = range.len();
        if data.len() as u64 != n {
            return Err(Error::NonMatchingLength { range: n, data: data.len() });
        }
        let first = range.start().to_monotonic();
        let ghost before = *self;
        let mut j: usize = 0;
        while j < data.len()
            invariant
                data@.len() == range.last() - range.first() + 1,
                first == range.first(),
                first + data@.len() - 1 <= i32::MAX,
                j <= data@.len(),
                *self == before,
                forall|i: int| 0 <= i < j ==> !#[trigger] before.conflict(first as int, data@, i),
            decreases data@.len() - j,
        {
            let k = (first as i64 + j as i64) as i32;
            match self.lookup(k) {
                Some(v) => {
                    if v != data[j] {
                        assert(before.conflict(first as int, data@, j as int));
                        return Err(Error::GotNonMatchingNewData { point: k, old: v, new: data[j] });
                    }
                },
                None => {},
            }
            j = j + 1;
        }
        let mut j: usize = 0;
        while j < data.len()
            invariant
                data@.len() == range.last() - range.first() + 1,
                first == range.first(),
                first + data@.len() - 1 <= i32::MAX,
                j <= data@.len(),
                forall|i: int| 0 <= i < data@.len() ==> !#[trigger] before.conflict(first as int, data@, i),
                forall|k: int|
                    #[trigger] self.stored(k) == if first <= k < first + j {
                        Some(data@[k - first])
                    } else {
                        before.stored(k)
                    },
            decreases data@.len() - j,
        {
            let k = (first as i64 + j as i64) as i32;
            let ghost cur = *self;
            if self.lookup(k).is_none() {
                let ghost prev = self.points@;
                self.points.push((k, data[j]));
                proof {
                    assert forall|x: int| #[trigger] find(self.points@, x) == if x == k {
                        Some(data@[j as int])
                    } else {
                        find(prev, x)
                    } by {
                        lemma_find_push(prev, (k, data@[j as int]), x);
                    }
                }
            } else {
                assert(!before.conflict(first as int, data@, j as int));
                assert(self.stored(k as int) == Some(data@[j as int]));
            }
            assert forall|x: int|
                #[trigger] self.stored(x) == if first <= x < first + j + 1 {
                    Some(data@[x - first])
                } else {
                    before.stored(x)
                } by {
                assert(cur.stored(x) == find(cur.points@, x));
            }
            j = j + 1;
        }
        Ok(())
    }
}

} // verus!
