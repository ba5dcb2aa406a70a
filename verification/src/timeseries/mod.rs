//! Time series of measurement points, and what the alignment engine needs to know
//! about one series: its extent in time, and where an instant falls in it.

use crate::measurement::{
    points_view, MeasurementPoint, PointView, RawMetricId, Resource, ResourceConsumer,
    ResourceConsumerView, ResourceView, Timestamp,
};
use vstd::prelude::*;

pub mod grouped_buffer;
pub mod interpolate;

verus! {

/// The earliest timestamp of a non-empty sequence of points, in nanoseconds.
pub open spec fn earliest(s: Seq<PointView>) -> u64
    decreases s.len(),
{
    if s.len() == 0 {
        0
    } else if s.len() == 1 {
        s[0].timestamp.nanos
    } else {
        let rest = earliest(s.drop_last());
        if s.last().timestamp.nanos < rest {
            s.last().timestamp.nanos
        } else {
            rest
        }
    }
}

/// The latest timestamp of a non-empty sequence of points, in nanoseconds.
pub open spec fn latest(s: Seq<PointView>) -> u64
    decreases s.len(),
{
    if s.len() == 0 {
        0
    } else if s.len() == 1 {
        s[0].timestamp.nanos
    } else {
        let rest = latest(s.drop_last());
        if s.last().timestamp.nanos > rest {
            s.last().timestamp.nanos
        } else {
            rest
        }
    }
}

/// The smallest timestamp of `s` that is not before `bound`, if there is one.
pub open spec fn first_at_or_after(s: Seq<PointView>, bound: u64) -> Option<u64>
    decreases s.len(),
{
    if s.len() == 0 {
        None
    } else {
        let rest = first_at_or_after(s.drop_last(), bound);
        let t = s.last().timestamp.nanos;
        if t < bound {
            rest
        } else {
            match rest {
                None => Some(t),
                Some(u) => Some(if t < u { t } else { u }),
            }
        }
    }
}

/// The largest timestamp of `s` that is not after `bound`, if there is one.
pub open spec fn last_at_or_before(s: Seq<PointView>, bound: u64) -> Option<u64>
    decreases s.len(),
{
    if s.len() == 0 {
        None
    } else {
        let rest = last_at_or_before(s.drop_last(), bound);
        let t = s.last().timestamp.nanos;
        if t > bound {
            rest
        } else {
            match rest {
                None => Some(t),
                Some(u) => Some(if t > u { t } else { u }),
            }
        }
    }
}

/// Whether the timestamps of `s` never decrease.
pub open spec fn sorted_by_time(s: Seq<PointView>) -> bool {
    forall|i: int, j: int|
        0 <= i <= j < s.len() ==> s[i].timestamp.nanos <= s[j].timestamp.nanos
}

/// `earliest` is a timestamp of the sequence, and none is smaller.
pub proof fn lemma_earliest(s: Seq<PointView>)
    requires
        s.len() > 0,
    ensures
        exists|i: int| 0 <= i < s.len() && s[i].timestamp.nanos == earliest(s),
        forall|i: int| 0 <= i < s.len() ==> earliest(s) <= s[i].timestamp.nanos,
    decreases s.len(),
{
    if s.len() == 1 {
        assert(s[0].timestamp.nanos == earliest(s));
    } else {
        let init = s.drop_last();
        lemma_earliest(init);
        let w = choose|i: int| 0 <= i < init.len() && init[i].timestamp.nanos == earliest(init);
        assert(init[w] == s[w]);
        if s.last().timestamp.nanos < earliest(init) {
            assert(s[s.len() - 1].timestamp.nanos == earliest(s));
        } else {
            assert(s[w].timestamp.nanos == earliest(s));
        }
        assert forall|i: int| 0 <= i < s.len() implies earliest(s) <= s[i].timestamp.nanos by {
            if i < init.len() {
                assert(init[i] == s[i]);
            }
        }
    }
}

/// `latest` is a timestamp of the sequence, and none is greater.
pub proof fn lemma_latest(s: Seq<PointView>)
    requires
        s.len() > 0,
    ensures
        exists|i: int| 0 <= i < s.len() && s[i].timestamp.nanos == latest(s),
        forall|i: int| 0 <= i < s.len() ==> latest(s) >= s[i].timestamp.nanos,
    decreases s.len(),
{
    if s.len() == 1 {
        assert(s[0].timestamp.nanos == latest(s));
    } else {
        let init = s.drop_last();
        lemma_latest(init);
        let w = choose|i: int| 0 <= i < init.len() && init[i].timestamp.nanos == latest(init);
        assert(init[w] == s[w]);
        if s.last().timestamp.nanos > latest(init) {
            assert(s[s.len() - 1].timestamp.nanos == latest(s));
        } else {
            assert(s[w].timestamp.nanos == latest(s));
        }
        assert forall|i: int| 0 <= i < s.len() implies latest(s) >= s[i].timestamp.nanos by {
            if i < init.len() {
                assert(init[i] == s[i]);
            }
        }
    }
}

/// In a sorted non-empty sequence the first point is the earliest and the last one the latest.
pub proof fn lemma_sorted_extent(s: Seq<PointView>)
    requires
        s.len() > 0,
        sorted_by_time(s),
    ensures
        earliest(s) == s.first().timestamp.nanos,
        latest(s) == s.last().timestamp.nanos,
{
    lemma_earliest(s);
    lemma_latest(s);
}

/// What `first_at_or_after` finds is a timestamp of the sequence at or after the bound,
/// and the smallest such; it finds nothing only if every timestamp is before the bound.
pub proof fn lemma_first_at_or_after(s: Seq<PointView>, bound: u64)
    ensures
        match first_at_or_after(s, bound) {
            Some(a) => {
                &&& bound <= a
                &&& exists|i: int| 0 <= i < s.len() && s[i].timestamp.nanos == a
                &&& forall|i: int|
                    0 <= i < s.len() && bound <= s[i].timestamp.nanos ==> a
                        <= s[i].timestamp.nanos
            },
            None => forall|i: int| 0 <= i < s.len() ==> s[i].timestamp.nanos < bound,
        },
    decreases s.len(),
{
    if s.len() > 0 {
        let init = s.drop_last();
        lemma_first_at_or_after(init, bound);
        let t = s.last().timestamp.nanos;
        assert forall|i: int| 0 <= i < init.len() implies init[i] == s[i] by {}
        match first_at_or_after(init, bound) {
            Some(u) => {
                let w = choose|i: int| 0 <= i < init.len() && init[i].timestamp.nanos == u;
                assert(s[w].timestamp.nanos == u);
                if t >= bound && t < u {
                    assert(s[s.len() - 1].timestamp.nanos == t);
                }
                let a = first_at_or_after(s, bound).unwrap();
                assert forall|i: int|
                    0 <= i < s.len() && bound <= s[i].timestamp.nanos implies a
                    <= s[i].timestamp.nanos by {
                    if i < init.len() {
                        assert(init[i] == s[i]);
                    }
                }
            },
            None => {
                if t >= bound {
                    assert(s[s.len() - 1].timestamp.nanos == t);
                    assert forall|i: int|
                        0 <= i < s.len() && bound <= s[i].timestamp.nanos implies t
                        <= s[i].timestamp.nanos by {
                        if i < init.len() {
                            assert(init[i] == s[i]);
                        }
                    }
                } else {
                    assert forall|i: int| 0 <= i < s.len() implies s[i].timestamp.nanos
                        < bound by {
                        if i < init.len() {
                            assert(init[i] == s[i]);
                        }
                    }
                }
            },
        }
    }
}

/// What `last_at_or_before` finds is a timestamp of the sequence at or before the bound,
/// and the largest such; it finds nothing only if every timestamp is after the bound.
pub proof fn lemma_last_at_or_before(s: Seq<PointView>, bound: u64)
    ensures
        match last_at_or_before(s, bound) {
            Some(b) => {
                &&& b <= bound
                &&& exists|i: int| 0 <= i < s.len() && s[i].timestamp.nanos == b
                &&& forall|i: int|
                    0 <= i < s.len() && s[i].timestamp.nanos <= bound ==> s[i].timestamp.nanos
                        <= b
            },
            None => forall|i: int| 0 <= i < s.len() ==> s[i].timestamp.nanos > bound,
        },
    decreases s.len(),
{
    if s.len() > 0 {
        let init = s.drop_last();
        lemma_last_at_or_before(init, bound);
        let t = s.last().timestamp.nanos;
        assert forall|i: int| 0 <= i < init.len() implies init[i] == s[i] by {}
        match last_at_or_before(init, bound) {
            Some(u) => {
                let w = choose|i: int| 0 <= i < init.len() && init[i].timestamp.nanos == u;
                assert(s[w].timestamp.nanos == u);
                if t <= bound && t > u {
                    assert(s[s.len() - 1].timestamp.nanos == t);
                }
                let b = last_at_or_before(s, bound).unwrap();
                assert forall|i: int|
                    0 <= i < s.len() && s[i].timestamp.nanos <= bound implies s[i].timestamp.nanos
                    <= b by {
                    if i < init.len() {
                        assert(init[i] == s[i]);
                    }
                }
            },
            None => {
                if t <= bound {
                    assert(s[s.len() - 1].timestamp.nanos == t);
                    assert forall|i: int|
                        0 <= i < s.len() && s[i].timestamp.nanos
                            <= bound implies s[i].timestamp.nanos <= t by {
                        if i < init.len() {
                            assert(init[i] == s[i]);
                        }
                    }
                } else {
                    assert forall|i: int| 0 <= i < s.len() implies s[i].timestamp.nanos
                        > bound by {
                        if i < init.len() {
                            assert(init[i] == s[i]);
                        }
                    }
                }
            },
        }
    }
}

/// A key made of the metric, the resource and the consumer of a point.
#[derive(Debug)]
pub struct GroupKey(pub RawMetricId, pub Resource, pub ResourceConsumer);

impl View for GroupKey {
    type V = (RawMetricId, ResourceView, ResourceConsumerView);

    open spec fn view(&self) -> (RawMetricId, ResourceView, ResourceConsumerView) {
        (self.0, self.1@, self.2@)
    }
}

impl grouped_buffer::Key for GroupKey {
    open spec fn of_point(p: PointView) -> (RawMetricId, ResourceView, ResourceConsumerView) {
        (p.metric, p.resource, p.consumer)
    }

    fn new(p: &MeasurementPoint) -> (k: Self) {
        GroupKey(p.metric, p.resource.duplicate(), p.consumer.duplicate())
    }

    fn same(&self, other: &Self) -> (b: bool) {
        self.0.0 == other.0.0 && self.1.same(&other.1) && self.2.same(&other.2)
    }

    fn duplicate(&self) -> (k: Self) {
        GroupKey(self.0, self.1.duplicate(), self.2.duplicate())
    }
}

/// A closed interval of time. It holds no instant when `start` is after `end`.
#[derive(Clone, Copy, Debug, PartialEq, Eq, Structural)]
pub struct TimeRange {
    pub start: Timestamp,
    pub end: Timestamp,
}

impl TimeRange {
    pub open spec fn spec_contains(&self, t: Timestamp) -> bool {
        self.start.nanos <= t.nanos <= self.end.nanos
    }

    /// Whether `t` lies in the interval, both ends included.
    #[verifier::when_used_as_spec(spec_contains)]
    pub fn contains(&self, t: Timestamp) -> (b: bool)
        ensures
            b == self.spec_contains(t),
    {
        self.start.nanos <= t.nanos && t.nanos <= self.end.nanos
    }
}

/// An ordered sequence of points. A series is meant to be sorted by timestamp, which
/// `is_sorted` tells; no operation relies on it.
#[derive(Debug)]
pub struct Timeseries {
    points: Vec<MeasurementPoint>,
}

impl View for Timeseries {
    type V = Seq<PointView>;

    closed spec fn view(&self) -> Seq<PointView> {
        points_view(self.points@)
    }
}

impl Default for Timeseries {
    fn default() -> (s: Self)
        ensures
            s@ == Seq::<PointView>::empty(),
    {
        Timeseries::new()
    }
}

impl Timeseries {
    pub fn new() -> (s: Self)
        ensures
            s@ == Seq::<PointView>::empty(),
    {
        let s = Timeseries { points: Vec::new() };
        assert(s@ =~= Seq::<PointView>::empty());
        s
    }

    pub fn len(&self) -> (n: usize)
        ensures
            n == self@.len(),
    {
        self.points.len()
    }

    /// Appends a point at the end.
    pub fn push(&mut self, point: MeasurementPoint)
        ensures
            final(self)@ == old(self)@.push(point@),
    {
        self.points.push(point);
        assert(self@ =~= old(self)@.push(point@));
    }

    /// The point at position `index`.
    pub fn get(&self, index: usize) -> (p: Option<&MeasurementPoint>)
        ensures
            index < self@.len() ==> p.is_some() && p.unwrap()@ == self@[index as int],
            index >= self@.len() ==> p.is_none(),
    {
        if index < self.points.len() {
            Some(&self.points[index])
        } else {
            None
        }
    }

    /// The first point of the series, if any.
    pub fn first(&self) -> (p: Option<&MeasurementPoint>)
        ensures
            self@.len() == 0 ==> p.is_none(),
            self@.len() > 0 ==> p.is_some() && p.unwrap()@ == self@.first(),
    {
        if self.points.len() == 0 {
            None
        } else {
            Some(&self.points[0])
        }
    }

    /// The last point of the series, if any.
    pub fn last(&self) -> (p: Option<&MeasurementPoint>)
        ensures
            self@.len() == 0 ==> p.is_none(),
            self@.len() > 0 ==> p.is_some() && p.unwrap()@ == self@.last(),
    {
        let n = self.points.len();
        if n == 0 {
            None
        } else {
            Some(&self.points[n - 1])
        }
    }

    /// Whether the timestamps never decrease along the series.
    pub fn is_sorted(&self) -> (b: bool)
        ensures
            b == sorted_by_time(self@),
    {
        let n = self.points.len();
        if n == 0 {
            return true;
        }
        let mut i: usize = 1;
        while i < n
            invariant
                1 <= i <= n,
                n == self.points.len(),
                n == self@.len(),
                forall|a: int, b: int|
                    0 <= a <= b < i ==> self@[a].timestamp.nanos <= self@[b].timestamp.nanos,
            decreases n - i,
        {
            if self.points[i - 1].timestamp.nanos > self.points[i].timestamp.nanos {
                assert(self@[i - 1].timestamp.nanos > self@[i as int].timestamp.nanos);
                return false;
            }
            assert forall|a: int, b: int| 0 <= a <= b < i + 1 implies self@[a].timestamp.nanos
                <= self@[b].timestamp.nanos by {
                if b == i && a < i {
                    assert(self@[a].timestamp.nanos <= self@[i - 1].timestamp.nanos);
                }
            }
            i = i + 1;
        }
        true
    }

    /// The earliest timestamp of the series; `None` iff the series is empty.
    pub fn earliest(&self) -> (t: Option<Timestamp>)
        ensures
            self@.len() == 0 <==> t.is_none(),
            t.is_some() ==> t.unwrap().nanos == earliest(self@),
    {
        let n = self.points.len();
        if n == 0 {
            return None;
        }
        let mut m: u64 = self.points[0].timestamp.nanos;
        let mut i: usize = 1;
        assert(self@.take(1).len() == 1 && self@.take(1)[0] == self@[0]);
        while i < n
            invariant
                1 <= i <= n,
                n == self.points.len(),
                n == self@.len(),
                m == earliest(self@.take(i as int)),
            decreases n - i,
        {
            let t = self.points[i].timestamp.nanos;
            assert(self@.take(i + 1).drop_last() =~= self@.take(i as int));
            assert(self@.take(i + 1).last() == self@[i as int]);
            if t < m {
                m = t;
            }
            i = i + 1;
        }
        assert(self@.take(n as int) =~= self@);
        Some(Timestamp { nanos: m })
    }

    /// The latest timestamp of the series; `None` iff the series is empty.
    pub fn latest(&self) -> (t: Option<Timestamp>)
        ensures
            self@.len() == 0 <==> t.is_none(),
            t.is_some() ==> t.unwrap().nanos == latest(self@),
    {
        let n = self.points.len();
        if n == 0 {
            return None;
        }
        let mut m: u64 = self.points[0].timestamp.nanos;
        let mut i: usize = 1;
        assert(self@.take(1).len() == 1 && self@.take(1)[0] == self@[0]);
        while i < n
            invariant
                1 <= i <= n,
                n == self.points.len(),
                n == self@.len(),
                m == latest(self@.take(i as int)),
            decreases n - i,
        {
            let t = self.points[i].timestamp.nanos;
            assert(self@.take(i + 1).drop_last() =~= self@.take(i as int));
            assert(self@.take(i + 1).last() == self@[i as int]);
            if t > m {
                m = t;
            }
            i = i + 1;
        }
        assert(self@.take(n as int) =~= self@);
        Some(Timestamp { nanos: m })
    }

    /// The smallest timestamp of the series that is not before `bound`.
    pub fn first_at_or_after(&self, bound: Timestamp) -> (t: Option<Timestamp>)
        ensures
            t.is_some() == first_at_or_after(self@, bound.nanos).is_some(),
            t.is_some() ==> t.unwrap().nanos == first_at_or_after(self@, bound.nanos).unwrap(),
    {
        let n = self.points.len();
        let mut found: Option<u64> = None;
        let mut i: usize = 0;
        while i < n
            invariant
                i <= n,
                n == self.points.len(),
                n == self@.len(),
                found == first_at_or_after(self@.take(i as int), bound.nanos),
            decreases n - i,
        {
            let t = self.points[i].timestamp.nanos;
            assert(self@.take(i + 1).drop_last() =~= self@.take(i as int));
            assert(self@.take(i + 1).last() == self@[i as int]);
            if t >= bound.nanos {
                found =
                match found {
                    None => Some(t),
                    Some(u) => Some(if t < u { t } else { u }),
                };
            }
            i = i + 1;
        }
        assert(self@.take(n as int) =~= self@);
        match found {
            None => None,
            Some(u) => Some(Timestamp { nanos: u }),
        }
    }

    /// The largest timestamp of the series that is not after `bound`.
    pub fn last_at_or_before(&self, bound: Timestamp) -> (t: Option<Timestamp>)
        ensures
            t.is_some() == last_at_or_before(self@, bound.nanos).is_some(),
            t.is_some() ==> t.unwrap().nanos == last_at_or_before(self@, bound.nanos).unwrap(),
    {
        let n = self.points.len();
        let mut found: Option<u64> = None;
        let mut i: usize = 0;
        while i < n
            invariant
                i <= n,
                n == self.points.len(),
                n == self@.len(),
                found == last_at_or_before(self@.take(i as int), bound.nanos),
            decreases n - i,
        {
            let t = self.points[i].timestamp.nanos;
            assert(self@.take(i + 1).drop_last() =~= self@.take(i as int));
            assert(self@.take(i + 1).last() == self@[i as int]);
            if t <= bound.nanos {
                found =
                match found {
                    None => Some(t),
                    Some(u) => Some(if t > u { t } else { u }),
                };
            }
            i = i + 1;
        }
        assert(self@.take(n as int) =~= self@);
        match found {
            None => None,
            Some(u) => Some(Timestamp { nanos: u }),
        }
    }
}

} // verus!
