//! Where an instant falls in a series, and which points a linear interpolation at that
//! instant rests on.
//!
//! For an instant `t` with neighbours `(ta, va)` and `(tb, vb)`, `ta <= t <= tb`, the
//! interpolated value is `va + (vb - va) * (t - ta) / (tb - ta)`, computed on floats by
//! the caller. This module decides the neighbours. An instant that is a timestamp of the
//! series is an exact hit and takes the existing point; where several points share that
//! timestamp, the last of them is taken.

use crate::measurement::{MeasurementPoint, PointView, Timestamp};
use crate::timeseries::{earliest, latest, lemma_earliest, lemma_latest, TimeRange, Timeseries};
use vstd::prelude::*;

verus! {

/// The position of an instant in a series.
#[derive(Clone, Copy, Debug, PartialEq, Eq, Structural)]
pub enum Sample {
    /// A point of the series has that very timestamp.
    Exact { index: usize },
    /// The instant lies strictly between the timestamps of two points.
    Between { lower: usize, upper: usize },
    /// The instant is before every point, or after every point: no interpolation.
    Outside,
}

/// Whether `r` is the position of the instant `t` in `s`. For each `s` and `t` exactly one
/// `r` is (see `lemma_locates_unique`).
pub open spec fn locates(s: Seq<PointView>, t: u64, r: Sample) -> bool {
    match r {
        Sample::Exact { index } => {
            &&& index < s.len()
            &&& s[index as int].timestamp.nanos == t
            &&& forall|j: int| index < j < s.len() ==> s[j].timestamp.nanos != t
        },
        Sample::Between { lower, upper } => {
            &&& lower < s.len()
            &&& upper < s.len()
            &&& s[lower as int].timestamp.nanos < t < s[upper as int].timestamp.nanos
            &&& forall|j: int| 0 <= j < s.len() ==> s[j].timestamp.nanos != t
            &&& forall|j: int|
                0 <= j < s.len() && s[j].timestamp.nanos < t ==> s[j].timestamp.nanos
                    <= s[lower as int].timestamp.nanos
            &&& forall|j: int|
                lower < j < s.len() ==> s[j].timestamp.nanos != s[lower as int].timestamp.nanos
            &&& forall|j: int|
                0 <= j < s.len() && s[j].timestamp.nanos > t ==> s[j].timestamp.nanos
                    >= s[upper as int].timestamp.nanos
            &&& forall|j: int|
                0 <= j < upper ==> s[j].timestamp.nanos != s[upper as int].timestamp.nanos
        },
        Sample::Outside => {
            ||| forall|j: int| 0 <= j < s.len() ==> s[j].timestamp.nanos > t
            ||| forall|j: int| 0 <= j < s.len() ==> s[j].timestamp.nanos < t
        },
    }
}

/// An instant has one position in a series.
pub proof fn lemma_locates_unique(s: Seq<PointView>, t: u64, a: Sample, b: Sample)
    requires
        locates(s, t, a),
        locates(s, t, b),
    ensures
        a == b,
{
    match (a, b) {
        (Sample::Exact { index: i }, Sample::Exact { index: j }) => {
            if i < j {
                assert(s[j as int].timestamp.nanos != t);
            } else if j < i {
                assert(s[i as int].timestamp.nanos != t);
            }
        },
        (Sample::Exact { index: i }, Sample::Between { .. }) => {
            assert(s[i as int].timestamp.nanos != t);
        },
        (Sample::Between { .. }, Sample::Exact { index: i }) => {
            assert(s[i as int].timestamp.nanos != t);
        },
        (Sample::Exact { index: i }, Sample::Outside) => {
            assert(s[i as int].timestamp.nanos == t);
        },
        (Sample::Outside, Sample::Exact { index: i }) => {
            assert(s[i as int].timestamp.nanos == t);
        },
        (Sample::Between { lower, upper }, Sample::Outside) => {
            assert(s[lower as int].timestamp.nanos < t);
            assert(s[upper as int].timestamp.nanos > t);
        },
        (Sample::Outside, Sample::Between { lower, upper }) => {
            assert(s[lower as int].timestamp.nanos < t);
            assert(s[upper as int].timestamp.nanos > t);
        },
        (
            Sample::Between { lower: l1, upper: u1 },
            Sample::Between { lower: l2, upper: u2 },
        ) => {
            assert(s[l1 as int].timestamp.nanos == s[l2 as int].timestamp.nanos);
            assert(s[u1 as int].timestamp.nanos == s[u2 as int].timestamp.nanos);
            if l1 < l2 {
                assert(s[l2 as int].timestamp.nanos != s[l1 as int].timestamp.nanos);
            } else if l2 < l1 {
                assert(s[l1 as int].timestamp.nanos != s[l2 as int].timestamp.nanos);
            }
            if u1 < u2 {
                assert(s[u1 as int].timestamp.nanos != s[u2 as int].timestamp.nanos);
            } else if u2 < u1 {
                assert(s[u2 as int].timestamp.nanos != s[u1 as int].timestamp.nanos);
            }
        },
        (Sample::Outside, Sample::Outside) => {},
    }
}

/// Interpolating a series at one of its own timestamps is an exact hit on a point with
/// that timestamp: the value is taken over, not computed. Where the timestamps of the
/// series are all different, the point is the one at that very position.
pub proof fn lemma_own_instant_is_exact(s: Seq<PointView>, i: int, r: Sample)
    requires
        0 <= i < s.len(),
        locates(s, s[i].timestamp.nanos, r),
    ensures
        r is Exact,
        s[r->index as int].timestamp == s[i].timestamp,
        (forall|a: int, b: int|
            0 <= a < b < s.len() ==> s[a].timestamp.nanos != s[b].timestamp.nanos) ==> r->index
            == i,
{
    let t = s[i].timestamp.nanos;
    match r {
        Sample::Exact { index } => {
            if (forall|a: int, b: int|
                0 <= a < b < s.len() ==> s[a].timestamp.nanos != s[b].timestamp.nanos) {
                if index < i {
                    assert(s[index as int].timestamp.nanos != s[i].timestamp.nanos);
                } else if i < index {
                    assert(s[i].timestamp.nanos != s[index as int].timestamp.nanos);
                }
            }
        },
        Sample::Between { .. } => {
            assert(s[i].timestamp.nanos != t);
        },
        Sample::Outside => {
            assert(s[i].timestamp.nanos == t);
        },
    }
}

/// An instant within the extent of a non-empty series is never outside of it.
pub proof fn lemma_within_extent_is_inside(s: Seq<PointView>, t: u64, r: Sample)
    requires
        s.len() > 0,
        earliest(s) <= t <= latest(s),
        locates(s, t, r),
    ensures
        !(r is Outside),
{
    lemma_earliest(s);
    lemma_latest(s);
    let lo = choose|i: int| 0 <= i < s.len() && s[i].timestamp.nanos == earliest(s);
    let hi = choose|i: int| 0 <= i < s.len() && s[i].timestamp.nanos == latest(s);
    if r is Outside {
        assert(s[lo].timestamp.nanos <= t);
        assert(s[hi].timestamp.nanos >= t);
    }
}

/// What a linear interpolation at one instant rests on.
#[derive(Debug)]
pub enum Interpolated {
    /// The instant is the timestamp of `point`, the point at `index` of the series.
    Exact { index: usize, point: MeasurementPoint },
    /// The instant `at` lies between `before`, the point at `lower`, and `after`, the
    /// point at `upper`.
    Between {
        at: Timestamp,
        lower: usize,
        upper: usize,
        before: MeasurementPoint,
        after: MeasurementPoint,
    },
}

impl Interpolated {
    /// The position that this result was made for.
    pub open spec fn sample(&self) -> Sample {
        match *self {
            Interpolated::Exact { index, .. } => Sample::Exact { index },
            Interpolated::Between { lower, upper, .. } => Sample::Between { lower, upper },
        }
    }

    /// Whether the points held are those of `s` at the positions held, for the instant `t`.
    pub open spec fn drawn_from(&self, s: Seq<PointView>, t: Timestamp) -> bool {
        match *self {
            Interpolated::Exact { index, point } => index < s.len() && point@ == s[index as int],
            Interpolated::Between { at, lower, upper, before, after } => {
                &&& at == t
                &&& lower < s.len()
                &&& upper < s.len()
                &&& before@ == s[lower as int]
                &&& after@ == s[upper as int]
            },
        }
    }
}

/// The points of `s` whose timestamp lies in `range`, in their order.
pub open spec fn restricted(s: Seq<PointView>, range: TimeRange) -> Seq<PointView> {
    s.filter(|p: PointView| range.spec_contains(p.timestamp))
}

/// Every point of a restricted series lies in the range.
pub proof fn lemma_restricted_in_range(s: Seq<PointView>, range: TimeRange, i: int)
    requires
        0 <= i < restricted(s, range).len(),
    ensures
        range.spec_contains(restricted(s, range)[i].timestamp),
        s.contains(restricted(s, range)[i]),
{
    let pred = |p: PointView| range.spec_contains(p.timestamp);
    s.lemma_filter_pred(pred, i);
    assert(s.filter(pred).contains(s.filter(pred)[i]));
    s.lemma_filter_contains_rev(pred, s.filter(pred)[i]);
}

impl Timeseries {
    /// The position of the instant `t` in this series.
    pub fn locate(&self, t: Timestamp) -> (r: Sample)
        ensures
            locates(self@, t.nanos, r),
    {
        let n = self.len();
        let mut exact: Option<usize> = None;
        let mut lower: Option<(usize, u64)> = None;
        let mut upper: Option<(usize, u64)> = None;
        let mut i: usize = 0;
        while i < n
            invariant
                i <= n,
                n == self@.len(),
                match exact {
                    Some(e) => e < i && self@[e as int].timestamp.nanos == t.nanos && forall|
                        j: int,
                    | e < j < i ==> self@[j].timestamp.nanos != t.nanos,
                    None => forall|j: int| 0 <= j < i ==> self@[j].timestamp.nanos != t.nanos,
                },
                match lower {
                    Some((l, lt)) => {
                        &&& l < i
                        &&& self@[l as int].timestamp.nanos == lt
                        &&& lt < t.nanos
                        &&& forall|j: int|
                            0 <= j < i && self@[j].timestamp.nanos < t.nanos
                                ==> self@[j].timestamp.nanos <= lt
                        &&& forall|j: int| l < j < i ==> self@[j].timestamp.nanos != lt
                    },
                    None => forall|j: int| 0 <= j < i ==> self@[j].timestamp.nanos >= t.nanos,
                },
                match upper {
                    Some((u, ut)) => {
                        &&& u < i
                        &&& self@[u as int].timestamp.nanos == ut
                        &&& ut > t.nanos
                        &&& forall|j: int|
                            0 <= j < i && self@[j].timestamp.nanos > t.nanos
                                ==> self@[j].timestamp.nanos >= ut
                        &&& forall|j: int| 0 <= j < u ==> self@[j].timestamp.nanos != ut
                    },
                    None => forall|j: int| 0 <= j < i ==> self@[j].timestamp.nanos <= t.nanos,
                },
            decreases n - i,
        {
            let ts = self.get(i).unwrap().timestamp.nanos;
            if ts == t.nanos {
                exact = Some(i);
            } else if ts < t.nanos {
                let better = match lower {
                    None => true,
                    Some((_, lt)) => ts >= lt,
                };
                if better {
                    lower = Some((i, ts));
                }
            } else {
                let better = match upper {
                    None => true,
                    Some((_, ut)) => ts < ut,
                };
                if better {
                    upper = Some((i, ts));
                }
            }
            i = i + 1;
        }
        match exact {
            Some(index) => Sample::Exact { index },
            None => match (lower, upper) {
                (Some((l, _)), Some((u, _))) => Sample::Between { lower: l, upper: u },
                _ => Sample::Outside,
            },
        }
    }

    /// The points that an interpolation at the instant `t` rests on; `None` iff `t` is
    /// outside of the series, where only an extrapolation could give a value.
    pub fn interpolate_at(&self, t: Timestamp) -> (r: Option<Interpolated>)
        ensures
            r.is_none() <==> locates(self@, t.nanos, Sample::Outside),
            r.is_some() ==> locates(self@, t.nanos, r.unwrap().sample()) && r.unwrap().drawn_from(
                self@,
                t,
            ),
    {
        let sample = self.locate(t);
        proof {
            if locates(self@, t.nanos, Sample::Outside) {
                lemma_locates_unique(self@, t.nanos, sample, Sample::Outside);
            }
        }
        match sample {
            Sample::Exact { index } => Some(
                Interpolated::Exact { index, point: self.get(index).unwrap().duplicate() },
            ),
            Sample::Between { lower, upper } => Some(
                Interpolated::Between {
                    at: t,
                    lower,
                    upper,
                    before: self.get(lower).unwrap().duplicate(),
                    after: self.get(upper).unwrap().duplicate(),
                },
            ),
            Sample::Outside => None,
        }
    }

    /// Interpolates at each of the given instants. `None` iff one of them is outside of the
    /// series.
    pub fn interpolate_linear(&self, instants: &Vec<Timestamp>) -> (r: Option<Vec<Interpolated>>)
        ensures
            r.is_none() <==> exists|j: int|
                0 <= j < instants.len() && #[trigger] locates(
                    self@,
                    instants[j].nanos,
                    Sample::Outside,
                ),
            r.is_some() ==> {
                &&& r.unwrap().len() == instants.len()
                &&& forall|j: int|
                    0 <= j < instants.len() ==> locates(
                        self@,
                        instants[j].nanos,
                        (#[trigger] r.unwrap()[j]).sample(),
                    ) && r.unwrap()[j].drawn_from(self@, instants[j])
            },
    {
        let mut out: Vec<Interpolated> = Vec::new();
        let mut j: usize = 0;
        while j < instants.len()
            invariant
                j <= instants.len(),
                out.len() == j,
                forall|k: int|
                    0 <= k < j ==> !locates(self@, #[trigger] instants[k].nanos, Sample::Outside),
                forall|k: int|
                    0 <= k < j ==> locates(
                        self@,
                        instants[k].nanos,
                        (#[trigger] out[k]).sample(),
                    ) && out[k].drawn_from(self@, instants[k]),
            decreases instants.len() - j,
        {
            match self.interpolate_at(instants[j]) {
                None => {
                    return None;
                },
                Some(p) => {
                    out.push(p);
                },
            }
            j = j + 1;
        }
        Some(out)
    }

    /// A copy of the points whose timestamp lies in `range`, in their order.
    pub fn restrict(&self, range: &TimeRange) -> (r: Timeseries)
        ensures
            r@ == restricted(self@, *range),
    {
        let n = self.len();
        let mut out = Timeseries::new();
        let mut i: usize = 0;
        let ghost pred = |p: PointView| range.spec_contains(p.timestamp);
        assert(self@.take(0).filter(pred) =~= Seq::<PointView>::empty()) by {
            self@.take(0).lemma_filter_len(pred);
        }
        while i < n
            invariant
                i <= n,
                n == self@.len(),
                pred == |p: PointView| range.spec_contains(p.timestamp),
                out@ == self@.take(i as int).filter(pred),
            decreases n - i,
        {
            let p = self.get(i).unwrap();
            proof {
                assert(self@.take(i + 1) =~= self@.take(i as int).push(self@[i as int]));
                self@.take(i as int).lemma_filter_push(self@[i as int], pred);
            }
            if range.contains(p.timestamp) {
                out.push(p.duplicate());
            }
            i = i + 1;
        }
        assert(self@.take(n as int) =~= self@);
        out
    }

    /// The timestamps of the points, in their order.
    pub fn timestamps(&self) -> (r: Vec<Timestamp>)
        ensures
            r.len() == self@.len(),
            forall|i: int| 0 <= i < r.len() ==> r[i] == self@[i].timestamp,
    {
        let n = self.len();
        let mut out: Vec<Timestamp> = Vec::new();
        let mut i: usize = 0;
        while i < n
            invariant
                i <= n,
                n == self@.len(),
                out.len() == i,
                forall|k: int| 0 <= k < i ==> out[k] == self@[k].timestamp,
            decreases n - i,
        {
            out.push(self.get(i).unwrap().timestamp);
            i = i + 1;
        }
        out
    }
}

} // verus!
