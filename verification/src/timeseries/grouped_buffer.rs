//! Points grouped by a key, the common range of the groups, and their alignment on the
//! timestamps of a reference group.
//!
//! The groups are kept in the order in which their keys were first seen.

use crate::measurement::{
    MeasurementBuffer, MeasurementPoint, PointView, RawMetricId, ResourceConsumer, Resource,
    Timestamp,
};
use crate::timeseries::interpolate::{
    lemma_restricted_in_range, lemma_within_extent_is_inside, locates, restricted, Interpolated,
    Sample,
};
use crate::timeseries::{
    earliest, first_at_or_after, last_at_or_before, latest, lemma_first_at_or_after,
    lemma_last_at_or_before, TimeRange, Timeseries,
};
use vstd::prelude::*;

verus! {

/// A key that points are grouped by. The key of a point depends on the point's value only.
pub trait Key: Sized + View {
    /// The key of a point, as a mathematical value.
    spec fn of_point(p: PointView) -> Self::V;

    /// Computes the key of one measurement.
    fn new(p: &MeasurementPoint) -> (k: Self)
        ensures
            k@ == Self::of_point(p@),
    ;

    /// Whether two keys have the same value.
    fn same(&self, other: &Self) -> (b: bool)
        ensures
            b == (self@ == other@),
    ;

    /// A copy with the same value.
    fn duplicate(&self) -> (k: Self)
        ensures
            k@ == self@,
    ;
}

impl View for RawMetricId {
    type V = RawMetricId;

    open spec fn view(&self) -> RawMetricId {
        *self
    }
}

impl Key for RawMetricId {
    open spec fn of_point(p: PointView) -> RawMetricId {
        p.metric
    }

    fn new(p: &MeasurementPoint) -> (k: Self) {
        p.metric
    }

    fn same(&self, other: &Self) -> (b: bool) {
        self.0 == other.0
    }

    fn duplicate(&self) -> (k: Self) {
        *self
    }
}

impl Key for Resource {
    open spec fn of_point(p: PointView) -> crate::measurement::ResourceView {
        p.resource
    }

    fn new(p: &MeasurementPoint) -> (k: Self) {
        p.resource.duplicate()
    }

    fn same(&self, other: &Self) -> (b: bool) {
        Resource::same(self, other)
    }

    fn duplicate(&self) -> (k: Self) {
        Resource::duplicate(self)
    }
}

impl Key for ResourceConsumer {
    open spec fn of_point(p: PointView) -> crate::measurement::ResourceConsumerView {
        p.consumer
    }

    fn new(p: &MeasurementPoint) -> (k: Self) {
        p.consumer.duplicate()
    }

    fn same(&self, other: &Self) -> (b: bool) {
        ResourceConsumer::same(self, other)
    }

    fn duplicate(&self) -> (k: Self) {
        ResourceConsumer::duplicate(self)
    }
}

impl Key for (RawMetricId, ResourceConsumer) {
    open spec fn of_point(p: PointView) -> (RawMetricId, crate::measurement::ResourceConsumerView) {
        (p.metric, p.consumer)
    }

    fn new(p: &MeasurementPoint) -> (k: Self) {
        (p.metric, p.consumer.duplicate())
    }

    fn same(&self, other: &Self) -> (b: bool) {
        self.0.0 == other.0.0 && ResourceConsumer::same(&self.1, &other.1)
    }

    fn duplicate(&self) -> (k: Self) {
        (self.0, ResourceConsumer::duplicate(&self.1))
    }
}

/// The mathematical value of one group: its key and its points.
pub struct GroupView<KV> {
    pub key: KV,
    pub series: Seq<PointView>,
}

/// Whether no key occurs twice.
pub open spec fn distinct_keys<KV>(g: Seq<GroupView<KV>>) -> bool {
    forall|i: int, j: int| 0 <= i < j < g.len() ==> g[i].key != g[j].key
}

/// The position of the group with key `k`, if there is one.
pub open spec fn index_of<KV>(g: Seq<GroupView<KV>>, k: KV) -> Option<int> {
    if exists|i: int| 0 <= i < g.len() && g[i].key == k {
        Some(choose|i: int| 0 <= i < g.len() && g[i].key == k)
    } else {
        None
    }
}

/// The groups after the point `p` was added under the key `k`: at the end of the group
/// of `k`, or as the only point of a new last group.
pub open spec fn pushed<KV>(g: Seq<GroupView<KV>>, k: KV, p: PointView) -> Seq<GroupView<KV>> {
    match index_of(g, k) {
        Some(i) => g.update(i, GroupView { key: k, series: g[i].series.push(p) }),
        None => g.push(GroupView { key: k, series: seq![p] }),
    }
}

/// The groups after the points of `points` were added in their order, each under its own
/// key, but for those that `keep` leaves out.
pub open spec fn extended<K: Key>(
    g: Seq<GroupView<K::V>>,
    points: Seq<PointView>,
    keep: Seq<bool>,
) -> Seq<GroupView<K::V>>
    decreases points.len(),
{
    if points.len() == 0 {
        g
    } else {
        let before = extended::<K>(g, points.drop_last(), keep.drop_last());
        if keep.last() {
            pushed(before, K::of_point(points.last()), points.last())
        } else {
            before
        }
    }
}

/// Whether a group other than that of `r` has no point.
pub open spec fn has_empty_other<KV>(g: Seq<GroupView<KV>>, r: KV) -> bool {
    exists|i: int| 0 <= i < g.len() && g[i].key != r && g[i].series.len() == 0
}

/// The greatest of the earliest timestamps of the groups other than that of `r`;
/// `None` where there is no such group.
pub open spec fn inf<KV>(g: Seq<GroupView<KV>>, r: KV) -> Option<u64>
    decreases g.len(),
{
    if g.len() == 0 {
        None
    } else {
        let rest = inf(g.drop_last(), r);
        let t = earliest(g.last().series);
        if g.last().key == r {
            rest
        } else {
            match rest {
                None => Some(t),
                Some(m) => Some(if t > m { t } else { m }),
            }
        }
    }
}

/// The smallest of the latest timestamps of the groups other than that of `r`;
/// `None` where there is no such group.
pub open spec fn sup<KV>(g: Seq<GroupView<KV>>, r: KV) -> Option<u64>
    decreases g.len(),
{
    if g.len() == 0 {
        None
    } else {
        let rest = sup(g.drop_last(), r);
        let t = latest(g.last().series);
        if g.last().key == r {
            rest
        } else {
            match rest {
                None => Some(t),
                Some(m) => Some(if t < m { t } else { m }),
            }
        }
    }
}

/// The common range of the groups with respect to the reference key `r`: from the first
/// reference timestamp at or after `inf` to the last reference timestamp at or before
/// `sup`. There is none where the reference group or every other group is missing, where
/// another group is empty, or where the reference has no timestamp on one of the two sides.
pub open spec fn common_range<KV>(g: Seq<GroupView<KV>>, r: KV) -> Option<TimeRange> {
    if has_empty_other(g, r) {
        None
    } else {
        match (index_of(g, r), inf(g, r), sup(g, r)) {
            (Some(i), Some(lo), Some(hi)) => match (
                first_at_or_after(g[i].series, lo),
                last_at_or_before(g[i].series, hi),
            ) {
                (Some(a), Some(b)) => Some(
                    TimeRange { start: Timestamp { nanos: a }, end: Timestamp { nanos: b } },
                ),
                _ => None,
            },
            _ => None,
        }
    }
}

/// `inf` is not before the earliest timestamp of any group other than the reference, and
/// it is the earliest timestamp of one of them.
pub proof fn lemma_inf<KV>(g: Seq<GroupView<KV>>, r: KV)
    ensures
        inf(g, r).is_none() <==> (forall|i: int| 0 <= i < g.len() ==> g[i].key == r),
        inf(g, r).is_some() ==> {
            &&& forall|i: int|
                0 <= i < g.len() && g[i].key != r ==> earliest(g[i].series) <= inf(g, r).unwrap()
            &&& exists|i: int|
                0 <= i < g.len() && g[i].key != r && earliest(g[i].series) == inf(g, r).unwrap()
        },
    decreases g.len(),
{
    if g.len() > 0 {
        let init = g.drop_last();
        lemma_inf(init, r);
        assert forall|i: int| 0 <= i < init.len() implies init[i] == g[i] by {}
        let n = g.len() - 1;
        if g.last().key == r {
            if inf(g, r).is_some() {
                let w = choose|i: int|
                    0 <= i < init.len() && init[i].key != r && earliest(init[i].series) == inf(
                        init,
                        r,
                    ).unwrap();
                assert(g[w].key != r && earliest(g[w].series) == inf(g, r).unwrap());
                assert forall|i: int| 0 <= i < g.len() && g[i].key != r implies earliest(
                    g[i].series,
                ) <= inf(g, r).unwrap() by {
                    assert(init[i] == g[i]);
                }
            } else {
                assert forall|i: int| 0 <= i < g.len() implies g[i].key == r by {
                    if i < n {
                        assert(init[i] == g[i]);
                    }
                }
            }
        } else {
            assert(g[n].key != r);
            let m = inf(g, r).unwrap();
            assert forall|i: int| 0 <= i < g.len() && g[i].key != r implies earliest(
                g[i].series,
            ) <= m by {
                if i < n {
                    assert(init[i] == g[i]);
                }
            }
            if inf(init, r).is_some() && inf(init, r).unwrap() >= earliest(g[n].series) {
                let w = choose|i: int|
                    0 <= i < init.len() && init[i].key != r && earliest(init[i].series) == inf(
                        init,
                        r,
                    ).unwrap();
                assert(g[w].key != r && earliest(g[w].series) == m);
            } else {
                assert(g[n].key != r && earliest(g[n].series) == m);
            }
        }
    }
}

/// `sup` is not after the latest timestamp of any group other than the reference, and it
/// is the latest timestamp of one of them.
pub proof fn lemma_sup<KV>(g: Seq<GroupView<KV>>, r: KV)
    ensures
        sup(g, r).is_none() <==> (forall|i: int| 0 <= i < g.len() ==> g[i].key == r),
        sup(g, r).is_some() ==> {
            &&& forall|i: int|
                0 <= i < g.len() && g[i].key != r ==> latest(g[i].series) >= sup(g, r).unwrap()
            &&& exists|i: int|
                0 <= i < g.len() && g[i].key != r && latest(g[i].series) == sup(g, r).unwrap()
        },
    decreases g.len(),
{
    if g.len() > 0 {
        let init = g.drop_last();
        lemma_sup(init, r);
        assert forall|i: int| 0 <= i < init.len() implies init[i] == g[i] by {}
        let n = g.len() - 1;
        if g.last().key == r {
            if sup(g, r).is_some() {
                let w = choose|i: int|
                    0 <= i < init.len() && init[i].key != r && latest(init[i].series) == sup(
                        init,
                        r,
                    ).unwrap();
                assert(g[w].key != r && latest(g[w].series) == sup(g, r).unwrap());
                assert forall|i: int| 0 <= i < g.len() && g[i].key != r implies latest(
                    g[i].series,
                ) >= sup(g, r).unwrap() by {
                    assert(init[i] == g[i]);
                }
            } else {
                assert forall|i: int| 0 <= i < g.len() implies g[i].key == r by {
                    if i < n {
                        assert(init[i] == g[i]);
                    }
                }
            }
        } else {
            assert(g[n].key != r);
            let m = sup(g, r).unwrap();
            assert forall|i: int| 0 <= i < g.len() && g[i].key != r implies latest(g[i].series)
                >= m by {
                if i < n {
                    assert(init[i] == g[i]);
                }
            }
            if sup(init, r).is_some() && sup(init, r).unwrap() <= latest(g[n].series) {
                let w = choose|i: int|
                    0 <= i < init.len() && init[i].key != r && latest(init[i].series) == sup(
                        init,
                        r,
                    ).unwrap();
                assert(g[w].key != r && latest(g[w].series) == m);
            } else {
                assert(g[n].key != r && latest(g[n].series) == m);
            }
        }
    }
}

/// The common range starts and ends on timestamps of the reference group, and no other
/// group starts after its start or ends before its end: each of them can be interpolated
/// at an instant of the range without extrapolation.
pub proof fn lemma_common_range_bounds<KV>(g: Seq<GroupView<KV>>, r: KV)
    requires
        common_range(g, r).is_some(),
    ensures
        index_of(g, r).is_some(),
        ({
            let reference = g[index_of(g, r).unwrap()].series;
            let range = common_range(g, r).unwrap();
            &&& exists|i: int| 0 <= i < reference.len() && reference[i].timestamp == range.start
            &&& exists|i: int| 0 <= i < reference.len() && reference[i].timestamp == range.end
            &&& forall|i: int|
                0 <= i < g.len() && g[i].key != r ==> g[i].series.len() > 0 && earliest(
                    g[i].series,
                ) <= range.start.nanos && range.end.nanos <= latest(g[i].series)
        }),
{
    let ri = index_of(g, r).unwrap();
    let reference = g[ri].series;
    let range = common_range(g, r).unwrap();
    let lo = inf(g, r).unwrap();
    let hi = sup(g, r).unwrap();
    lemma_inf(g, r);
    lemma_sup(g, r);
    lemma_first_at_or_after(reference, lo);
    lemma_last_at_or_before(reference, hi);
    let wa = choose|i: int| 0 <= i < reference.len() && reference[i].timestamp.nanos == range.start.nanos;
    assert(reference[wa].timestamp == range.start);
    let wb = choose|i: int| 0 <= i < reference.len() && reference[i].timestamp.nanos == range.end.nanos;
    assert(reference[wb].timestamp == range.end);
}

/// Where the reference group has a timestamp between `inf` and `sup`, there is a common
/// range, and it does not end before it starts.
pub proof fn lemma_common_range_ordered<KV>(g: Seq<GroupView<KV>>, r: KV, i: int)
    requires
        !has_empty_other(g, r),
        index_of(g, r).is_some(),
        inf(g, r).is_some(),
        0 <= i < g[index_of(g, r).unwrap()].series.len(),
        inf(g, r).unwrap() <= g[index_of(g, r).unwrap()].series[i].timestamp.nanos <= sup(
            g,
            r,
        ).unwrap(),
    ensures
        common_range(g, r).is_some(),
        common_range(g, r).unwrap().start.nanos <= common_range(g, r).unwrap().end.nanos,
{
    let reference = g[index_of(g, r).unwrap()].series;
    lemma_inf(g, r);
    lemma_sup(g, r);
    lemma_first_at_or_after(reference, inf(g, r).unwrap());
    lemma_last_at_or_before(reference, sup(g, r).unwrap());
}

/// The series of the group with key `k`; empty where there is no such group.
pub open spec fn series_of<KV>(g: Seq<GroupView<KV>>, k: KV) -> Seq<PointView> {
    match index_of(g, k) {
        Some(i) => g[i].series,
        None => Seq::empty(),
    }
}

/// The points of `points` that `keep` keeps and whose key is `k`, in their order.
pub open spec fn kept_with_key<K: Key>(points: Seq<PointView>, keep: Seq<bool>, k: K::V) -> Seq<
    PointView,
>
    decreases points.len(),
{
    if points.len() == 0 {
        Seq::empty()
    } else {
        let rest = kept_with_key::<K>(points.drop_last(), keep.drop_last(), k);
        if keep.last() && K::of_point(points.last()) == k {
            rest.push(points.last())
        } else {
            rest
        }
    }
}

/// Adding a point under a key appends it to the series of that key and leaves every
/// other series as it was. No key comes to occur twice.
pub proof fn lemma_pushed<KV>(g: Seq<GroupView<KV>>, k: KV, p: PointView, other: KV)
    requires
        distinct_keys(g),
    ensures
        distinct_keys(pushed(g, k, p)),
        index_of(pushed(g, k, p), k) is Some,
        series_of(pushed(g, k, p), k) == series_of(g, k).push(p),
        other != k ==> series_of(pushed(g, k, p), other) == series_of(g, other),
        other != k ==> (index_of(pushed(g, k, p), other) is Some <==> index_of(g, other) is Some),
{
    let h = pushed(g, k, p);
    match index_of(g, k) {
        Some(i) => {
            assert(g[i].key == k);
            assert forall|j: int| 0 <= j < h.len() implies (#[trigger] h[j]).key == g[j].key by {}
            assert forall|a: int, b: int| 0 <= a < b < h.len() implies h[a].key != h[b].key by {
                assert(g[a].key != g[b].key);
            }
            assert(h[i].key == k);
            let c = index_of(h, k).unwrap();
            if c < i {
                assert(h[c].key != h[i].key);
            } else if i < c {
                assert(h[i].key != h[c].key);
            }
            if other != k {
                if index_of(g, other) is Some {
                    let a = index_of(g, other).unwrap();
                    assert(h[a].key == other);
                    let b = index_of(h, other).unwrap();
                    if a < b {
                        assert(h[a].key != h[b].key);
                    } else if b < a {
                        assert(h[b].key != h[a].key);
                    }
                } else {
                    assert forall|j: int| 0 <= j < h.len() implies h[j].key != other by {
                        assert(g[j].key != other);
                    }
                }
            }
        },
        None => {
            let n = g.len() as int;
            assert forall|j: int| 0 <= j < n implies g[j].key != k by {}
            assert forall|a: int, b: int| 0 <= a < b < h.len() implies h[a].key != h[b].key by {
                if b < n {
                    assert(g[a].key != g[b].key);
                } else {
                    assert(g[a].key != k);
                }
            }
            assert(h[n].key == k);
            let c = index_of(h, k).unwrap();
            if c < n {
                assert(g[c].key != k);
            }
            assert(h[n].series =~= Seq::<PointView>::empty().push(p));
            if other != k {
                if index_of(g, other) is Some {
                    let a = index_of(g, other).unwrap();
                    assert(h[a].key == other);
                    let b = index_of(h, other).unwrap();
                    if a < b {
                        assert(h[a].key != h[b].key);
                    } else if b < a {
                        assert(h[b].key != h[a].key);
                    }
                } else {
                    assert forall|j: int| 0 <= j < h.len() implies h[j].key != other by {
                        if j < n {
                            assert(g[j].key != other);
                        }
                    }
                }
            }
        },
    }
}

/// Grouping sorts the points by their key and keeps their order: after the points of
/// `points` were added, the series of each key is what it was, followed by the points
/// that were kept and have that key. A key has a group iff it had one or a point of
/// that key was kept.
pub proof fn lemma_extended<K: Key>(
    g: Seq<GroupView<K::V>>,
    points: Seq<PointView>,
    keep: Seq<bool>,
    k: K::V,
)
    requires
        distinct_keys(g),
        keep.len() == points.len(),
    ensures
        distinct_keys(extended::<K>(g, points, keep)),
        series_of(extended::<K>(g, points, keep), k) == series_of(g, k) + kept_with_key::<K>(
            points,
            keep,
            k,
        ),
        index_of(extended::<K>(g, points, keep), k) is Some <==> index_of(g, k) is Some
            || kept_with_key::<K>(points, keep, k).len() > 0,
    decreases points.len(),
{
    if points.len() == 0 {
        assert(series_of(g, k) + Seq::<PointView>::empty() =~= series_of(g, k));
    } else {
        let before = extended::<K>(g, points.drop_last(), keep.drop_last());
        lemma_extended::<K>(g, points.drop_last(), keep.drop_last(), k);
        let rest = kept_with_key::<K>(points.drop_last(), keep.drop_last(), k);
        if keep.last() {
            let key = K::of_point(points.last());
            lemma_pushed(before, key, points.last(), k);
            if key == k {
                assert((series_of(g, k) + rest).push(points.last()) =~= series_of(g, k)
                    + rest.push(points.last()));
            }
        }
    }
}

/// Where a group has no point there is no common range, be it the reference group or
/// another one.
pub proof fn lemma_empty_series_has_no_common_range<KV>(g: Seq<GroupView<KV>>, r: KV, i: int)
    requires
        distinct_keys(g),
        0 <= i < g.len(),
        g[i].series.len() == 0,
    ensures
        common_range(g, r) is None,
{
    if g[i].key == r {
        if index_of(g, r) is Some {
            let ri = index_of(g, r).unwrap();
            if ri < i {
                assert(g[ri].key != g[i].key);
            } else if i < ri {
                assert(g[i].key != g[ri].key);
            }
        }
    }
}

/// Where the reference group lies wholly before the other groups have all started, or
/// wholly after one of them has ended, there is no common range.
pub proof fn lemma_disjoint_reference_has_no_common_range<KV>(g: Seq<GroupView<KV>>, r: KV)
    requires
        index_of(g, r) is Some,
        inf(g, r) is Some,
        ({
            let reference = g[index_of(g, r).unwrap()].series;
            ||| forall|i: int|
                0 <= i < reference.len() ==> reference[i].timestamp.nanos < inf(g, r).unwrap()
            ||| forall|i: int|
                0 <= i < reference.len() ==> reference[i].timestamp.nanos > sup(g, r).unwrap()
        }),
    ensures
        common_range(g, r) is None,
{
    let reference = g[index_of(g, r).unwrap()].series;
    lemma_inf(g, r);
    lemma_sup(g, r);
    lemma_first_at_or_after(reference, inf(g, r).unwrap());
    lemma_last_at_or_before(reference, sup(g, r).unwrap());
    match first_at_or_after(reference, inf(g, r).unwrap()) {
        Some(a) => {
            let w = choose|i: int| 0 <= i < reference.len() && reference[i].timestamp.nanos == a;
            assert(reference[w].timestamp.nanos >= inf(g, r).unwrap());
        },
        None => {},
    }
    match last_at_or_before(reference, sup(g, r).unwrap()) {
        Some(b) => {
            let w = choose|i: int| 0 <= i < reference.len() && reference[i].timestamp.nanos == b;
            assert(reference[w].timestamp.nanos <= sup(g, r).unwrap());
        },
        None => {},
    }
}

/// Whether `b` is an answer of `filter` on a point with the value `p`.
pub open spec fn answered<F: Fn(&MeasurementPoint) -> bool>(filter: F, p: PointView, b: bool) -> bool {
    exists|q: &MeasurementPoint| q@ == p && #[trigger] filter.ensures((q,), b)
}

/// One group of a buffer.
#[derive(Debug)]
struct Group<K> {
    key: K,
    series: Timeseries,
}

/// Points grouped by a key of type `K`.
#[derive(Debug)]
pub struct GroupedBuffer<K: Key> {
    groups: Vec<Group<K>>,
}

impl<K: Key> View for GroupedBuffer<K> {
    type V = Seq<GroupView<K::V>>;

    closed spec fn view(&self) -> Seq<GroupView<K::V>> {
        Seq::new(
            self.groups@.len(),
            |i: int| GroupView { key: self.groups@[i].key@, series: self.groups@[i].series@ },
        )
    }
}

/// One series aligned on the reference instants.
#[derive(Debug)]
pub struct AlignedSeries<K> {
    pub key: K,
    /// For each reference instant, in their order, what the interpolation rests on.
    pub points: Vec<Interpolated>,
}

/// The result of an alignment: all series share the sample instants of `reference`.
#[derive(Debug)]
pub struct Aligned<K> {
    pub range: TimeRange,
    /// The points of the reference group within the range.
    pub reference: Timeseries,
    /// The other groups, in their order.
    pub series: Vec<AlignedSeries<K>>,
}

/// Whether `points` is the alignment of the series `s` on the instants of `reference`.
pub open spec fn aligned_on(
    points: Seq<Interpolated>,
    s: Seq<PointView>,
    reference: Seq<PointView>,
) -> bool {
    &&& points.len() == reference.len()
    &&& forall|i: int|
        0 <= i < points.len() ==> locates(
            s,
            reference[i].timestamp.nanos,
            (#[trigger] points[i]).sample(),
        ) && points[i].drawn_from(s, reference[i].timestamp)
}

impl<K: Key> GroupedBuffer<K> {
    /// The invariant of the type: no key occurs twice.
    pub open spec fn wf(&self) -> bool {
        distinct_keys(self@)
    }

    pub fn new() -> (b: Self)
        ensures
            b.wf(),
            b@.len() == 0,
    {
        GroupedBuffer { groups: Vec::new() }
    }

    /// The number of groups.
    pub fn len(&self) -> (n: usize)
        ensures
            n == self@.len(),
    {
        self.groups.len()
    }

    /// The position of the group of `key`.
    pub fn position(&self, key: &K) -> (r: Option<usize>)
        requires
            self.wf(),
        ensures
            match r {
                Some(i) => index_of(self@, key@) == Some(i as int) && i < self@.len()
                    && self@[i as int].key == key@,
                None => index_of(self@, key@).is_none(),
            },
    {
        let mut i: usize = 0;
        while i < self.groups.len()
            invariant
                i <= self.groups.len(),
                self.groups.len() == self@.len(),
                self.wf(),
                forall|j: int| 0 <= j < i ==> self@[j].key != key@,
            decreases self.groups.len() - i,
        {
            if self.groups[i].key.same(key) {
                assert(self@[i as int].key == key@);
                proof {
                    let c = choose|j: int| 0 <= j < self@.len() && self@[j].key == key@;
                    if c < i {
                        assert(self@[c].key != self@[i as int].key);
                    } else if i < c {
                        assert(self@[i as int].key != self@[c].key);
                    }
                }
                return Some(i);
            }
            i = i + 1;
        }
        None
    }

    /// The series of the group of `key`, if there is one.
    pub fn get(&self, key: &K) -> (r: Option<&Timeseries>)
        requires
            self.wf(),
        ensures
            match r {
                Some(series) => index_of(self@, key@).is_some() && series@ == self@[index_of(
                    self@,
                    key@,
                ).unwrap()].series,
                None => index_of(self@, key@).is_none(),
            },
    {
        match self.position(key) {
            Some(i) => Some(&self.groups[i].series),
            None => None,
        }
    }

    /// Appends `p` to the group of `key`, which is created if it does not exist.
    pub fn push(&mut self, key: K, p: MeasurementPoint)
        requires
            old(self).wf(),
        ensures
            final(self).wf(),
            final(self)@ == pushed(old(self)@, key@, p@),
    {
        match self.position(&key) {
            Some(i) => {
                let ghost before = self@;
                let mut group = self.groups.remove(i);
                group.series.push(p);
                self.groups.insert(i, group);
                assert(self@ =~= pushed(before, key@, p@));
                assert forall|a: int, b: int| 0 <= a < b < self@.len() implies self@[a].key
                    != self@[b].key by {
                    assert(before[a].key != before[b].key);
                }
            },
            None => {
                let ghost before = self@;
                let mut series = Timeseries::new();
                series.push(p);
                assert(series@ =~= seq![p@]);
                self.groups.push(Group { key, series });
                assert(self@ =~= pushed(before, key@, p@));
                assert forall|a: int, b: int| 0 <= a < b < self@.len() implies self@[a].key
                    != self@[b].key by {
                    if b < before.len() {
                        assert(before[a].key != before[b].key);
                    } else {
                        assert(before[a].key != key@);
                    }
                }
            },
        }
    }

    /// Appends a copy of each point of `buf` that passes the filter to the group of its key.
    ///
    /// `keep` of the contract is what the filter answered, point by point.
    pub fn extend<F: Fn(&MeasurementPoint) -> bool>(&mut self, buf: &MeasurementBuffer, filter: F)
        requires
            old(self).wf(),
            forall|p: &MeasurementPoint| #[trigger] filter.requires((p,)),
        ensures
            final(self).wf(),
            exists|keep: Seq<bool>|
                {
                    &&& keep.len() == buf@.len()
                    &&& #[trigger] extended::<K>(old(self)@, buf@, keep) == final(self)@
                    &&& forall|i: int|
                        0 <= i < keep.len() ==> answered(filter, buf@[i], #[trigger] keep[i])
                },
    {
        let n = buf.len();
        let mut i: usize = 0;
        let ghost mut keep: Seq<bool> = Seq::empty();
        while i < n
            invariant
                i <= n,
                n == buf@.len(),
                self.wf(),
                keep.len() == i,
                self@ == extended::<K>(old(self)@, buf@.take(i as int), keep),
                forall|p: &MeasurementPoint| #[trigger] filter.requires((p,)),
                forall|j: int| 0 <= j < i ==> answered(filter, buf@[j], #[trigger] keep[j]),
            decreases n - i,
        {
            let p = buf.get(i).unwrap();
            let kept = filter(p);
            proof {
                let ghost before = keep;
                keep = keep.push(kept);
                assert(buf@.take(i + 1).drop_last() =~= buf@.take(i as int));
                assert(keep.drop_last() =~= before);
                assert(buf@.take(i + 1).last() == buf@[i as int]);
                assert(filter.ensures((p,), keep[i as int]));
                assert forall|j: int| 0 <= j < i + 1 implies answered(
                    filter,
                    buf@[j],
                    #[trigger] keep[j],
                ) by {
                    if j < i {
                        assert(keep[j] == before[j]);
                        assert(answered(filter, buf@[j], before[j]));
                    }
                }
            }
            if kept {
                let key = K::new(p);
                self.push(key, p.duplicate());
            }
            i = i + 1;
        }
        assert(buf@.take(n as int) =~= buf@);
    }

    /// The common range of the groups with respect to the group of `temporal_reference_key`.
    pub fn extract_common_range(&mut self, temporal_reference_key: &K) -> (r: Option<TimeRange>)
        requires
            old(self).wf(),
        ensures
            final(self)@ == old(self)@,
            final(self).wf(),
            r == common_range(old(self)@, temporal_reference_key@),
    {
        self.common_range_of(temporal_reference_key)
    }

    fn common_range_of(&self, reference_key: &K) -> (r: Option<TimeRange>)
        requires
            self.wf(),
        ensures
            r == common_range(self@, reference_key@),
    {
        let ghost rk = reference_key@;
        let n = self.groups.len();
        let mut lo: Option<u64> = None;
        let mut hi: Option<u64> = None;
        let mut i: usize = 0;
        while i < n
            invariant
                i <= n,
                n == self.groups.len(),
                n == self@.len(),
                rk == reference_key@,
                lo == inf(self@.take(i as int), rk),
                hi == sup(self@.take(i as int), rk),
                forall|j: int| 0 <= j < i && self@[j].key != rk ==> self@[j].series.len() > 0,
            decreases n - i,
        {
            let group = &self.groups[i];
            proof {
                assert(self@.take(i + 1).drop_last() =~= self@.take(i as int));
                assert(self@.take(i + 1).last() == self@[i as int]);
            }
            if !group.key.same(reference_key) {
                match (group.series.earliest(), group.series.latest()) {
                    (Some(e), Some(l)) => {
                        lo =
                        match lo {
                            None => Some(e.nanos),
                            Some(m) => Some(if e.nanos > m { e.nanos } else { m }),
                        };
                        hi =
                        match hi {
                            None => Some(l.nanos),
                            Some(m) => Some(if l.nanos < m { l.nanos } else { m }),
                        };
                    },
                    _ => {
                        assert(self@[i as int].key != rk && self@[i as int].series.len() == 0);
                        return None;
                    },
                }
            }
            i = i + 1;
        }
        assert(self@.take(n as int) =~= self@);
        assert(!has_empty_other(self@, rk));
        match (self.position(reference_key), lo, hi) {
            (Some(ri), Some(lo), Some(hi)) => {
                let reference = &self.groups[ri].series;
                let a = reference.first_at_or_after(Timestamp { nanos: lo });
                let b = reference.last_at_or_before(Timestamp { nanos: hi });
                match (a, b) {
                    (Some(a), Some(b)) => Some(TimeRange { start: a, end: b }),
                    _ => None,
                }
            },
            _ => None,
        }
    }

    /// Aligns every group but the reference on the timestamps that the reference group has
    /// within the common range. `None` iff there is no common range.
    pub fn interpolate_all(self, temporal_reference_key: &K) -> (r: Option<Aligned<K>>)
        requires
            self.wf(),
        ensures
            r.is_none() <==> common_range(self@, temporal_reference_key@).is_none(),
            r.is_some() ==> ({
                let g = self@;
                let a = r.unwrap();
                let ri = index_of(g, temporal_reference_key@).unwrap();
                &&& Some(a.range) == common_range(g, temporal_reference_key@)
                &&& a.reference@ == restricted(g[ri].series, a.range)
                &&& a.series.len() == g.len() - 1
                &&& forall|j: int|
                    0 <= j < a.series.len() ==> {
                        let source = g[if j < ri { j } else { j + 1 }];
                        &&& (#[trigger] a.series[j]).key@ == source.key
                        &&& aligned_on(a.series[j].points@, source.series, a.reference@)
                    }
            }),
    {
        let ghost rk = temporal_reference_key@;
        let ghost g = self@;
        let range = match self.common_range_of(temporal_reference_key) {
            Some(range) => range,
            None => {
                return None;
            },
        };
        // there is a common range, so there is a reference group
        let ri = self.position(temporal_reference_key).unwrap();
        let reference = self.groups[ri].series.restrict(&range);
        let instants = reference.timestamps();
        proof {
            lemma_common_range_bounds(g, rk);
        }
        let n = self.groups.len();
        let mut series: Vec<AlignedSeries<K>> = Vec::new();
        let mut i: usize = 0;
        while i < n
            invariant
                i <= n,
                ri < n,
                n == self.groups.len(),
                n == g.len(),
                g == self@,
                rk == temporal_reference_key@,
                self.wf(),
                index_of(g, rk) == Some(ri as int),
                common_range(g, rk) == Some(range),
                reference@ == restricted(g[ri as int].series, range),
                instants.len() == reference@.len(),
                forall|k: int| 0 <= k < instants.len() ==> instants[k] == reference@[k].timestamp,
                forall|k: int|
                    0 <= k < g.len() && g[k].key != rk ==> g[k].series.len() > 0 && earliest(
                        g[k].series,
                    ) <= range.start.nanos && range.end.nanos <= latest(g[k].series),
                series.len() == (if i <= ri { i as int } else { i - 1 }),
                forall|j: int|
                    0 <= j < series.len() ==> {
                        let source = g[if j < ri { j } else { j + 1 }];
                        &&& (#[trigger] series[j]).key@ == source.key
                        &&& aligned_on(series[j].points@, source.series, reference@)
                    },
            decreases n - i,
        {
            if i != ri {
                let group = &self.groups[i];
                let ghost s = g[i as int].series;
                assert(g[i as int].key != rk) by {
                    if i < ri {
                        assert(g[i as int].key != g[ri as int].key);
                    } else {
                        assert(g[ri as int].key != g[i as int].key);
                    }
                }
                let interpolated = group.series.interpolate_linear(&instants);
                proof {
                    // no instant of the common range is outside of the series
                    if interpolated.is_none() {
                        let k = choose|k: int|
                            0 <= k < instants.len() && #[trigger] locates(
                                s,
                                instants[k].nanos,
                                Sample::Outside,
                            );
                        lemma_restricted_in_range(g[ri as int].series, range, k);
                        lemma_within_extent_is_inside(s, instants[k].nanos, Sample::Outside);
                    }
                }
                let points = interpolated.unwrap();
                let ghost before = series@;
                series.push(AlignedSeries { key: group.key.duplicate(), points });
                assert forall|j: int| 0 <= j < series.len() implies {
                    let source = g[if j < ri { j } else { j + 1 }];
                    &&& (#[trigger] series[j]).key@ == source.key
                    &&& aligned_on(series[j].points@, source.series, reference@)
                } by {
                    if j < before.len() {
                        assert(series[j] == before[j]);
                    }
                }
            }
            i = i + 1;
        }
        Some(Aligned { range, reference, series })
    }
}

} // verus!
