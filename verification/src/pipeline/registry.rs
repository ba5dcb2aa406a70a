//! The registry of metrics: an append-only store that gives each metric a dense id.
//!
//! Each output task owns a copy of the registry. A source that registers metrics after
//! the pipeline has started sends them to the outputs, and each output extends its own
//! copy. Within one source a metric is known by its name: registering it again gives
//! the id that it already has.

use crate::measurement::{RawMetricId, WrappedMeasurementType};
use vstd::prelude::*;

verus! {

/// The definition of a metric.
#[derive(Debug)]
pub struct Metric {
    pub name: String,
    pub description: String,
    pub value_type: WrappedMeasurementType,
    pub unit: String,
}

/// The mathematical value of a [`Metric`].
pub struct MetricView {
    pub name: Seq<char>,
    pub description: Seq<char>,
    pub value_type: WrappedMeasurementType,
    pub unit: Seq<char>,
}

impl View for Metric {
    type V = MetricView;

    open spec fn view(&self) -> MetricView {
        MetricView {
            name: self.name@,
            description: self.description@,
            value_type: self.value_type,
            unit: self.unit@,
        }
    }
}

impl Metric {
    /// A copy with the same value.
    pub fn duplicate(&self) -> (m: Self)
        ensures
            m@ == self@,
    {
        Metric {
            name: self.name.clone(),
            description: self.description.clone(),
            value_type: self.value_type,
            unit: self.unit.clone(),
        }
    }
}

/// One entry of a registry, as a mathematical value: a metric and the source that
/// registered it.
pub struct EntryView {
    pub source: Seq<char>,
    pub metric: MetricView,
}

/// The position of the metric `name` of `source`, if it is registered.
pub open spec fn entry_of(entries: Seq<EntryView>, source: Seq<char>, name: Seq<char>) -> Option<
    int,
> {
    if exists|i: int|
        0 <= i < entries.len() && entries[i].source == source && entries[i].metric.name == name {
        Some(
            choose|i: int|
                0 <= i < entries.len() && entries[i].source == source && entries[i].metric.name
                    == name,
        )
    } else {
        None
    }
}

/// The position of the first metric named `name`, whatever its source.
#[verifier::opaque]
pub open spec fn first_named(entries: Seq<EntryView>, name: Seq<char>) -> Option<int> {
    if exists|i: int| 0 <= i < entries.len() && entries[i].metric.name == name {
        Some(
            choose|i: int|
                0 <= i < entries.len() && entries[i].metric.name == name && forall|j: int|
                    0 <= j < i ==> entries[j].metric.name != name,
        )
    } else {
        None
    }
}

/// Whether no source has two metrics of one name.
pub open spec fn distinct_entries(entries: Seq<EntryView>) -> bool {
    forall|i: int, j: int|
        0 <= i < j < entries.len() ==> !(entries[i].source == entries[j].source
            && entries[i].metric.name == entries[j].metric.name)
}

/// The registry after `metric` of `source` was registered, and the id of that metric.
/// A metric that the source has registered before keeps its entry and its id.
pub open spec fn registered(entries: Seq<EntryView>, source: Seq<char>, metric: MetricView) -> (
    Seq<EntryView>,
    int,
) {
    match entry_of(entries, source, metric.name) {
        Some(i) => (entries, i),
        None => (entries.push(EntryView { source, metric }), entries.len() as int),
    }
}

/// The registry after the metrics of `metrics` were registered in their order, and
/// their ids.
pub open spec fn extended_registry(
    entries: Seq<EntryView>,
    source: Seq<char>,
    metrics: Seq<MetricView>,
) -> (Seq<EntryView>, Seq<int>)
    decreases metrics.len(),
{
    if metrics.len() == 0 {
        (entries, Seq::empty())
    } else {
        let (before, ids) = extended_registry(entries, source, metrics.drop_last());
        let (after, id) = registered(before, source, metrics.last());
        (after, ids.push(id))
    }
}

/// Registering never changes an entry that is there, and the id that it gives is that
/// of an entry of this source with this name.
pub proof fn lemma_registered(entries: Seq<EntryView>, source: Seq<char>, metric: MetricView)
    requires
        distinct_entries(entries),
    ensures
        ({
            let (after, id) = registered(entries, source, metric);
            &&& distinct_entries(after)
            &&& entries.len() <= after.len() <= entries.len() + 1
            &&& forall|i: int| 0 <= i < entries.len() ==> after[i] == entries[i]
            &&& 0 <= id < after.len()
            &&& after[id].source == source
            &&& after[id].metric.name == metric.name
        }),
{
}

/// Extending a registry is append-only, and gives one id for each metric: that of an
/// entry of this source with the metric's name.
pub proof fn lemma_extended_registry(
    entries: Seq<EntryView>,
    source: Seq<char>,
    metrics: Seq<MetricView>,
)
    requires
        distinct_entries(entries),
    ensures
        ({
            let (after, ids) = extended_registry(entries, source, metrics);
            &&& distinct_entries(after)
            &&& entries.len() <= after.len()
            &&& forall|i: int| 0 <= i < entries.len() ==> after[i] == entries[i]
            &&& ids.len() == metrics.len()
            &&& forall|k: int|
                0 <= k < ids.len() ==> 0 <= #[trigger] ids[k] < after.len()
                    && after[ids[k]].source == source && after[ids[k]].metric.name
                    == metrics[k].name
        }),
    decreases metrics.len(),
{
    if metrics.len() > 0 {
        let (before, ids0) = extended_registry(entries, source, metrics.drop_last());
        lemma_extended_registry(entries, source, metrics.drop_last());
        lemma_registered(before, source, metrics.last());
        let (after, ids) = extended_registry(entries, source, metrics);
        assert forall|k: int| 0 <= k < ids.len() implies 0 <= #[trigger] ids[k] < after.len()
            && after[ids[k]].source == source && after[ids[k]].metric.name
            == metrics[k].name by {
            if k < ids0.len() {
                assert(ids[k] == ids0[k]);
                assert(metrics.drop_last()[k] == metrics[k]);
                assert(after[ids0[k]] == before[ids0[k]]);
            }
        }
    }
}

/// Why a metric was not created.
#[derive(Clone, Copy, Debug, PartialEq, Eq, Structural)]
pub enum MetricCreationError {
    /// The source has a metric of this name already.
    Duplicate,
}

/// One entry of a registry.
#[derive(Debug)]
struct Entry {
    source: String,
    metric: Metric,
}

/// The registry of the metrics of a pipeline. The id of a metric is its position.
#[derive(Debug)]
pub struct MetricRegistry {
    entries: Vec<Entry>,
}

impl View for MetricRegistry {
    type V = Seq<EntryView>;

    closed spec fn view(&self) -> Seq<EntryView> {
        Seq::new(
            self.entries@.len(),
            |i: int| EntryView { source: self.entries@[i].source@, metric: self.entries@[i].metric@ },
        )
    }
}

impl MetricRegistry {
    /// The invariant of the type.
    pub open spec fn wf(&self) -> bool {
        distinct_entries(self@)
    }

    pub fn new() -> (r: Self)
        ensures
            r.wf(),
            r@.len() == 0,
    {
        MetricRegistry { entries: Vec::new() }
    }

    /// The number of metrics.
    pub fn len(&self) -> (n: usize)
        ensures
            n == self@.len(),
    {
        self.entries.len()
    }

    /// The id of the metric `name` of `source`.
    pub fn by_name(&self, source: &String, name: &String) -> (r: Option<RawMetricId>)
        requires
            self.wf(),
        ensures
            match r {
                Some(id) => entry_of(self@, source@, name@) == Some(id.0 as int) && id.0
                    < self@.len(),
                None => entry_of(self@, source@, name@).is_none(),
            },
    {
        let mut i: usize = 0;
        while i < self.entries.len()
            invariant
                i <= self.entries.len(),
                self.entries.len() == self@.len(),
                self.wf(),
                forall|j: int|
                    0 <= j < i ==> !(self@[j].source == source@ && self@[j].metric.name == name@),
            decreases self.entries.len() - i,
        {
            if self.entries[i].source == *source && self.entries[i].metric.name == *name {
                proof {
                    assert(self@[i as int].source == source@ && self@[i as int].metric.name
                        == name@);
                    let c = choose|j: int|
                        0 <= j < self@.len() && self@[j].source == source@ && self@[j].metric.name
                            == name@;
                    if c < i {
                        assert(!(self@[c].source == self@[i as int].source && self@[c].metric.name
                            == self@[i as int].metric.name));
                    } else if i < c {
                        assert(!(self@[i as int].source == self@[c].source
                            && self@[i as int].metric.name == self@[c].metric.name));
                    }
                }
                return Some(RawMetricId(i));
            }
            i = i + 1;
        }
        None
    }

    /// The metric with the id `id`.
    pub fn with_id(&self, id: &RawMetricId) -> (r: Option<&Metric>)
        ensures
            id.0 < self@.len() ==> r.is_some() && r.unwrap()@ == self@[id.0 as int].metric,
            id.0 >= self@.len() ==> r.is_none(),
    {
        if id.0 < self.entries.len() {
            Some(&self.entries[id.0].metric)
        } else {
            None
        }
    }

    /// Registers one metric of `source` and gives its id.
    pub fn register(&mut self, metric: Metric, source: &String) -> (id: RawMetricId)
        requires
            old(self).wf(),
        ensures
            final(self).wf(),
            (final(self)@, id.0 as int) == registered(old(self)@, source@, metric@),
    {
        proof {
            lemma_registered(self@, source@, metric@);
        }
        match self.by_name(source, &metric.name) {
            Some(id) => id,
            None => {
                let id = RawMetricId(self.entries.len());
                let ghost before = self@;
                self.entries.push(Entry { source: source.clone(), metric });
                assert(self@ =~= before.push(EntryView { source: source@, metric: metric@ }));
                id
            },
        }
    }

    /// Creates a metric of `source`, which must be new to it, and gives its id.
    pub fn create_metric(&mut self, metric: Metric, source: &String) -> (r: Result<
        RawMetricId,
        MetricCreationError,
    >)
        requires
            old(self).wf(),
        ensures
            final(self).wf(),
            match entry_of(old(self)@, source@, metric@.name) {
                Some(_) => r == Err::<RawMetricId, MetricCreationError>(
                    MetricCreationError::Duplicate,
                ) && final(self)@ == old(self)@,
                None => r.is_ok() && r.unwrap().0 == old(self)@.len() && final(self)@ == old(
                    self,
                )@.push(EntryView { source: source@, metric: metric@ }),
            },
    {
        match self.by_name(source, &metric.name) {
            Some(_) => Err(MetricCreationError::Duplicate),
            None => Ok(self.register(metric, source)),
        }
    }

    /// The id of the first metric with the name `name`, whatever its source.
    pub fn find(&self, name: &String) -> (r: Option<RawMetricId>)
        ensures
            r.is_some() == first_named(self@, name@).is_some(),
            r matches Some(id) ==> id.0 == first_named(self@, name@).unwrap() && id.0 < self@.len()
                && self@[id.0 as int].metric.name == name@,
    {
        let mut i: usize = 0;
        while i < self.entries.len()
            invariant
                i <= self.entries.len(),
                self.entries.len() == self@.len(),
                forall|j: int| 0 <= j < i ==> self@[j].metric.name != name@,
            decreases self.entries.len() - i,
        {
            if self.entries[i].metric.name == *name {
                proof {
                    reveal(first_named);
                    assert(self@[i as int].metric.name == name@);
                    let c = choose|c: int|
                        0 <= c < self@.len() && self@[c].metric.name == name@ && forall|j: int|
                            0 <= j < c ==> self@[j].metric.name != name@;
                    assert(self@[i as int].metric.name == name@ && forall|j: int|
                        0 <= j < i ==> self@[j].metric.name != name@);
                    if c < i {
                        assert(self@[c].metric.name != name@);
                    } else if i < c {
                        assert(self@[i as int].metric.name != name@);
                    }
                }
                return Some(RawMetricId(i));
            }
            i = i + 1;
        }
        proof {
            reveal(first_named);
        }
        None
    }

    /// Registers the metrics of `source`, in their order, and gives their ids. This
    /// cannot fail: a metric that the source has registered before keeps its id.
    pub fn extend_infallible(&mut self, metrics: Vec<Metric>, source_name: &String) -> (ids: Vec<
        RawMetricId,
    >)
        requires
            old(self).wf(),
        ensures
            final(self).wf(),
            ids.len() == metrics.len(),
            ({
                let (after, expected) = extended_registry(
                    old(self)@,
                    source_name@,
                    metric_views(metrics@),
                );
                &&& final(self)@ == after
                &&& expected.len() == ids.len()
                &&& forall|k: int| 0 <= k < ids.len() ==> (#[trigger] ids[k]).0 == expected[k]
            }),
    {
        let ghost all = metric_views(metrics@);
        let mut metrics = metrics;
        let n = metrics.len();
        let mut ids: Vec<RawMetricId> = Vec::new();
        let mut rest: Vec<Metric> = Vec::new();
        // take the metrics out from the end, then register them from the front
        while metrics.len() > 0
            invariant
                metrics.len() + rest.len() == n,
                n == all.len(),
                forall|k: int| 0 <= k < metrics.len() ==> (#[trigger] metrics[k])@ == all[k],
                forall|k: int| 0 <= k < rest.len() ==> (#[trigger] rest[k])@ == all[n - 1 - k],
            decreases metrics.len(),
        {
            let m = metrics.pop().unwrap();
            rest.push(m);
        }
        let mut i: usize = 0;
        while i < n
            invariant
                i <= n,
                n == all.len(),
                rest.len() == n - i,
                forall|k: int| 0 <= k < rest.len() ==> (#[trigger] rest[k])@ == all[n - 1 - k],
                self.wf(),
                ids.len() == i,
                self@ == extended_registry(old(self)@, source_name@, all.take(i as int)).0,
                extended_registry(old(self)@, source_name@, all.take(i as int)).1.len() == i,
                forall|k: int|
                    0 <= k < i ==> (#[trigger] ids[k]).0 == extended_registry(
                        old(self)@,
                        source_name@,
                        all.take(i as int),
                    ).1[k],
            decreases n - i,
        {
            let m = rest.pop().unwrap();
            proof {
                assert(all.take(i + 1).drop_last() =~= all.take(i as int));
                assert(all.take(i + 1).last() == all[i as int]);
                assert(m@ == all[i as int]);
            }
            let ghost earlier = extended_registry(old(self)@, source_name@, all.take(i as int));
            let id = self.register(m, source_name);
            ids.push(id);
            proof {
                let later = extended_registry(old(self)@, source_name@, all.take(i + 1));
                assert(later.1 == earlier.1.push(id.0 as int));
                assert forall|k: int| 0 <= k < i + 1 implies (#[trigger] ids[k]).0
                    == later.1[k] by {
                    if k < i {
                        assert(later.1[k] == earlier.1[k]);
                    }
                }
            }
            i = i + 1;
        }
        assert(all.take(n as int) =~= all);
        ids
    }

    /// A copy with the same entries.
    pub fn duplicate(&self) -> (r: Self)
        ensures
            r@ == self@,
    {
        let mut entries: Vec<Entry> = Vec::new();
        let mut i: usize = 0;
        while i < self.entries.len()
            invariant
                i <= self.entries.len(),
                entries.len() == i,
                forall|k: int|
                    0 <= k < i ==> entries[k].source@ == self.entries[k].source@
                        && entries[k].metric@ == self.entries[k].metric@,
            decreases self.entries.len() - i,
        {
            let e = &self.entries[i];
            entries.push(Entry { source: e.source.clone(), metric: e.metric.duplicate() });
            i = i + 1;
        }
        let r = MetricRegistry { entries };
        assert(r@ =~= self@);
        r
    }
}

/// The metrics of a sequence, each by its mathematical value.
pub open spec fn metric_views(metrics: Seq<Metric>) -> Seq<MetricView> {
    Seq::new(metrics.len(), |i: int| metrics[i]@)
}

} // verus!
