//! Expectations on a started agent, to test plugins with.

use crate::pipeline::registry::{first_named, EntryView, Metric, MetricRegistry, MetricView};
use crate::pipeline::source::SourceType;
use crate::text::same_text;
use vstd::prelude::*;

verus! {

/// What is expected of the agent once its plugins have started.
#[derive(Debug)]
pub struct StartupExpectations {
    pub metrics: Vec<Metric>,
    pub plugins: Vec<String>,
    pub sources: Vec<(String, String, SourceType)>,
    pub transforms: Vec<(String, String)>,
    pub outputs: Vec<(String, String)>,
}

/// An expectation that is not met.
#[derive(Debug, Clone, Copy, PartialEq, Eq, Structural)]
pub enum Unfulfilled {
    /// The expected metric at this position is not registered.
    MissingMetric(usize),
    /// The expected metric at this position is registered with another unit.
    WrongUnit(usize),
    /// The expected metric at this position is registered with another type.
    WrongType(usize),
    /// The expected plugin at this position is not there.
    MissingPlugin(usize),
}

impl Unfulfilled {
    /// The position of the expectation that is not met, among the metrics or among
    /// the plugins that are expected.
    pub open spec fn position(self) -> usize {
        match self {
            Unfulfilled::MissingMetric(k) => k,
            Unfulfilled::WrongUnit(k) => k,
            Unfulfilled::WrongType(k) => k,
            Unfulfilled::MissingPlugin(k) => k,
        }
    }
}

/// What the expected metric `expected`, at the position `index`, finds in the registry:
/// the first metric of its name must have its unit and its type.
pub open spec fn metric_verdict(entries: Seq<EntryView>, expected: MetricView, index: usize) -> Option<
    Unfulfilled,
> {
    match first_named(entries, expected.name) {
        None => Some(Unfulfilled::MissingMetric(index)),
        Some(i) => if entries[i].metric.unit != expected.unit {
            Some(Unfulfilled::WrongUnit(index))
        } else if entries[i].metric.value_type != expected.value_type {
            Some(Unfulfilled::WrongType(index))
        } else {
            None
        },
    }
}

/// Holds one expected metric against the registry.
pub fn check_metric(metrics: &MetricRegistry, expected: &Metric, index: usize) -> (r: Option<
    Unfulfilled,
>)
    ensures
        r == metric_verdict(metrics@, expected@, index),
        !(r matches Some(Unfulfilled::MissingPlugin(_))),
{
    match metrics.find(&expected.name) {
        None => Some(Unfulfilled::MissingMetric(index)),
        Some(id) => {
            let actual = metrics.with_id(&id).unwrap();
            if !same_text(actual.unit.as_str(), expected.unit.as_str()) {
                Some(Unfulfilled::WrongUnit(index))
            } else if actual.value_type != expected.value_type {
                Some(Unfulfilled::WrongType(index))
            } else {
                None
            }
        },
    }
}

/// Whether the expected metrics before the position `upto` are all as expected.
pub open spec fn metrics_met(entries: Seq<EntryView>, expected: Seq<Metric>, upto: int) -> bool {
    forall|i: int|
        0 <= i < upto ==> metric_verdict(entries, (#[trigger] expected[i])@, i as usize) is None
}

/// Whether a text equal to `name` is among `texts`.
pub open spec fn has_text(texts: Seq<String>, name: Seq<char>) -> bool {
    exists|j: int| 0 <= j < texts.len() && (#[trigger] texts[j])@ == name
}

/// Whether the expected plugins before the position `upto` are all there.
pub open spec fn plugins_met(plugins: Seq<String>, expected: Seq<String>, upto: int) -> bool {
    forall|i: int| 0 <= i < upto ==> has_text(plugins, (#[trigger] expected[i])@)
}

/// Whether a text equal to `name` is among `texts`.
pub fn contains_text(texts: &Vec<String>, name: &str) -> (b: bool)
    ensures
        b == has_text(texts@, name@),
{
    let mut j: usize = 0;
    while j < texts.len()
        invariant
            j <= texts.len(),
            forall|i: int| 0 <= i < j ==> (#[trigger] texts@[i])@ != name@,
        decreases texts.len() - j,
    {
        if same_text(texts[j].as_str(), name) {
            assert(texts@[j as int]@ == name@);
            return true;
        }
        j = j + 1;
    }
    false
}

impl Default for StartupExpectations {
    fn default() -> (e: Self)
        ensures
            e.metrics@.len() == 0,
            e.plugins@.len() == 0,
            e.sources@.len() == 0,
            e.transforms@.len() == 0,
            e.outputs@.len() == 0,
    {
        StartupExpectations {
            metrics: Vec::new(),
            plugins: Vec::new(),
            sources: Vec::new(),
            transforms: Vec::new(),
            outputs: Vec::new(),
        }
    }
}

impl StartupExpectations {
    /// Expects the metric `metric` to be registered.
    pub fn start_metric(self, metric: Metric) -> (e: Self)
        ensures
            e.metrics@ == self.metrics@.push(metric),
            e.plugins == self.plugins,
            e.sources == self.sources,
            e.transforms == self.transforms,
            e.outputs == self.outputs,
    {
        let mut e = self;
        e.metrics.push(metric);
        e
    }

    /// Expects the plugin `plugin_name` to be there.
    pub fn plugin(self, plugin_name: &str) -> (e: Self)
        ensures
            e.plugins@.len() == self.plugins@.len() + 1,
            e.plugins@.last()@ == plugin_name@,
            e.plugins@.drop_last() == self.plugins@,
            e.metrics == self.metrics,
            e.sources == self.sources,
            e.transforms == self.transforms,
            e.outputs == self.outputs,
    {
        let mut e = self;
        e.plugins.push(plugin_name.to_owned());
        assert(e.plugins@.drop_last() =~= self.plugins@);
        e
    }

    /// Expects the plugin `plugin_name` to have a source `source_name` of this type.
    pub fn element_source(self, plugin_name: &str, source_name: &str, source_type: SourceType) -> (e:
        Self)
        ensures
            e.sources@.len() == self.sources@.len() + 1,
            e.sources@.last().0@ == plugin_name@,
            e.sources@.last().1@ == source_name@,
            e.sources@.last().2 == source_type,
            e.sources@.drop_last() == self.sources@,
            e.metrics == self.metrics,
            e.plugins == self.plugins,
            e.transforms == self.transforms,
            e.outputs == self.outputs,
    {
        let mut e = self;
        e.sources.push((plugin_name.to_owned(), source_name.to_owned(), source_type));
        assert(e.sources@.drop_last() =~= self.sources@);
        e
    }

    /// Expects the plugin `plugin_name` to have a transform `transform_name`.
    pub fn element_transform(self, plugin_name: &str, transform_name: &str) -> (e: Self)
        ensures
            e.transforms@.len() == self.transforms@.len() + 1,
            e.transforms@.last().0@ == plugin_name@,
            e.transforms@.last().1@ == transform_name@,
            e.transforms@.drop_last() == self.transforms@,
            e.metrics == self.metrics,
            e.plugins == self.plugins,
            e.sources == self.sources,
            e.outputs == self.outputs,
    {
        let mut e = self;
        e.transforms.push((plugin_name.to_owned(), transform_name.to_owned()));
        assert(e.transforms@.drop_last() =~= self.transforms@);
        e
    }

    /// Expects the plugin `plugin_name` to have an output `output_name`.
    pub fn element_output(self, plugin_name: &str, output_name: &str) -> (e: Self)
        ensures
            e.outputs@.len() == self.outputs@.len() + 1,
            e.outputs@.last().0@ == plugin_name@,
            e.outputs@.last().1@ == output_name@,
            e.outputs@.drop_last() == self.outputs@,
            e.metrics == self.metrics,
            e.plugins == self.plugins,
            e.sources == self.sources,
            e.transforms == self.transforms,
    {
        let mut e = self;
        e.outputs.push((plugin_name.to_owned(), output_name.to_owned()));
        assert(e.outputs@.drop_last() =~= self.outputs@);
        e
    }

    /// Holds the expectations against a started agent: its registry of metrics and the
    /// names of its plugins. The metrics are looked at first, in their order, then
    /// the plugins; the first expectation that is not met is the error.
    pub fn apply(&self, metrics: &MetricRegistry, plugins: &Vec<String>) -> (r: Result<
        (),
        Unfulfilled,
    >)
        ensures
            match r {
                Ok(_) => metrics_met(metrics@, self.metrics@, self.metrics@.len() as int)
                    && plugins_met(plugins@, self.plugins@, self.plugins@.len() as int),
                Err(Unfulfilled::MissingPlugin(k)) => {
                    &&& k < self.plugins@.len()
                    &&& metrics_met(metrics@, self.metrics@, self.metrics@.len() as int)
                    &&& plugins_met(plugins@, self.plugins@, k as int)
                    &&& !has_text(plugins@, self.plugins@[k as int]@)
                },
                Err(e) => {
                    let k = e.position();
                    &&& k < self.metrics@.len()
                    &&& metric_verdict(metrics@, self.metrics@[k as int]@, k) == Some(e)
                    &&& metrics_met(metrics@, self.metrics@, k as int)
                },
            },
    {
        let mut k: usize = 0;
        while k < self.metrics.len()
            invariant
                k <= self.metrics.len(),
                metrics_met(metrics@, self.metrics@, k as int),
            decreases self.metrics.len() - k,
        {
            if let Some(e) = check_metric(metrics, &self.metrics[k], k) {
                return Err(e);
            }
            k = k + 1;
        }
        let mut p: usize = 0;
        while p < self.plugins.len()
            invariant
                p <= self.plugins.len(),
                metrics_met(metrics@, self.metrics@, self.metrics@.len() as int),
                plugins_met(plugins@, self.plugins@, p as int),
            decreases self.plugins.len() - p,
        {
            if !contains_text(plugins, self.plugins[p].as_str()) {
                return Err(Unfulfilled::MissingPlugin(p));
            }
            p = p + 1;
        }
        Ok(())
    }
}

} // verus!
