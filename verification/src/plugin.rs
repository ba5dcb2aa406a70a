//! What a plugin works with when it starts, and small tools for plugins.

use crate::measurement::RawMetricId;
use crate::pipeline::registry::{
    entry_of, EntryView, Metric, MetricCreationError, MetricRegistry, MetricView,
};
use crate::pipeline::control::ConfiguredSource;
use crate::pipeline::source::SourceType;
use crate::pipeline::trigger::Trigger;
use vstd::prelude::*;

verus! {

/// What the plugins are given at their start: they create their metrics and add their
/// sources, transforms and outputs here. The elements themselves stay with the
/// embedding program; here each is known by its position and by the plugin that
/// owns it.
#[derive(Debug)]
pub struct AlumetPluginStart {
    /// The name of the plugin that is starting.
    pub plugin_name: String,
    /// The registry of the pipeline that is being built.
    pub metrics: MetricRegistry,
    /// The sources added so far.
    pub sources: Vec<ConfiguredSource>,
    /// The plugin of each transform added so far, in the order of the chain.
    pub transforms: Vec<String>,
    /// The plugin of each output added so far.
    pub outputs: Vec<String>,
}

impl AlumetPluginStart {
    /// The invariant of the type.
    pub open spec fn wf(&self) -> bool {
        self.metrics.wf()
    }

    /// The start of the plugin `plugin_name`, with the metrics created so far and no
    /// element yet.
    pub fn new(plugin_name: String, metrics: MetricRegistry) -> (s: Self)
        ensures
            s.plugin_name == plugin_name,
            s.metrics == metrics,
            s.sources@.len() == 0,
            s.transforms@.len() == 0,
            s.outputs@.len() == 0,
    {
        AlumetPluginStart {
            plugin_name,
            metrics,
            sources: Vec::new(),
            transforms: Vec::new(),
            outputs: Vec::new(),
        }
    }

    /// Goes on to the start of the plugin `plugin_name`. What was created and added
    /// stays.
    pub fn next_plugin(&mut self, plugin_name: String)
        ensures
            final(self).plugin_name == plugin_name,
            final(self).metrics == old(self).metrics,
            final(self).sources == old(self).sources,
            final(self).transforms == old(self).transforms,
            final(self).outputs == old(self).outputs,
    {
        self.plugin_name = plugin_name;
    }

    /// Creates a metric of this plugin. A plugin cannot have two metrics of one name.
    pub fn create_metric(&mut self, metric: Metric) -> (r: Result<RawMetricId, MetricCreationError>)
        requires
            old(self).wf(),
        ensures
            final(self).wf(),
            final(self).plugin_name == old(self).plugin_name,
            final(self).sources == old(self).sources,
            final(self).transforms == old(self).transforms,
            final(self).outputs == old(self).outputs,
            match entry_of(old(self).metrics@, old(self).plugin_name@, metric@.name) {
                Some(_) => r == Err::<RawMetricId, MetricCreationError>(
                    MetricCreationError::Duplicate,
                ) && final(self).metrics@ == old(self).metrics@,
                None => r.is_ok() && r.unwrap().0 == old(self).metrics@.len()
                    && final(self).metrics@ == old(self).metrics@.push(
                    EntryView { source: old(self).plugin_name@, metric: metric@ },
                ),
            },
    {
        let source = self.plugin_name.clone();
        self.metrics.create_metric(metric, &source)
    }

    /// Adds a source of this plugin, and gives its position among the sources.
    pub fn add_source(&mut self, source_type: SourceType, trigger: Trigger) -> (index: usize)
        ensures
            index == old(self).sources@.len(),
            final(self).sources@.len() == index + 1,
            final(self).sources@.drop_last() == old(self).sources@,
            final(self).sources@.last().plugin_name@ == old(self).plugin_name@,
            final(self).sources@.last().source_type == source_type,
            final(self).sources@.last().trigger == trigger,
            final(self).plugin_name == old(self).plugin_name,
            final(self).metrics == old(self).metrics,
            final(self).transforms == old(self).transforms,
            final(self).outputs == old(self).outputs,
    {
        let index = self.sources.len();
        let plugin_name = self.plugin_name.clone();
        self.sources.push(ConfiguredSource { plugin_name, source_type, trigger });
        assert(self.sources@.drop_last() =~= old(self).sources@);
        index
    }

    /// Adds a transform of this plugin at the end of the chain, and gives its position
    /// in the chain.
    pub fn add_transform(&mut self) -> (index: usize)
        ensures
            index == old(self).transforms@.len(),
            final(self).transforms.deep_view() == old(self).transforms.deep_view().push(
                old(self).plugin_name@,
            ),
            final(self).plugin_name == old(self).plugin_name,
            final(self).metrics == old(self).metrics,
            final(self).sources == old(self).sources,
            final(self).outputs == old(self).outputs,
    {
        let index = self.transforms.len();
        let plugin_name = self.plugin_name.clone();
        self.transforms.push(plugin_name);
        assert(self.transforms.deep_view() =~= old(self).transforms.deep_view().push(
            old(self).plugin_name@,
        ));
        index
    }

    /// Adds an output of this plugin, and gives its position among the outputs.
    pub fn add_output(&mut self) -> (index: usize)
        ensures
            index == old(self).outputs@.len(),
            final(self).outputs.deep_view() == old(self).outputs.deep_view().push(
                old(self).plugin_name@,
            ),
            final(self).plugin_name == old(self).plugin_name,
            final(self).metrics == old(self).metrics,
            final(self).sources == old(self).sources,
            final(self).transforms == old(self).transforms,
    {
        let index = self.outputs.len();
        let plugin_name = self.plugin_name.clone();
        self.outputs.push(plugin_name);
        assert(self.outputs.deep_view() =~= old(self).outputs.deep_view().push(
            old(self).plugin_name@,
        ));
        index
    }
}

/// What an update of a counter tells.
#[derive(Clone, Copy, Debug, PartialEq, Eq, Structural)]
pub enum CounterDiffUpdate {
    /// The counter was read for the first time: there is no difference yet.
    FirstTime,
    /// The counter has grown by this much.
    Difference(u64),
    /// The counter has passed its greatest value and started again from zero; with
    /// that taken into account it has grown by this much.
    CorrectedDifference(u64),
}

impl CounterDiffUpdate {
    pub open spec fn spec_difference(self) -> Option<u64> {
        match self {
            CounterDiffUpdate::FirstTime => None,
            CounterDiffUpdate::Difference(d) => Some(d),
            CounterDiffUpdate::CorrectedDifference(d) => Some(d),
        }
    }

    /// The growth of the counter, if there is one.
    #[verifier::when_used_as_spec(spec_difference)]
    pub fn difference(self) -> (d: Option<u64>)
        ensures
            d == self.spec_difference(),
    {
        match self {
            CounterDiffUpdate::FirstTime => None,
            CounterDiffUpdate::Difference(d) => Some(d),
            CounterDiffUpdate::CorrectedDifference(d) => Some(d),
        }
    }
}

/// Turns the successive values of a counter that only grows, and starts again from
/// zero after `max_value`, into differences.
#[derive(Clone, Copy, Debug, PartialEq, Eq, Structural)]
pub struct CounterDiff {
    pub max_value: u64,
    pub previous_value: Option<u64>,
}

impl CounterDiff {
    /// The invariant of the type: the last value is not over the greatest.
    pub open spec fn wf(self) -> bool {
        self.previous_value matches Some(p) ==> p <= self.max_value
    }

    /// What the value `new_value` of the counter tells.
    pub open spec fn told(self, new_value: u64) -> CounterDiffUpdate {
        match self.previous_value {
            None => CounterDiffUpdate::FirstTime,
            Some(prev) => if new_value < prev {
                CounterDiffUpdate::CorrectedDifference(
                    (self.max_value - prev + new_value + 1) as u64,
                )
            } else {
                CounterDiffUpdate::Difference((new_value - prev) as u64)
            },
        }
    }

    /// A counter that has not been read yet.
    pub fn with_max_value(max_value: u64) -> (c: Self)
        ensures
            c == (CounterDiff { max_value, previous_value: None }),
            c.wf(),
    {
        CounterDiff { max_value, previous_value: None }
    }

    /// Takes the new value of the counter and tells by how much it has grown.
    pub fn update(&mut self, new_value: u64) -> (u: CounterDiffUpdate)
        requires
            old(self).wf(),
            new_value <= old(self).max_value,
        ensures
            final(self).wf(),
            u == old(self).told(new_value),
            *final(self) == (CounterDiff { previous_value: Some(new_value), ..*old(self) }),
    {
        let res = match self.previous_value {
            Some(prev) => {
                if new_value < prev {
                    CounterDiffUpdate::CorrectedDifference(self.max_value - prev + new_value + 1)
                } else {
                    CounterDiffUpdate::Difference(new_value - prev)
                }
            },
            None => CounterDiffUpdate::FirstTime,
        };
        self.previous_value = Some(new_value);
        res
    }
}

/// The metrics of a sequence of definitions, registered one after the other for
/// `source`; the first of them that the source has already ends the run.
pub open spec fn created(entries: Seq<EntryView>, source: Seq<char>, metrics: Seq<MetricView>) -> (
    Seq<EntryView>,
    bool,
)
    decreases metrics.len(),
{
    if metrics.len() == 0 {
        (entries, true)
    } else {
        let (before, ok) = created(entries, source, metrics.drop_last());
        if !ok || entry_of(before, source, metrics.last().name) is Some {
            (before, false)
        } else {
            (before.push(EntryView { source, metric: metrics.last() }), true)
        }
    }
}

} // verus!
