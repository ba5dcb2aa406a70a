//! Attribution of energy: what the transform is configured with.
//!
//! The formula itself works on floating-point values and is evaluated by the embedding
//! program, on the rows that the alignment of the time series gives.

use crate::measurement::{
    MeasurementPoint, PointView, RawMetricId, Resource, ResourceConsumer, ResourceConsumerView,
    ResourceView,
};
use crate::measurement::WrappedMeasurementValue;
use crate::timeseries::grouped_buffer::{
    aligned_on, common_range, index_of, Aligned, GroupedBuffer, Key,
};
use crate::timeseries::interpolate::restricted;
use vstd::prelude::*;

verus! {

/// How the values of a resource dimension are rolled up before the formula.
#[derive(Debug, Clone, Copy, PartialEq, Eq, Structural)]
pub enum AggregateOperator {
    Sum,
    Min,
    Max,
    Avg,
}

/// One input of a formula: a metric, and the attributes that its points must have.
#[derive(Debug)]
pub struct FormulaInput {
    pub metric: RawMetricId,
    pub attributes_filter: Vec<(String, String)>,
}

/// The key that the points of an attribution are grouped by.
#[derive(Debug)]
pub struct AttributionKey {
    pub metric: RawMetricId,
    pub resource: Resource,
    pub consumer: ResourceConsumer,
}

/// The mathematical value of an [`AttributionKey`].
pub struct AttributionKeyView {
    pub metric: RawMetricId,
    pub resource: ResourceView,
    pub consumer: ResourceConsumerView,
}

impl View for AttributionKey {
    type V = AttributionKeyView;

    open spec fn view(&self) -> AttributionKeyView {
        AttributionKeyView {
            metric: self.metric,
            resource: self.resource@,
            consumer: self.consumer@,
        }
    }
}

impl Key for AttributionKey {
    open spec fn of_point(p: PointView) -> AttributionKeyView {
        AttributionKeyView { metric: p.metric, resource: p.resource, consumer: p.consumer }
    }

    fn new(p: &MeasurementPoint) -> (k: Self) {
        AttributionKey {
            metric: p.metric,
            resource: p.resource.duplicate(),
            consumer: p.consumer.duplicate(),
        }
    }

    fn same(&self, other: &Self) -> (b: bool) {
        self.metric.0 == other.metric.0 && self.resource.same(&other.resource)
            && self.consumer.same(&other.consumer)
    }

    fn duplicate(&self) -> (k: Self) {
        AttributionKey {
            metric: self.metric,
            resource: self.resource.duplicate(),
            consumer: self.consumer.duplicate(),
        }
    }
}

/// What the name of an input of a formula stands for in a row of an alignment.
#[derive(Debug, Clone, Copy, PartialEq, Eq, Structural)]
pub enum Input {
    /// The value of the reference point of the row.
    Reference,
    /// The value that the series at this position of the alignment has in the row.
    Series(usize),
    /// Nothing: no series of the alignment has the metric of the input.
    Missing,
}

/// The position of the first of `metrics` from `from` on that is `metric`.
pub open spec fn position_from(metrics: Seq<RawMetricId>, metric: RawMetricId, from: int) -> Option<
    int,
>
    decreases metrics.len() - from,
{
    if from < 0 || from >= metrics.len() {
        None
    } else if metrics[from] == metric {
        Some(from)
    } else {
        position_from(metrics, metric, from + 1)
    }
}

/// What an input with the metric `metric` stands for: the reference point if that is
/// the metric of the reference, else the first series of that metric.
pub open spec fn input_of(metric: RawMetricId, reference: RawMetricId, series: Seq<RawMetricId>) -> Input {
    if metric == reference {
        Input::Reference
    } else {
        match position_from(series, metric, 0) {
            Some(j) => Input::Series(j as usize),
            None => Input::Missing,
        }
    }
}

/// The metrics of the series of an alignment, in their order.
pub open spec fn series_metrics(aligned: Aligned<AttributionKey>) -> Seq<RawMetricId> {
    Seq::new(aligned.series@.len(), |j: int| aligned.series@[j].key.metric)
}

/// A formula that attributes a share of a reference metric to each consumer.
#[derive(Debug)]
pub struct Formula {
    /// The metric of each named input of the expression.
    pub metrics_mapping: Vec<(String, RawMetricId)>,
    /// The metric whose timestamps all inputs are aligned on.
    pub reference_serie: RawMetricId,
    /// The metric of the points that the formula produces.
    pub result_metric: RawMetricId,
    pub resource_kind: String,
    pub resource_aggregate: AggregateOperator,
    /// The key of the group of the reference metric.
    pub ref_key: AttributionKey,
}

impl Formula {
    /// Aligns the inputs of the formula on the timestamps of the reference group. The
    /// input is taken to be filtered already. `None` iff there is no common range.
    pub fn apply_to_all(&self, input: GroupedBuffer<AttributionKey>) -> (r: Option<
        Aligned<AttributionKey>,
    >)
        requires
            input.wf(),
        ensures
            r.is_none() <==> common_range(input@, self.ref_key@).is_none(),
            r.is_some() ==> ({
                let g = input@;
                let a = r.unwrap();
                let ri = index_of(g, self.ref_key@).unwrap();
                &&& Some(a.range) == common_range(g, self.ref_key@)
                &&& a.reference@ == restricted(g[ri].series, a.range)
                &&& a.series.len() == g.len() - 1
                &&& forall|j: int|
                    0 <= j < a.series.len() ==> {
                        let source = g[if j < ri { j } else { j + 1 }];
                        &&& (#[trigger] a.series[j]).key@ == source.key
                        &&& aligned_on(a.series[j].points@, source.series, a.reference@)
                    }
            }),
    {
        input.interpolate_all(&self.ref_key)
    }

    /// What each named input of the formula stands for in the rows of `aligned`, in the
    /// order of the inputs.
    pub fn inputs(&self, aligned: &Aligned<AttributionKey>) -> (r: Vec<Input>)
        ensures
            r.len() == self.metrics_mapping.len(),
            forall|i: int|
                0 <= i < r.len() ==> #[trigger] r[i] == input_of(
                    self.metrics_mapping[i].1,
                    self.reference_serie,
                    series_metrics(*aligned),
                ),
    {
        let ghost metrics = series_metrics(*aligned);
        let mut r: Vec<Input> = Vec::new();
        let mut i: usize = 0;
        while i < self.metrics_mapping.len()
            invariant
                i <= self.metrics_mapping.len(),
                metrics == series_metrics(*aligned),
                r.len() == i,
                forall|k: int|
                    0 <= k < i ==> #[trigger] r[k] == input_of(
                        self.metrics_mapping[k].1,
                        self.reference_serie,
                        metrics,
                    ),
            decreases self.metrics_mapping.len() - i,
        {
            let metric = self.metrics_mapping[i].1;
            let input = if metric.0 == self.reference_serie.0 {
                Input::Reference
            } else {
                let mut j: usize = 0;
                let mut found = Input::Missing;
                while j < aligned.series.len()
                    invariant_except_break
                        found == Input::Missing,
                        position_from(metrics, metric, 0) == position_from(metrics, metric, j as int),
                    invariant
                        j <= aligned.series.len(),
                        metrics == series_metrics(*aligned),
                    ensures
                        found == (match position_from(metrics, metric, 0) {
                            Some(j) => Input::Series(j as usize),
                            None => Input::Missing,
                        }),
                    decreases aligned.series.len() - j,
                {
                    if aligned.series[j].key.metric.0 == metric.0 {
                        assert(metrics[j as int] == metric);
                        found = Input::Series(j);
                        break;
                    }
                    assert(metrics[j as int] != metric);
                    j = j + 1;
                }
                found
            };
            r.push(input);
            i = i + 1;
        }
        r
    }

    /// The point that carries the result of the formula for one aligned row: it has
    /// the timestamp, the resource, the consumer and the attributes of the row's
    /// reference point `row`, the result metric, and the value `result`, a float held
    /// by its bit pattern.
    pub fn emit(&self, row: &MeasurementPoint, result: u64) -> (p: MeasurementPoint)
        ensures
            p@ == (PointView {
                metric: self.result_metric,
                value: WrappedMeasurementValue::F64 { bits: result },
                ..row@
            }),
    {
        let mut p = row.duplicate();
        p.metric = self.result_metric;
        p.value = WrappedMeasurementValue::F64 { bits: result };
        p
    }
}

/// The transform that attributes energy: its formula, and the points that wait for
/// the next evaluation, by metric.
#[derive(Debug)]
pub struct EnergyAttributionTransform {
    pub formula: Formula,
    pub buffers: Vec<(RawMetricId, Vec<MeasurementPoint>)>,
}

} // verus!
