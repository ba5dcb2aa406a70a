//! Measurement primitives: immutable point records and a growable point buffer.
//!
//! Floating-point values are carried by their IEEE 754 bit pattern, so that a
//! point can be copied, compared and moved around without ever being computed on.

use vstd::prelude::*;

verus! {

/// A wall-clock instant, in nanoseconds since the Unix epoch.
#[derive(Clone, Copy, Debug, PartialEq, Eq, Structural)]
pub struct Timestamp {
    pub nanos: u64,
}

impl Timestamp {
    pub fn new(nanos: u64) -> (t: Self)
        ensures
            t.nanos == nanos,
    {
        Timestamp { nanos }
    }

    /// `true` iff `self` is not later than `other`.
    pub fn le(&self, other: &Timestamp) -> (b: bool)
        ensures
            b == (self.nanos <= other.nanos),
    {
        self.nanos <= other.nanos
    }
}

/// An opaque handle into the metric registry.
#[derive(Clone, Copy, Debug, PartialEq, Eq, Structural)]
pub struct RawMetricId(pub usize);

impl RawMetricId {
    pub fn new(id: usize) -> (m: Self)
        ensures
            m.0 == id,
    {
        RawMetricId(id)
    }

    pub fn as_usize(&self) -> (id: usize)
        ensures
            id == self.0,
    {
        self.0
    }
}

/// The hardware or software component that a measurement is about.
#[derive(Debug)]
pub enum Resource {
    LocalMachine,
    CpuPackage { id: u32 },
    Gpu { id: u32 },
    ControlGroup { path: String },
}

/// The mathematical value of a [`Resource`].
pub enum ResourceView {
    LocalMachine,
    CpuPackage { id: u32 },
    Gpu { id: u32 },
    ControlGroup { path: Seq<char> },
}

impl View for Resource {
    type V = ResourceView;

    open spec fn view(&self) -> ResourceView {
        match *self {
            Resource::LocalMachine => ResourceView::LocalMachine,
            Resource::CpuPackage { id } => ResourceView::CpuPackage { id },
            Resource::Gpu { id } => ResourceView::Gpu { id },
            Resource::ControlGroup { path } => ResourceView::ControlGroup { path: path@ },
        }
    }
}

impl Resource {
    /// A copy with the same value.
    pub fn duplicate(&self) -> (r: Self)
        ensures
            r@ == self@,
    {
        match self {
            Resource::LocalMachine => Resource::LocalMachine,
            Resource::CpuPackage { id } => Resource::CpuPackage { id: *id },
            Resource::Gpu { id } => Resource::Gpu { id: *id },
            Resource::ControlGroup { path } => Resource::ControlGroup { path: path.clone() },
        }
    }

    /// Whether two resources have the same value.
    pub fn same(&self, other: &Self) -> (b: bool)
        ensures
            b == (self@ == other@),
    {
        match (self, other) {
            (Resource::LocalMachine, Resource::LocalMachine) => true,
            (Resource::CpuPackage { id: a }, Resource::CpuPackage { id: b }) => *a == *b,
            (Resource::Gpu { id: a }, Resource::Gpu { id: b }) => *a == *b,
            (Resource::ControlGroup { path: a }, Resource::ControlGroup { path: b }) => *a == *b,
            _ => false,
        }
    }
}

/// The entity that consumed the resource. It has the same shape as [`Resource`].
#[derive(Debug)]
pub enum ResourceConsumer {
    LocalMachine,
    CpuPackage { id: u32 },
    Gpu { id: u32 },
    ControlGroup { path: String },
}

/// The mathematical value of a [`ResourceConsumer`].
pub enum ResourceConsumerView {
    LocalMachine,
    CpuPackage { id: u32 },
    Gpu { id: u32 },
    ControlGroup { path: Seq<char> },
}

impl View for ResourceConsumer {
    type V = ResourceConsumerView;

    open spec fn view(&self) -> ResourceConsumerView {
        match *self {
            ResourceConsumer::LocalMachine => ResourceConsumerView::LocalMachine,
            ResourceConsumer::CpuPackage { id } => ResourceConsumerView::CpuPackage { id },
            ResourceConsumer::Gpu { id } => ResourceConsumerView::Gpu { id },
            ResourceConsumer::ControlGroup { path } => ResourceConsumerView::ControlGroup {
                path: path@,
            },
        }
    }
}

impl ResourceConsumer {
    /// A copy with the same value.
    pub fn duplicate(&self) -> (r: Self)
        ensures
            r@ == self@,
    {
        match self {
            ResourceConsumer::LocalMachine => ResourceConsumer::LocalMachine,
            ResourceConsumer::CpuPackage { id } => ResourceConsumer::CpuPackage { id: *id },
            ResourceConsumer::Gpu { id } => ResourceConsumer::Gpu { id: *id },
            ResourceConsumer::ControlGroup { path } => ResourceConsumer::ControlGroup {
                path: path.clone(),
            },
        }
    }

    /// Whether two consumers have the same value.
    pub fn same(&self, other: &Self) -> (b: bool)
        ensures
            b == (self@ == other@),
    {
        match (self, other) {
            (ResourceConsumer::LocalMachine, ResourceConsumer::LocalMachine) => true,
            (ResourceConsumer::CpuPackage { id: a }, ResourceConsumer::CpuPackage { id: b }) => *a
                == *b,
            (ResourceConsumer::Gpu { id: a }, ResourceConsumer::Gpu { id: b }) => *a == *b,
            (
                ResourceConsumer::ControlGroup { path: a },
                ResourceConsumer::ControlGroup { path: b },
            ) => *a == *b,
            _ => false,
        }
    }
}

/// The type of a measured value.
#[derive(Clone, Copy, Debug, PartialEq, Eq, Structural)]
pub enum WrappedMeasurementType {
    U64,
    F64,
}

/// A measured value: an unsigned integer, or a 64-bit float held by its bit pattern.
#[derive(Clone, Copy, Debug, PartialEq, Eq, Structural)]
pub enum WrappedMeasurementValue {
    U64(u64),
    F64 { bits: u64 },
}

impl WrappedMeasurementValue {
    pub open spec fn spec_measurement_type(&self) -> WrappedMeasurementType {
        match *self {
            WrappedMeasurementValue::U64(_) => WrappedMeasurementType::U64,
            WrappedMeasurementValue::F64 { .. } => WrappedMeasurementType::F64,
        }
    }

    #[verifier::when_used_as_spec(spec_measurement_type)]
    pub fn measurement_type(&self) -> (t: WrappedMeasurementType)
        ensures
            t == self.spec_measurement_type(),
    {
        match self {
            WrappedMeasurementValue::U64(_) => WrappedMeasurementType::U64,
            WrappedMeasurementValue::F64 { .. } => WrappedMeasurementType::F64,
        }
    }
}

/// The value of an attribute attached to a point.
#[derive(Debug)]
pub enum AttributeValue {
    U64(u64),
    F64 { bits: u64 },
    String(String),
    Bool(bool),
}

/// The mathematical value of an [`AttributeValue`].
pub enum AttributeValueView {
    U64(u64),
    F64 { bits: u64 },
    String(Seq<char>),
    Bool(bool),
}

impl View for AttributeValue {
    type V = AttributeValueView;

    open spec fn view(&self) -> AttributeValueView {
        match *self {
            AttributeValue::U64(n) => AttributeValueView::U64(n),
            AttributeValue::F64 { bits } => AttributeValueView::F64 { bits },
            AttributeValue::String(s) => AttributeValueView::String(s@),
            AttributeValue::Bool(b) => AttributeValueView::Bool(b),
        }
    }
}

impl AttributeValue {
    /// A copy with the same value.
    pub fn duplicate(&self) -> (a: Self)
        ensures
            a@ == self@,
    {
        match self {
            AttributeValue::U64(n) => AttributeValue::U64(*n),
            AttributeValue::F64 { bits } => AttributeValue::F64 { bits: *bits },
            AttributeValue::String(s) => AttributeValue::String(s.clone()),
            AttributeValue::Bool(b) => AttributeValue::Bool(*b),
        }
    }
}

/// The attributes of a point as a sequence of `(name, value)` pairs, in insertion order.
pub open spec fn attributes_view(attrs: Seq<(String, AttributeValue)>) -> Seq<
    (Seq<char>, AttributeValueView),
> {
    Seq::new(attrs.len(), |i: int| (attrs[i].0@, attrs[i].1@))
}

/// One measurement.
#[derive(Debug)]
pub struct MeasurementPoint {
    pub timestamp: Timestamp,
    pub metric: RawMetricId,
    pub resource: Resource,
    pub consumer: ResourceConsumer,
    pub value: WrappedMeasurementValue,
    pub attributes: Vec<(String, AttributeValue)>,
}

/// The mathematical value of a [`MeasurementPoint`].
pub struct PointView {
    pub timestamp: Timestamp,
    pub metric: RawMetricId,
    pub resource: ResourceView,
    pub consumer: ResourceConsumerView,
    pub value: WrappedMeasurementValue,
    pub attributes: Seq<(Seq<char>, AttributeValueView)>,
}

impl View for MeasurementPoint {
    type V = PointView;

    open spec fn view(&self) -> PointView {
        PointView {
            timestamp: self.timestamp,
            metric: self.metric,
            resource: self.resource@,
            consumer: self.consumer@,
            value: self.value,
            attributes: attributes_view(self.attributes@),
        }
    }
}

impl MeasurementPoint {
    /// A point without attributes.
    pub fn new(
        timestamp: Timestamp,
        metric: RawMetricId,
        resource: Resource,
        consumer: ResourceConsumer,
        value: WrappedMeasurementValue,
    ) -> (p: Self)
        ensures
            p@ == (PointView {
                timestamp,
                metric,
                resource: resource@,
                consumer: consumer@,
                value,
                attributes: Seq::empty(),
            }),
    {
        let p = MeasurementPoint {
            timestamp,
            metric,
            resource,
            consumer,
            value,
            attributes: Vec::new(),
        };
        assert(p@.attributes =~= Seq::empty());
        p
    }

    /// A point without attributes, consumed by the local machine.
    pub fn new_untyped(
        timestamp: Timestamp,
        metric: RawMetricId,
        resource: Resource,
        value: WrappedMeasurementValue,
    ) -> (p: Self)
        ensures
            p@ == (PointView {
                timestamp,
                metric,
                resource: resource@,
                consumer: ResourceConsumerView::LocalMachine,
                value,
                attributes: Seq::empty(),
            }),
    {
        MeasurementPoint::new(timestamp, metric, resource, ResourceConsumer::LocalMachine, value)
    }

    /// The same point with one more attribute at the end.
    pub fn with_attr(self, key: String, value: AttributeValue) -> (p: Self)
        ensures
            p@ == (PointView { attributes: self@.attributes.push((key@, value@)), ..self@ }),
    {
        let mut p = self;
        p.attributes.push((key, value));
        assert(p@.attributes =~= self@.attributes.push((key@, value@)));
        p
    }

    /// A copy with the same value.
    pub fn duplicate(&self) -> (p: Self)
        ensures
            p@ == self@,
    {
        let mut attributes: Vec<(String, AttributeValue)> = Vec::new();
        let mut i: usize = 0;
        while i < self.attributes.len()
            invariant
                i <= self.attributes.len(),
                attributes.len() == i,
                forall|j: int|
                    0 <= j < i ==> attributes[j].0@ == self.attributes[j].0@ && attributes[j].1@
                        == self.attributes[j].1@,
            decreases self.attributes.len() - i,
        {
            let name = self.attributes[i].0.clone();
            let value = self.attributes[i].1.duplicate();
            attributes.push((name, value));
            i = i + 1;
        }
        let p = MeasurementPoint {
            timestamp: self.timestamp,
            metric: self.metric,
            resource: self.resource.duplicate(),
            consumer: self.consumer.duplicate(),
            value: self.value,
            attributes,
        };
        assert(p@.attributes =~= self@.attributes);
        p
    }
}

/// The points of a sequence, each by its mathematical value.
pub open spec fn points_view(points: Seq<MeasurementPoint>) -> Seq<PointView> {
    Seq::new(points.len(), |i: int| points[i]@)
}

/// An append-only ordered sequence of points.
#[derive(Debug)]
pub struct MeasurementBuffer {
    points: Vec<MeasurementPoint>,
}

impl View for MeasurementBuffer {
    type V = Seq<PointView>;

    closed spec fn view(&self) -> Seq<PointView> {
        points_view(self.points@)
    }
}

impl MeasurementBuffer {
    pub fn new() -> (b: Self)
        ensures
            b@ == Seq::<PointView>::empty(),
    {
        let b = MeasurementBuffer { points: Vec::new() };
        assert(b@ =~= Seq::<PointView>::empty());
        b
    }

    /// An empty buffer; `capacity` is only a hint for the allocation.
    pub fn with_capacity(capacity: usize) -> (b: Self)
        ensures
            b@ == Seq::<PointView>::empty(),
    {
        let b = MeasurementBuffer { points: Vec::with_capacity(capacity) };
        assert(b@ =~= Seq::<PointView>::empty());
        b
    }

    /// Hints that `additional` more points are expected. The contents do not change.
    pub fn reserve(&mut self, additional: usize)
        ensures
            final(self)@ == old(self)@,
    {
        self.points.reserve(additional);
    }

    pub fn len(&self) -> (n: usize)
        ensures
            n == self@.len(),
    {
        self.points.len()
    }

    pub fn is_empty(&self) -> (b: bool)
        ensures
            b == (self@.len() == 0),
    {
        self.points.len() == 0
    }

    /// Appends a point at the end.
    pub fn push(&mut self, point: MeasurementPoint)
        ensures
            final(self)@ == old(self)@.push(point@),
    {
        self.points.push(point);
        assert(self@ =~= old(self)@.push(point@));
    }

    /// The point at position `index`.
    pub fn get(&self, index: usize) -> (p: Option<&MeasurementPoint>)
        ensures
            index < self@.len() ==> p.is_some() && p.unwrap()@ == self@[index as int],
            index >= self@.len() ==> p.is_none(),
    {
        if index < self.points.len() {
            Some(&self.points[index])
        } else {
            None
        }
    }

    /// The last point, if any.
    pub fn last(&self) -> (p: Option<&MeasurementPoint>)
        ensures
            self@.len() == 0 ==> p.is_none(),
            self@.len() > 0 ==> p.is_some() && p.unwrap()@ == self@.last(),
    {
        let n = self.points.len();
        if n == 0 {
            None
        } else {
            Some(&self.points[n - 1])
        }
    }

    /// A copy with the same points.
    pub fn duplicate(&self) -> (b: Self)
        ensures
            b@ == self@,
    {
        let mut points: Vec<MeasurementPoint> = Vec::with_capacity(self.points.len());
        let mut i: usize = 0;
        while i < self.points.len()
            invariant
                i <= self.points.len(),
                points.len() == i,
                forall|j: int| 0 <= j < i ==> points[j]@ == self.points[j]@,
            decreases self.points.len() - i,
        {
            points.push(self.points[i].duplicate());
            i = i + 1;
        }
        let b = MeasurementBuffer { points };
        assert(b@ =~= self@);
        b
    }

    /// Replaces the value of the point at `index`, leaving everything else as it was.
    pub fn set_value(&mut self, index: usize, value: WrappedMeasurementValue)
        requires
            index < old(self)@.len(),
        ensures
            final(self)@ == old(self)@.update(
                index as int,
                (PointView { value, ..old(self)@[index as int] }),
            ),
    {
        let p = self.points[index].duplicate();
        let q = MeasurementPoint { value, ..p };
        self.points.set(index, q);
        assert(self@ =~= old(self)@.update(
            index as int,
            (PointView { value, ..old(self)@[index as int] }),
        ));
    }
}

} // verus!
