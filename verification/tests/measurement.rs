use alumet::cgroup::hierarchy::{CgroupHierarchy, ControllersFile, HierarchyError};
use alumet::cgroup::mount::Mount;
use alumet::measurement::{
    AttributeValue, MeasurementBuffer, MeasurementPoint, RawMetricId, Resource, ResourceConsumer,
    Timestamp, WrappedMeasurementType, WrappedMeasurementValue,
};
use alumet::timeseries::grouped_buffer::{GroupedBuffer, Key};
use alumet::timeseries::TimeRange;

fn point(t: u64, v: u64) -> MeasurementPoint {
    MeasurementPoint::new(
        Timestamp::new(t),
        RawMetricId::new(7),
        Resource::Gpu { id: 1 },
        ResourceConsumer::ControlGroup { path: String::from("/a") },
        WrappedMeasurementValue::U64(v),
    )
}

#[test]
fn buffer_keeps_insertion_order() {
    let mut b = MeasurementBuffer::with_capacity(3);
    assert!(b.is_empty());
    assert!(b.last().is_none());
    b.push(point(3, 30));
    b.push(point(1, 10));
    b.reserve(10);
    b.push(point(2, 20));
    assert_eq!(b.len(), 3);
    assert_eq!(b.get(0).unwrap().timestamp, Timestamp::new(3));
    assert_eq!(b.get(1).unwrap().timestamp, Timestamp::new(1));
    assert_eq!(b.last().unwrap().timestamp, Timestamp::new(2));
    assert!(b.get(3).is_none());
    b.set_value(1, WrappedMeasurementValue::F64 { bits: 5 });
    assert_eq!(b.get(1).unwrap().value, WrappedMeasurementValue::F64 { bits: 5 });
    assert_eq!(b.get(1).unwrap().timestamp, Timestamp::new(1));
    assert_eq!(b.get(0).unwrap().value, WrappedMeasurementValue::U64(30));
    let copy = b.duplicate();
    assert_eq!(copy.len(), 3);
    assert_eq!(copy.get(2).unwrap().value, WrappedMeasurementValue::U64(20));
}

#[test]
fn points_and_values() {
    let p = point(1, 2)
        .with_attr(String::from("a"), AttributeValue::U64(1))
        .with_attr(String::from("b"), AttributeValue::String(String::from("x")));
    assert_eq!(p.attributes.len(), 2);
    assert_eq!(p.attributes[1].0, "b");
    let q = p.duplicate();
    assert_eq!(q.timestamp, p.timestamp);
    assert_eq!(q.metric.as_usize(), 7);
    assert!(q.resource.same(&Resource::Gpu { id: 1 }));
    assert!(!q.resource.same(&Resource::Gpu { id: 2 }));
    assert!(!q.resource.same(&Resource::CpuPackage { id: 1 }));
    assert!(q.consumer.same(&ResourceConsumer::ControlGroup { path: String::from("/a") }));
    assert!(!q.consumer.same(&ResourceConsumer::ControlGroup { path: String::from("/b") }));
    assert!(!q.consumer.same(&ResourceConsumer::LocalMachine));
    assert_eq!(q.attributes.len(), 2);
    assert!(matches!(&q.attributes[1].1, AttributeValue::String(s) if s == "x"));
    assert_eq!(WrappedMeasurementValue::U64(1).measurement_type(), WrappedMeasurementType::U64);
    assert_eq!(WrappedMeasurementValue::F64 { bits: 1 }.measurement_type(), WrappedMeasurementType::F64);
    assert!(Timestamp::new(1).le(&Timestamp::new(1)));
    assert!(!Timestamp::new(2).le(&Timestamp::new(1)));
    let r = TimeRange { start: Timestamp::new(2), end: Timestamp::new(4) };
    assert!(r.contains(Timestamp::new(2)) && r.contains(Timestamp::new(4)));
    assert!(!r.contains(Timestamp::new(5)) && !r.contains(Timestamp::new(1)));
    let untyped = MeasurementPoint::new_untyped(
        Timestamp::new(0),
        RawMetricId(1),
        Resource::LocalMachine,
        WrappedMeasurementValue::U64(0),
    );
    assert!(matches!(untyped.consumer, ResourceConsumer::LocalMachine));
}

#[test]
fn grouping_by_other_keys() {
    let a = point(1, 1);
    let mut g: GroupedBuffer<(RawMetricId, ResourceConsumer)> = GroupedBuffer::new();
    let k = <(RawMetricId, ResourceConsumer) as Key>::new(&a);
    assert_eq!(k.0, RawMetricId(7));
    g.push(k, a);
    let mut other = point(2, 2);
    other.consumer = ResourceConsumer::LocalMachine;
    g.push(<(RawMetricId, ResourceConsumer) as Key>::new(&other), other);
    g.push(<(RawMetricId, ResourceConsumer) as Key>::new(&point(3, 3)), point(3, 3));
    assert_eq!(g.len(), 2);
    let first = g.get(&(RawMetricId(7), ResourceConsumer::ControlGroup { path: String::from("/a") }));
    assert_eq!(first.unwrap().len(), 2);
    let by_resource = <Resource as Key>::new(&point(1, 1));
    assert!(Key::same(&by_resource, &Resource::Gpu { id: 1 }));
    let by_consumer = <ResourceConsumer as Key>::new(&point(1, 1));
    assert!(Key::same(&by_consumer, &Key::duplicate(&by_consumer)));
}

#[test]
fn common_range_lies_within_every_series() {
    let mut g: GroupedBuffer<RawMetricId> = GroupedBuffer::new();
    let mut add = |metric: usize, t: u64| {
        let mut p = point(t, t);
        p.metric = RawMetricId(metric);
        g.push(RawMetricId(metric), p);
    };
    for t in [0, 4, 9, 15, 22] {
        add(1, t);
    }
    for t in [3, 10, 20] {
        add(2, t);
    }
    for t in [1, 2, 16] {
        add(3, t);
    }
    // inf = max(3, 1) = 3, sup = min(20, 16) = 16
    let r = g.extract_common_range(&RawMetricId(1)).unwrap();
    assert_eq!(r, TimeRange { start: Timestamp::new(4), end: Timestamp::new(15) });
    assert!(r.start.le(&r.end));
    for m in [2, 3] {
        let s = g.get(&RawMetricId(m)).unwrap();
        assert!(s.earliest().unwrap().le(&r.start));
        assert!(r.end.le(&s.latest().unwrap()));
    }
}

#[test]
fn other_filesystems_are_no_hierarchies() {
    let m = Mount {
        spec: String::from("sysfs"),
        mount_point: String::from("/sys"),
        fs_type: String::from("sysfs"),
        mount_options: vec![String::from("rw")],
    };
    let r = CgroupHierarchy::from_mount(&m, &ControllersFile::Content(String::from("cpu")));
    assert_eq!(r.unwrap_err(), HierarchyError::NotCgroupFs);
}
