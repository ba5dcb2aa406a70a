use alumet::measurement::{
    MeasurementBuffer, MeasurementPoint, RawMetricId, Resource, ResourceConsumer, Timestamp,
    WrappedMeasurementValue,
};
use alumet::timeseries::grouped_buffer::{GroupedBuffer, Key};
use alumet::timeseries::interpolate::{Interpolated, Sample};
use alumet::timeseries::{TimeRange, Timeseries};

fn point(metric: usize, t: u64, v: u64) -> MeasurementPoint {
    MeasurementPoint::new(
        Timestamp::new(t),
        RawMetricId::new(metric),
        Resource::LocalMachine,
        ResourceConsumer::LocalMachine,
        WrappedMeasurementValue::U64(v),
    )
}

fn series(metric: usize, samples: &[(u64, u64)]) -> Timeseries {
    let mut s = Timeseries::new();
    for (t, v) in samples {
        s.push(point(metric, *t, *v));
    }
    s
}

fn grouped(points: Vec<MeasurementPoint>) -> GroupedBuffer<RawMetricId> {
    let mut g = GroupedBuffer::new();
    for p in points {
        let k = <RawMetricId as Key>::new(&p);
        g.push(k, p);
    }
    g
}

#[test]
fn timeseries_first_and_last() {
    let s = series(1, &[(3, 30), (5, 50), (9, 90)]);
    assert_eq!(s.first().unwrap().timestamp, Timestamp::new(3));
    assert_eq!(s.last().unwrap().timestamp, Timestamp::new(9));
    assert!(Timeseries::new().first().is_none());
    assert!(Timeseries::new().last().is_none());
    assert!(Timeseries::default().first().is_none());
}

#[test]
fn timeseries_extent() {
    let s = series(1, &[(5, 0), (3, 0), (9, 0), (4, 0)]);
    assert!(!s.is_sorted());
    assert_eq!(s.earliest(), Some(Timestamp::new(3)));
    assert_eq!(s.latest(), Some(Timestamp::new(9)));
    assert_eq!(s.first_at_or_after(Timestamp::new(4)), Some(Timestamp::new(4)));
    assert_eq!(s.first_at_or_after(Timestamp::new(6)), Some(Timestamp::new(9)));
    assert_eq!(s.first_at_or_after(Timestamp::new(10)), None);
    assert_eq!(s.last_at_or_before(Timestamp::new(4)), Some(Timestamp::new(4)));
    assert_eq!(s.last_at_or_before(Timestamp::new(8)), Some(Timestamp::new(5)));
    assert_eq!(s.last_at_or_before(Timestamp::new(2)), None);
    assert!(series(1, &[(1, 0), (1, 0), (2, 0)]).is_sorted());
    assert_eq!(Timeseries::new().earliest(), None);
    assert_eq!(Timeseries::new().latest(), None);
}

#[test]
fn locate_exact_between_outside() {
    let s = series(1, &[(0, 10), (10, 20), (10, 21), (20, 30)]);
    assert_eq!(s.locate(Timestamp::new(0)), Sample::Exact { index: 0 });
    // several points share the timestamp: the last one is taken
    assert_eq!(s.locate(Timestamp::new(10)), Sample::Exact { index: 2 });
    assert_eq!(s.locate(Timestamp::new(5)), Sample::Between { lower: 0, upper: 1 });
    assert_eq!(s.locate(Timestamp::new(15)), Sample::Between { lower: 2, upper: 3 });
    assert_eq!(s.locate(Timestamp::new(21)), Sample::Outside);
    assert_eq!(Timeseries::new().locate(Timestamp::new(1)), Sample::Outside);
    assert_eq!(series(1, &[(5, 0)]).locate(Timestamp::new(4)), Sample::Outside);
}

#[test]
fn common_range_of_two_series() {
    // A = [(0,10),(10,20)], B = [(2,100),(8,300)]
    let mut points = vec![point(1, 0, 10), point(1, 10, 20)];
    points.push(point(2, 2, 100));
    points.push(point(2, 8, 300));
    let mut g = grouped(points);
    // reference B: every instant of B lies within A
    let r = g.extract_common_range(&RawMetricId::new(2));
    assert_eq!(r, Some(TimeRange { start: Timestamp::new(2), end: Timestamp::new(8) }));
    // reference A: no timestamp of A lies within B
    let r = g.extract_common_range(&RawMetricId::new(1));
    assert_eq!(r, Some(TimeRange { start: Timestamp::new(10), end: Timestamp::new(0) }));
}

#[test]
fn common_range_degenerate_cases() {
    let mut g = grouped(vec![point(1, 0, 10), point(1, 10, 20)]);
    // no other group than the reference
    assert_eq!(g.extract_common_range(&RawMetricId::new(1)), None);
    // no reference group
    assert_eq!(g.extract_common_range(&RawMetricId::new(7)), None);
    let mut empty: GroupedBuffer<RawMetricId> = GroupedBuffer::new();
    assert_eq!(empty.extract_common_range(&RawMetricId::new(1)), None);
    // the reference lies wholly before the other series
    let mut g = grouped(vec![point(1, 0, 1), point(1, 1, 1), point(2, 5, 1), point(2, 6, 1)]);
    assert_eq!(g.extract_common_range(&RawMetricId::new(1)), None);
}

#[test]
fn interpolate_b_on_a_restricted() {
    // the reference is B, A is aligned at t = 2 and t = 8, between its two points
    let g = grouped(vec![
        point(1, 0, 10),
        point(1, 10, 20),
        point(2, 2, 100),
        point(2, 8, 300),
    ]);
    let aligned = g.interpolate_all(&RawMetricId::new(2)).unwrap();
    assert_eq!(aligned.range, TimeRange { start: Timestamp::new(2), end: Timestamp::new(8) });
    assert_eq!(aligned.reference.len(), 2);
    assert_eq!(aligned.reference.get(0).unwrap().value, WrappedMeasurementValue::U64(100));
    assert_eq!(aligned.reference.get(1).unwrap().value, WrappedMeasurementValue::U64(300));
    assert_eq!(aligned.series.len(), 1);
    let a = &aligned.series[0];
    assert_eq!(a.key, RawMetricId::new(1));
    assert_eq!(a.points.len(), 2);
    let mut interpolated = Vec::new();
    for p in &a.points {
        match p {
            Interpolated::Between { at, lower, upper, before, after } => {
                assert_eq!((*lower, *upper), (0, 1));
                let (va, vb) = match (before.value, after.value) {
                    (WrappedMeasurementValue::U64(a), WrappedMeasurementValue::U64(b)) => {
                        (a as f64, b as f64)
                    }
                    _ => panic!("unexpected value type"),
                };
                let ta = before.timestamp.nanos as f64;
                let tb = after.timestamp.nanos as f64;
                let t = at.nanos as f64;
                interpolated.push((at.nanos, va + (vb - va) * (t - ta) / (tb - ta)));
            }
            Interpolated::Exact { .. } => panic!("no exact hit expected"),
        }
    }
    assert_eq!(interpolated, vec![(2, 12.0), (8, 18.0)]);
}

#[test]
fn interpolation_on_own_grid_copies_values() {
    let g = grouped(vec![
        point(1, 0, 10),
        point(1, 5, 15),
        point(1, 10, 20),
        point(2, 0, 7),
        point(2, 5, 8),
        point(2, 10, 9),
    ]);
    let aligned = g.interpolate_all(&RawMetricId::new(1)).unwrap();
    assert_eq!(aligned.reference.len(), 3);
    let b = &aligned.series[0];
    let expected = [7u64, 8, 9];
    for (i, p) in b.points.iter().enumerate() {
        match p {
            Interpolated::Exact { index, point } => {
                assert_eq!(*index, i);
                assert_eq!(point.value, WrappedMeasurementValue::U64(expected[i]));
            }
            _ => panic!("exact hit expected"),
        }
    }
}

#[test]
fn interpolate_all_without_common_range() {
    let g = grouped(vec![point(1, 0, 1), point(2, 5, 1)]);
    assert!(g.interpolate_all(&RawMetricId::new(1)).is_none());
}

#[test]
fn extend_groups_the_points_that_pass() {
    let mut buf = MeasurementBuffer::new();
    buf.push(point(1, 0, 10));
    buf.push(point(2, 1, 11));
    buf.push(point(1, 2, 12));
    buf.push(point(3, 3, 13));
    let mut g: GroupedBuffer<RawMetricId> = GroupedBuffer::new();
    g.extend(&buf, |p| p.metric != RawMetricId::new(3));
    assert_eq!(g.len(), 2);
    let one = g.get(&RawMetricId::new(1)).unwrap();
    assert_eq!(one.len(), 2);
    assert_eq!(one.get(1).unwrap().value, WrappedMeasurementValue::U64(12));
    assert_eq!(g.get(&RawMetricId::new(2)).unwrap().len(), 1);
    assert!(g.get(&RawMetricId::new(3)).is_none());
    assert_eq!(g.position(&RawMetricId::new(2)), Some(1));
}
