use alumet::measurement::{
    MeasurementBuffer, MeasurementPoint, RawMetricId, Resource, Timestamp, WrappedMeasurementType,
    WrappedMeasurementValue,
};
use alumet::pipeline::control::{
    plan_start, wait_for_all, ConfiguredSource, ControlEffect, ControlMessage, PipelineControllerState,
    PipelineError, Pool, ScopedControlHandle, StartError,
};
use alumet::pipeline::output::{
    Notice, OutputAction, OutputCmd, OutputContext, OutputMsg, OutputPhase, OutputTask, RecvError,
    WriteError, WriteOutcome,
};
use alumet::pipeline::registry::{Metric, MetricCreationError, MetricRegistry};
use alumet::pipeline::source::{
    SourceAction, SourceCmd, SourceError, SourceEvent, SourcePhase, SourceTask, SourceType,
};
use alumet::pipeline::transform::{
    after_broadcast, apply_command, apply_enabled, run_transforms, transform_is_active,
    transform_mask, Transform, TransformCmd, TransformError, TransformStep, ALL_ACTIVE,
};
use alumet::pipeline::trigger::{Trigger, TriggerError};

const MS: u64 = 1_000_000;

fn new_tp() -> Trigger {
    Trigger::TimeInterval { start_time: Timestamp::new(0), poll_interval: 5 * MS, flush_interval: 10 * MS }
}

struct TestSource {
    n_calls: u32,
}

impl TestSource {
    fn poll(&mut self, into: &mut MeasurementBuffer, time: Timestamp) {
        self.n_calls += 1;
        let point = MeasurementPoint::new_untyped(
            time,
            RawMetricId(1),
            Resource::LocalMachine,
            WrappedMeasurementValue::U64(self.n_calls as u64),
        );
        into.push(point);
    }
}

/// Runs a source until it waits for a command or ends. Returns what was flushed.
fn run_until_command(
    task: &mut SourceTask,
    source: &mut TestSource,
    mut action: SourceAction,
    pending: &mut Vec<SourceCmd>,
    max_polls: usize,
) -> (Vec<MeasurementBuffer>, SourceAction) {
    let mut flushed = Vec::new();
    let mut buffer = MeasurementBuffer::new();
    let mut polls = 0;
    let mut now = 0u64;
    loop {
        let event = match action {
            SourceAction::AwaitTrigger { .. } => {
                if polls == max_polls {
                    return (flushed, action);
                }
                now += 5 * MS;
                SourceEvent::Tick
            }
            SourceAction::Poll => {
                polls += 1;
                source.poll(&mut buffer, Timestamp::new(now));
                SourceEvent::Polled
            }
            SourceAction::Flush { polls } => {
                assert_eq!(polls as usize, buffer.len());
                flushed.push(std::mem::replace(&mut buffer, MeasurementBuffer::new()));
                SourceEvent::Flushed
            }
            SourceAction::PeekCommand => match pending.pop() {
                Some(c) => SourceEvent::Command(c),
                None => SourceEvent::Unchanged,
            },
            SourceAction::AwaitCommand { .. } | SourceAction::Exit | SourceAction::Fail(_) => {
                return (flushed, action);
            }
        };
        assert!(task.can_accept(&event));
        action = task.step(event);
    }
}

#[test]
fn source_triggered_by_time() {
    let mut source = TestSource { n_calls: 0 };
    let mut task = SourceTask::new();
    assert_eq!(task.phase, SourcePhase::Init);
    // the first command must set the trigger
    assert!(!task.can_accept(&SourceEvent::Command(SourceCmd::Run)));
    assert!(!task.can_accept(&SourceEvent::Command(SourceCmd::SetTrigger(None))));
    assert!(!task.can_accept(&SourceEvent::Tick));
    let first = task.step(SourceEvent::Command(SourceCmd::SetTrigger(Some(new_tp()))));
    assert_eq!(first, SourceAction::AwaitTrigger { reserve: 2 });
    assert_eq!(task.flush_rounds, 2);
    assert_eq!(task.round, 1);

    // poll the source for 20 ms: 4 polls, two flushes
    let mut pending = Vec::new();
    let (flushed, action) = run_until_command(&mut task, &mut source, first, &mut pending, 4);
    assert_eq!(flushed.len(), 2);
    let mut n_polls = 0;
    for measurements in &flushed {
        // 2 by 2 because flush_interval = 2*poll_interval
        assert_eq!(measurements.len(), 2);
        n_polls += 2;
        let last_point = measurements.last().unwrap();
        let last_point_value = match last_point.value {
            WrappedMeasurementValue::U64(n) => n,
            _ => panic!("unexpected value type"),
        };
        assert_eq!(n_polls, last_point_value);
    }

    // pause source: it is obeyed after the next flush, and then nothing is produced
    pending.push(SourceCmd::Pause);
    let (flushed, action) = run_until_command(&mut task, &mut source, action, &mut pending, 100);
    assert_eq!(flushed.len(), 1);
    assert_eq!(action, SourceAction::AwaitCommand { reserve: 0 });
    assert_eq!(task.phase, SourcePhase::Paused);
    assert!(!task.can_accept(&SourceEvent::Tick));

    // still paused after SetTrigger
    let action = task.step(SourceEvent::Command(SourceCmd::SetTrigger(Some(new_tp()))));
    assert_eq!(action, SourceAction::AwaitCommand { reserve: 2 });
    assert_eq!(task.phase, SourcePhase::Paused);
    assert_eq!(task.step(SourceEvent::Command(SourceCmd::Pause)), SourceAction::AwaitCommand { reserve: 0 });

    // resume source
    let action = task.step(SourceEvent::Command(SourceCmd::Run));
    assert_eq!(action, SourceAction::AwaitTrigger { reserve: 0 });
    let (flushed, action) = run_until_command(&mut task, &mut source, action, &mut pending, 2);
    assert_eq!(flushed.len(), 1);
    assert_eq!(flushed[0].len(), 2);

    // still running after SetTrigger
    pending.push(SourceCmd::SetTrigger(Some(new_tp())));
    let (flushed, action) = run_until_command(&mut task, &mut source, action, &mut pending, 4);
    assert_eq!(flushed.len(), 2);
    assert_eq!(task.phase, SourcePhase::Waiting);

    // stop source
    pending.push(SourceCmd::Stop);
    let (flushed, action) = run_until_command(&mut task, &mut source, action, &mut pending, 100);
    assert_eq!(flushed.len(), 1);
    assert_eq!(action, SourceAction::Exit);
    assert_eq!(task.phase, SourcePhase::Done);
    assert!(!task.can_accept(&SourceEvent::Tick));
}

#[test]
fn source_flushes_every_k_polls() {
    for k in 1u64..6 {
        let mut task = SourceTask::new();
        let tp = Trigger::at_interval(Timestamp::new(0), 7, 7 * k);
        let mut action = task.step(SourceEvent::Command(SourceCmd::SetTrigger(Some(tp))));
        assert_eq!(action, SourceAction::AwaitTrigger { reserve: k });
        let mut since_flush = 0;
        let mut flushes = 0;
        for _ in 0..(3 * k) {
            assert_eq!(task.step(SourceEvent::Tick), SourceAction::Poll);
            action = task.step(SourceEvent::Polled);
            since_flush += 1;
            if let SourceAction::Flush { polls } = action {
                assert_eq!(polls, k);
                assert_eq!(since_flush, k);
                since_flush = 0;
                flushes += 1;
                assert_eq!(task.step(SourceEvent::Flushed), SourceAction::PeekCommand);
                assert_eq!(task.step(SourceEvent::Unchanged), SourceAction::AwaitTrigger { reserve: 0 });
            } else {
                assert_eq!(action, SourceAction::AwaitTrigger { reserve: 0 });
            }
        }
        assert_eq!(flushes, 3);
    }
}

#[test]
fn source_failures() {
    let start = |tp: Trigger| {
        let mut task = SourceTask::new();
        let a = task.step(SourceEvent::Command(SourceCmd::SetTrigger(Some(tp))));
        (task, a)
    };
    let (task, a) = start(Trigger::at_interval(Timestamp::new(0), 0, 10));
    assert_eq!(a, SourceAction::Fail(SourceError::InitTrigger(TriggerError::ZeroPollInterval)));
    assert_eq!(task.phase, SourcePhase::Done);
    let (_, a) = start(Trigger::at_interval(Timestamp::new(0), 10, 9));
    assert_eq!(a, SourceAction::Fail(SourceError::InitTrigger(TriggerError::FlushBeforePoll)));

    let (mut task, _) = start(new_tp());
    assert_eq!(task.step(SourceEvent::TickFailed), SourceAction::Fail(SourceError::Trigger));
    let (mut task, _) = start(new_tp());
    task.step(SourceEvent::Tick);
    assert_eq!(task.step(SourceEvent::PollFailed), SourceAction::Fail(SourceError::Poll));
    let (mut task, _) = start(new_tp());
    task.step(SourceEvent::Tick);
    task.step(SourceEvent::Polled);
    task.step(SourceEvent::Tick);
    assert_eq!(task.step(SourceEvent::Polled), SourceAction::Flush { polls: 2 });
    assert_eq!(
        task.step(SourceEvent::ChannelFull),
        SourceAction::Fail(SourceError::SendBackpressureExceeded)
    );
    assert_eq!(task.phase, SourcePhase::Done);

    // a new trigger in the middle of a run: room is reserved for the rest of the cycle
    let (mut task, _) = start(new_tp());
    task.step(SourceEvent::Tick);
    task.step(SourceEvent::Polled);
    task.step(SourceEvent::Tick);
    task.step(SourceEvent::Polled);
    task.step(SourceEvent::Flushed);
    let tp = Trigger::at_interval(Timestamp::new(0), 1, 5);
    let a = task.step(SourceEvent::Command(SourceCmd::SetTrigger(Some(tp))));
    // round 2, 5 rounds per flush: 5 - 2 % 5 = 3
    assert_eq!(a, SourceAction::AwaitTrigger { reserve: 3 });
    assert_eq!(task.flush_rounds, 5);
    assert_eq!(task.round, 3);
}

#[test]
fn trigger_configuration() {
    let c = new_tp().auto_configured().unwrap();
    assert_eq!(c.flush_rounds, 2);
    assert_eq!(c.poll_interval, 5 * MS);
    let c = Trigger::at_interval(Timestamp::new(3), 4, 11).auto_configured().unwrap();
    assert_eq!(c.flush_rounds, 2);
    assert_eq!(c.start_time, Timestamp::new(3));
    assert_eq!(
        Trigger::at_interval(Timestamp::new(0), 0, 0).auto_configured(),
        Err(TriggerError::ZeroPollInterval)
    );
    assert_eq!(
        Trigger::at_interval(Timestamp::new(0), 2, 1).auto_configured(),
        Err(TriggerError::FlushBeforePoll)
    );
}

struct TestTransform {
    id: u32,
    output_type: WrappedMeasurementType,
    expected_input_len: usize,
    expected_input_type: WrappedMeasurementType,
    check_input_type: bool,
    fail: bool,
}

impl Transform for TestTransform {
    fn apply(&mut self, measurements: &mut MeasurementBuffer) -> Result<(), TransformError> {
        if self.fail {
            return Err(TransformError::Fatal);
        }
        assert_eq!(measurements.len(), self.expected_input_len);
        for i in 0..measurements.len() {
            let m = measurements.get(i).unwrap();
            assert!(matches!(m.resource, Resource::LocalMachine));
            if self.check_input_type {
                assert_eq!(m.value.measurement_type(), self.expected_input_type);
            }
            let value = match self.output_type {
                WrappedMeasurementType::F64 => WrappedMeasurementValue::F64 { bits: (self.id as f64).to_bits() },
                WrappedMeasurementType::U64 => WrappedMeasurementValue::U64(self.id as u64),
            };
            measurements.set_value(i, value);
        }
        assert_eq!(measurements.len(), self.expected_input_len);
        Ok(())
    }
}

fn test_transforms(check_third: bool) -> Vec<TestTransform> {
    vec![
        TestTransform {
            id: 1,
            expected_input_len: 2,
            output_type: WrappedMeasurementType::U64,
            expected_input_type: WrappedMeasurementType::U64,
            check_input_type: true,
            fail: false,
        },
        TestTransform {
            id: 2,
            expected_input_len: 2,
            output_type: WrappedMeasurementType::F64,
            expected_input_type: WrappedMeasurementType::U64,
            check_input_type: true,
            fail: false,
        },
        TestTransform {
            id: 3,
            expected_input_len: 2,
            output_type: WrappedMeasurementType::F64,
            expected_input_type: WrappedMeasurementType::F64,
            check_input_type: check_third,
            fail: false,
        },
    ]
}

fn two_points() -> MeasurementBuffer {
    let mut b = MeasurementBuffer::with_capacity(2);
    for (t, v) in [(5u64, 10u64), (10, 20)] {
        b.push(MeasurementPoint::new_untyped(
            Timestamp::new(t),
            RawMetricId(1),
            Resource::LocalMachine,
            WrappedMeasurementValue::U64(v),
        ));
    }
    b
}

fn int_val(v: WrappedMeasurementValue) -> u32 {
    match v {
        WrappedMeasurementValue::F64 { bits } => f64::from_bits(bits) as u32,
        WrappedMeasurementValue::U64(u) => u as u32,
    }
}

#[test]
fn transform_task() {
    let cases: [(u64, bool); 6] =
        [(u64::MAX, true), (1 | 2, true), (2 | 4, true), (1 | 4, false), (0, true), (1 | 2 | 4, true)];
    for (current_flags, check_third) in cases {
        let mut transforms = test_transforms(check_third);
        let step = run_transforms(&mut transforms, current_flags, Some(two_points()));
        let measurements = match step {
            TransformStep::Broadcast(m) => m,
            _ => panic!("the transforms should succeed"),
        };
        let transform1_enabled = current_flags & 1 != 0;
        let transform2_enabled = current_flags & 2 != 0;
        let transform3_enabled = current_flags & 4 != 0;
        // no point is dropped or duplicated, whatever the flags are
        assert_eq!(measurements.len(), 2);
        for i in 0..2 {
            let m = measurements.get(i).unwrap();
            assert_eq!(m.timestamp, Timestamp::new(5 * (i as u64 + 1)));
            let v = int_val(m.value);
            if transform3_enabled {
                assert_eq!(v, 3);
                assert_eq!(m.value.measurement_type(), WrappedMeasurementType::F64);
            } else if transform2_enabled {
                assert_eq!(v, 2);
                assert_eq!(m.value.measurement_type(), WrappedMeasurementType::F64);
            } else if transform1_enabled {
                assert_eq!(v, 1);
                assert_eq!(m.value.measurement_type(), WrappedMeasurementType::U64);
            } else {
                assert_ne!(v, 3);
                assert_ne!(v, 2);
                assert_ne!(v, 1);
                assert_eq!(m.value.measurement_type(), WrappedMeasurementType::U64);
            }
        }
    }
}

#[test]
fn transform_failure_and_closed_channel() {
    let mut transforms = test_transforms(true);
    transforms[1].fail = true;
    let mut buf = two_points();
    assert_eq!(apply_enabled(&mut transforms, ALL_ACTIVE, &mut buf), Err(TransformError::Fatal));
    // the failing transform is skipped when it is disabled
    let mut buf = two_points();
    let flags = apply_command(ALL_ACTIVE, transform_mask(1), TransformCmd::Disable);
    transforms[2].check_input_type = false;
    assert_eq!(apply_enabled(&mut transforms, flags, &mut buf), Ok(()));
    assert_eq!(int_val(buf.get(0).unwrap().value), 3);
    assert!(matches!(run_transforms(&mut transforms, flags, None), TransformStep::Closed));
    assert!(matches!(
        run_transforms(&mut transforms, ALL_ACTIVE, Some(two_points())),
        TransformStep::Fail(TransformError::Fatal)
    ));
    assert_eq!(after_broadcast(true), Ok(()));
    assert_eq!(after_broadcast(false), Err(TransformError::NoReceiver));
}

#[test]
fn transform_flags() {
    assert_eq!(transform_mask(0), 1);
    assert_eq!(transform_mask(2), 0b100);
    assert_eq!(transform_mask(63), 1 << 63);
    assert_eq!(apply_command(u64::MAX, 0b100, TransformCmd::Disable), u64::MAX - 4);
    assert_eq!(apply_command(0b001, 0b110, TransformCmd::Enable), 0b111);
    assert_eq!(apply_command(0b111, 0b101, TransformCmd::Disable), 0b010);
    assert_eq!(apply_command(0, 0b101, TransformCmd::Disable), 0);
    assert!(transform_is_active(0b100, 2));
    assert!(!transform_is_active(0b100, 1));
    assert!(transform_is_active(ALL_ACTIVE, 63));
    // flips on masks that share no bit commute
    let a = apply_command(apply_command(0b1010, 0b0011, TransformCmd::Enable), 0b1000, TransformCmd::Disable);
    let b = apply_command(apply_command(0b1010, 0b1000, TransformCmd::Disable), 0b0011, TransformCmd::Enable);
    assert_eq!(a, b);
    assert_eq!(a, 0b0011);
}

fn metric(name: &str, unit: &str) -> Metric {
    Metric {
        name: name.to_owned(),
        description: String::new(),
        value_type: WrappedMeasurementType::U64,
        unit: unit.to_owned(),
    }
}

#[test]
fn output_task() {
    let mut task = OutputTask::new(OutputContext { metrics: MetricRegistry::new() });
    assert_eq!(task.phase, OutputPhase::Running);
    let mut output_count = 0;

    // two buffers are written
    for _ in 0..2 {
        match task.on_message(Ok(OutputMsg::WriteMeasurements(two_points()))) {
            OutputAction::Write(measurements) => {
                assert_eq!(measurements.len(), 2);
                output_count += measurements.len();
            }
            _ => panic!("a write was expected"),
        }
        assert_eq!(task.phase, OutputPhase::Writing);
        assert!(matches!(task.on_written(WriteOutcome::Written), OutputAction::AwaitAny(Notice::Nothing)));
    }
    assert_eq!(output_count, 4);

    // pause and check
    assert!(matches!(task.on_command(Some(OutputCmd::Pause)), OutputAction::AwaitCommand));
    assert_eq!(task.phase, OutputPhase::Paused);
    assert!(matches!(task.on_command(Some(OutputCmd::Pause)), OutputAction::AwaitCommand));

    // resume and check
    assert!(matches!(task.on_command(Some(OutputCmd::Run)), OutputAction::AwaitAny(Notice::Nothing)));
    assert_eq!(task.phase, OutputPhase::Running);
    assert!(matches!(task.on_message(Ok(OutputMsg::WriteMeasurements(two_points()))), OutputAction::Write(_)));
    // an error of the output is logged, and the output keeps running
    assert!(matches!(task.on_written(WriteOutcome::Failed), OutputAction::AwaitAny(Notice::WriteFailed)));
    assert_eq!(task.phase, OutputPhase::Running);

    // stop and check
    assert!(matches!(task.on_command(Some(OutputCmd::Stop)), OutputAction::Exit(Notice::Nothing)));
    assert_eq!(task.phase, OutputPhase::Done);
}

#[test]
fn output_lag_close_and_panic() {
    let mut task = OutputTask::new(OutputContext { metrics: MetricRegistry::new() });
    // a slow output is told how many messages it lost, and goes on
    assert!(matches!(
        task.on_message(Err(RecvError::Lagged(6))),
        OutputAction::AwaitAny(Notice::Lagged { skipped: 6 })
    ));
    assert_eq!(task.phase, OutputPhase::Running);
    assert!(matches!(task.on_message(Ok(OutputMsg::WriteMeasurements(two_points()))), OutputAction::Write(_)));
    assert!(matches!(task.on_written(WriteOutcome::Panicked), OutputAction::Fail(WriteError::WritePanicked)));
    assert_eq!(task.phase, OutputPhase::Done);

    let mut task = OutputTask::new(OutputContext { metrics: MetricRegistry::new() });
    assert!(matches!(task.on_message(Err(RecvError::Closed)), OutputAction::Exit(Notice::ChannelClosed)));
    assert_eq!(task.phase, OutputPhase::Done);
    let mut task = OutputTask::new(OutputContext { metrics: MetricRegistry::new() });
    assert!(matches!(task.on_command(None), OutputAction::Exit(Notice::ChannelClosed)));
}

#[test]
fn output_registers_metrics() {
    let mut task = OutputTask::new(OutputContext { metrics: MetricRegistry::new() });
    let msg = OutputMsg::RegisterMetrics {
        metrics: vec![metric("a", "J"), metric("b", "W"), metric("a", "J")],
        source_name: String::from("src1"),
    };
    match task.on_message(Ok(msg)) {
        OutputAction::Reply(ids) => assert_eq!(ids, vec![RawMetricId(0), RawMetricId(1), RawMetricId(0)]),
        _ => panic!("a reply was expected"),
    }
    assert_eq!(task.phase, OutputPhase::Replying);
    assert!(matches!(task.on_replied(true), OutputAction::AwaitAny(Notice::Nothing)));
    // another source may use the same name; the first source keeps its ids
    let msg = OutputMsg::RegisterMetrics {
        metrics: vec![metric("b", "W")],
        source_name: String::from("src2"),
    };
    match task.on_message(Ok(msg)) {
        OutputAction::Reply(ids) => assert_eq!(ids, vec![RawMetricId(2)]),
        _ => panic!("a reply was expected"),
    }
    assert!(matches!(task.on_replied(false), OutputAction::Fail(WriteError::ReplyFailed)));
    assert_eq!(task.ctx.metrics.len(), 3);
}

#[test]
fn registry() {
    let mut r = MetricRegistry::new();
    let s = String::from("plugin");
    assert_eq!(r.create_metric(metric("m", "J"), &s), Ok(RawMetricId(0)));
    assert_eq!(r.create_metric(metric("m", "W"), &s), Err(MetricCreationError::Duplicate));
    assert_eq!(r.register(metric("m", "W"), &s), RawMetricId(0));
    assert_eq!(r.register(metric("n", "W"), &s), RawMetricId(1));
    assert_eq!(r.by_name(&s, &String::from("n")), Some(RawMetricId(1)));
    assert_eq!(r.by_name(&String::from("other"), &String::from("n")), None);
    assert_eq!(r.find(&String::from("n")), Some(RawMetricId(1)));
    assert_eq!(r.find(&String::from("x")), None);
    // registering again did not replace the definition
    assert_eq!(r.with_id(&RawMetricId(0)).unwrap().unit, "J");
    assert!(r.with_id(&RawMetricId(2)).is_none());
    let copy = r.duplicate();
    assert_eq!(copy.len(), 2);
    assert_eq!(copy.with_id(&RawMetricId(1)).unwrap().name, "n");
}

fn names(v: &[&str]) -> Vec<String> {
    v.iter().map(|s| s.to_string()).collect()
}

#[test]
fn control_plane() {
    let sources = vec![
        ConfiguredSource { plugin_name: String::from("alpha"), source_type: SourceType::Normal, trigger: new_tp() },
        ConfiguredSource { plugin_name: String::from("beta"), source_type: SourceType::RealtimePriority, trigger: new_tp() },
        ConfiguredSource { plugin_name: String::from("alpha"), source_type: SourceType::Normal, trigger: new_tp() },
    ];
    let plan = plan_start(names(&["out"]), names(&["alpha", "beta", "alpha"]), sources, true).unwrap();
    assert_eq!(plan.active_transforms, u64::MAX);
    assert_eq!(plan.pools, vec![Pool::Normal, Pool::Priority, Pool::Normal]);
    assert_eq!(plan.first_commands.len(), 3);
    assert_eq!(plan.first_commands[1], SourceCmd::SetTrigger(Some(new_tp())));
    let state = plan.state;

    let to_p1 = ScopedControlHandle::plugin(String::from("alpha")).control_sources(SourceCmd::Pause);
    assert!(state.can_handle(&to_p1));
    match state.handle_message(to_p1) {
        ControlEffect::Sources { targets, command } => {
            assert_eq!(targets, vec![0, 2]);
            assert_eq!(command, SourceCmd::Pause);
        }
        _ => panic!("sources expected"),
    }
    match state.handle_message(ScopedControlHandle::all().control_sources(SourceCmd::Stop)) {
        ControlEffect::Sources { targets, .. } => assert_eq!(targets, vec![0, 1, 2]),
        _ => panic!("sources expected"),
    }
    match state.handle_message(ScopedControlHandle::all().control_outputs(OutputCmd::Pause)) {
        ControlEffect::Outputs { targets, command } => {
            assert_eq!(targets, vec![0]);
            assert_eq!(command, OutputCmd::Pause);
        }
        _ => panic!("outputs expected"),
    }
    let t = ScopedControlHandle::plugin(String::from("alpha")).control_transforms(TransformCmd::Disable);
    match state.handle_message(t) {
        ControlEffect::Transforms { mask, command } => {
            assert_eq!(mask, 0b101);
            assert_eq!(apply_command(u64::MAX, mask, command), u64::MAX - 5);
        }
        _ => panic!("transforms expected"),
    }
    match state.handle_message(ControlMessage::Transform(None, TransformCmd::Enable)) {
        ControlEffect::Transforms { mask, .. } => assert_eq!(mask, u64::MAX),
        _ => panic!("transforms expected"),
    }
    // a plugin without an element of the kind cannot be targeted
    assert!(!state.can_handle(&ControlMessage::Output(Some(String::from("alpha")), OutputCmd::Run)));
    assert!(!state.can_handle(&ControlMessage::Source(Some(String::from("nobody")), SourceCmd::Run)));
    assert!(state.can_handle(&ControlMessage::Transform(Some(String::from("beta")), TransformCmd::Enable)));
}

#[test]
fn control_state_registration() {
    let mut state = PipelineControllerState::new();
    assert_eq!(state.add_output(String::from("o")), 0);
    assert_eq!(state.add_source(String::from("s")), 0);
    assert_eq!(state.add_source(String::from("s")), 1);
    for i in 0..64 {
        assert_eq!(state.add_transform(format!("t{}", i % 2)), Some(i));
    }
    assert_eq!(state.add_transform(String::from("t0")), None);
    match state.handle_message(ControlMessage::Transform(Some(String::from("t1")), TransformCmd::Enable)) {
        ControlEffect::Transforms { mask, .. } => assert_eq!(mask, 0xaaaa_aaaa_aaaa_aaaa),
        _ => panic!("transforms expected"),
    }
}

#[test]
fn start_errors() {
    let many: Vec<String> = (0..65).map(|i| format!("t{i}")).collect();
    assert_eq!(plan_start(vec![], many, vec![], true).unwrap_err(), StartError::TooManyTransforms);
    let rt = vec![ConfiguredSource {
        plugin_name: String::from("p"),
        source_type: SourceType::RealtimePriority,
        trigger: new_tp(),
    }];
    assert_eq!(plan_start(vec![], vec![], rt, false).unwrap_err(), StartError::NoPriorityPool);
    let exactly: Vec<String> = (0..64).map(|i| format!("t{i}")).collect();
    assert!(plan_start(vec![], exactly, vec![], false).is_ok());
}

#[test]
fn first_failure_wins() {
    let ok_s: Result<(), SourceError> = Ok(());
    let ok_o: Result<(), WriteError> = Ok(());
    assert_eq!(wait_for_all(&vec![ok_s, ok_s], &Ok(()), &vec![ok_o]), Ok(()));
    assert_eq!(
        wait_for_all(
            &vec![ok_s, Err(SourceError::Poll), Err(SourceError::Trigger)],
            &Err(TransformError::Fatal),
            &vec![Err(WriteError::WritePanicked)]
        ),
        Err(PipelineError::Source(SourceError::Poll))
    );
    assert_eq!(
        wait_for_all(&vec![ok_s], &Err(TransformError::NoReceiver), &vec![Err(WriteError::ReplyFailed)]),
        Err(PipelineError::Transform(TransformError::NoReceiver))
    );
    assert_eq!(
        wait_for_all(&vec![], &Ok(()), &vec![ok_o, Err(WriteError::ReplyFailed), Err(WriteError::WritePanicked)]),
        Err(PipelineError::Output(WriteError::ReplyFailed))
    );
}
