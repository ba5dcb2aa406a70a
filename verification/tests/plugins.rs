use alumet::cgroup::detect::{CgroupCallback, DetectorState};
use alumet::cgroup::hierarchy::{Cgroup, CgroupHierarchy, ControllersFile, ReleaseAgent};
use alumet::cgroup::wait::{EventKind, Handler, HandlerAction, HandlerPhase, MountWaitMechanism, WatchEvent};
use alumet::expectations::{check_metric, contains_text, StartupExpectations, Unfulfilled};
use alumet::measurement::{
    AttributeValue, MeasurementPoint, RawMetricId, Resource, ResourceConsumer, Timestamp,
    WrappedMeasurementType, WrappedMeasurementValue,
};
use alumet::pipeline::registry::{Metric, MetricRegistry};
use alumet::pipeline::source::SourceType;
use alumet::plugins::attribution::{AggregateOperator, AttributionKey, Formula, FormulaInput, Input};
use alumet::plugins::k8s::{pod_source_name, K8sConfig, PodSlice, TokenRetrieval};
use alumet::plugins::nvidia::{DetectionStats, NvidiaError, NvidiaPlugin};
use alumet::plugins::oar::{Config as OarConfig, OarVersion};
use alumet::plugins::slurm::{
    extract_job, find_jobid_in_attrs, Config, JobPath, JobSourceSetup, SlurmCgroupVersion, SlurmError,
    SlurmPlugin, JOB_REGEX_SLURM2,
};
use alumet::text::{
    chars_of, ends_with, join, lines, parse_u64, same_text, split_ascii_whitespace, split_on,
    starts_with_char, text_after_last, trim_ascii_start,
};
use alumet::timeseries::grouped_buffer::{GroupedBuffer, Key};
use alumet::timeseries::GroupKey;

fn strs(v: &[&str]) -> Vec<String> {
    v.iter().map(|s| s.to_string()).collect()
}

#[test]
fn text_splitting() {
    assert_eq!(split_ascii_whitespace("  a\tbc \r\n d\x0C"), strs(&["a", "bc", "d"]));
    assert_eq!(split_ascii_whitespace(""), Vec::<String>::new());
    assert_eq!(split_ascii_whitespace(" \n "), Vec::<String>::new());
    // a no-break space is not ASCII whitespace
    assert_eq!(split_ascii_whitespace("a\u{a0}b c"), strs(&["a\u{a0}b", "c"]));
    assert_eq!(split_on("a,b,,c", ','), strs(&["a", "b", "", "c"]));
    assert_eq!(split_on("", ','), strs(&[""]));
    assert_eq!(split_on(",", ','), strs(&["", ""]));
    assert_eq!(lines("a\nb\r\n\nc"), strs(&["a", "b", "", "c"]));
    assert_eq!(lines("a\n"), strs(&["a"]));
    assert_eq!(lines(""), Vec::<String>::new());
    assert_eq!(lines("\n"), strs(&[""]));
    // a carriage return belongs to the line ending only before a line feed
    assert_eq!(lines("a\rb\r"), strs(&["a\rb\r"]));
    assert_eq!(lines("é\r\nü"), strs(&["é", "ü"]));
    assert_eq!(trim_ascii_start(" \t\r\n x y "), "x y ");
    assert_eq!(trim_ascii_start(""), "");
    assert_eq!(trim_ascii_start("   "), "");
    assert!(starts_with_char("#x", '#'));
    assert!(!starts_with_char("", '#'));
    assert!(!starts_with_char(" #", '#'));
    assert!(same_text("abc", "abc"));
    assert!(!same_text("abc", "abd"));
    assert!(!same_text("abc", "ab"));
    assert_eq!(chars_of("héllo"), vec!['h', 'é', 'l', 'l', 'o']);
    assert_eq!(join(&strs(&["a", "b", "c"]), "-"), "a-b-c");
    assert_eq!(join(&strs(&["a"]), "-"), "a");
    assert_eq!(join(&strs(&[]), "-"), "");
    assert!(ends_with("kubepods.slice", ".slice"));
    assert!(!ends_with("slice", ".slice"));
    assert_eq!(text_after_last("a-pod1-pod2", "pod"), "2");
    assert_eq!(text_after_last("nothing", "pod"), "nothing");
    assert_eq!(text_after_last("pod", "pod"), "");
    assert_eq!(text_after_last("po", "pod"), "po");
}

#[test]
fn text_numbers() {
    assert_eq!(parse_u64("0"), Some(0));
    assert_eq!(parse_u64("0042"), Some(42));
    assert_eq!(parse_u64("+7"), Some(7));
    assert_eq!(parse_u64("18446744073709551615"), Some(u64::MAX));
    assert_eq!(parse_u64("18446744073709551616"), None);
    assert_eq!(parse_u64("99999999999999999999999"), None);
    assert_eq!(parse_u64(""), None);
    assert_eq!(parse_u64("+"), None);
    assert_eq!(parse_u64("-1"), None);
    assert_eq!(parse_u64("++1"), None);
    assert_eq!(parse_u64("1.5"), None);
    assert_eq!(parse_u64("1 "), None);
    assert_eq!(parse_u64("١"), None);
}

#[test]
fn slurm_jobs() {
    assert_eq!(extract_job("/system.slice/slurmstepd.scope/job_1234/step_0"), JobPath::Job(1234));
    assert_eq!(extract_job("/system.slice/slurmstepd.scope/job_007"), JobPath::Job(7));
    // a dot of the pattern stands for any character
    assert_eq!(extract_job("/system-slice/slurmstepdXscope/job_5"), JobPath::Job(5));
    assert_eq!(extract_job("/system\nslice/slurmstepd.scope/job_5"), JobPath::NotAJob);
    assert_eq!(extract_job("/system.slice/slurmstepd.scope/job_"), JobPath::NotAJob);
    assert_eq!(extract_job("/system.slice/slurmstepd.scope/job_x1"), JobPath::NotAJob);
    assert_eq!(extract_job("x/system.slice/slurmstepd.scope/job_1"), JobPath::NotAJob);
    assert_eq!(extract_job("/system.slice/ssh.service"), JobPath::NotAJob);
    assert_eq!(extract_job(""), JobPath::NotAJob);
    assert_eq!(extract_job("/system.slice/slurmstepd.scope/job_99999999999999999999"), JobPath::TooLong);
    assert!(JOB_REGEX_SLURM2.starts_with("^/system.slice/slurmstepd.scope/job_"));

    let setup = JobSourceSetup::new(Config::default()).unwrap();
    assert!(setup.jobs_only);
    assert_eq!(setup.poll_interval, 1_000_000_000);
    let probe = setup.setup_new_probe("/system.slice/slurmstepd.scope/job_42/x", "unique").unwrap();
    assert_eq!(probe.name, "slurm-job-42");
    assert_eq!(probe.attrs.len(), 1);
    assert_eq!(probe.attrs[0].0, "job_id");
    assert_eq!(find_jobid_in_attrs(&probe.attrs), Some(42));
    assert_eq!(probe.poll_interval, 1_000_000_000);
    assert!(setup.setup_new_probe("/system.slice/ssh.service", "unique").is_none());
    let all = JobSourceSetup { poll_interval: 5, jobs_only: false };
    let probe = all.setup_new_probe("/system.slice/ssh.service", "ssh [v2]").unwrap();
    assert_eq!(probe.name, "cgroup ssh [v2]");
    assert!(probe.attrs.is_empty());
    let big = all.setup_new_probe("/system.slice/slurmstepd.scope/job_18446744073709551615", "u").unwrap();
    assert_eq!(big.name, "slurm-job-18446744073709551615");
}

#[test]
fn slurm_attributes_and_plugin() {
    let attrs = vec![
        (String::from("user"), AttributeValue::String(String::from("root"))),
        (String::from("job_id"), AttributeValue::U64(9)),
        (String::from("job_id"), AttributeValue::U64(10)),
    ];
    assert_eq!(find_jobid_in_attrs(&attrs), Some(9));
    assert_eq!(find_jobid_in_attrs(&vec![]), None);
    assert_eq!(find_jobid_in_attrs(&vec![(String::from("job"), AttributeValue::Bool(true))]), None);

    let config = Config { oar_version: SlurmCgroupVersion::V1, poll_interval: 3, jobs_only: false };
    let mut plugin = SlurmPlugin::new(config);
    assert_eq!(plugin.config, Some(config));
    assert!(plugin.starting_state.is_none());
    assert_eq!(SlurmPlugin::name(), "slurm");
    assert_eq!(plugin.start(), Ok(()));
    assert!(plugin.config.is_none());
    let setup = plugin.starting_state.unwrap().source_setup;
    assert_eq!(setup, JobSourceSetup { poll_interval: 3, jobs_only: false });
    assert_eq!(plugin.start(), Err(SlurmError::NoConfig));
    let d = Config::default();
    assert_eq!(d.oar_version, SlurmCgroupVersion::V2);
    let o = OarConfig::default();
    assert_eq!(o.oar_version, OarVersion::Oar3);
    assert_eq!(o.poll_interval, 1_000_000_000);
    assert!(o.jobs_only);
    assert!(!o.initial_state_to_pause);
}

#[test]
fn nvidia_start() {
    let p = NvidiaPlugin::init();
    assert_eq!(p.poll_interval, 1_000_000_000);
    assert_eq!(NvidiaPlugin::name(), "nvidia");
    let none = DetectionStats { found_devices: 0, working_devices: 0 };
    assert_eq!(p.start_nvml(none, &vec![]), Err(NvidiaError::NoDevice));
    let broken = DetectionStats { found_devices: 2, working_devices: 0 };
    assert_eq!(
        p.start_nvml(broken, &vec![false, false]),
        Err(NvidiaError::NoWorkingDevice { found_devices: 2 })
    );
    let some = DetectionStats { found_devices: 3, working_devices: 2 };
    assert_eq!(p.start_nvml(some, &vec![true, false, true]), Ok(vec![0, 2]));
    assert_eq!(p.start_jetson(0), Err(NvidiaError::NoSensor));
    assert_eq!(p.start_jetson(2), Ok(()));
}

// Test the default configuration of the k8s plugin
#[test]
fn test_default_config() {
    let result = Some(K8sConfig::default());
    assert!(result.is_some(), "result = None");

    let config = result.unwrap();

    assert_eq!(config.path, "/sys/fs/cgroup/kubepods.slice/");
    assert_eq!(config.poll_interval, 1_000_000_000);
    assert_eq!(config.kubernetes_api_url, "https://127.0.0.1:8080");
    assert_eq!(config.hostname, "");
    assert_eq!(config.token_retrieval, TokenRetrieval::Kubectl);
}

#[test]
fn k8s_pods() {
    let p = PodSlice::parse("kubepods-besteffort-pod1234_abcd_ef.slice").unwrap();
    assert_eq!(p.uid, "pod1234_abcd_ef");
    assert_eq!(p.name_to_seek, "1234-abcd-ef");
    let p = PodSlice::parse("podApodB.slice").unwrap();
    assert_eq!(p.uid, "podB");
    assert_eq!(p.name_to_seek, "B");
    let p = PodSlice::parse("plain.slice").unwrap();
    assert_eq!(p.uid, "podplain");
    assert_eq!(p.name_to_seek, "plain");
    assert_eq!(PodSlice::parse("TESTTTTT"), None);
    assert_eq!(PodSlice::parse("a.scope"), None);
    assert_eq!(PodSlice::parse(".slice"), None);
    assert_eq!(PodSlice::parse(""), None);
    assert_eq!(pod_source_name("ns", "name", "uid"), "pod:ns_name_uid");
    let c = K8sConfig::default();
    assert_eq!(c.path, "/sys/fs/cgroup/kubepods.slice/");
    assert_eq!(c.poll_interval, 1_000_000_000);
    assert_eq!(c.kubernetes_api_url, "https://127.0.0.1:8080");
    assert_eq!(c.hostname, "");
    assert_eq!(c.token_retrieval, TokenRetrieval::Kubectl);
}

fn metric(name: &str, unit: &str, value_type: WrappedMeasurementType) -> Metric {
    Metric { name: name.to_owned(), description: String::from("d"), value_type, unit: unit.to_owned() }
}

#[test]
fn startup_expectations() {
    let mut registry = MetricRegistry::new();
    let plugin = String::from("p");
    registry.register(metric("energy", "J", WrappedMeasurementType::F64), &plugin);
    registry.register(metric("count", "", WrappedMeasurementType::U64), &plugin);
    let plugins = strs(&["p", "q"]);

    let e = StartupExpectations::default()
        .start_metric(metric("count", "", WrappedMeasurementType::U64))
        .start_metric(metric("energy", "J", WrappedMeasurementType::F64))
        .plugin("q")
        .element_source("p", "source1", SourceType::Normal)
        .element_transform("p", "tron")
        .element_output("q", "out");
    assert_eq!(e.metrics.len(), 2);
    assert_eq!(e.sources, vec![(String::from("p"), String::from("source1"), SourceType::Normal)]);
    assert_eq!(e.transforms, vec![(String::from("p"), String::from("tron"))]);
    assert_eq!(e.outputs, vec![(String::from("q"), String::from("out"))]);
    assert_eq!(e.apply(&registry, &plugins), Ok(()));

    let e = StartupExpectations::default()
        .start_metric(metric("count", "", WrappedMeasurementType::U64))
        .start_metric(metric("missing", "J", WrappedMeasurementType::F64));
    assert_eq!(e.apply(&registry, &plugins), Err(Unfulfilled::MissingMetric(1)));
    let e = StartupExpectations::default().start_metric(metric("energy", "W", WrappedMeasurementType::F64));
    assert_eq!(e.apply(&registry, &plugins), Err(Unfulfilled::WrongUnit(0)));
    let e = StartupExpectations::default().start_metric(metric("energy", "J", WrappedMeasurementType::U64));
    assert_eq!(e.apply(&registry, &plugins), Err(Unfulfilled::WrongType(0)));
    let e = StartupExpectations::default().plugin("p").plugin("r");
    assert_eq!(e.apply(&registry, &plugins), Err(Unfulfilled::MissingPlugin(1)));
    assert_eq!(check_metric(&registry, &metric("count", "", WrappedMeasurementType::U64), 5), None);
    assert!(contains_text(&plugins, "q"));
    assert!(!contains_text(&plugins, "qq"));
}

#[test]
fn mount_wait_handler() {
    let created = WatchEvent { kind: EventKind::Create, mentions_wanted_path: true, mentions_child: false };
    let child = WatchEvent { kind: EventKind::Other, mentions_wanted_path: false, mentions_child: true };
    let removed = WatchEvent { kind: EventKind::Remove, mentions_wanted_path: false, mentions_child: true };

    // mkdir immediately followed by mount
    let mut h = Handler::new();
    assert_eq!(h.on_event(created), HandlerAction::LookNow);
    assert_eq!(h.phase, HandlerPhase::FirstLook);
    assert_eq!(h.on_look(false, true), HandlerAction::RunCallback);
    assert!(!h.callback_pending);
    // the callback runs once
    assert_eq!(h.on_event(child), HandlerAction::Nothing);

    // the directory stays empty: the callback is handed over to a watch of the directory
    let mut h = Handler::new();
    h.on_event(created);
    assert_eq!(h.on_look(true, true), HandlerAction::LookAfterShortWait);
    assert_eq!(h.on_look(true, true), HandlerAction::WatchDirectory);
    assert!(!h.callback_pending);
    assert_eq!(h.phase, HandlerPhase::Idle);

    // the watcher is gone
    let mut h = Handler::new();
    h.on_event(created);
    h.on_look(true, false);
    assert_eq!(h.on_look(true, false), HandlerAction::RunCallback);

    let mut h = Handler::new();
    assert_eq!(h.on_event(removed), HandlerAction::Nothing);
    assert!(h.callback_pending);
    assert_eq!(h.on_event(child), HandlerAction::RunCallback);
    assert_ne!(MountWaitMechanism::NotifyAuto, MountWaitMechanism::NotifyPoll { interval: 1 });
}

struct Recorder {
    seen: Vec<String>,
    errors: Vec<String>,
}

impl CgroupCallback for Recorder {
    fn on_new_cgroup(&mut self, cgroup: Cgroup) {
        self.seen.push(cgroup.cgroup_path().to_owned());
    }

    fn on_error(&mut self, err: String) {
        self.errors.push(err);
    }
}

#[test]
fn detector_reports_each_cgroup_once() {
    let h = CgroupHierarchy::new_at(
        String::from("/sys/fs/cgroup"),
        &ControllersFile::Content(String::from("cpu")),
        ReleaseAgent::Unknown,
    )
    .unwrap();
    let at = |p: &str| Cgroup::new(&h, format!("/sys/fs/cgroup/{p}"));
    let mut state = DetectorState::new(Recorder { seen: vec![], errors: vec![] });
    assert!(!state.is_known("a"));
    assert_eq!(state.register_cgroups(vec![at("a"), at("b"), at("a")]), 2);
    assert!(state.is_known("a"));
    assert!(state.is_known("b"));
    assert!(!state.is_known("/sys/fs/cgroup/a"));
    assert_eq!(state.register_cgroups(vec![at("b"), at("c")]), 1);
    assert!(state.forget("a"));
    assert!(!state.forget("a"));
    assert!(!state.is_known("a"));
    assert_eq!(state.register_cgroups(vec![at("a")]), 1);
    state.propagate_error(String::from("oops"));
    assert!(state.is_known("c"));
}

#[test]
fn attribution() {
    let key = AttributionKey {
        metric: RawMetricId(1),
        resource: Resource::CpuPackage { id: 0 },
        consumer: ResourceConsumer::LocalMachine,
    };
    let formula = Formula {
        metrics_mapping: vec![(String::from("cpu_energy"), RawMetricId(1)), (String::from("usage"), RawMetricId(2))],
        reference_serie: RawMetricId(1),
        result_metric: RawMetricId(9),
        resource_kind: String::from("cpu_package"),
        resource_aggregate: AggregateOperator::Sum,
        ref_key: key,
    };
    let point = |metric: usize, t: u64, v: u64| {
        MeasurementPoint::new(
            Timestamp::new(t),
            RawMetricId(metric),
            Resource::CpuPackage { id: 0 },
            ResourceConsumer::LocalMachine,
            WrappedMeasurementValue::U64(v),
        )
        .with_attr(String::from("a"), AttributeValue::Bool(true))
    };
    let mut input: GroupedBuffer<AttributionKey> = GroupedBuffer::new();
    for p in [point(1, 2, 100), point(2, 0, 10), point(1, 8, 300), point(2, 10, 20)] {
        let k = <AttributionKey as Key>::new(&p);
        input.push(k, p);
    }
    let aligned = formula.apply_to_all(input).unwrap();
    assert_eq!(aligned.reference.len(), 2);
    assert_eq!(aligned.series.len(), 1);
    assert_eq!(aligned.series[0].key.metric, RawMetricId(2));
    assert_eq!(formula.inputs(&aligned), vec![Input::Reference, Input::Series(0)]);
    let row = aligned.reference.get(1).unwrap();
    let out = formula.emit(row, (42.5f64).to_bits());
    assert_eq!(out.metric, RawMetricId(9));
    assert_eq!(out.timestamp, Timestamp::new(8));
    assert_eq!(out.value, WrappedMeasurementValue::F64 { bits: (42.5f64).to_bits() });
    assert!(matches!(out.resource, Resource::CpuPackage { id: 0 }));
    assert_eq!(out.attributes.len(), 1);
    assert_eq!(out.attributes[0].0, "a");
    let input = FormulaInput { metric: RawMetricId(2), attributes_filter: vec![] };
    assert_eq!(input.metric, RawMetricId(2));

    let p = point(3, 1, 1);
    let g = <GroupKey as Key>::new(&p);
    assert_eq!(g.0, RawMetricId(3));
    assert!(g.same(&g.duplicate()));
    let other = <GroupKey as Key>::new(&point(4, 1, 1));
    assert!(!g.same(&other));
}
