use alumet::measurement::{MeasurementBuffer, RawMetricId, ResourceConsumer, Timestamp};
use alumet::pipeline::registry::{MetricCreationError, MetricRegistry};
use alumet::plugin::{AlumetPluginStart, CounterDiff, CounterDiffUpdate};
use alumet::plugins::cgroupv2::{CgroupMeasurements, CgroupMeasurer, MeasureError, StatFile};
use alumet::pipeline::source::PollError;
use alumet::plugins::k8s::{K8SProbe, Metrics, TokenRetrieval, WatchedCgroup};

// Test `from_str` function with in extracted result,
// a negative value to test representation
#[test]
fn test_signed_values() {
    let str_cpu = "
            usage_usec -10000
            user_usec -20000
            system_usec -30000";

    let str_memory = "
            anon -10000
            file -20000
            kernel_stack -30000
            pagetables -40000
            percpu 890784
            sock 16384
            shmem 2453504
            file_mapped -50000
            ....";

    CgroupMeasurements::from_str(str_cpu).expect_err("ERROR : Signed value");
    CgroupMeasurements::from_str(str_memory).expect_err("ERROR : Signed value");
}

// Test `from_str` function with in extracted result,
// a float or decimal value
#[test]
fn test_double_values() {
    let str_cpu = "
            usage_usec 10000.05
            user_usec 20000.25
            system_usec 30000.33";

    let str_memory = "
            anon 10000.05
            file 20000.25
            kernel_stack 30000.33
            pagetables 124325768932.56";

    CgroupMeasurements::from_str(str_cpu).expect_err("ERROR : Decimal value");
    CgroupMeasurements::from_str(str_memory).expect_err("ERROR : Decimal value");
}

// Test `from_str` function with in extracted result,
// a null, empty or incompatible string
#[test]
fn test_invalid_values() {
    let str_cpu = "
            usage_usec !#⚠
            user_usec
            system_usec -123abc";

    let str_memory = "
            anon !#⚠
            file
            pagetables -123abc
            ...";

    CgroupMeasurements::from_str(str_cpu).expect_err("ERROR : Incompatible value");
    CgroupMeasurements::from_str(str_memory).expect_err("ERROR : Incompatible value");
}

// Test `from_str` function with in extracted result,
// an empty string
#[test]
fn test_empty_values() {
    let str: &str = "";
    let result = CgroupMeasurements::from_str(str).unwrap();
    // Memory file str
    assert_eq!(result.memory_anonymous, 0);
    assert_eq!(result.memory_file, 0);
    assert_eq!(result.memory_kernel, 0);
    assert_eq!(result.memory_pagetables, 0);
    // CPU file str
    assert_eq!(result.cpu_time_total, 0);
    assert_eq!(result.cpu_time_user_mode, 0);
    assert_eq!(result.cpu_time_system_mode, 0);
}

// Test for calculating `mem_total` with structure parameters
#[test]
fn test_calc_mem() {
    let result = CgroupMeasurements {
        cpu_time_total: 64,
        cpu_time_user_mode: 16,
        cpu_time_system_mode: 32,
        memory_usage_resident: 0,
        memory_anonymous: 1024,
        memory_file: 256,
        memory_kernel: 4096,
        memory_pagetables: 512,
    };

    let expected = CgroupMeasurements {
        cpu_time_total: 64,
        cpu_time_user_mode: 16,
        cpu_time_system_mode: 32,
        memory_usage_resident: 0,
        memory_anonymous: 1024,
        memory_file: 256,
        memory_kernel: 4096,
        memory_pagetables: 512,
    };

    assert_eq!(result, expected);

    let mem_total =
        result.memory_anonymous + result.memory_file + result.memory_kernel + result.memory_pagetables;
    assert_eq!(mem_total, 5888);
}

#[test]
fn load_cpu_and_memory_stat() {
    let mut m = CgroupMeasurements::new();
    let mut cpu = String::from("usage_usec 100\nuser_usec 60\r\nsystem_usec +40\nnr_periods 0\n\nlonely\n");
    m.load_from_cpu_stat(&mut cpu).unwrap();
    assert_eq!(m.cpu_time_total, 100);
    assert_eq!(m.cpu_time_user_mode, 60);
    assert_eq!(m.cpu_time_system_mode, 40);
    assert_eq!(m.memory_anonymous, 0);
    let mut mem = String::from("anon 1\nfile 2\nkernel_stack 3\npagetables 4\nusage_usec 9\nanon 18446744073709551615");
    m.load_from_memory_stat(&mut mem).unwrap();
    assert_eq!(m.memory_anonymous, u64::MAX);
    assert_eq!(m.memory_file, 2);
    assert_eq!(m.memory_kernel, 3);
    assert_eq!(m.memory_pagetables, 4);
    // a key of the other file changes nothing
    assert_eq!(m.cpu_time_total, 100);
}

#[test]
fn load_stops_at_the_first_bad_value() {
    let mut m = CgroupMeasurements::new();
    let e = m
        .load(StatFile::Cpu, "usage_usec 7\nother 18446744073709551616\nuser_usec 5")
        .unwrap_err();
    assert_eq!(e.value(), "18446744073709551616");
    assert_eq!(e.message(), "Parsing of value : 18446744073709551616");
    assert_eq!(m.cpu_time_total, 7);
    assert_eq!(m.cpu_time_user_mode, 0);
}

#[test]
fn measurer_paths_and_errors() {
    let m = CgroupMeasurer::new(String::from("pod-a"), String::from("/sys/fs/cgroup/x/"));
    assert_eq!(m.name(), "pod-a");
    assert_eq!(m.cpu_stats_path(), "/sys/fs/cgroup/x/cpu.stats");
    assert_eq!(m.memory_stats_path(), "/sys/fs/cgroup/x/memory.stats");
    assert_eq!(m.memory_current_path(), "/sys/fs/cgroup/x/memory_current");
    match &m.cpu_stats_consumer {
        ResourceConsumer::ControlGroup { path } => assert_eq!(path, "/sys/fs/cgroup/x/cpu.stats"),
        _ => panic!("unexpected consumer"),
    }
    assert_eq!(m.measure("", "anon 1"), Err(MeasureError::EmptyCpuStat));
    assert_eq!(m.measure("usage_usec 1", ""), Err(MeasureError::EmptyMemoryStat));
    assert!(matches!(m.measure("usage_usec x", ""), Err(MeasureError::CpuStat(_))));
    assert!(matches!(m.measure("usage_usec 1", "anon -1"), Err(MeasureError::MemoryStat(_))));
    let ok = m.measure("usage_usec 1\nuser_usec 2", "anon 3\nfile 4").unwrap();
    assert_eq!(ok.cpu_time_total, 1);
    assert_eq!(ok.cpu_time_user_mode, 2);
    assert_eq!(ok.memory_anonymous, 3);
    assert_eq!(ok.memory_file, 4);
}

#[test]
fn counter_diff() {
    let mut c = CounterDiff::with_max_value(100);
    assert_eq!(c.update(10), CounterDiffUpdate::FirstTime);
    assert_eq!(c.update(25), CounterDiffUpdate::Difference(15));
    assert_eq!(c.update(25).difference(), Some(0));
    // the counter passed 100 and started again: 75 to the end, 1 to zero, 5 more
    assert_eq!(c.update(5), CounterDiffUpdate::CorrectedDifference(81));
    assert_eq!(CounterDiffUpdate::FirstTime.difference(), None);
}

fn watched() -> WatchedCgroup {
    WatchedCgroup {
        name: String::from("pod"),
        uid: String::from("uid1"),
        namespace: String::from("ns"),
        node: String::from("node1"),
        measurer: CgroupMeasurer::new(String::from("pod"), String::from("/cg/")),
    }
}

#[test]
fn k8s_metrics_and_probe() {
    let mut start = AlumetPluginStart::new(String::from("k8s"), MetricRegistry::new());
    let metrics = Metrics::new(&mut start).unwrap();
    assert_eq!(metrics.cpu_time_delta, RawMetricId::new(0));
    assert_eq!(metrics.memory_usage, RawMetricId::new(1));
    assert_eq!(metrics.memory_total, RawMetricId::new(6));
    assert_eq!(start.metrics.len(), 7);
    assert_eq!(start.metrics.with_id(&RawMetricId::new(4)).unwrap().name, "cgroup_memory_kernel_stack");
    assert_eq!(start.metrics.with_id(&RawMetricId::new(0)).unwrap().unit, "ns");
    assert_eq!(start.add_source(alumet::pipeline::source::SourceType::Normal, alumet::pipeline::trigger::Trigger::at_interval(Timestamp::new(0), 1, 2)), 0);
    assert_eq!(start.add_transform(), 0);
    start.next_plugin(String::from("other"));
    assert_eq!(start.add_transform(), 1);
    assert_eq!(start.add_output(), 0);
    assert_eq!(start.sources[0].plugin_name, "k8s");
    assert_eq!(start.transforms, vec!["k8s", "other"]);
    assert_eq!(start.outputs, vec!["other"]);
    start.next_plugin(String::from("k8s"));
    // the metrics exist now: creating them again fails and adds nothing
    assert_eq!(Metrics::new(&mut start), Err(MetricCreationError::Duplicate));
    assert_eq!(start.metrics.len(), 7);

    let max = alumet::plugins::cgroupv2::CGROUP_MAX_TIME_COUNTER;
    let mut probe = K8SProbe::new(
        metrics,
        watched(),
        CounterDiff::with_max_value(max),
        CounterDiff::with_max_value(max),
        CounterDiff::with_max_value(max),
    )
    .unwrap();
    let mut buf = MeasurementBuffer::new();
    let mut m = CgroupMeasurements::new();
    m.cpu_time_total = 10;
    m.memory_anonymous = 1024;
    m.memory_file = 256;
    m.memory_kernel = 4096;
    m.memory_pagetables = 512;
    // first poll: no CPU difference yet, six points of memory
    probe.poll(&mut buf, Timestamp::new(1), &m).unwrap();
    assert_eq!(buf.len(), 6);
    let total = buf.get(5).unwrap();
    assert_eq!(total.metric, metrics.memory_total);
    assert_eq!(total.value, alumet::measurement::WrappedMeasurementValue::U64(5888));
    assert_eq!(total.attributes.len(), 4);
    assert_eq!(total.attributes[0].0, "uid");
    let resident = buf.get(0).unwrap();
    assert_eq!(resident.attributes.len(), 5);
    assert_eq!(resident.attributes[4].0, "kind");
    // second poll: three points of CPU time come first
    m.cpu_time_total = 25;
    m.cpu_time_user_mode = 5;
    probe.poll(&mut buf, Timestamp::new(2), &m).unwrap();
    assert_eq!(buf.len(), 15);
    let cpu = buf.get(6).unwrap();
    assert_eq!(cpu.metric, metrics.cpu_time_delta);
    assert_eq!(cpu.value, alumet::measurement::WrappedMeasurementValue::U64(15));
    assert_eq!(buf.get(7).unwrap().value, alumet::measurement::WrappedMeasurementValue::U64(5));
    // a total that does not fit changes nothing
    m.memory_anonymous = u64::MAX;
    assert_eq!(probe.poll(&mut buf, Timestamp::new(3), &m), Err(PollError::Fatal));
    assert_eq!(buf.len(), 15);
    assert_ne!(TokenRetrieval::Kubectl, TokenRetrieval::File);
}
