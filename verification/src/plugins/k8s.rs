//! Pods of Kubernetes, measured through their control groups.

use crate::measurement::{
    AttributeValue, AttributeValueView, MeasurementBuffer, MeasurementPoint, PointView,
    RawMetricId, Resource, ResourceConsumer, ResourceConsumerView, ResourceView, Timestamp,
    WrappedMeasurementType, WrappedMeasurementValue,
};
use crate::pipeline::registry::{Metric, MetricCreationError, MetricView};
use crate::pipeline::source::PollError;
use crate::plugin::{created, AlumetPluginStart, CounterDiff};
use crate::plugins::cgroupv2::{CgroupMeasurements, CgroupMeasurer};
use crate::text::{
    after_last, ends_with, join, joined, occurs_at, pieces, split_on, text_after_last,
};
use vstd::prelude::*;
use vstd::string::{StrSliceExecFns, StringExecFns};

verus! {

/// Way to retrieve the k8s API token.
#[derive(Clone, Copy, PartialEq, Eq, Debug, Structural)]
pub enum TokenRetrieval {
    Kubectl,
    File,
}

/// The configuration of the plugin.
#[derive(Debug)]
pub struct K8sConfig {
    /// The directory of the cgroups of the pods.
    pub path: String,
    /// Initial interval between two cgroup measurements, in nanoseconds.
    pub poll_interval: u64,
    pub kubernetes_api_url: String,
    /// The name of the node; empty for the name of the machine.
    pub hostname: String,
    /// Way to retrieve the k8s API token.
    pub token_retrieval: TokenRetrieval,
}

impl Default for K8sConfig {
    fn default() -> (c: Self)
        ensures
            c.path@ == "/sys/fs/cgroup/kubepods.slice/"@,
            c.poll_interval == 1_000_000_000,
            c.kubernetes_api_url@ == "https://127.0.0.1:8080"@,
            c.hostname@ == ""@,
            c.token_retrieval == TokenRetrieval::Kubectl,
    {
        K8sConfig {
            path: String::from_str("/sys/fs/cgroup/kubepods.slice/"),
            poll_interval: 1_000_000_000,
            kubernetes_api_url: String::from_str("https://127.0.0.1:8080"),
            hostname: String::from_str(""),
            token_retrieval: TokenRetrieval::Kubectl,
        }
    }
}

/// What the name of the directory of a pod's cgroup tells.
#[derive(Debug, PartialEq, Eq)]
pub struct PodSlice {
    /// The uid of the pod as the cgroup writes it, after `pod`.
    pub uid: String,
    /// The uid of the pod as the API of Kubernetes writes it, with `-` for `_`.
    pub name_to_seek: String,
}

/// The name of a directory without the extension `.slice`, if it has that extension:
/// the name ends with `.slice` and is longer than that.
pub open spec fn slice_stem(file_name: Seq<char>) -> Option<Seq<char>> {
    let ext = ".slice"@;
    if file_name.len() > ext.len() && occurs_at(file_name, ext, file_name.len() - ext.len()) {
        Some(file_name.take(file_name.len() - ext.len()))
    } else {
        None
    }
}

impl PodSlice {
    /// Reads the name of a directory that was created among the cgroups of the pods.
    /// Only a directory with the extension `.slice` is the cgroup of a pod. The uid of
    /// the pod is what follows the last `pod` of the name.
    pub fn parse(file_name: &str) -> (r: Option<Self>)
        ensures
            r.is_some() == slice_stem(file_name@).is_some(),
            r matches Some(p) ==> {
                let raw = after_last(slice_stem(file_name@).unwrap(), "pod"@);
                &&& p.uid@ == "pod"@ + raw
                &&& p.name_to_seek@ == joined(pieces(raw, '_'), "-"@)
            },
    {
        let n = file_name.unicode_len();
        proof {
            reveal_strlit(".slice");
            reveal_strlit("pod");
        }
        if n <= 6 || !ends_with(file_name, ".slice") {
            return None;
        }
        let stem = file_name.substring_char(0, n - 6);
        assert(stem@ =~= file_name@.take(n - 6));
        let raw = text_after_last(stem, "pod");
        let uid = String::from_str("pod").concat(raw);
        let name_to_seek = join(&split_on(raw, '_'), "-");
        Some(PodSlice { uid, name_to_seek })
    }
}

/// The name of the source of a pod: `pod:`, then the namespace, the name and the uid
/// of the pod with `_` between them.
pub fn pod_source_name(namespace: &str, name: &str, uid: &str) -> (r: String)
    ensures
        r@ == "pod:"@ + namespace@ + "_"@ + name@ + "_"@ + uid@,
{
    String::from_str("pod:").concat(namespace).concat("_").concat(name).concat("_").concat(uid)
}

/// The ids of the metrics of a cgroup.
#[derive(Clone, Copy, Eq, PartialEq, Debug, Structural)]
pub struct Metrics {
    /// Total CPU usage time by the cgroup since last measurement
    pub cpu_time_delta: RawMetricId,
    /// Resident memory currently used by the cgroup.
    pub memory_usage: RawMetricId,
    /// Anonymous used memory, corresponding to running process and various allocated memory.
    pub memory_anonymous: RawMetricId,
    /// Files memory, corresponding to open files and descriptors.
    pub memory_file: RawMetricId,
    /// Memory reserved for kernel operations.
    pub memory_kernel: RawMetricId,
    /// Memory used to manage correspondence between virtual and physical addresses.
    pub memory_pagetables: RawMetricId,
    /// Total memory used by cgroup.
    pub memory_total: RawMetricId,
}

/// The definition of a metric of unsigned values.
pub open spec fn definition(name: Seq<char>, unit: Seq<char>, description: Seq<char>) -> MetricView {
    MetricView { name, description, value_type: WrappedMeasurementType::U64, unit }
}

/// The definitions of the metrics of a cgroup, in the order of their creation.
pub open spec fn metric_definitions() -> Seq<MetricView> {
    seq![
        definition(
            "cpu_time_delta"@,
            "ns"@,
            "Total CPU usage time by the cgroup since last measurement"@,
        ),
        definition("memory_usage"@, "B"@, "Resident memory currently used by the cgroup"@),
        definition(
            "cgroup_memory_anonymous"@,
            "B"@,
            "Anonymous used memory, corresponding to running process and various allocated memory"@,
        ),
        definition(
            "cgroup_memory_file"@,
            "B"@,
            "Files memory, corresponding to open files and descriptors"@,
        ),
        definition("cgroup_memory_kernel_stack"@, "B"@, "Memory reserved for kernel operations"@),
        definition(
            "cgroup_memory_pagetables"@,
            "B"@,
            "Memory used to manage correspondence between virtual and physical addresses"@,
        ),
        definition("cgroup_memory_total"@, "B"@, "Total memory used by cgroup"@),
    ]
}

fn define(name: &str, unit: &str, description: &str) -> (m: Metric)
    ensures
        m@ == definition(name@, unit@, description@),
{
    Metric {
        name: String::from_str(name),
        description: String::from_str(description),
        value_type: WrappedMeasurementType::U64,
        unit: String::from_str(unit),
    }
}

impl Metrics {
    /// Creates the metrics of a cgroup, in the order of `metric_definitions`. The first
    /// of them that the plugin has already is an error, and the metrics before it
    /// stay created.
    pub fn new(alumet: &mut AlumetPluginStart) -> (r: Result<Self, MetricCreationError>)
        requires
            old(alumet).wf(),
        ensures
            final(alumet).wf(),
            final(alumet).plugin_name == old(alumet).plugin_name,
            ({
                let (entries, ok) = created(
                    old(alumet).metrics@,
                    old(alumet).plugin_name@,
                    metric_definitions(),
                );
                let first = old(alumet).metrics@.len();
                &&& final(alumet).metrics@ == entries
                &&& r.is_ok() == ok
                &&& r matches Ok(m) ==> {
                    &&& entries.len() == first + 7
                    &&& m == (Metrics {
                        cpu_time_delta: RawMetricId(first as usize),
                        memory_usage: RawMetricId((first + 1) as usize),
                        memory_anonymous: RawMetricId((first + 2) as usize),
                        memory_file: RawMetricId((first + 3) as usize),
                        memory_kernel: RawMetricId((first + 4) as usize),
                        memory_pagetables: RawMetricId((first + 5) as usize),
                        memory_total: RawMetricId((first + 6) as usize),
                    })
                }
            }),
    {
        let mut definitions: Vec<Metric> = Vec::new();
        definitions.push(define("cgroup_memory_total", "B", "Total memory used by cgroup"));
        definitions.push(
            define(
                "cgroup_memory_pagetables",
                "B",
                "Memory used to manage correspondence between virtual and physical addresses",
            ),
        );
        definitions.push(
            define("cgroup_memory_kernel_stack", "B", "Memory reserved for kernel operations"),
        );
        definitions.push(
            define(
                "cgroup_memory_file",
                "B",
                "Files memory, corresponding to open files and descriptors",
            ),
        );
        definitions.push(
            define(
                "cgroup_memory_anonymous",
                "B",
                "Anonymous used memory, corresponding to running process and various allocated memory",
            ),
        );
        definitions.push(
            define("memory_usage", "B", "Resident memory currently used by the cgroup"),
        );
        definitions.push(
            define(
                "cpu_time_delta",
                "ns",
                "Total CPU usage time by the cgroup since last measurement",
            ),
        );
        let ghost all = metric_definitions();
        let ghost first = alumet.metrics@.len();
        let mut ids: Vec<RawMetricId> = Vec::new();
        let mut i: usize = 0;
        assert(all.take(0) =~= Seq::<MetricView>::empty());
        while i < 7
            invariant
                i <= 7,
                all == metric_definitions(),
                first == old(alumet).metrics@.len(),
                definitions.len() == 7 - i,
                forall|k: int| 0 <= k < definitions.len() ==> (#[trigger] definitions[k])@ == all[6 - k],
                alumet.wf(),
                alumet.plugin_name == old(alumet).plugin_name,
                created(old(alumet).metrics@, old(alumet).plugin_name@, all.take(i as int)) == (
                    alumet.metrics@,
                    true,
                ),
                alumet.metrics@.len() == first + i,
                ids.len() == i,
                forall|k: int| 0 <= k < i ==> (#[trigger] ids[k]).0 == first + k,
            decreases 7 - i,
        {
            let m = definitions.pop().unwrap();
            proof {
                assert(all.take(i + 1).drop_last() =~= all.take(i as int));
                assert(all.take(i + 1).last() == all[i as int]);
                assert(m@ == all[i as int]);
            }
            match alumet.create_metric(m) {
                Ok(id) => {
                    ids.push(id);
                },
                Err(e) => {
                    proof {
                        lemma_created_failed(
                            old(alumet).metrics@,
                            old(alumet).plugin_name@,
                            all,
                            i + 1,
                        );
                    }
                    return Err(e);
                },
            }
            i = i + 1;
        }
        assert(all.take(7) =~= all);
        Ok(
            Metrics {
                cpu_time_delta: ids[0],
                memory_usage: ids[1],
                memory_anonymous: ids[2],
                memory_file: ids[3],
                memory_kernel: ids[4],
                memory_pagetables: ids[5],
                memory_total: ids[6],
            },
        )
    }
}

/// Once a creation has failed, the definitions after it change nothing.
proof fn lemma_created_failed(
    entries: Seq<crate::pipeline::registry::EntryView>,
    source: Seq<char>,
    metrics: Seq<MetricView>,
    i: int,
)
    requires
        0 <= i <= metrics.len(),
        !created(entries, source, metrics.take(i)).1,
    ensures
        created(entries, source, metrics) == created(entries, source, metrics.take(i)),
    decreases metrics.len() - i,
{
    if i < metrics.len() {
        assert(metrics.take(i + 1).drop_last() =~= metrics.take(i));
        lemma_created_failed(entries, source, metrics, i + 1);
    } else {
        assert(metrics.take(i) =~= metrics);
    }
}

/// A pod whose cgroup is measured.
#[derive(Debug)]
pub struct WatchedCgroup {
    pub name: String,
    pub uid: String,
    pub namespace: String,
    pub node: String,
    pub measurer: CgroupMeasurer,
}

/// Measures the cgroup of one pod.
#[derive(Debug)]
pub struct K8SProbe {
    pub watched_cgroup: WatchedCgroup,
    pub time_tot: CounterDiff,
    pub time_usr: CounterDiff,
    pub time_sys: CounterDiff,
    pub cpu_time_delta: RawMetricId,
    pub memory_usage: RawMetricId,
    pub memory_anon: RawMetricId,
    pub memory_file: RawMetricId,
    pub memory_kernel: RawMetricId,
    pub memory_pagetables: RawMetricId,
    pub memory_total: RawMetricId,
}

/// The attributes that every point of a pod carries: `uid`, `name`, `namespace` and
/// `node`, in this order.
pub open spec fn pod_attributes(w: WatchedCgroup) -> Seq<(Seq<char>, AttributeValueView)> {
    seq![
        ("uid"@, AttributeValueView::String(w.uid@)),
        ("name"@, AttributeValueView::String(w.name@)),
        ("namespace"@, AttributeValueView::String(w.namespace@)),
        ("node"@, AttributeValueView::String(w.node@)),
    ]
}

/// A point of a pod: about the local machine, with the attributes of the pod.
pub open spec fn pod_point(
    timestamp: Timestamp,
    metric: RawMetricId,
    consumer: ResourceConsumerView,
    value: u64,
    w: WatchedCgroup,
) -> PointView {
    PointView {
        timestamp,
        metric,
        resource: ResourceView::LocalMachine,
        consumer,
        value: WrappedMeasurementValue::U64(value),
        attributes: pod_attributes(w),
    }
}

/// A point with one more attribute, `kind`.
pub open spec fn of_kind(p: PointView, kind: Seq<char>) -> PointView {
    PointView {
        attributes: p.attributes.push(("kind"@, AttributeValueView::String(kind))),
        ..p
    }
}

/// A buffer with one more point of CPU time, if the counter has a difference to tell.
pub open spec fn with_cpu_point(
    points: Seq<PointView>,
    probe: K8SProbe,
    timestamp: Timestamp,
    difference: Option<u64>,
    kind: Seq<char>,
) -> Seq<PointView> {
    match difference {
        Some(d) => points.push(
            of_kind(
                pod_point(
                    timestamp,
                    probe.cpu_time_delta,
                    probe.watched_cgroup.measurer.cpu_stats_consumer@,
                    d,
                    probe.watched_cgroup,
                ),
                kind,
            ),
        ),
        None => points,
    }
}

/// The buffer after a poll: the CPU time since the last poll, in all, in user mode and
/// in system mode, where it is known; then the resident memory, the anonymous memory,
/// the memory of files, of the kernel and of the page tables, and their total.
pub open spec fn polled(
    points: Seq<PointView>,
    probe: K8SProbe,
    timestamp: Timestamp,
    m: CgroupMeasurements,
) -> Seq<PointView> {
    let w = probe.watched_cgroup;
    let stats = w.measurer.memory_stats_consumer@;
    let a = with_cpu_point(
        points,
        probe,
        timestamp,
        probe.time_tot.told(m.cpu_time_total).spec_difference(),
        "total"@,
    );
    let b = with_cpu_point(
        a,
        probe,
        timestamp,
        probe.time_usr.told(m.cpu_time_user_mode).spec_difference(),
        "user"@,
    );
    let c = with_cpu_point(
        b,
        probe,
        timestamp,
        probe.time_sys.told(m.cpu_time_system_mode).spec_difference(),
        "system"@,
    );
    c.push(
        of_kind(
            pod_point(
                timestamp,
                probe.memory_usage,
                w.measurer.memory_current_consumer@,
                m.memory_usage_resident,
                w,
            ),
            "resident"@,
        ),
    ).push(pod_point(timestamp, probe.memory_anon, stats, m.memory_anonymous, w)).push(
        pod_point(timestamp, probe.memory_file, stats, m.memory_file, w),
    ).push(pod_point(timestamp, probe.memory_kernel, stats, m.memory_kernel, w)).push(
        pod_point(timestamp, probe.memory_pagetables, stats, m.memory_pagetables, w),
    ).push(
        pod_point(
            timestamp,
            probe.memory_total,
            stats,
            (m.memory_anonymous + m.memory_file + m.memory_kernel + m.memory_pagetables) as u64,
            w,
        ),
    )
}

impl K8SProbe {
    /// The invariant of the type.
    pub open spec fn wf(&self) -> bool {
        self.time_tot.wf() && self.time_usr.wf() && self.time_sys.wf()
    }

    /// A probe of the pod `watched_cgroup`.
    pub fn new(
        metric: Metrics,
        watched_cgroup: WatchedCgroup,
        counter_tot: CounterDiff,
        counter_sys: CounterDiff,
        counter_usr: CounterDiff,
    ) -> (r: Result<K8SProbe, PollError>)
        ensures
            r == Ok::<K8SProbe, PollError>(
                K8SProbe {
                    watched_cgroup,
                    time_tot: counter_tot,
                    time_usr: counter_usr,
                    time_sys: counter_sys,
                    cpu_time_delta: metric.cpu_time_delta,
                    memory_usage: metric.memory_usage,
                    memory_anon: metric.memory_anonymous,
                    memory_file: metric.memory_file,
                    memory_kernel: metric.memory_kernel,
                    memory_pagetables: metric.memory_pagetables,
                    memory_total: metric.memory_total,
                },
            ),
    {
        Ok(
            K8SProbe {
                watched_cgroup,
                time_tot: counter_tot,
                time_usr: counter_usr,
                time_sys: counter_sys,
                cpu_time_delta: metric.cpu_time_delta,
                memory_usage: metric.memory_usage,
                memory_anon: metric.memory_anonymous,
                memory_file: metric.memory_file,
                memory_kernel: metric.memory_kernel,
                memory_pagetables: metric.memory_pagetables,
                memory_total: metric.memory_total,
            },
        )
    }

    /// Create a measurement point with given value,
    /// the `LocalMachine` resource and some attributes related to the pod.
    fn create_measurement_point(
        &self,
        timestamp: Timestamp,
        metric_id: RawMetricId,
        resource_consumer: ResourceConsumer,
        value_measured: u64,
    ) -> (p: MeasurementPoint)
        ensures
            p@ == pod_point(
                timestamp,
                metric_id,
                resource_consumer@,
                value_measured,
                self.watched_cgroup,
            ),
    {
        let w = &self.watched_cgroup;
        let p = MeasurementPoint::new(
            timestamp,
            metric_id,
            Resource::LocalMachine,
            resource_consumer,
            WrappedMeasurementValue::U64(value_measured),
        ).with_attr(String::from_str("uid"), AttributeValue::String(w.uid.clone())).with_attr(
            String::from_str("name"),
            AttributeValue::String(w.name.clone()),
        ).with_attr(
            String::from_str("namespace"),
            AttributeValue::String(w.namespace.clone()),
        ).with_attr(String::from_str("node"), AttributeValue::String(w.node.clone()));
        assert(p@.attributes =~= pod_attributes(self.watched_cgroup));
        p
    }

    fn push_cpu_point(
        &self,
        measurements: &mut MeasurementBuffer,
        timestamp: Timestamp,
        difference: Option<u64>,
        kind: &str,
    )
        ensures
            final(measurements)@ == with_cpu_point(
                old(measurements)@,
                *self,
                timestamp,
                difference,
                kind@,
            ),
    {
        if let Some(value) = difference {
            let p = self.create_measurement_point(
                timestamp,
                self.cpu_time_delta,
                self.watched_cgroup.measurer.cpu_stats_consumer.duplicate(),
                value,
            ).with_attr(String::from_str("kind"), AttributeValue::String(String::from_str(kind)));
            measurements.push(p);
        }
    }

    /// Turns what was measured of the cgroup at `timestamp` into points, which are
    /// appended to `measurements`. Where the total of the memory does not fit in 64
    /// bits nothing changes.
    pub fn poll(
        &mut self,
        measurements: &mut MeasurementBuffer,
        timestamp: Timestamp,
        metrics: &CgroupMeasurements,
    ) -> (r: Result<(), PollError>)
        requires
            old(self).wf(),
            metrics.cpu_time_total <= old(self).time_tot.max_value,
            metrics.cpu_time_user_mode <= old(self).time_usr.max_value,
            metrics.cpu_time_system_mode <= old(self).time_sys.max_value,
        ensures
            final(self).wf(),
            metrics.memory_anonymous + metrics.memory_file + metrics.memory_kernel
                + metrics.memory_pagetables > u64::MAX ==> {
                &&& r == Err::<(), PollError>(PollError::Fatal)
                &&& *final(self) == *old(self)
                &&& final(measurements)@ == old(measurements)@
            },
            metrics.memory_anonymous + metrics.memory_file + metrics.memory_kernel
                + metrics.memory_pagetables <= u64::MAX ==> {
                &&& r.is_ok()
                &&& final(measurements)@ == polled(
                    old(measurements)@,
                    *old(self),
                    timestamp,
                    *metrics,
                )
                &&& *final(self) == (K8SProbe {
                    time_tot: CounterDiff {
                        previous_value: Some(metrics.cpu_time_total),
                        ..old(self).time_tot
                    },
                    time_usr: CounterDiff {
                        previous_value: Some(metrics.cpu_time_user_mode),
                        ..old(self).time_usr
                    },
                    time_sys: CounterDiff {
                        previous_value: Some(metrics.cpu_time_system_mode),
                        ..old(self).time_sys
                    },
                    ..*old(self)
                })
            },
    {
        let mem_anon_value = metrics.memory_anonymous;
        let mem_file_value = metrics.memory_file;
        let mem_kernel_value = metrics.memory_kernel;
        let mem_pagetables_value = metrics.memory_pagetables;
        let mem_total_value = match mem_anon_value.checked_add(mem_file_value) {
            None => {
                return Err(PollError::Fatal);
            },
            Some(s) => match s.checked_add(mem_kernel_value) {
                None => {
                    return Err(PollError::Fatal);
                },
                Some(s) => match s.checked_add(mem_pagetables_value) {
                    None => {
                        return Err(PollError::Fatal);
                    },
                    Some(s) => s,
                },
            },
        };
        let diff_tot = self.time_tot.update(metrics.cpu_time_total).difference();
        let diff_usr = self.time_usr.update(metrics.cpu_time_user_mode).difference();
        let diff_sys = self.time_sys.update(metrics.cpu_time_system_mode).difference();

        // the CPU time, where there is a difference to tell
        self.push_cpu_point(measurements, timestamp, diff_tot, "total");
        self.push_cpu_point(measurements, timestamp, diff_usr, "user");
        self.push_cpu_point(measurements, timestamp, diff_sys, "system");

        // the resident memory
        let m_usage = self.create_measurement_point(
            timestamp,
            self.memory_usage,
            self.watched_cgroup.measurer.memory_current_consumer.duplicate(),
            metrics.memory_usage_resident,
        ).with_attr(
            String::from_str("kind"),
            AttributeValue::String(String::from_str("resident")),
        );
        measurements.push(m_usage);

        // the memory by use, and its total
        let m_anon = self.create_measurement_point(
            timestamp,
            self.memory_anon,
            self.watched_cgroup.measurer.memory_stats_consumer.duplicate(),
            mem_anon_value,
        );
        measurements.push(m_anon);
        let m_file = self.create_measurement_point(
            timestamp,
            self.memory_file,
            self.watched_cgroup.measurer.memory_stats_consumer.duplicate(),
            mem_file_value,
        );
        measurements.push(m_file);
        let m_ker = self.create_measurement_point(
            timestamp,
            self.memory_kernel,
            self.watched_cgroup.measurer.memory_stats_consumer.duplicate(),
            mem_kernel_value,
        );
        measurements.push(m_ker);
        let m_pgt = self.create_measurement_point(
            timestamp,
            self.memory_pagetables,
            self.watched_cgroup.measurer.memory_stats_consumer.duplicate(),
            mem_pagetables_value,
        );
        measurements.push(m_pgt);
        let m_tot = self.create_measurement_point(
            timestamp,
            self.memory_total,
            self.watched_cgroup.measurer.memory_stats_consumer.duplicate(),
            mem_total_value,
        );
        measurements.push(m_tot);
        Ok(())
    }
}

} // verus!
