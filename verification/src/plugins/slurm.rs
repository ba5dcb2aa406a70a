//! Jobs of Slurm, measured through their control groups.
//!
//! The cgroup of a job is known by its path in the hierarchy, which starts with
//! `/system.slice/slurmstepd.scope/job_` and the number of the job.

use crate::measurement::{AttributeValue, AttributeValueView};
use crate::text::{decimal, parse_u64, parsed_u64, same_text, u64_to_string};
use crate::text::chars_of;
use vstd::prelude::*;
use vstd::string::{StrSliceExecFns, StringExecFns};

verus! {

/// The pattern of the path of a job with Slurm on cgroups of version 1.
pub const JOB_REGEX_SLURM1: &'static str = "^/oar/(?<user>[a-zA-Z]+)_(?<job_id__u64>[0-9]+)";

/// The pattern of the path of a job with Slurm on cgroups of version 2.
pub const JOB_REGEX_SLURM2: &'static str =
    "^/system.slice/slurmstepd.scope/job_(?<job_id__u64>[0-9]+)";

/// The version of the cgroups that Slurm runs on.
#[derive(Debug, Clone, Copy, PartialEq, Eq, Structural)]
pub enum SlurmCgroupVersion {
    V1,
    V2,
}

/// The configuration of the plugin.
#[derive(Debug, Clone, Copy, PartialEq, Eq, Structural)]
pub struct Config {
    pub oar_version: SlurmCgroupVersion,
    /// The interval between two polls, in nanoseconds.
    pub poll_interval: u64,
    pub jobs_only: bool,
}

impl Default for Config {
    /// Version 2, one poll per second, jobs only.
    fn default() -> (c: Self)
        ensures
            c == (Config {
                oar_version: SlurmCgroupVersion::V2,
                poll_interval: 1_000_000_000,
                jobs_only: true,
            }),
    {
        Config {
            oar_version: SlurmCgroupVersion::V2,
            poll_interval: 1_000_000_000,
            jobs_only: true,
        }
    }
}

/// The attributes of a sequence, each by its mathematical value.
pub open spec fn attribute_views(attrs: Seq<(String, AttributeValue)>) -> Seq<
    (Seq<char>, AttributeValueView),
> {
    Seq::new(attrs.len(), |i: int| (attrs[i].0@, attrs[i].1@))
}

/// The position of the first attribute named `job_id`, or the number of attributes if
/// there is none.
pub open spec fn job_id_position(attrs: Seq<(Seq<char>, AttributeValueView)>) -> int
    decreases attrs.len(),
{
    if attrs.len() == 0 {
        0
    } else if attrs[0].0 == "job_id"@ {
        0
    } else {
        1 + job_id_position(attrs.skip(1))
    }
}

/// The number of the job among the attributes: the value of the first attribute named
/// `job_id`, which is an unsigned number.
pub fn find_jobid_in_attrs(attrs: &Vec<(String, AttributeValue)>) -> (r: Option<u64>)
    requires
        ({
            let a = attribute_views(attrs@);
            job_id_position(a) < a.len() ==> a[job_id_position(a)].1 is U64
        }),
    ensures
        ({
            let a = attribute_views(attrs@);
            let i = job_id_position(a);
            &&& 0 <= i <= a.len()
            &&& r.is_some() == (i < a.len())
            &&& i < a.len() ==> a[i].1 == AttributeValueView::U64(r.unwrap())
        }),
{
    let ghost a = attribute_views(attrs@);
    let mut i: usize = 0;
    assert(a.skip(0) =~= a);
    while i < attrs.len()
        invariant
            i <= attrs.len(),
            a == attribute_views(attrs@),
            job_id_position(a) == i + job_id_position(a.skip(i as int)),
            job_id_position(a) < a.len() ==> a[job_id_position(a)].1 is U64,
        decreases attrs.len() - i,
    {
        assert(a.skip(i as int)[0] == a[i as int]);
        if same_text(attrs[i].0.as_str(), "job_id") {
            assert(job_id_position(a) == i);
            match &attrs[i].1 {
                AttributeValue::U64(id) => {
                    return Some(*id);
                },
                _ => {
                    // the first attribute of this name holds a number
                    assert(a[i as int] == (attrs@[i as int].0@, attrs@[i as int].1@));
                    return None;
                },
            }
        }
        assert(a.skip(i as int).skip(1) =~= a.skip(i + 1));
        i = i + 1;
    }
    assert(a.skip(attrs.len() as int).len() == 0);
    None
}

/// Whether `s` starts as the pattern `pattern` asks: a dot of the pattern stands for
/// any character but a line feed, any other character for itself.
pub open spec fn starts_as(s: Seq<char>, pattern: Seq<char>) -> bool {
    &&& pattern.len() <= s.len()
    &&& forall|i: int| 0 <= i < pattern.len() ==> #[trigger] fits(s[i], pattern[i])
}

/// Whether the character `c` is what the character `p` of a pattern asks for.
pub open spec fn fits(c: char, p: char) -> bool {
    if p == '.' {
        c != '\n'
    } else {
        c == p
    }
}

/// The number of decimal digits that `s` starts with.
pub open spec fn leading_digits(s: Seq<char>) -> nat
    decreases s.len(),
{
    if s.len() > 0 && '0' <= s[0] <= '9' {
        1 + leading_digits(s.skip(1))
    } else {
        0
    }
}

/// The start of the path of a job, as a pattern.
pub open spec fn job_path_pattern() -> Seq<char> {
    "/system.slice/slurmstepd.scope/job_"@
}

/// The digits of the number of the job whose cgroup has the path `path`; `None` where
/// the path is not that of a job.
pub open spec fn job_id_text(path: Seq<char>) -> Option<Seq<char>> {
    let p = job_path_pattern();
    if starts_as(path, p) && leading_digits(path.skip(p.len() as int)) > 0 {
        Some(
            path.subrange(
                p.len() as int,
                (p.len() + leading_digits(path.skip(p.len() as int))) as int,
            ),
        )
    } else {
        None
    }
}

/// What the path of a cgroup tells of a job.
#[derive(Debug, Clone, Copy, PartialEq, Eq, Structural)]
pub enum JobPath {
    /// The cgroup is not that of a job.
    NotAJob,
    /// The cgroup is that of the job with this number.
    Job(u64),
    /// The cgroup is that of a job whose number does not fit in 64 bits.
    TooLong,
}

/// What the path `path` tells of a job.
pub open spec fn job_of_path(path: Seq<char>) -> JobPath {
    match job_id_text(path) {
        None => JobPath::NotAJob,
        Some(digits) => match parsed_u64(digits) {
            Some(id) => JobPath::Job(id),
            None => JobPath::TooLong,
        },
    }
}

/// Reads the path of a cgroup for the number of a job.
pub fn extract_job(path: &str) -> (r: JobPath)
    ensures
        r == job_of_path(path@),
{
    let s = chars_of(path);
    let pattern = chars_of("/system.slice/slurmstepd.scope/job_");
    let n = pattern.len();
    if s.len() < n {
        return JobPath::NotAJob;
    }
    let mut i: usize = 0;
    while i < n
        invariant
            i <= n,
            n == pattern.len(),
            n <= s.len(),
            s@ == path@,
            pattern@ == job_path_pattern(),
            forall|j: int| 0 <= j < i ==> #[trigger] fits(s[j], pattern[j]),
        decreases n - i,
    {
        let ok = if pattern[i] == '.' {
            s[i] != '\n'
        } else {
            s[i] == pattern[i]
        };
        if !ok {
            assert(!fits(path@[i as int], job_path_pattern()[i as int]));
            return JobPath::NotAJob;
        }
        i = i + 1;
    }
    assert(starts_as(path@, job_path_pattern()));
    let ghost rest = path@.skip(n as int);
    let mut end: usize = n;
    assert(rest.skip(0) =~= rest);
    while end < s.len() && s[end] >= '0' && s[end] <= '9'
        invariant
            n <= end <= s.len(),
            s@ == path@,
            rest == path@.skip(n as int),
            leading_digits(rest) == (end - n) + leading_digits(rest.skip(end - n)),
        decreases s.len() - end,
    {
        assert(rest.skip(end - n)[0] == s[end as int]);
        assert(rest.skip(end - n).skip(1) =~= rest.skip(end - n + 1));
        end = end + 1;
    }
    proof {
        if end < s.len() {
            assert(rest.skip(end - n)[0] == s[end as int]);
        }
        assert(leading_digits(rest.skip(end - n)) == 0);
    }
    if end == n {
        return JobPath::NotAJob;
    }
    match parse_u64(path.substring_char(n, end)) {
        Some(id) => JobPath::Job(id),
        None => JobPath::TooLong,
    }
}

/// How the source of a cgroup is set up.
#[derive(Debug)]
pub struct ProbeSetup {
    /// The name of the source.
    pub name: String,
    /// The attributes of every point of the source.
    pub attrs: Vec<(String, AttributeValue)>,
    /// The interval between two polls, in nanoseconds.
    pub poll_interval: u64,
}

/// Sets up the sources of the cgroups of jobs.
#[derive(Debug, Clone, Copy, PartialEq, Eq, Structural)]
pub struct JobSourceSetup {
    /// The interval between two polls, in nanoseconds.
    pub poll_interval: u64,
    pub jobs_only: bool,
}

impl JobSourceSetup {
    /// The setup that the configuration asks for.
    pub fn new(config: Config) -> (r: Result<Self, SlurmError>)
        ensures
            r == Ok::<JobSourceSetup, SlurmError>(
                JobSourceSetup { poll_interval: config.poll_interval, jobs_only: config.jobs_only },
            ),
    {
        Ok(JobSourceSetup { poll_interval: config.poll_interval, jobs_only: config.jobs_only })
    }

    /// How to measure the cgroup with the path `cgroup_path` in its hierarchy, or
    /// `None` if it is not to be measured. The source of a job is named after the
    /// number of the job, which is also an attribute of its points; another cgroup is
    /// measured only if not only jobs are asked for, and named after `unique_name`.
    pub fn setup_new_probe(&self, cgroup_path: &str, unique_name: &str) -> (r: Option<
        ProbeSetup,
    >)
        requires
            !(job_of_path(cgroup_path@) is TooLong),
        ensures
            match job_of_path(cgroup_path@) {
                JobPath::Job(id) => {
                    &&& r is Some
                    &&& r.unwrap().name@ == "slurm-job-"@ + decimal(id as nat)
                    &&& attribute_views(r.unwrap().attrs@) == seq![
                        ("job_id"@, AttributeValueView::U64(id)),
                    ]
                    &&& r.unwrap().poll_interval == self.poll_interval
                },
                _ => if self.jobs_only {
                    r is None
                } else {
                    &&& r is Some
                    &&& r.unwrap().name@ == "cgroup "@ + unique_name@
                    &&& r.unwrap().attrs@.len() == 0
                    &&& r.unwrap().poll_interval == self.poll_interval
                },
            },
    {
        match extract_job(cgroup_path) {
            JobPath::Job(id) => {
                let mut attrs: Vec<(String, AttributeValue)> = Vec::new();
                attrs.push((String::from_str("job_id"), AttributeValue::U64(id)));
                assert(attribute_views(attrs@) =~= seq![("job_id"@, AttributeValueView::U64(id))]);
                proof {
                    let a = attribute_views(attrs@);
                    assert(job_id_position(a) == 0);
                }
                let job_id = find_jobid_in_attrs(&attrs).unwrap();
                let name = String::from_str("slurm-job-").concat(u64_to_string(job_id).as_str());
                Some(ProbeSetup { name, attrs, poll_interval: self.poll_interval })
            },
            _ => {
                // not a job, just a cgroup (for ex. a systemd service)
                if self.jobs_only {
                    return None;  // don't measure this cgroup
                }
                let name = String::from_str("cgroup ").concat(unique_name);
                Some(ProbeSetup { name, attrs: Vec::new(), poll_interval: self.poll_interval })
            },
        }
    }
}

/// Why the plugin cannot go on.
#[derive(Debug, Clone, Copy, PartialEq, Eq, Structural)]
pub enum SlurmError {
    /// The plugin was started twice, or without a configuration.
    NoConfig,
}

/// Intermediary state for startup.
#[derive(Debug, Clone, Copy, PartialEq, Eq, Structural)]
pub struct StartingState {
    pub source_setup: JobSourceSetup,
}

/// Gathers metrics for slurm jobs.
///
/// Supports slurm on cgroup v1 or cgroup v2.
#[derive(Debug, Clone, Copy, PartialEq, Eq, Structural)]
pub struct SlurmPlugin {
    pub config: Option<Config>,
    /// Intermediary state for startup.
    pub starting_state: Option<StartingState>,
}

impl SlurmPlugin {
    pub fn new(config: Config) -> (p: Self)
        ensures
            p == (SlurmPlugin { config: Some(config), starting_state: None }),
    {
        SlurmPlugin { config: Some(config), starting_state: None }
    }

    /// The name of the plugin.
    pub fn name() -> (s: &'static str)
        ensures
            s@ == "slurm"@,
    {
        "slurm"
    }

    /// Prepares for the detection of cgroups: the configuration is taken and turned
    /// into the setup of the sources.
    pub fn start(&mut self) -> (r: Result<(), SlurmError>)
        ensures
            match old(self).config {
                Some(config) => r.is_ok() && *final(self) == (SlurmPlugin {
                    config: None,
                    starting_state: Some(
                        StartingState {
                            source_setup: JobSourceSetup {
                                poll_interval: config.poll_interval,
                                jobs_only: config.jobs_only,
                            },
                        },
                    ),
                }),
                None => r == Err::<(), SlurmError>(SlurmError::NoConfig) && *final(self) == *old(
                    self,
                ),
            },
    {
        match self.config {
            None => Err(SlurmError::NoConfig),
            Some(config) => {
                self.config = None;
                match JobSourceSetup::new(config) {
                    Ok(source_setup) => {
                        self.starting_state = Some(StartingState { source_setup });
                        Ok(())
                    },
                    Err(e) => Err(e),
                }
            },
        }
    }
}

} // verus!
