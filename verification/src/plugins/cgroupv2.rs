//! Accounting of control groups of version 2: the files `cpu.stat` and `memory.stat`.
//!
//! Each line of such a file holds a key and a number with whitespace between them.
//! A line with fewer than two fields is skipped. A line of two fields or more must
//! hold an unsigned number in its second field, whatever its key is.

use crate::measurement::ResourceConsumer;
use crate::text::{fields, lines, lines_of, parse_u64, parsed_u64, same_text, split_ascii_whitespace};
use vstd::prelude::*;
use vstd::string::StringExecFns;

verus! {

/// The greatest value of a counter of time.
pub const CGROUP_MAX_TIME_COUNTER: u64 = 0xffff_ffff_ffff_ffff;

/// What was measured of one cgroup.
#[derive(Debug, PartialEq, Eq, Clone, Copy, Structural)]
pub struct CgroupMeasurements {
    /// Total CPU usage time by the cgroup.
    pub cpu_time_total: u64,
    /// CPU in user mode usage time by the cgroup.
    pub cpu_time_user_mode: u64,
    /// CPU in system mode usage time by the cgroup.
    pub cpu_time_system_mode: u64,
    /// Resident memory usage (RSS) currently used by the cgroup.
    pub memory_usage_resident: u64,
    /// Anonymous used memory, corresponding to running process and various allocated memory.
    pub memory_anonymous: u64,
    /// Files memory, corresponding to open files and descriptors.
    pub memory_file: u64,
    /// Memory reserved for kernel operations.
    pub memory_kernel: u64,
    /// Memory used to manage correspondence between virtual and physical addresses.
    pub memory_pagetables: u64,
}

/// The two files of statistics.
#[derive(Debug, PartialEq, Eq, Clone, Copy, Structural)]
pub enum StatFile {
    Cpu,
    Memory,
}

/// A value of a file of statistics that is not an unsigned number.
#[derive(Debug, PartialEq, Eq)]
pub struct StatError {
    value: String,
}

impl StatError {
    /// The text that is not a number.
    pub closed spec fn spec_value(&self) -> Seq<char> {
        self.value@
    }

    /// The text that is not a number.
    pub fn value(&self) -> (s: &String)
        ensures
            s@ == self.spec_value(),
    {
        &self.value
    }

    /// The error as a sentence.
    pub fn message(&self) -> (s: String)
        ensures
            s@ == "Parsing of value : "@ + self.spec_value(),
    {
        String::from_str("Parsing of value : ").concat(self.value.as_str())
    }
}

/// The measurements after the entry `key value` of the file `file` was read. A key
/// that the file is not read for changes nothing.
pub open spec fn with_entry(m: CgroupMeasurements, file: StatFile, key: Seq<char>, value: u64) -> CgroupMeasurements {
    match file {
        StatFile::Cpu => {
            if key == "usage_usec"@ {
                CgroupMeasurements { cpu_time_total: value, ..m }
            } else if key == "user_usec"@ {
                CgroupMeasurements { cpu_time_user_mode: value, ..m }
            } else if key == "system_usec"@ {
                CgroupMeasurements { cpu_time_system_mode: value, ..m }
            } else {
                m
            }
        },
        StatFile::Memory => {
            if key == "anon"@ {
                CgroupMeasurements { memory_anonymous: value, ..m }
            } else if key == "file"@ {
                CgroupMeasurements { memory_file: value, ..m }
            } else if key == "kernel_stack"@ {
                CgroupMeasurements { memory_kernel: value, ..m }
            } else if key == "pagetables"@ {
                CgroupMeasurements { memory_pagetables: value, ..m }
            } else {
                m
            }
        },
    }
}

/// What reading the lines of the file `file` gives: the measurements after the lines
/// up to the first value that is not a number, and that value if there is one.
pub open spec fn loaded(m: CgroupMeasurements, file: StatFile, lines: Seq<Seq<char>>) -> (
    CgroupMeasurements,
    Option<Seq<char>>,
)
    decreases lines.len(),
{
    if lines.len() == 0 {
        (m, None)
    } else {
        let (before, failed) = loaded(m, file, lines.drop_last());
        let f = fields(lines.last());
        if failed is Some || f.len() < 2 {
            (before, failed)
        } else {
            match parsed_u64(f[1]) {
                Some(value) => (with_entry(before, file, f[0], value), None),
                None => (before, Some(f[1])),
            }
        }
    }
}

/// Once a value has failed, the lines after it change nothing.
proof fn lemma_loaded_failed(m: CgroupMeasurements, file: StatFile, lines: Seq<Seq<char>>, i: int)
    requires
        0 <= i <= lines.len(),
        loaded(m, file, lines.take(i)).1 is Some,
    ensures
        loaded(m, file, lines) == loaded(m, file, lines.take(i)),
    decreases lines.len() - i,
{
    if i < lines.len() {
        assert(lines.take(i + 1).drop_last() =~= lines.take(i));
        lemma_loaded_failed(m, file, lines, i + 1);
    } else {
        assert(lines.take(i) =~= lines);
    }
}

impl CgroupMeasurements {
    /// Measurements that are all zero.
    pub fn new() -> (m: Self)
        ensures
            m == (CgroupMeasurements {
                cpu_time_total: 0,
                cpu_time_user_mode: 0,
                cpu_time_system_mode: 0,
                memory_usage_resident: 0,
                memory_anonymous: 0,
                memory_file: 0,
                memory_kernel: 0,
                memory_pagetables: 0,
            }),
    {
        CgroupMeasurements {
            cpu_time_total: 0,
            cpu_time_user_mode: 0,
            cpu_time_system_mode: 0,
            memory_usage_resident: 0,
            memory_anonymous: 0,
            memory_file: 0,
            memory_kernel: 0,
            memory_pagetables: 0,
        }
    }

    fn set_entry(&mut self, file: StatFile, key: &str, value: u64)
        ensures
            *final(self) == with_entry(*old(self), file, key@, value),
    {
        match file {
            StatFile::Cpu => {
                if same_text(key, "usage_usec") {
                    self.cpu_time_total = value;
                } else if same_text(key, "user_usec") {
                    self.cpu_time_user_mode = value;
                } else if same_text(key, "system_usec") {
                    self.cpu_time_system_mode = value;
                }
            },
            StatFile::Memory => {
                if same_text(key, "anon") {
                    self.memory_anonymous = value;
                } else if same_text(key, "file") {
                    self.memory_file = value;
                } else if same_text(key, "kernel_stack") {
                    self.memory_kernel = value;
                } else if same_text(key, "pagetables") {
                    self.memory_pagetables = value;
                }
            },
        }
    }

    /// Loads the entries of the file `file` from its content.
    pub fn load(&mut self, file: StatFile, content: &str) -> (r: Result<(), StatError>)
        ensures
            ({
                let (m, failed) = loaded(*old(self), file, lines_of(content@));
                &&& *final(self) == m
                &&& r.is_ok() == failed.is_none()
                &&& r matches Err(e) ==> e.spec_value() == failed.unwrap()
            }),
    {
        let all = lines(content);
        let ghost texts = all.deep_view();
        let mut i: usize = 0;
        assert(texts.take(0) =~= Seq::<Seq<char>>::empty());
        while i < all.len()
            invariant
                i <= all.len(),
                texts == all.deep_view(),
                texts == lines_of(content@),
                loaded(*old(self), file, texts.take(i as int)) == (*self, None::<Seq<char>>),
            decreases all.len() - i,
        {
            proof {
                assert(texts.take(i + 1).drop_last() =~= texts.take(i as int));
                assert(texts.take(i + 1).last() == all[i as int]@);
            }
            let mut parts = split_ascii_whitespace(all[i].as_str());
            if parts.len() >= 2 {
                let ghost f = parts.deep_view();
                parts.truncate(2);
                let text = parts.pop().unwrap();
                let key = parts.pop().unwrap();
                assert(text@ == f[1] && key@ == f[0]);
                match parse_u64(text.as_str()) {
                    Some(value) => {
                        self.set_entry(file, key.as_str(), value);
                    },
                    None => {
                        proof {
                            assert(loaded(*old(self), file, texts.take(i + 1)) == (
                                *self,
                                Some(text@),
                            ));
                            lemma_loaded_failed(*old(self), file, texts, i + 1);
                        }
                        return Err(StatError { value: text });
                    },
                }
            }
            i = i + 1;
        }
        assert(texts.take(all.len() as int) =~= texts);
        Ok(())
    }

    /// Loads the measurements of the file `cpu.stat` from its content.
    pub fn load_from_cpu_stat(&mut self, cpu_stat_content: &mut String) -> (r: Result<
        (),
        StatError,
    >)
        ensures
            final(cpu_stat_content)@ == old(cpu_stat_content)@,
            ({
                let (m, failed) = loaded(
                    *old(self),
                    StatFile::Cpu,
                    lines_of(old(cpu_stat_content)@),
                );
                &&& *final(self) == m
                &&& r.is_ok() == failed.is_none()
                &&& r matches Err(e) ==> e.spec_value() == failed.unwrap()
            }),
    {
        self.load(StatFile::Cpu, cpu_stat_content.as_str())
    }

    /// Loads the measurements of the file `memory.stat` from its content.
    pub fn load_from_memory_stat(&mut self, memory_stat_content: &mut String) -> (r: Result<
        (),
        StatError,
    >)
        ensures
            final(memory_stat_content)@ == old(memory_stat_content)@,
            ({
                let (m, failed) = loaded(
                    *old(self),
                    StatFile::Memory,
                    lines_of(old(memory_stat_content)@),
                );
                &&& *final(self) == m
                &&& r.is_ok() == failed.is_none()
                &&& r matches Err(e) ==> e.spec_value() == failed.unwrap()
            }),
    {
        self.load(StatFile::Memory, memory_stat_content.as_str())
    }

    /// Measurements read from a text that holds entries of both files: first those of
    /// `cpu.stat` are looked for, then those of `memory.stat`.
    pub fn from_str(content: &str) -> (r: Result<Self, StatError>)
        ensures
            ({
                let zero = CgroupMeasurements {
                    cpu_time_total: 0,
                    cpu_time_user_mode: 0,
                    cpu_time_system_mode: 0,
                    memory_usage_resident: 0,
                    memory_anonymous: 0,
                    memory_file: 0,
                    memory_kernel: 0,
                    memory_pagetables: 0,
                };
                let (cpu, cpu_failed) = loaded(zero, StatFile::Cpu, lines_of(content@));
                let (both, memory_failed) = loaded(cpu, StatFile::Memory, lines_of(content@));
                match r {
                    Ok(m) => cpu_failed is None && memory_failed is None && m == both,
                    Err(e) => if cpu_failed is Some {
                        e.spec_value() == cpu_failed.unwrap()
                    } else {
                        memory_failed is Some && e.spec_value() == memory_failed.unwrap()
                    },
                }
            }),
    {
        let mut m = CgroupMeasurements::new();
        match m.load(StatFile::Cpu, content) {
            Err(e) => Err(e),
            Ok(_) => match m.load(StatFile::Memory, content) {
                Err(e) => Err(e),
                Ok(_) => Ok(m),
            },
        }
    }
}

/// Why a cgroup could not be measured.
#[derive(Debug, PartialEq, Eq)]
pub enum MeasureError {
    /// The file `cpu.stat` is empty.
    EmptyCpuStat,
    /// The file `cpu.stat` holds a value that is not a number.
    CpuStat(StatError),
    /// The file `memory.stat` is empty.
    EmptyMemoryStat,
    /// The file `memory.stat` holds a value that is not a number.
    MemoryStat(StatError),
}

/// What measures one cgroup: the files of its statistics, and the consumers that the
/// measurements are attributed to.
#[derive(Debug)]
pub struct CgroupMeasurer {
    pub name: String,
    pub cpu_stats_path: String,
    pub memory_stats_path: String,
    pub memory_current_path: String,
    pub cpu_stats_consumer: ResourceConsumer,
    pub memory_stats_consumer: ResourceConsumer,
    pub memory_current_consumer: ResourceConsumer,
}

impl CgroupMeasurer {
    /// The name of the cgroup.
    pub open spec fn spec_name(&self) -> Seq<char> {
        self.name@
    }

    /// The paths of the three files: CPU statistics, memory statistics, current memory.
    pub open spec fn spec_paths(&self) -> (Seq<char>, Seq<char>, Seq<char>) {
        (self.cpu_stats_path@, self.memory_stats_path@, self.memory_current_path@)
    }

    /// A measurer of the cgroup `name` whose directory is `cgroup_path`. The names of
    /// the files are appended to the path as it is.
    pub fn new(name: String, cgroup_path: String) -> (m: Self)
        ensures
            m.spec_name() == name@,
            m.spec_paths() == (
                cgroup_path@ + "cpu.stats"@,
                cgroup_path@ + "memory.stats"@,
                cgroup_path@ + "memory_current"@,
            ),
            m.cpu_stats_consumer@ == (crate::measurement::ResourceConsumerView::ControlGroup {
                path: cgroup_path@ + "cpu.stats"@,
            }),
            m.memory_stats_consumer@ == (crate::measurement::ResourceConsumerView::ControlGroup {
                path: cgroup_path@ + "memory.stats"@,
            }),
            m.memory_current_consumer@ == (crate::measurement::ResourceConsumerView::ControlGroup {
                path: cgroup_path@ + "memory_current"@,
            }),
    {
        let cpu_stats_path = cgroup_path.clone().concat("cpu.stats");
        let memory_stats_path = cgroup_path.clone().concat("memory.stats");
        let memory_current_path = cgroup_path.concat("memory_current");
        CgroupMeasurer {
            name,
            cpu_stats_consumer: ResourceConsumer::ControlGroup { path: cpu_stats_path.clone() },
            memory_stats_consumer: ResourceConsumer::ControlGroup {
                path: memory_stats_path.clone(),
            },
            memory_current_consumer: ResourceConsumer::ControlGroup {
                path: memory_current_path.clone(),
            },
            cpu_stats_path,
            memory_stats_path,
            memory_current_path,
        }
    }

    /// The name of the cgroup.
    pub fn name(&self) -> (s: &str)
        ensures
            s@ == self.spec_name(),
    {
        self.name.as_str()
    }

    /// The path of the file of CPU statistics.
    pub fn cpu_stats_path(&self) -> (s: &str)
        ensures
            s@ == self.spec_paths().0,
    {
        self.cpu_stats_path.as_str()
    }

    /// The path of the file of memory statistics.
    pub fn memory_stats_path(&self) -> (s: &str)
        ensures
            s@ == self.spec_paths().1,
    {
        self.memory_stats_path.as_str()
    }

    /// The path of the file of the current memory.
    pub fn memory_current_path(&self) -> (s: &str)
        ensures
            s@ == self.spec_paths().2,
    {
        self.memory_current_path.as_str()
    }

    /// The measurements that the contents of the two files of statistics give. An
    /// empty file is an error, and so is a value that is not a number; the file of CPU
    /// statistics is looked at first.
    pub fn measure(&self, cpu_stat: &str, memory_stat: &str) -> (r: Result<
        CgroupMeasurements,
        MeasureError,
    >)
        ensures
            ({
                let zero = CgroupMeasurements {
                    cpu_time_total: 0,
                    cpu_time_user_mode: 0,
                    cpu_time_system_mode: 0,
                    memory_usage_resident: 0,
                    memory_anonymous: 0,
                    memory_file: 0,
                    memory_kernel: 0,
                    memory_pagetables: 0,
                };
                let (cpu, cpu_failed) = loaded(zero, StatFile::Cpu, lines_of(cpu_stat@));
                let (both, memory_failed) = loaded(cpu, StatFile::Memory, lines_of(memory_stat@));
                if cpu_stat@.len() == 0 {
                    r == Err::<CgroupMeasurements, MeasureError>(MeasureError::EmptyCpuStat)
                } else if cpu_failed is Some {
                    r matches Err(MeasureError::CpuStat(e)) && e.spec_value()
                        == cpu_failed.unwrap()
                } else if memory_stat@.len() == 0 {
                    r == Err::<CgroupMeasurements, MeasureError>(MeasureError::EmptyMemoryStat)
                } else if memory_failed is Some {
                    r matches Err(MeasureError::MemoryStat(e)) && e.spec_value()
                        == memory_failed.unwrap()
                } else {
                    r == Ok::<CgroupMeasurements, MeasureError>(both)
                }
            }),
    {
        if cpu_stat.is_empty() {
            return Err(MeasureError::EmptyCpuStat);
        }
        let mut m = CgroupMeasurements::new();
        if let Err(e) = m.load(StatFile::Cpu, cpu_stat) {
            return Err(MeasureError::CpuStat(e));
        }
        if memory_stat.is_empty() {
            return Err(MeasureError::EmptyMemoryStat);
        }
        if let Err(e) = m.load(StatFile::Memory, memory_stat) {
            return Err(MeasureError::MemoryStat(e));
        }
        Ok(m)
    }
}

} // verus!
