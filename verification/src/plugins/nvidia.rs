//! The plugin for GPUs of NVIDIA: what it decides once the devices were looked for.

use vstd::prelude::*;

verus! {

/// Measures GPUs of NVIDIA, through NVML or through the INA sensors of a Jetson.
#[derive(Debug, Clone, Copy, PartialEq, Eq, Structural)]
pub struct NvidiaPlugin {
    /// The interval between two polls, in nanoseconds.
    pub poll_interval: u64,
}

/// How many devices the detection found, and how many of them work.
#[derive(Debug, Clone, Copy, PartialEq, Eq, Structural)]
pub struct DetectionStats {
    pub found_devices: usize,
    pub working_devices: usize,
}

/// Why the plugin cannot start.
#[derive(Debug, Clone, Copy, PartialEq, Eq, Structural)]
pub enum NvidiaError {
    /// No NVML-compatible GPU found.
    NoDevice,
    /// Devices were found and none of them is working.
    NoWorkingDevice { found_devices: usize },
    /// No INA sensor found.
    NoSensor,
}

/// The positions of the devices that work, in ascending order.
pub open spec fn working(devices: Seq<bool>) -> Seq<usize>
    decreases devices.len(),
{
    if devices.len() == 0 {
        Seq::empty()
    } else {
        let rest = working(devices.drop_last());
        if devices.last() {
            rest.push((devices.len() - 1) as usize)
        } else {
            rest
        }
    }
}

impl NvidiaPlugin {
    /// The plugin with its default interval of one second.
    pub fn init() -> (p: Self)
        ensures
            p.poll_interval == 1_000_000_000,
    {
        NvidiaPlugin { poll_interval: 1_000_000_000 }
    }

    /// The name of the plugin.
    pub fn name() -> (s: &'static str)
        ensures
            s@ == "nvidia"@,
    {
        "nvidia"
    }

    /// Set up the collection of measurements with NVML: one source for each device
    /// that works, with the plugin's poll interval. `devices` tells of each device
    /// that was found whether it works. The result holds the positions of the devices
    /// to measure.
    pub fn start_nvml(&self, stats: DetectionStats, devices: &Vec<bool>) -> (r: Result<
        Vec<usize>,
        NvidiaError,
    >)
        ensures
            stats.found_devices == 0 ==> r == Err::<Vec<usize>, NvidiaError>(NvidiaError::NoDevice),
            stats.found_devices != 0 && stats.working_devices == 0 ==> r == Err::<
                Vec<usize>,
                NvidiaError,
            >(NvidiaError::NoWorkingDevice { found_devices: stats.found_devices }),
            stats.found_devices != 0 && stats.working_devices != 0 ==> r.is_ok() && r.unwrap()@
                == working(devices@),
    {
        if stats.found_devices == 0 {
            return Err(NvidiaError::NoDevice);
        }
        if stats.working_devices == 0 {
            return Err(NvidiaError::NoWorkingDevice { found_devices: stats.found_devices });
        }
        let mut sources: Vec<usize> = Vec::new();
        let mut i: usize = 0;
        assert(devices@.take(0) =~= Seq::<bool>::empty());
        while i < devices.len()
            invariant
                i <= devices.len(),
                sources@ == working(devices@.take(i as int)),
            decreases devices.len() - i,
        {
            proof {
                assert(devices@.take(i + 1).drop_last() =~= devices@.take(i as int));
                assert(devices@.take(i + 1).last() == devices[i as int]);
            }
            if devices[i] {
                sources.push(i);
            }
            i = i + 1;
        }
        assert(devices@.take(devices.len() as int) =~= devices@);
        Ok(sources)
    }

    /// Set up the collection of measurements on a Jetson edge device, which has
    /// `sensors` INA sensors: one source for all of them.
    pub fn start_jetson(&self, sensors: usize) -> (r: Result<(), NvidiaError>)
        ensures
            r == (if sensors == 0 {
                Err::<(), NvidiaError>(NvidiaError::NoSensor)
            } else {
                Ok::<(), NvidiaError>(())
            }),
    {
        if sensors == 0 {
            Err(NvidiaError::NoSensor)
        } else {
            Ok(())
        }
    }
}

} // verus!
