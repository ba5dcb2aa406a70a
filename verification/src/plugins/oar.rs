//! The configuration of the plugin for jobs of OAR.

use vstd::prelude::*;

verus! {

/// The version of OAR.
#[derive(Debug, Clone, Copy, PartialEq, Eq, Structural)]
pub enum OarVersion {
    Oar2,
    Oar3,
}

/// The configuration of the plugin.
#[derive(Debug, Clone, Copy, PartialEq, Eq, Structural)]
pub struct Config {
    pub oar_version: OarVersion,
    /// The interval between two polls, in nanoseconds.
    pub poll_interval: u64,
    pub jobs_only: bool,
    /// Set to true if you want to start the source in Pause mode. If so it will need to
    /// be resumed to poll measurements. This is useful for scenario where you
    /// dynamically want to start/stop the poll mechanism
    pub initial_state_to_pause: bool,
}

impl Default for Config {
    /// OAR 3, one poll per second, jobs only, running from the start.
    fn default() -> (c: Self)
        ensures
            c == (Config {
                oar_version: OarVersion::Oar3,
                poll_interval: 1_000_000_000,
                jobs_only: true,
                initial_state_to_pause: false,
            }),
    {
        Config {
            oar_version: OarVersion::Oar3,
            poll_interval: 1_000_000_000,
            jobs_only: true,
            initial_state_to_pause: false,
        }
    }
}

} // verus!
