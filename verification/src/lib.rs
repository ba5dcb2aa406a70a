//! A modular telemetry agent's core: the measurement pipeline's decisions and the
//! time-series alignment engine, with the contracts that they are proved against.

pub mod cgroup;
pub mod expectations;
pub mod measurement;
pub mod pipeline;
pub mod plugin;
pub mod plugins;
pub mod text;
pub mod timeseries;
