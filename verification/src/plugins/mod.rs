//! What the plugins that come with the agent decide and compute.

pub mod cgroupv2;
pub mod k8s;
pub mod attribution;
pub mod nvidia;
pub mod oar;
pub mod slurm;
