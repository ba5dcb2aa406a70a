//! Linux control groups: the mounted hierarchies, the groups in them, and their
//! detection.

pub mod detect;
pub mod hierarchy;
pub mod mount;
pub mod wait;
