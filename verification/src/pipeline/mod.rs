//! The measurement pipeline: sources, transforms and outputs, and the control plane that
//! reconfigures them while they run.
//!
//! Each task of the pipeline alternates between waiting (for a timer, a channel, a
//! blocking job) and deciding what to do next. The decisions are the functions of this
//! module: they take the task's state and what happened, and give the next action.
//! The embedding program performs the action and reports back.

pub mod control;
pub mod output;
pub mod registry;
pub mod source;
pub mod transform;
pub mod trigger;
