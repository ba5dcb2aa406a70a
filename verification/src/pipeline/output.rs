//! The decisions of an output task.
//!
//! An output task waits for a command or for a message of the transform step, whichever
//! comes first. Writing may block, so the write itself runs elsewhere and its outcome
//! is reported back. An output that is too slow loses the oldest messages and is told
//! how many: it goes on with what is left.

use crate::measurement::{MeasurementBuffer, RawMetricId};
use crate::pipeline::registry::{extended_registry, metric_views, Metric, MetricRegistry};
use vstd::prelude::*;

verus! {

/// A command for an output.
#[derive(Clone, Copy, Debug, PartialEq, Eq, Structural)]
pub enum OutputCmd {
    Run,
    Pause,
    Stop,
}

/// A message for the outputs.
#[derive(Debug)]
pub enum OutputMsg {
    /// Measurements to write.
    WriteMeasurements(MeasurementBuffer),
    /// Metrics that a source registers while the pipeline runs. The ids are sent back
    /// to the source.
    RegisterMetrics { metrics: Vec<Metric>, source_name: String },
}

/// What an output knows besides the measurements: its own copy of the registry.
#[derive(Debug)]
pub struct OutputContext {
    pub metrics: MetricRegistry,
}

/// Why no message was received.
#[derive(Clone, Copy, Debug, PartialEq, Eq, Structural)]
pub enum RecvError {
    /// The output fell behind and the oldest `0` messages were dropped.
    Lagged(u64),
    /// The broadcast channel is closed.
    Closed,
}

/// How a blocking write ended.
#[derive(Clone, Copy, Debug, PartialEq, Eq, Structural)]
pub enum WriteOutcome {
    /// The output wrote the measurements.
    Written,
    /// The output returned an error.
    Failed,
    /// The writing job panicked.
    Panicked,
}

/// Why an output task failed.
#[derive(Clone, Copy, Debug, PartialEq, Eq, Structural)]
pub enum WriteError {
    /// A blocking write panicked.
    WritePanicked,
    /// The ids of newly registered metrics could not be sent back.
    ReplyFailed,
}

/// Where an output task stands.
#[derive(Clone, Copy, Debug, PartialEq, Eq, Structural)]
pub enum OutputPhase {
    /// Waiting for a command or a message.
    Running,
    /// A write is under way.
    Writing,
    /// Ids are being sent back to a source.
    Replying,
    /// Paused: waiting for a command.
    Paused,
    /// The task has ended.
    Done,
}

/// What is worth a line in the log.
#[derive(Clone, Copy, Debug, PartialEq, Eq, Structural)]
pub enum Notice {
    Nothing,
    /// The output is too slow: it lost the oldest `skipped` messages.
    Lagged { skipped: u64 },
    /// The output failed to write; it keeps running.
    WriteFailed,
    /// The channel connected to the output was closed.
    ChannelClosed,
}

/// What the task does next.
#[derive(Debug)]
pub enum OutputAction {
    /// Wait for a command or a message, whichever comes first.
    AwaitAny(Notice),
    /// Wait for the next command only.
    AwaitCommand,
    /// Write the measurements on a pool that permits blocking calls.
    Write(MeasurementBuffer),
    /// Send the ids to the source that registered the metrics.
    Reply(Vec<RawMetricId>),
    /// End the task without an error.
    Exit(Notice),
    /// End the task with this error.
    Fail(WriteError),
}

/// The state of an output task.
#[derive(Debug)]
pub struct OutputTask {
    pub phase: OutputPhase,
    pub ctx: OutputContext,
}

/// The phase and the action after a command, or after the end of the commands (`None`).
/// A task obeys a command when it runs and when it is paused.
pub open spec fn after_command(command: Option<OutputCmd>) -> (OutputPhase, OutputAction) {
    match command {
        Some(OutputCmd::Run) => (OutputPhase::Running, OutputAction::AwaitAny(Notice::Nothing)),
        Some(OutputCmd::Pause) => (OutputPhase::Paused, OutputAction::AwaitCommand),
        Some(OutputCmd::Stop) => (OutputPhase::Done, OutputAction::Exit(Notice::Nothing)),
        None => (OutputPhase::Done, OutputAction::Exit(Notice::ChannelClosed)),
    }
}

/// The phase and the action after a write.
pub open spec fn after_write(outcome: WriteOutcome) -> (OutputPhase, OutputAction) {
    match outcome {
        WriteOutcome::Written => (OutputPhase::Running, OutputAction::AwaitAny(Notice::Nothing)),
        WriteOutcome::Failed => (
            OutputPhase::Running,
            OutputAction::AwaitAny(Notice::WriteFailed),
        ),
        WriteOutcome::Panicked => (
            OutputPhase::Done,
            OutputAction::Fail(WriteError::WritePanicked),
        ),
    }
}

impl OutputTask {
    /// The invariant of the type.
    pub open spec fn wf(&self) -> bool {
        self.ctx.metrics.wf()
    }

    /// A running task.
    pub fn new(ctx: OutputContext) -> (t: Self)
        ensures
            t.phase == OutputPhase::Running,
            t.ctx == ctx,
    {
        OutputTask { phase: OutputPhase::Running, ctx }
    }

    /// The command changed to `command`, or the commands have ended (`None`).
    pub fn on_command(&mut self, command: Option<OutputCmd>) -> (a: OutputAction)
        requires
            old(self).phase == OutputPhase::Running || old(self).phase == OutputPhase::Paused,
        ensures
            (final(self).phase, a) == after_command(command),
            final(self).ctx == old(self).ctx,
    {
        match command {
            Some(OutputCmd::Run) => {
                self.phase = OutputPhase::Running;
                OutputAction::AwaitAny(Notice::Nothing)
            },
            Some(OutputCmd::Pause) => {
                self.phase = OutputPhase::Paused;
                OutputAction::AwaitCommand
            },
            Some(OutputCmd::Stop) => {
                self.phase = OutputPhase::Done;
                OutputAction::Exit(Notice::Nothing)
            },
            None => {
                self.phase = OutputPhase::Done;
                OutputAction::Exit(Notice::ChannelClosed)
            },
        }
    }

    /// The broadcast channel gave `message`.
    pub fn on_message(&mut self, message: Result<OutputMsg, RecvError>) -> (a: OutputAction)
        requires
            old(self).phase == OutputPhase::Running,
            old(self).wf(),
        ensures
            final(self).wf(),
            match message {
                Ok(OutputMsg::WriteMeasurements(measurements)) => {
                    &&& final(self).phase == OutputPhase::Writing
                    &&& a == OutputAction::Write(measurements)
                    &&& final(self).ctx == old(self).ctx
                },
                Ok(OutputMsg::RegisterMetrics { metrics, source_name }) => {
                    let (registry, expected) = extended_registry(
                        old(self).ctx.metrics@,
                        source_name@,
                        metric_views(metrics@),
                    );
                    &&& final(self).phase == OutputPhase::Replying
                    &&& final(self).ctx.metrics@ == registry
                    &&& a matches OutputAction::Reply(ids)
                    &&& ids.len() == expected.len()
                    &&& forall|k: int| 0 <= k < ids.len() ==> (#[trigger] ids[k]).0 == expected[k]
                },
                Err(RecvError::Lagged(skipped)) => {
                    &&& final(self).phase == OutputPhase::Running
                    &&& a == OutputAction::AwaitAny(Notice::Lagged { skipped })
                    &&& final(self).ctx == old(self).ctx
                },
                Err(RecvError::Closed) => {
                    &&& final(self).phase == OutputPhase::Done
                    &&& a == OutputAction::Exit(Notice::ChannelClosed)
                    &&& final(self).ctx == old(self).ctx
                },
            },
    {
        match message {
            Ok(OutputMsg::WriteMeasurements(measurements)) => {
                self.phase = OutputPhase::Writing;
                OutputAction::Write(measurements)
            },
            Ok(OutputMsg::RegisterMetrics { metrics, source_name }) => {
                let ids = self.ctx.metrics.extend_infallible(metrics, &source_name);
                self.phase = OutputPhase::Replying;
                OutputAction::Reply(ids)
            },
            Err(RecvError::Lagged(skipped)) => OutputAction::AwaitAny(Notice::Lagged { skipped }),
            Err(RecvError::Closed) => {
                self.phase = OutputPhase::Done;
                OutputAction::Exit(Notice::ChannelClosed)
            },
        }
    }

    /// The write that was under way ended with `outcome`. An error of the output is
    /// logged and the task goes on; a panic ends it.
    pub fn on_written(&mut self, outcome: WriteOutcome) -> (a: OutputAction)
        requires
            old(self).phase == OutputPhase::Writing,
        ensures
            (final(self).phase, a) == after_write(outcome),
            final(self).ctx == old(self).ctx,
    {
        match outcome {
            WriteOutcome::Written => {
                self.phase = OutputPhase::Running;
                OutputAction::AwaitAny(Notice::Nothing)
            },
            WriteOutcome::Failed => {
                self.phase = OutputPhase::Running;
                OutputAction::AwaitAny(Notice::WriteFailed)
            },
            WriteOutcome::Panicked => {
                self.phase = OutputPhase::Done;
                OutputAction::Fail(WriteError::WritePanicked)
            },
        }
    }

    /// The ids were sent back to the source, or could not be.
    pub fn on_replied(&mut self, delivered: bool) -> (a: OutputAction)
        requires
            old(self).phase == OutputPhase::Replying,
        ensures
            final(self).ctx == old(self).ctx,
            delivered ==> final(self).phase == OutputPhase::Running && a == OutputAction::AwaitAny(
                Notice::Nothing,
            ),
            !delivered ==> final(self).phase == OutputPhase::Done && a == OutputAction::Fail(
                WriteError::ReplyFailed,
            ),
    {
        if delivered {
            self.phase = OutputPhase::Running;
            OutputAction::AwaitAny(Notice::Nothing)
        } else {
            self.phase = OutputPhase::Done;
            OutputAction::Fail(WriteError::ReplyFailed)
        }
    }
}

/// A paused output receives no message: whatever the command is, the task does not
/// write, and it leaves the pause only for a command other than `Pause`.
pub proof fn lemma_paused_output_is_quiet(command: Option<OutputCmd>)
    ensures
        !(after_command(command).1 is Write),
        after_command(command).0 == OutputPhase::Paused <==> command == Some(OutputCmd::Pause),
        after_command(command).0 == OutputPhase::Running <==> command == Some(OutputCmd::Run),
{
}

} // verus!
