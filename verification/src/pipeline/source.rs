//! The decisions of a source task.
//!
//! A source task owns one probe. It waits for its trigger, polls the probe into a local
//! buffer, and every `flush_rounds` polls sends the buffer downstream. Only after a flush
//! does it look for a new command, so that the cadence of the polls does not depend on
//! the commands.

use crate::pipeline::trigger::{Trigger, TriggerError};
use vstd::arithmetic::div_mod::{lemma_add_mod_noop, lemma_mod_self_0, lemma_small_mod};
use vstd::prelude::*;

verus! {

/// A command for a source.
#[derive(Clone, Copy, Debug, PartialEq, Eq, Structural)]
pub enum SourceCmd {
    Run,
    Pause,
    Stop,
    SetTrigger(Option<Trigger>),
}

/// Why a source could not be polled.
#[derive(Clone, Copy, Debug, PartialEq, Eq, Structural)]
pub enum PollError {
    /// The source failed to read its device.
    Fatal,
    /// The measurement failed this time; another poll may succeed.
    CanRetry,
}

/// How a source is scheduled.
#[derive(Clone, Copy, Debug, PartialEq, Eq, Structural)]
pub enum SourceType {
    /// The source may run on the general pool.
    Normal,
    /// The source must run on the dedicated high-priority pool.
    RealtimePriority,
}

/// Where a source task stands.
#[derive(Clone, Copy, Debug, PartialEq, Eq, Structural)]
pub enum SourcePhase {
    /// Waiting for the first trigger.
    Init,
    /// Waiting for the trigger to fire.
    Waiting,
    /// The probe is being polled.
    Polling,
    /// The buffer is being sent downstream.
    Flushing,
    /// Looking whether a new command is there.
    Checking,
    /// Paused: waiting for the next command.
    Paused,
    /// The task has ended.
    Done,
}

/// What happened since the last action.
#[derive(Clone, Copy, Debug, PartialEq, Eq, Structural)]
pub enum SourceEvent {
    /// A command was observed.
    Command(SourceCmd),
    /// No new command is there.
    Unchanged,
    /// The trigger fired.
    Tick,
    /// The trigger failed.
    TickFailed,
    /// The probe was polled into the buffer.
    Polled,
    /// The probe failed.
    PollFailed,
    /// The buffer was handed to the downstream channel.
    Flushed,
    /// The downstream channel is full: the source is too fast.
    ChannelFull,
}

/// Why a source task failed.
#[derive(Clone, Copy, Debug, PartialEq, Eq, Structural)]
pub enum SourceError {
    /// The trigger of a `SetTrigger` command cannot be configured.
    InitTrigger(TriggerError),
    /// The trigger failed while the task waited for it.
    Trigger,
    /// The probe failed to read its device.
    Poll,
    /// The queue to the transforms is full.
    SendBackpressureExceeded,
}

/// What the task does next.
#[derive(Clone, Copy, Debug, PartialEq, Eq, Structural)]
pub enum SourceAction {
    /// Wait until the command changes, then report it. Before that, reserve room for
    /// `reserve` more points in the buffer.
    AwaitCommand { reserve: u64 },
    /// Wait for the trigger's next fire instant. Before that, reserve room for `reserve`
    /// more points in the buffer.
    AwaitTrigger { reserve: u64 },
    /// Take the time and poll the probe into the buffer.
    Poll,
    /// Send the buffer downstream without blocking and start a new one of the same
    /// capacity. The buffer holds what `polls` polls have put in it.
    Flush { polls: u64 },
    /// Report the pending command, or that there is none.
    PeekCommand,
    /// End the task without an error.
    Exit,
    /// End the task with this error.
    Fail(SourceError),
}

/// The state of a source task.
#[derive(Clone, Copy, Debug, PartialEq, Eq, Structural)]
pub struct SourceTask {
    pub phase: SourcePhase,
    /// The number of polls between two flushes.
    pub flush_rounds: u64,
    /// The number of the current round; the first one is 1.
    pub round: u64,
    /// The number of polls whose points are in the buffer.
    pub pending: u64,
}

/// The round after `round`.
pub open spec fn next_round(round: u64) -> u64 {
    if round == u64::MAX {
        0
    } else {
        (round + 1) as u64
    }
}

/// The task that runs on after a command was handled or found missing.
pub open spec fn resumed(s: SourceTask) -> SourceTask {
    SourceTask { phase: SourcePhase::Waiting, round: next_round(s.round), ..s }
}

/// What a new trigger does to a task that has just flushed.
pub open spec fn reconfigured(s: SourceTask, t: Trigger, paused: bool) -> (
    SourceTask,
    SourceAction,
) {
    match t.configured() {
        Err(e) => (
            SourceTask { phase: SourcePhase::Done, ..s },
            SourceAction::Fail(SourceError::InitTrigger(e)),
        ),
        Ok(c) => {
            let k = c.flush_rounds;
            let reserve = (k - s.round % k) as u64;
            if paused {
                (
                    SourceTask { phase: SourcePhase::Paused, flush_rounds: k, ..s },
                    SourceAction::AwaitCommand { reserve },
                )
            } else {
                (resumed(SourceTask { flush_rounds: k, ..s }), SourceAction::AwaitTrigger { reserve })
            }
        },
    }
}

impl SourceTask {
    /// The invariant of the type: a task past its start has at least one flush round.
    pub open spec fn wf(self) -> bool {
        self.phase == SourcePhase::Init || self.phase == SourcePhase::Done || self.flush_rounds >= 1
    }

    /// Whether `e` can happen in the state `self`. The first command of a task sets its
    /// trigger, and a `SetTrigger` command always carries a trigger.
    pub open spec fn accepts(self, e: SourceEvent) -> bool {
        match self.phase {
            SourcePhase::Init => e matches SourceEvent::Command(SourceCmd::SetTrigger(Some(_))),
            SourcePhase::Waiting => e is Tick || e is TickFailed,
            SourcePhase::Polling => e is Polled || e is PollFailed,
            SourcePhase::Flushing => e is Flushed || e is ChannelFull,
            SourcePhase::Checking => (e is Command && e != SourceEvent::Command(
                SourceCmd::SetTrigger(None),
            )) || e is Unchanged,
            SourcePhase::Paused => e is Command && e != SourceEvent::Command(
                SourceCmd::SetTrigger(None),
            ),
            SourcePhase::Done => false,
        }
    }

    /// The state and the action that follow the event `e`, for an event that the state
    /// accepts.
    pub open spec fn next(self, e: SourceEvent) -> (SourceTask, SourceAction) {
        let failed = SourceTask { phase: SourcePhase::Done, ..self };
        match (self.phase, e) {
            (SourcePhase::Init, SourceEvent::Command(SourceCmd::SetTrigger(Some(t)))) => {
                match t.configured() {
                    Ok(c) => (
                        SourceTask {
                            phase: SourcePhase::Waiting,
                            flush_rounds: c.flush_rounds,
                            round: 1,
                            pending: 0,
                        },
                        SourceAction::AwaitTrigger { reserve: c.flush_rounds },
                    ),
                    Err(e) => (failed, SourceAction::Fail(SourceError::InitTrigger(e))),
                }
            },
            (SourcePhase::Init, _) => (self, SourceAction::AwaitCommand { reserve: 0 }),
            (SourcePhase::Waiting, SourceEvent::Tick) => (
                SourceTask { phase: SourcePhase::Polling, ..self },
                SourceAction::Poll,
            ),
            (SourcePhase::Waiting, _) => (failed, SourceAction::Fail(SourceError::Trigger)),
            (SourcePhase::Polling, SourceEvent::Polled) => {
                let pending = if self.pending == u64::MAX {
                    self.pending
                } else {
                    (self.pending + 1) as u64
                };
                if self.round % self.flush_rounds == 0 {
                    (
                        SourceTask { phase: SourcePhase::Flushing, pending, ..self },
                        SourceAction::Flush { polls: pending },
                    )
                } else {
                    (
                        resumed(SourceTask { pending, ..self }),
                        SourceAction::AwaitTrigger { reserve: 0 },
                    )
                }
            },
            (SourcePhase::Polling, _) => (failed, SourceAction::Fail(SourceError::Poll)),
            (SourcePhase::Flushing, SourceEvent::Flushed) => (
                SourceTask { phase: SourcePhase::Checking, pending: 0, ..self },
                SourceAction::PeekCommand,
            ),
            (SourcePhase::Flushing, _) => (
                failed,
                SourceAction::Fail(SourceError::SendBackpressureExceeded),
            ),
            (SourcePhase::Checking, SourceEvent::Command(SourceCmd::Pause)) => (
                SourceTask { phase: SourcePhase::Paused, ..self },
                SourceAction::AwaitCommand { reserve: 0 },
            ),
            (SourcePhase::Checking, SourceEvent::Command(SourceCmd::Stop)) => (
                failed,
                SourceAction::Exit,
            ),
            (SourcePhase::Checking, SourceEvent::Command(SourceCmd::SetTrigger(Some(t)))) => {
                reconfigured(self, t, false)
            },
            (SourcePhase::Checking, _) => (
                resumed(self),
                SourceAction::AwaitTrigger { reserve: 0 },
            ),
            (SourcePhase::Paused, SourceEvent::Command(SourceCmd::Run)) => (
                resumed(self),
                SourceAction::AwaitTrigger { reserve: 0 },
            ),
            (SourcePhase::Paused, SourceEvent::Command(SourceCmd::Stop)) => (
                failed,
                SourceAction::Exit,
            ),
            (SourcePhase::Paused, SourceEvent::Command(SourceCmd::SetTrigger(Some(t)))) => {
                reconfigured(self, t, true)
            },
            (SourcePhase::Paused, _) => (self, SourceAction::AwaitCommand { reserve: 0 }),
            (SourcePhase::Done, _) => (self, SourceAction::Exit),
        }
    }

    /// A task that waits for its first trigger.
    pub fn new() -> (s: Self)
        ensures
            s == (SourceTask { phase: SourcePhase::Init, flush_rounds: 0, round: 0, pending: 0 }),
            s.wf(),
    {
        SourceTask { phase: SourcePhase::Init, flush_rounds: 0, round: 0, pending: 0 }
    }

    /// Whether the event `e` can be handed to `step`.
    pub fn can_accept(&self, e: &SourceEvent) -> (b: bool)
        ensures
            b == self.accepts(*e),
    {
        let carries_trigger = match e {
            SourceEvent::Command(SourceCmd::SetTrigger(None)) => false,
            SourceEvent::Command(_) => true,
            _ => false,
        };
        match self.phase {
            SourcePhase::Init => matches!(e, SourceEvent::Command(SourceCmd::SetTrigger(Some(_)))),
            SourcePhase::Waiting => matches!(e, SourceEvent::Tick | SourceEvent::TickFailed),
            SourcePhase::Polling => matches!(e, SourceEvent::Polled | SourceEvent::PollFailed),
            SourcePhase::Flushing => matches!(e, SourceEvent::Flushed | SourceEvent::ChannelFull),
            SourcePhase::Checking => carries_trigger || matches!(e, SourceEvent::Unchanged),
            SourcePhase::Paused => carries_trigger,
            SourcePhase::Done => false,
        }
    }

    fn resume(&mut self)
        ensures
            *final(self) == resumed(*old(self)),
    {
        self.phase = SourcePhase::Waiting;
        self.round = if self.round == u64::MAX {
            0
        } else {
            self.round + 1
        };
    }

    fn reconfigure(&mut self, t: Trigger, paused: bool) -> (a: SourceAction)
        ensures
            (*final(self), a) == reconfigured(*old(self), t, paused),
            t.configured().is_ok() ==> final(self).flush_rounds >= 1,
    {
        match t.auto_configured() {
            Err(e) => {
                self.phase = SourcePhase::Done;
                SourceAction::Fail(SourceError::InitTrigger(e))
            },
            Ok(c) => {
                let k = c.flush_rounds;
                let reserve = k - self.round % k;
                self.flush_rounds = k;
                if paused {
                    self.phase = SourcePhase::Paused;
                    SourceAction::AwaitCommand { reserve }
                } else {
                    self.resume();
                    SourceAction::AwaitTrigger { reserve }
                }
            },
        }
    }

    /// Takes the event `e` and decides what the task does next.
    pub fn step(&mut self, e: SourceEvent) -> (a: SourceAction)
        requires
            old(self).wf(),
            old(self).accepts(e),
        ensures
            final(self).wf(),
            (*final(self), a) == old(self).next(e),
    {
        match self.phase {
            SourcePhase::Init => match e {
                SourceEvent::Command(SourceCmd::SetTrigger(Some(t))) => match t.auto_configured() {
                    Ok(c) => {
                        self.phase = SourcePhase::Waiting;
                        self.flush_rounds = c.flush_rounds;
                        self.round = 1;
                        self.pending = 0;
                        SourceAction::AwaitTrigger { reserve: c.flush_rounds }
                    },
                    Err(err) => {
                        self.phase = SourcePhase::Done;
                        SourceAction::Fail(SourceError::InitTrigger(err))
                    },
                },
                _ => SourceAction::AwaitCommand { reserve: 0 },
            },
            SourcePhase::Waiting => match e {
                SourceEvent::Tick => {
                    self.phase = SourcePhase::Polling;
                    SourceAction::Poll
                },
                _ => {
                    self.phase = SourcePhase::Done;
                    SourceAction::Fail(SourceError::Trigger)
                },
            },
            SourcePhase::Polling => match e {
                SourceEvent::Polled => {
                    if self.pending < u64::MAX {
                        self.pending = self.pending + 1;
                    }
                    if self.round % self.flush_rounds == 0 {
                        self.phase = SourcePhase::Flushing;
                        SourceAction::Flush { polls: self.pending }
                    } else {
                        self.resume();
                        SourceAction::AwaitTrigger { reserve: 0 }
                    }
                },
                _ => {
                    self.phase = SourcePhase::Done;
                    SourceAction::Fail(SourceError::Poll)
                },
            },
            SourcePhase::Flushing => match e {
                SourceEvent::Flushed => {
                    self.phase = SourcePhase::Checking;
                    self.pending = 0;
                    SourceAction::PeekCommand
                },
                _ => {
                    self.phase = SourcePhase::Done;
                    SourceAction::Fail(SourceError::SendBackpressureExceeded)
                },
            },
            SourcePhase::Checking => match e {
                SourceEvent::Command(SourceCmd::Pause) => {
                    self.phase = SourcePhase::Paused;
                    SourceAction::AwaitCommand { reserve: 0 }
                },
                SourceEvent::Command(SourceCmd::Stop) => {
                    self.phase = SourcePhase::Done;
                    SourceAction::Exit
                },
                SourceEvent::Command(SourceCmd::SetTrigger(Some(t))) => self.reconfigure(t, false),
                _ => {
                    self.resume();
                    SourceAction::AwaitTrigger { reserve: 0 }
                },
            },
            SourcePhase::Paused => match e {
                SourceEvent::Command(SourceCmd::Run) => {
                    self.resume();
                    SourceAction::AwaitTrigger { reserve: 0 }
                },
                SourceEvent::Command(SourceCmd::Stop) => {
                    self.phase = SourcePhase::Done;
                    SourceAction::Exit
                },
                SourceEvent::Command(SourceCmd::SetTrigger(Some(t))) => self.reconfigure(t, true),
                _ => SourceAction::AwaitCommand { reserve: 0 },
            },
            SourcePhase::Done => SourceAction::Exit,
        }
    }
}

/// The task after `n` more rounds in which the trigger fired and the probe was polled,
/// none of which ended in a flush.
pub open spec fn after_polls(s: SourceTask, n: nat) -> SourceTask
    decreases n,
{
    if n == 0 {
        s
    } else {
        after_polls(s, (n - 1) as nat).next(SourceEvent::Tick).0.next(SourceEvent::Polled).0
    }
}

/// In the steady state a buffer is flushed after every `k` polls, with `k` the number of
/// flush rounds, and not before: a task that starts a flush cycle with an empty buffer
/// polls `k - 1` times without a flush, and the `k`-th poll is followed by the flush of
/// what `k` polls have produced.
pub proof fn lemma_flush_after_k_polls(s: SourceTask, n: nat)
    requires
        s.phase == SourcePhase::Waiting,
        s.flush_rounds >= 1,
        s.pending == 0,
        s.round % s.flush_rounds == 1int % (s.flush_rounds as int),
        s.round + s.flush_rounds <= u64::MAX,
        n < s.flush_rounds,
    ensures
        after_polls(s, n) == (SourceTask { round: (s.round + n) as u64, pending: n as u64, ..s }),
        n < s.flush_rounds - 1 ==> after_polls(s, n).next(SourceEvent::Tick).0.next(
            SourceEvent::Polled,
        ).1 == (SourceAction::AwaitTrigger { reserve: 0 }),
        n == s.flush_rounds - 1 ==> after_polls(s, n).next(SourceEvent::Tick).0.next(
            SourceEvent::Polled,
        ).1 == (SourceAction::Flush { polls: s.flush_rounds }),
    decreases n,
{
    let k = s.flush_rounds as int;
    if n > 0 {
        lemma_flush_after_k_polls(s, (n - 1) as nat);
        lemma_flush_round(s.round as int, k, n - 1);
    }
    lemma_flush_round(s.round as int, k, n as int);
}

/// In a cycle that starts at the round `r`, the round `r + n` is the one that ends in a
/// flush iff it is the last of the `k` rounds of the cycle.
proof fn lemma_flush_round(r: int, k: int, n: int)
    requires
        k >= 1,
        r >= 0,
        0 <= n < k,
        r % k == 1int % k,
    ensures
        (r + n) % k == 0 <==> n == k - 1,
{
    lemma_add_mod_noop(r, n, k);
    lemma_small_mod(n as nat, k as nat);
    if k == 1 {
        lemma_mod_self_0(1);
    } else {
        lemma_small_mod(1, k as nat);
        if n == k - 1 {
            lemma_mod_self_0(k);
        } else {
            lemma_small_mod((n + 1) as nat, k as nat);
        }
    }
}

/// A pause is obeyed at the first look for a command, that is right after the flush that
/// was under way, and a paused task neither polls nor flushes: it waits for the next
/// command until it is told to run or to stop.
pub proof fn lemma_paused_source_is_quiet(s: SourceTask, e: SourceEvent)
    requires
        s.wf(),
    ensures
        s.phase == SourcePhase::Checking ==> s.next(SourceEvent::Command(SourceCmd::Pause)) == (
            SourceTask { phase: SourcePhase::Paused, ..s },
            SourceAction::AwaitCommand { reserve: 0 },
        ),
        s.phase == SourcePhase::Paused && s.accepts(e) ==> {
            let (t, a) = s.next(e);
            &&& !(a is Poll) && !(a is Flush)
            &&& a is AwaitCommand <==> t.phase == SourcePhase::Paused
            &&& t.phase == SourcePhase::Paused <==> (e == SourceEvent::Command(SourceCmd::Pause)
                || (e matches SourceEvent::Command(SourceCmd::SetTrigger(Some(trigger)))
                && trigger.configured().is_ok()))
            &&& t.phase == SourcePhase::Waiting ==> e == SourceEvent::Command(SourceCmd::Run)
            &&& t.pending == s.pending
        },
{
}

/// From any round, the poll that is followed by a flush is at most `flush_rounds` polls
/// away: a command is looked for at least once per flush interval.
pub proof fn lemma_flush_within_k_polls(round: u64, k: u64)
    requires
        k >= 1,
        round + k <= u64::MAX,
    ensures
        exists|n: int| 0 <= n < k && #[trigger] ((round + n) % (k as int)) == 0,
{
    let r = round as int;
    let kk = k as int;
    let m = r % kk;
    let n = if m == 0 {
        0
    } else {
        kk - m
    };
    lemma_add_mod_noop(r, n, kk);
    if m != 0 {
        lemma_small_mod(n as nat, kk as nat);
        lemma_mod_self_0(kk);
    } else {
        lemma_small_mod(0, kk as nat);
    }
    assert((round + n) % kk == 0);
}

} // verus!
