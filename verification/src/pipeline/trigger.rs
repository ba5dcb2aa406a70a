//! Triggers schedule the polls of a source.

use crate::measurement::Timestamp;
use vstd::prelude::*;

verus! {

/// When a source is polled and how often its buffer is flushed. Intervals are in
/// nanoseconds.
#[derive(Clone, Copy, Debug, PartialEq, Eq, Structural)]
pub enum Trigger {
    TimeInterval { start_time: Timestamp, poll_interval: u64, flush_interval: u64 },
}

/// Why a trigger cannot be configured.
#[derive(Clone, Copy, Debug, PartialEq, Eq, Structural)]
pub enum TriggerError {
    /// The poll interval is zero.
    ZeroPollInterval,
    /// The flush interval is shorter than the poll interval: there would be a flush
    /// without a poll before it.
    FlushBeforePoll,
}

/// A trigger that is ready to run.
#[derive(Clone, Copy, Debug, PartialEq, Eq, Structural)]
pub struct ConfiguredSourceTrigger {
    pub start_time: Timestamp,
    pub poll_interval: u64,
    /// The number of polls between two flushes, at least 1.
    pub flush_rounds: u64,
}

impl Trigger {
    /// A trigger that fires every `poll_interval` and flushes every `flush_interval`.
    pub fn at_interval(start_time: Timestamp, poll_interval: u64, flush_interval: u64) -> (t: Self)
        ensures
            t == (Trigger::TimeInterval { start_time, poll_interval, flush_interval }),
    {
        Trigger::TimeInterval { start_time, poll_interval, flush_interval }
    }

    /// What `auto_configured` returns.
    pub open spec fn configured(self) -> Result<ConfiguredSourceTrigger, TriggerError> {
        match self {
            Trigger::TimeInterval { start_time, poll_interval, flush_interval } => {
                if poll_interval == 0 {
                    Err(TriggerError::ZeroPollInterval)
                } else if flush_interval < poll_interval {
                    Err(TriggerError::FlushBeforePoll)
                } else {
                    Ok(
                        ConfiguredSourceTrigger {
                            start_time,
                            poll_interval,
                            flush_rounds: flush_interval / poll_interval,
                        },
                    )
                }
            },
        }
    }

    /// Derives the number of flush rounds: `flush_interval / poll_interval`.
    pub fn auto_configured(self) -> (r: Result<ConfiguredSourceTrigger, TriggerError>)
        ensures
            r == self.configured(),
            r.is_ok() ==> r.unwrap().flush_rounds >= 1,
    {
        match self {
            Trigger::TimeInterval { start_time, poll_interval, flush_interval } => {
                if poll_interval == 0 {
                    Err(TriggerError::ZeroPollInterval)
                } else if flush_interval < poll_interval {
                    Err(TriggerError::FlushBeforePoll)
                } else {
                    let flush_rounds = flush_interval / poll_interval;
                    assert(flush_rounds >= 1) by (nonlinear_arith)
                        requires
                            flush_rounds == flush_interval / poll_interval,
                            0 < poll_interval <= flush_interval,
                    ;
                    Ok(ConfiguredSourceTrigger { start_time, poll_interval, flush_rounds })
                }
            },
        }
    }
}

/// A trigger whose flush interval is `k` poll intervals has `k` flush rounds.
pub proof fn lemma_flush_rounds_of_multiple(start_time: Timestamp, poll_interval: u64, k: u64)
    requires
        poll_interval >= 1,
        k >= 1,
        k * poll_interval <= u64::MAX,
    ensures
        (Trigger::TimeInterval {
            start_time,
            poll_interval,
            flush_interval: (k * poll_interval) as u64,
        }).configured() == Ok::<ConfiguredSourceTrigger, TriggerError>(
            ConfiguredSourceTrigger { start_time, poll_interval, flush_rounds: k },
        ),
{
    assert((k * poll_interval) / (poll_interval as int) == k) by (nonlinear_arith)
        requires
            poll_interval >= 1,
    ;
    assert(k * poll_interval >= poll_interval) by (nonlinear_arith)
        requires
            poll_interval >= 1,
            k >= 1,
    ;
}

} // verus!
