//! Instance-wide memory maintenance for dormant-mode agents.
//!
//! When an agent is dormant its tick loop never spawns, so the periodic memory
//! consolidation, decay and pruning never fires. The janitor is the
//! alternative path: a single instance-wide task that walks every registered
//! agent on a slow schedule.
use vstd::prelude::*;

verus! {

/// Per-agent maintenance budget in seconds. Generous because index rebuilds
/// can take a while for large memory stores, but bounded so a single hung
/// embedding call can't stall the whole janitor.
pub const PER_AGENT_TIMEOUT_SECS: u64 = 600;

/// How often captured prompt records are swept, in seconds.
pub const PROMPT_SWEEP_INTERVAL_SECS: u64 = 21600;

/// The shortest gap between two sweeps of the janitor, in seconds.
pub const SHORTEST_INTERVAL_SECS: u64 = 60;

/// The gap between two sweeps of the janitor: the one asked for, but never
/// less than a minute.
pub fn janitor_interval(interval_secs: u64) -> (secs: u64)
    ensures
        secs == (if interval_secs < SHORTEST_INTERVAL_SECS {
            SHORTEST_INTERVAL_SECS
        } else {
            interval_secs
        }),
{
    if interval_secs < SHORTEST_INTERVAL_SECS {
        SHORTEST_INTERVAL_SECS
    } else {
        interval_secs
    }
}

/// What became of one agent's maintenance.
#[derive(Debug, Clone, Copy, PartialEq, Eq, Structural)]
pub enum PassOutcome {
    Completed,
    Failed,
    /// The agent's budget ran out.
    TimedOut,
}

/// What the janitor has to say of an agent before it goes on to the next.
#[derive(Debug, Clone, Copy, PartialEq, Eq, Structural)]
pub enum PassReport {
    Silent,
    WarnFailed,
    WarnTimedOut,
}

/// Reports one agent's maintenance. Whatever it came to, the janitor goes on:
/// one agent never keeps the others from theirs.
pub fn report_pass(outcome: PassOutcome) -> (report: PassReport)
    ensures
        report == (match outcome {
            PassOutcome::Completed => PassReport::Silent,
            PassOutcome::Failed => PassReport::WarnFailed,
            PassOutcome::TimedOut => PassReport::WarnTimedOut,
        }),
{
    match outcome {
        PassOutcome::Completed => PassReport::Silent,
        PassOutcome::Failed => PassReport::WarnFailed,
        PassOutcome::TimedOut => PassReport::WarnTimedOut,
    }
}

/// How many days prompt records are kept: as an agent's settings say, or else
/// by default.
pub fn retention_days(configured: Option<i64>, default_days: i64) -> (days: i64)
    ensures
        days == (match configured {
            Some(days) => days,
            None => default_days,
        }),
{
    match configured {
        Some(days) => days,
        None => default_days,
    }
}

} // verus!
