//! Autonomy status and run history.
use vstd::prelude::*;
use crate::api;
use crate::api::{Status, StoreError};
use crate::llm::history::copy_opt;
use crate::order;
use crate::order::Ranked;
use crate::text;
use crate::time;

verus! {

broadcast use vstd::seq::group_seq_axioms;

/// How many recent runs to inspect when deriving a status snapshot. Enough to
/// find the running row and the most recent finished run.
pub const STATUS_RUN_WINDOW: u32 = 10;

/// How many runs are listed by default.
pub const DEFAULT_RUNS_LIMIT: u32 = 20;

/// How far an agent may go on its own.
#[derive(Debug, Clone, Copy, PartialEq, Eq, Structural)]
pub enum AutonomyLevel {
    Off,
    Observe,
    Propose,
    Act,
}

/// How the autonomy of an agent is tuned.
#[derive(Debug, Clone, Copy)]
pub struct AutonomyConfig {
    pub level: AutonomyLevel,
    pub interval_secs: u64,
    pub active_hours: Option<(u8, u8)>,
    pub max_tasks_per_run: u32,
}

/// Where an autonomy run stands.
#[derive(Debug, Clone, Copy, PartialEq, Eq, Structural)]
pub enum AutonomyRunStatus {
    Running,
    Completed,
    Failed,
}

/// An autonomy run.
#[derive(Debug)]
pub struct AutonomyRun {
    pub id: String,
    pub status: AutonomyRunStatus,
    pub started_at: String,
    pub summary: Option<String>,
}

/// The run that is in flight.
#[derive(Debug)]
pub struct AutonomyCurrentRun {
    pub started_at: String,
}

/// A status snapshot of an agent.
#[derive(Debug)]
pub struct AutonomyStatusResponse {
    pub agent_id: String,
    pub level: AutonomyLevel,
    pub interval_secs: u64,
    pub active_hours: Option<(u8, u8)>,
    pub max_tasks_per_run: u32,
    /// When the most recent finished run started.
    pub last_run_at: Option<String>,
    /// Summary of the most recent finished run.
    pub last_run_summary: Option<String>,
    /// Interval anchor: last run start + interval, clamped to now when
    /// overdue. Nothing when the level is `off`.
    pub next_run_at: Option<String>,
    /// The in-flight run, when one is active.
    pub current_run: Option<AutonomyCurrentRun>,
    pub pending_wake_events: i64,
}

/// The status of every agent.
#[derive(Debug)]
pub struct AutonomyFleetResponse {
    pub agents: Vec<AutonomyStatusResponse>,
}

/// A run, with the agent that made it.
#[derive(Debug)]
pub struct AutonomyRunEntry {
    pub agent_id: String,
    pub run: AutonomyRun,
}

impl Ranked for AutonomyRunEntry {
    /// Newest first; of runs that started together, the greater id first.
    open spec fn outranks(&self, other: &Self) -> bool {
        text::precedes(other.run.started_at@, self.run.started_at@) || self.run.started_at@ == other.run.started_at@
            && text::precedes(other.run.id@, self.run.id@)
    }

    fn comes_first(&self, other: &Self) -> (yes: bool) {
        text::comes_before(other.run.started_at.as_str(), self.run.started_at.as_str()) || text::same(
            self.run.started_at.as_str(),
            other.run.started_at.as_str(),
        ) && text::comes_before(other.run.id.as_str(), self.run.id.as_str())
    }
}

/// Recent runs.
#[derive(Debug)]
pub struct AutonomyRunsResponse {
    pub runs: Vec<AutonomyRunEntry>,
}

/// The first run that is in flight, or the first that is not.
pub open spec fn first_run(runs: Seq<AutonomyRun>, running: bool) -> Option<AutonomyRun>
    decreases runs.len(),
{
    if runs.len() == 0 {
        None
    } else if (runs[0].status == AutonomyRunStatus::Running) == running {
        Some(runs[0])
    } else {
        first_run(runs.subrange(1, runs.len() as int), running)
    }
}

fn find_run(runs: &Vec<AutonomyRun>, running: bool) -> (run: Option<&AutonomyRun>)
    ensures
        (match run {
            Some(run) => Some(*run),
            None => None,
        }) == first_run(runs@, running),
{
    let mut k: usize = 0;
    assert(runs@.subrange(0, runs@.len() as int) =~= runs@);
    while k < runs.len()
        invariant
            k <= runs@.len(),
            first_run(runs@, running) == first_run(runs@.subrange(k as int, runs@.len() as int), running),
        decreases runs@.len() - k,
    {
        let ghost here = runs@.subrange(k as int, runs@.len() as int);
        assert(here[0] == runs@[k as int]);
        assert(here.subrange(1, here.len() as int) =~= runs@.subrange(k + 1, runs@.len() as int));
        let in_flight = runs[k].status == AutonomyRunStatus::Running;
        if in_flight == running {
            return Some(&runs[k]);
        }
        k = k + 1;
    }
    None
}

/// When the next run is due, in milliseconds: the start of the newest run
/// (running or finished) plus the interval, but never before now. An agent
/// that never ran is due now, and one at level `off` never.
pub open spec fn due(config: AutonomyConfig, newest_start: Option<int>, now: int) -> Option<int> {
    if config.level == AutonomyLevel::Off {
        None
    } else {
        match newest_start {
            Some(start) => {
                let next = start + config.interval_secs * 1000;
                if next < now {
                    Some(now)
                } else {
                    Some(next)
                }
            },
            None => Some(now),
        }
    }
}

/// Whether the start of a run and an interval give an instant in the calendar,
/// where the next run is asked for at all.
pub open spec fn reachable(config: AutonomyConfig, newest_start: Option<int>) -> bool {
    config.level != AutonomyLevel::Off && newest_start is Some ==> {
        let start = newest_start->0;
        time::in_calendar_millis(start) && time::in_calendar_millis(start + config.interval_secs * 1000)
    }
}

fn next_due(config: AutonomyConfig, newest_start: Option<i64>, now: i64) -> (next: Option<i64>)
    requires
        time::in_calendar_millis(now as int),
        reachable(config, crate::json::opt_int(newest_start)),
    ensures
        (match next {
            Some(next) => Some(next as int),
            None => None,
        }) == due(config, crate::json::opt_int(newest_start), now as int),
        next matches Some(next) ==> time::in_calendar_millis(next as int),
{
    if config.level == AutonomyLevel::Off {
        return None;
    }
    match newest_start {
        Some(start) => {
            let next: i64 = start + (config.interval_secs as i64) * 1000;
            if next < now {
                Some(now)
            } else {
                Some(next)
            }
        },
        None => Some(now),
    }
}

/// Whether a snapshot shows the status of an agent.
pub open spec fn shows_status(
    status: AutonomyStatusResponse,
    agent_id: Seq<char>,
    config: AutonomyConfig,
    recent: Seq<AutonomyRun>,
    next: Option<int>,
    pending: i64,
) -> bool {
    &&& status.agent_id@ == agent_id
    &&& status.level == config.level
    &&& status.interval_secs == config.interval_secs
    &&& status.active_hours == config.active_hours
    &&& status.max_tasks_per_run == config.max_tasks_per_run
    &&& status.last_run_at == (match first_run(recent, false) {
        Some(run) => Some(run.started_at),
        None => None,
    })
    &&& status.last_run_summary == (match first_run(recent, false) {
        Some(run) => run.summary,
        None => None,
    })
    &&& text::opt_text(status.next_run_at) == (match next {
        Some(next) => Some(time::utc_millis(next)),
        None => None,
    })
    &&& (match status.current_run {
        Some(run) => Some(run.started_at),
        None => None,
    }) == (match first_run(recent, true) {
        Some(run) => Some(run.started_at),
        None => None,
    })
    &&& status.pending_wake_events == pending
}

/// Builds a status snapshot for one agent from its recent runs, newest first,
/// and its live config. `newest_start` is when the newest run started, where
/// that can be read.
pub fn build_status(
    agent_id: &str,
    config: AutonomyConfig,
    recent: &Vec<AutonomyRun>,
    newest_start: Option<i64>,
    pending_wake_events: i64,
    now: i64,
) -> (status: AutonomyStatusResponse)
    requires
        time::in_calendar_millis(now as int),
        reachable(config, crate::json::opt_int(newest_start)),
    ensures
        shows_status(
            status,
            agent_id@,
            config,
            recent@,
            due(config, crate::json::opt_int(newest_start), now as int),
            pending_wake_events,
        ),
{
    let current_run = match find_run(recent, true) {
        Some(run) => Some(AutonomyCurrentRun { started_at: run.started_at.clone() }),
        None => None,
    };
    let (last_run_at, last_run_summary) = match find_run(recent, false) {
        Some(run) => (Some(run.started_at.clone()), copy_opt(&run.summary)),
        None => (None, None),
    };
    let next_run_at = match next_due(config, newest_start, now) {
        Some(next) => Some(time::write_millis(next)),
        None => None,
    };
    AutonomyStatusResponse {
        agent_id: agent_id.to_owned(),
        level: config.level,
        interval_secs: config.interval_secs,
        active_hours: config.active_hours,
        max_tasks_per_run: config.max_tasks_per_run,
        last_run_at,
        last_run_summary,
        next_run_at,
        current_run,
        pending_wake_events,
    }
}

/// Answers a request for the status of one agent: an agent that is not
/// registered is not found.
pub fn autonomy_status(built: Option<Result<AutonomyStatusResponse, StoreError>>) -> (answer: Result<
    AutonomyStatusResponse,
    Status,
>)
    ensures
        answer == (match built {
            None => Err::<AutonomyStatusResponse, Status>(Status::NotFound),
            Some(Err(_)) => Err::<AutonomyStatusResponse, Status>(Status::Internal),
            Some(Ok(status)) => Ok::<AutonomyStatusResponse, Status>(status),
        }),
{
    match built {
        None => Err(Status::NotFound),
        Some(Err(_)) => Err(Status::Internal),
        Some(Ok(status)) => Ok(status),
    }
}

/// The snapshots of the agents that are registered.
pub open spec fn registered(built: Seq<Option<Result<AutonomyStatusResponse, StoreError>>>) -> Seq<AutonomyStatusResponse>
    decreases built.len(),
{
    if built.len() == 0 {
        Seq::empty()
    } else {
        match built.last() {
            Some(Ok(status)) => registered(built.drop_last()).push(status),
            _ => registered(built.drop_last()),
        }
    }
}

/// Whether a snapshot could not be built.
pub open spec fn failed(built: Option<Result<AutonomyStatusResponse, StoreError>>) -> bool {
    match built {
        Some(Err(_)) => true,
        _ => false,
    }
}

/// Whether some snapshot could not be built.
pub open spec fn some_failed(built: Seq<Option<Result<AutonomyStatusResponse, StoreError>>>) -> bool {
    exists|k: int| 0 <= k < built.len() && failed(#[trigger] built[k])
}

/// Answers a request for the status of every agent, in agent-list order.
///
/// Agents mid-removal may be absent from the registry; they are skipped rather
/// than failing the whole fleet snapshot.
pub fn autonomy_fleet(built: Vec<Option<Result<AutonomyStatusResponse, StoreError>>>) -> (answer: Result<
    AutonomyFleetResponse,
    Status,
>)
    ensures
        match answer {
            Ok(fleet) => !some_failed(built@) && fleet.agents@ == registered(built@),
            Err(status) => some_failed(built@) && status == Status::Internal,
        },
{
    let ghost all = built@;
    let mut rest = built;
    let mut agents: Vec<AutonomyStatusResponse> = Vec::new();
    let ghost mut n: int = 0;
    assert(agents@ =~= registered(all.take(0)));
    while rest.len() > 0
        invariant
            0 <= n <= all.len(),
            rest@ == all.subrange(n, all.len() as int),
            all == built@,
            agents@ == registered(all.take(n)),
            forall|k: int| 0 <= k < n ==> !failed(#[trigger] all[k]),
        decreases rest@.len(),
    {
        let next = rest.remove(0);
        assert(next == all[n]);
        assert(rest@ =~= all.subrange(n + 1, all.len() as int));
        assert(all.take(n + 1).drop_last() =~= all.take(n));
        match next {
            None => {},
            Some(Ok(status)) => {
                agents.push(status);
            },
            Some(Err(_)) => {
                assert(failed(all[n]));
                return Err(Status::Internal);
            },
        }
        proof {
            n = n + 1;
        }
    }
    assert(all.take(n) =~= all);
    Ok(AutonomyFleetResponse { agents })
}

/// The recent runs of an agent.
#[derive(Debug)]
pub struct AgentRuns {
    pub agent_id: String,
    pub runs: Vec<AutonomyRun>,
}

/// The entries of one agent's runs.
pub open spec fn entries_of(agent_id: String, runs: Seq<AutonomyRun>) -> Seq<AutonomyRunEntry> {
    runs.map_values(|run: AutonomyRun| AutonomyRunEntry { agent_id, run })
}

/// The entries of all agents' runs.
pub open spec fn all_entries(lists: Seq<AgentRuns>) -> Seq<AutonomyRunEntry>
    decreases lists.len(),
{
    if lists.len() == 0 {
        Seq::empty()
    } else {
        all_entries(lists.drop_last()) + entries_of(lists.last().agent_id, lists.last().runs@)
    }
}

fn push_entries(entries: &mut Vec<AutonomyRunEntry>, agent_id: &String, runs: Vec<AutonomyRun>)
    ensures
        final(entries)@ == old(entries)@ + entries_of(*agent_id, runs@),
{
    let ghost all = runs@;
    let ghost before = entries@;
    let mut rest = runs;
    let ghost mut n: int = 0;
    assert(entries@ =~= before + entries_of(*agent_id, all.take(0)));
    while rest.len() > 0
        invariant
            0 <= n <= all.len(),
            rest@ == all.subrange(n, all.len() as int),
            entries@ == before + entries_of(*agent_id, all.take(n)),
        decreases rest@.len(),
    {
        let run = rest.remove(0);
        assert(run == all[n]);
        assert(rest@ =~= all.subrange(n + 1, all.len() as int));
        let entry = AutonomyRunEntry { agent_id: agent_id.clone(), run };
        assert(entries_of(*agent_id, all.take(n + 1)) =~= entries_of(*agent_id, all.take(n)).push(entry));
        entries.push(entry);
        assert(entries@ =~= before + entries_of(*agent_id, all.take(n + 1)));
        proof {
            n = n + 1;
        }
    }
    assert(all.take(n) =~= all);
}

/// How many runs are listed: as many as asked for, at least one and at most a
/// hundred.
pub fn runs_limit(limit: u32) -> (held: u32)
    ensures
        held == api::clamped(limit as int, 1, 100),
{
    if limit < 1 {
        1
    } else if limit > 100 {
        100
    } else {
        limit
    }
}

/// The first of a list.
pub open spec fn first_of<T>(list: Seq<T>, limit: int) -> Seq<T> {
    if list.len() <= limit {
        list
    } else {
        list.take(limit)
    }
}

/// Lists the recent runs of one agent, as its store hands them out.
pub fn agent_runs(agent_id: &str, runs: Vec<AutonomyRun>) -> (response: AutonomyRunsResponse)
    ensures
        exists|id: String| id@ == agent_id@ && response.runs@ == #[trigger] entries_of(id, runs@),
{
    let mut entries: Vec<AutonomyRunEntry> = Vec::new();
    let id = agent_id.to_owned();
    push_entries(&mut entries, &id, runs);
    assert(entries@ =~= entries_of(id, runs@));
    AutonomyRunsResponse { runs: entries }
}

/// Lists the recent runs of all agents, newest first.
pub fn autonomy_runs(lists: Vec<AgentRuns>, limit: u32) -> (response: AutonomyRunsResponse)
    ensures
        response.runs@ == first_of(
            order::ranked(all_entries(lists@)),
            api::clamped(limit as int, 1, 100),
        ),
{
    let held: u32 = runs_limit(limit);
    let ghost all = lists@;
    let mut rest = lists;
    let mut entries: Vec<AutonomyRunEntry> = Vec::new();
    let ghost mut n: int = 0;
    assert(entries@ =~= all_entries(all.take(0)));
    while rest.len() > 0
        invariant
            0 <= n <= all.len(),
            rest@ == all.subrange(n, all.len() as int),
            entries@ == all_entries(all.take(n)),
        decreases rest@.len(),
    {
        let next = rest.remove(0);
        assert(next == all[n]);
        assert(rest@ =~= all.subrange(n + 1, all.len() as int));
        assert(all.take(n + 1).drop_last() =~= all.take(n));
        push_entries(&mut entries, &next.agent_id, next.runs);
        proof {
            n = n + 1;
        }
    }
    assert(all.take(n) =~= all);
    let mut runs = order::rank(entries);
    if runs.len() > held as usize {
        runs.truncate(held as usize);
        assert(runs@ =~= order::ranked(all_entries(all)).take(held as int));
    }
    AutonomyRunsResponse { runs }
}

// ---------------------------------------------------------------------------
// Laws
// ---------------------------------------------------------------------------

/// The next run is never in the past, and there is none at level `off`.
pub proof fn law_the_next_run_is_not_past(config: AutonomyConfig, newest_start: Option<int>, now: int)
    ensures
        due(config, newest_start, now) is None <==> config.level == AutonomyLevel::Off,
        due(config, newest_start, now) matches Some(next) ==> next >= now,
{
}

/// The first run of a kind is the first in the list that is of it.
pub proof fn law_the_first_run_of_a_kind_is_found(runs: Seq<AutonomyRun>, running: bool)
    ensures
        first_run(runs, running) matches Some(run) ==> exists|k: int|
            0 <= k < runs.len() && (#[trigger] runs[k]) == run && (run.status == AutonomyRunStatus::Running <==> running)
                && forall|i: int|
                0 <= i < k ==> ((#[trigger] runs[i]).status == AutonomyRunStatus::Running <==> !running),
        first_run(runs, running) is None ==> forall|k: int|
            0 <= k < runs.len() ==> ((#[trigger] runs[k]).status == AutonomyRunStatus::Running <==> !running),
    decreases runs.len(),
{
    if runs.len() > 0 && (runs[0].status == AutonomyRunStatus::Running) != running {
        let rest = runs.subrange(1, runs.len() as int);
        law_the_first_run_of_a_kind_is_found(rest, running);
        assert forall|k: int| 1 <= k < runs.len() implies #[trigger] runs[k] == rest[k - 1] by {}
        if let Some(run) = first_run(rest, running) {
            let k = choose|k: int|
                0 <= k < rest.len() && (#[trigger] rest[k]) == run && (run.status == AutonomyRunStatus::Running
                    <==> running) && forall|i: int|
                    0 <= i < k ==> ((#[trigger] rest[i]).status == AutonomyRunStatus::Running <==> !running);
            assert(runs[k + 1] == run);
            assert forall|i: int| 0 <= i < k + 1 implies ((#[trigger] runs[i]).status == AutonomyRunStatus::Running
                <==> !running) by {
                if i > 0 {
                    assert(runs[i] == rest[i - 1]);
                }
            }
        }
    }
}

/// The next run is due an interval after the newest one began, at once where
/// that is past or where none has run, and never while autonomy is off.
pub proof fn law_runs_are_an_interval_apart(config: AutonomyConfig, start: int, now: int)
    requires
        config.level != AutonomyLevel::Off,
    ensures
        due(config, None, now) == Some(now),
        start + config.interval_secs * 1000 >= now ==> due(config, Some(start), now) == Some(
            start + config.interval_secs * 1000,
        ),
        start + config.interval_secs * 1000 <= now ==> due(config, Some(start), now) == Some(now),
{
}

/// A status shows the agent's own settings, its latest finished run, its current
/// run and when the next is due.
pub proof fn law_a_status_shows_the_agent(
    status: AutonomyStatusResponse,
    agent_id: Seq<char>,
    config: AutonomyConfig,
    recent: Seq<AutonomyRun>,
    next: Option<int>,
    pending: i64,
)
    requires
        shows_status(status, agent_id, config, recent, next, pending),
    ensures
        status.agent_id@ == agent_id && status.level == config.level && status.interval_secs == config.interval_secs,
        status.active_hours == config.active_hours && status.max_tasks_per_run == config.max_tasks_per_run,
        status.pending_wake_events == pending,
        status.next_run_at is Some <==> next is Some,
        status.current_run is Some <==> exists|k: int|
            0 <= k < recent.len() && (#[trigger] recent[k]).status == AutonomyRunStatus::Running,
        status.last_run_at is Some <==> exists|k: int|
            0 <= k < recent.len() && (#[trigger] recent[k]).status != AutonomyRunStatus::Running,
        status.last_run_at is None ==> status.last_run_summary is None,
        recent.len() > 0 && recent[0].status == AutonomyRunStatus::Running ==> status.current_run->0.started_at
            == recent[0].started_at,
        recent.len() > 0 && recent[0].status != AutonomyRunStatus::Running ==> status.last_run_at == Some(
            recent[0].started_at,
        ) && status.last_run_summary == recent[0].summary,
{
    law_the_first_run_of_a_kind_is_found(recent, true);
    law_the_first_run_of_a_kind_is_found(recent, false);
}

/// The fleet lists every agent whose status could be built, in order, and
/// nothing else.
pub proof fn law_the_fleet_lists_what_was_built(
    first: Seq<Option<Result<AutonomyStatusResponse, StoreError>>>,
    second: Seq<Option<Result<AutonomyStatusResponse, StoreError>>>,
)
    ensures
        registered(first + second) == registered(first) + registered(second),
        first.len() == 1 && first[0] is Some && first[0]->0 is Ok ==> registered(first) == seq![first[0]->0->Ok_0],
        first.len() == 1 && (first[0] is None || first[0]->0 is Err) ==> registered(first).len() == 0,
    decreases second.len(),
{
    let all = first + second;
    if second.len() == 0 {
        assert(all =~= first);
        assert(registered(second) =~= Seq::<AutonomyStatusResponse>::empty());
    } else {
        assert(all.drop_last() =~= first + second.drop_last());
        assert(all.last() == second.last());
        law_the_fleet_lists_what_was_built(first, second.drop_last());
    }
    assert(registered(all) =~= registered(first) + registered(second));
    if first.len() == 1 {
        assert(registered(first.drop_last()) =~= Seq::<AutonomyStatusResponse>::empty());
        assert(first.last() == first[0]);
        if first[0] is Some && first[0]->0 is Ok {
            assert(registered(first) =~= seq![first[0]->0->Ok_0]);
        }
    }
}

/// Runs are listed under the agent that ran them, agent by agent.
pub proof fn law_runs_stay_with_their_agent(first: Seq<AgentRuns>, second: Seq<AgentRuns>, k: int)
    ensures
        all_entries(first + second) == all_entries(first) + all_entries(second),
        first.len() == 1 ==> all_entries(first).len() == first[0].runs@.len() && (0 <= k < first[0].runs@.len()
            ==> all_entries(first)[k].agent_id == first[0].agent_id && all_entries(first)[k].run == first[0].runs@[k]),
    decreases second.len(),
{
    let all = first + second;
    if second.len() == 0 {
        assert(all =~= first);
        assert(all_entries(second) =~= Seq::<AutonomyRunEntry>::empty());
    } else {
        assert(all.drop_last() =~= first + second.drop_last());
        assert(all.last() == second.last());
        law_runs_stay_with_their_agent(first, second.drop_last(), k);
    }
    assert(all_entries(all) =~= all_entries(first) + all_entries(second));
    if first.len() == 1 {
        assert(all_entries(first.drop_last()) =~= Seq::<AutonomyRunEntry>::empty());
        assert(all_entries(first) =~= entries_of(first[0].agent_id, first[0].runs@));
    }
}

/// A limit keeps the beginning of a list.
pub proof fn law_a_limit_keeps_the_beginning<T>(list: Seq<T>, limit: int)
    requires
        limit >= 0,
    ensures
        first_of(list, limit).is_prefix_of(list),
        list.len() <= limit ==> first_of(list, limit) == list,
        list.len() > limit ==> first_of(list, limit).len() == limit,
{
    assert(list.subrange(0, list.len() as int) =~= list);
}

/// A later run comes before an earlier one.
pub proof fn law_later_runs_come_first(a: AutonomyRunEntry, b: AutonomyRunEntry)
    ensures
        text::precedes(a.run.started_at@, b.run.started_at@) ==> b.outranks(&a),
        a.run.started_at@ == b.run.started_at@ && text::precedes(a.run.id@, b.run.id@) ==> b.outranks(&a),
{
}

} // verus!
