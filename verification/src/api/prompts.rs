//! Prompt record API: the captured requests behind the inspector.
use vstd::prelude::*;
use crate::api;
use crate::api::{Status, StoreError};
use crate::llm::history::copy_opt;
use crate::llm::record::Lookup;
use crate::text;

verus! {

broadcast use vstd::seq::group_seq_axioms;

/// How many requests are listed by default.
pub const DEFAULT_LIMIT: i64 = 100;

/// An agent, and whether it has a record store and a settings store.
#[derive(Debug)]
pub struct AgentStores {
    pub agent_id: String,
    pub records: bool,
    pub settings: bool,
}

/// The first agent of a name, or the first at all where none is named.
pub open spec fn agent_at(agents: Seq<AgentStores>, agent_id: Option<Seq<char>>) -> Option<int>
    decreases agents.len(),
{
    match agent_id {
        None => if agents.len() > 0 {
            Some(0)
        } else {
            None
        },
        Some(id) => if agents.len() == 0 {
            None
        } else {
            match agent_at(agents.drop_last(), agent_id) {
                Some(k) => Some(k),
                None => if agents.last().agent_id@ == id {
                    Some(agents.len() - 1)
                } else {
                    None
                },
            }
        },
    }
}

proof fn agent_at_first(agents: Seq<AgentStores>, id: Seq<char>)
    ensures
        match agent_at(agents, Some(id)) {
            Some(k) => 0 <= k < agents.len() && agents[k].agent_id@ == id && forall|i: int|
                0 <= i < k ==> (#[trigger] agents[i]).agent_id@ != id,
            None => forall|i: int| 0 <= i < agents.len() ==> (#[trigger] agents[i]).agent_id@ != id,
        },
    decreases agents.len(),
{
    if agents.len() > 0 {
        let front = agents.drop_last();
        agent_at_first(front, id);
        assert forall|i: int| 0 <= i < front.len() implies front[i] == agents[i] by {}
    }
}

fn find_agent(agents: &Vec<AgentStores>, agent_id: &Option<String>) -> (at: Option<usize>)
    ensures
        (match at {
            Some(at) => Some(at as int),
            None => None,
        }) == agent_at(agents@, text::opt_text(*agent_id)),
        at matches Some(at) ==> at < agents@.len(),
{
    match agent_id {
        None => {
            if agents.len() > 0 {
                Some(0)
            } else {
                None
            }
        },
        Some(id) => {
            proof {
                agent_at_first(agents@, id@);
            }
            let mut k: usize = 0;
            while k < agents.len()
                invariant
                    k <= agents@.len(),
                    forall|i: int| 0 <= i < k ==> (#[trigger] agents@[i]).agent_id@ != id@,
                    text::opt_text(*agent_id) == Some(id@),
                    match agent_at(agents@, Some(id@)) {
                        Some(k) => 0 <= k < agents@.len() && agents@[k].agent_id@ == id@ && forall|i: int|
                            0 <= i < k ==> (#[trigger] agents@[i]).agent_id@ != id@,
                        None => forall|i: int| 0 <= i < agents@.len() ==> (#[trigger] agents@[i]).agent_id@ != id@,
                    },
                decreases agents@.len() - k,
            {
                if text::same(agents[k].agent_id.as_str(), id.as_str()) {
                    return Some(k);
                }
                k = k + 1;
            }
            None
        },
    }
}

/// Resolves the agent whose record store answers, defaulting to the first
/// agent when the caller did not name one. An agent without a store is not
/// found.
pub fn record_store(agents: &Vec<AgentStores>, agent_id: &Option<String>) -> (at: Result<usize, Status>)
    ensures
        match at {
            Ok(at) => agent_at(agents@, text::opt_text(*agent_id)) == Some(at as int) && agents@[at as int].records,
            Err(status) => status == Status::NotFound && (agent_at(agents@, text::opt_text(*agent_id)) is None
                || !agents@[agent_at(agents@, text::opt_text(*agent_id))->0].records),
        },
{
    match find_agent(agents, agent_id) {
        Some(at) => {
            if agents[at].records {
                Ok(at)
            } else {
                Err(Status::NotFound)
            }
        },
        None => Err(Status::NotFound),
    }
}

/// Resolves the agent whose settings are read, in the same way.
pub fn settings_store(agents: &Vec<AgentStores>, agent_id: &Option<String>) -> (at: Result<usize, Status>)
    ensures
        match at {
            Ok(at) => agent_at(agents@, text::opt_text(*agent_id)) == Some(at as int) && agents@[at as int].settings,
            Err(status) => status == Status::NotFound && (agent_at(agents@, text::opt_text(*agent_id)) is None
                || !agents@[agent_at(agents@, text::opt_text(*agent_id))->0].settings),
        },
{
    match find_agent(agents, agent_id) {
        Some(at) => {
            if agents[at].settings {
                Ok(at)
            } else {
                Err(Status::NotFound)
            }
        },
        None => Err(Status::NotFound),
    }
}

/// Which captured requests to list.
#[derive(Debug)]
pub struct ListQuery {
    /// Restrict to one channel's requests.
    pub channel_id: Option<String>,
    /// Restrict to one branch or worker's requests.
    pub process_id: Option<String>,
    /// Every request produced by one conversation message.
    pub message_id: Option<String>,
    pub limit: i64,
}

/// How the store is asked.
#[derive(Debug)]
pub enum Listing {
    /// Every request of a message.
    Message(String),
    /// The newest requests of a channel and a process, up to a limit.
    Scoped(Option<String>, Option<String>, i64),
}

/// Decides how the store is asked: by message where one is given.
pub fn list_prompt_requests(query: &ListQuery) -> (listing: Listing)
    ensures
        listing == (match query.message_id {
            Some(message_id) => Listing::Message(message_id),
            None => Listing::Scoped(
                query.channel_id,
                query.process_id,
                api::clamped(query.limit as int, 1, 1000) as i64,
            ),
        }),
{
    match &query.message_id {
        Some(message_id) => Listing::Message(message_id.clone()),
        None => Listing::Scoped(
            copy_opt(&query.channel_id),
            copy_opt(&query.process_id),
            api::clamp(query.limit, 1, 1000),
        ),
    }
}

/// What reading a payload came to.
#[derive(Debug, Clone, Copy, PartialEq, Eq, Structural)]
pub enum Payload {
    /// The record was read.
    Read,
    /// The payload was swept.
    Swept,
    /// It cannot be read or parsed.
    Failed,
}

/// Answers a request for one captured request: the path of its payload, once
/// that was read.
///
/// An ambiguous prefix is the caller's to fix; a failed query, unreadable
/// payload or unparseable record is the store failing and must not be reported
/// as a caller mistake. An index row whose payload was swept is a miss, not an
/// error.
pub fn get_prompt_request(found: Result<Lookup, StoreError>, payload: Payload) -> (answer: Result<String, Status>)
    ensures
        match found {
            Err(_) => answer == Err::<String, Status>(Status::Internal),
            Ok(Lookup::Missing) => answer == Err::<String, Status>(Status::NotFound),
            Ok(Lookup::Ambiguous(_)) => answer == Err::<String, Status>(Status::Conflict),
            Ok(Lookup::Path(path)) => match payload {
                Payload::Read => answer == Ok::<String, Status>(path),
                Payload::Swept => answer == Err::<String, Status>(Status::NotFound),
                Payload::Failed => answer == Err::<String, Status>(Status::Internal),
            },
        },
{
    match found {
        Err(_) => Err(Status::Internal),
        Ok(Lookup::Missing) => Err(Status::NotFound),
        Ok(Lookup::Ambiguous(_)) => Err(Status::Conflict),
        Ok(Lookup::Path(path)) => match payload {
            Payload::Read => Ok(path),
            Payload::Swept => Err(Status::NotFound),
            Payload::Failed => Err(Status::Internal),
        },
    }
}

/// What is to be done for one agent when capture is switched.
#[derive(Debug, Clone, Copy, PartialEq, Eq, Structural)]
pub struct CaptureStep {
    /// Whether the setting is persisted.
    pub persist: bool,
    /// The retention to persist, where one is given.
    pub retention_days: Option<i64>,
    /// Whether the live flag of the record store is set.
    pub live: bool,
}

/// The retention that is persisted: a positive one.
pub open spec fn kept_retention(days: Option<i64>) -> Option<i64> {
    match days {
        Some(days) => if days > 0 {
            Some(days)
        } else {
            None
        },
        None => None,
    }
}

/// What is to be done for an agent.
pub open spec fn capture_step(agent: AgentStores, retention_days: Option<i64>) -> CaptureStep {
    CaptureStep {
        persist: agent.settings,
        retention_days: if agent.settings {
            kept_retention(retention_days)
        } else {
            None
        },
        live: agent.settings && agent.records,
    }
}

/// Decides what is to be done for each agent when capture is switched.
///
/// Capture is an instance-wide switch, so every agent is written and every
/// agent's live flag is set. An agent without a settings store is passed over.
pub fn set_prompt_debug_capture(agents: &Vec<AgentStores>, retention_days: Option<i64>) -> (steps: Result<
    Vec<CaptureStep>,
    Status,
>)
    ensures
        match steps {
            Ok(steps) => agents@.len() > 0 && steps@ == agents@.map_values(
                |agent: AgentStores| capture_step(agent, retention_days),
            ),
            Err(status) => agents@.len() == 0 && status == Status::NotFound,
        },
{
    if agents.len() == 0 {
        return Err(Status::NotFound);
    }
    let ghost all = agents@.map_values(|agent: AgentStores| capture_step(agent, retention_days));
    let retention = match retention_days {
        Some(days) => {
            if days > 0 {
                Some(days)
            } else {
                None
            }
        },
        None => None,
    };
    let mut steps: Vec<CaptureStep> = Vec::new();
    let mut k: usize = 0;
    assert(steps@ =~= all.take(0));
    while k < agents.len()
        invariant
            all == agents@.map_values(|agent: AgentStores| capture_step(agent, retention_days)),
            retention == kept_retention(retention_days),
            k <= agents@.len(),
            steps@ == all.take(k as int),
        decreases agents@.len() - k,
    {
        let agent = &agents[k];
        let step = CaptureStep {
            persist: agent.settings,
            retention_days: if agent.settings {
                retention
            } else {
                None
            },
            live: agent.settings && agent.records,
        };
        assert(all.take(k + 1) =~= all.take(k as int).push(step));
        steps.push(step);
        k = k + 1;
    }
    assert(all.take(k as int) =~= all);
    Ok(steps)
}

// ---------------------------------------------------------------------------
// Laws
// ---------------------------------------------------------------------------

/// An agent is found by its name, the first that bears it; without a name the
/// first agent is taken.
pub proof fn law_an_agent_is_found_by_its_name(agents: Seq<AgentStores>, agent_id: Option<Seq<char>>)
    ensures
        agent_id is None ==> agent_at(agents, agent_id) == (if agents.len() > 0 {
            Some(0int)
        } else {
            None
        }),
        agent_id is Some ==> {
            &&& agent_at(agents, agent_id) matches Some(k) ==> 0 <= k < agents.len() && agents[k].agent_id@
                == agent_id->0 && forall|i: int| 0 <= i < k ==> (#[trigger] agents[i]).agent_id@ != agent_id->0
            &&& agent_at(agents, agent_id) is None ==> forall|i: int|
                0 <= i < agents.len() ==> (#[trigger] agents[i]).agent_id@ != agent_id->0
        },
    decreases agents.len(),
{
    if agent_id is Some && agents.len() > 0 {
        let front = agents.drop_last();
        law_an_agent_is_found_by_its_name(front, agent_id);
        assert forall|i: int| 0 <= i < front.len() implies #[trigger] agents[i] == front[i] by {}
        if let Some(k) = agent_at(front, agent_id) {
            assert(agents[k] == front[k]);
        }
    }
}

/// Capturing is persisted where there are settings, goes live only where there
/// are records too, and is kept for a number of days only where that is one.
pub proof fn law_capturing_needs_its_stores(agent: AgentStores, retention_days: Option<i64>)
    ensures
        capture_step(agent, retention_days).persist <==> agent.settings,
        capture_step(agent, retention_days).live <==> agent.settings && agent.records,
        capture_step(agent, retention_days).retention_days matches Some(days) ==> days > 0 && retention_days == Some(days)
            && agent.settings,
        agent.settings && retention_days is Some && retention_days->0 > 0 ==> capture_step(
            agent,
            retention_days,
        ).retention_days == retention_days,
{
}

} // verus!
