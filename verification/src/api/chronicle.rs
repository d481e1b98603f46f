//! Instance-wide chronicle history and daily briefs.
use vstd::prelude::*;
use crate::conversation::chronicle::ChronicleCheckpoint;
use crate::order;
use crate::order::Ranked;
use crate::text;

verus! {

broadcast use vstd::seq::group_seq_axioms;

/// How many checkpoints are listed by default.
pub const DEFAULT_LIMIT: usize = 20;

/// How many checkpoints are listed at most.
pub const MAX_LIMIT: usize = 100;

/// The latest brief of an agent's day.
#[derive(Debug)]
pub struct AgentDailyBrief {
    pub agent_id: String,
    pub day: String,
    pub summary: String,
    pub event_count: i64,
    pub created_at: i64,
}

impl Ranked for AgentDailyBrief {
    /// The latest day first; of one day, by agent.
    open spec fn outranks(&self, other: &Self) -> bool {
        text::precedes(other.day@, self.day@) || self.day@ == other.day@ && text::precedes(
            self.agent_id@,
            other.agent_id@,
        )
    }

    fn comes_first(&self, other: &Self) -> (yes: bool) {
        text::comes_before(other.day.as_str(), self.day.as_str()) || text::same(self.day.as_str(), other.day.as_str())
            && text::comes_before(self.agent_id.as_str(), other.agent_id.as_str())
    }
}

/// A checkpoint, with the agent it belongs to.
#[derive(Debug)]
pub struct ChronicleHistoryItem {
    pub id: String,
    pub agent_id: String,
    pub channel_id: String,
    pub title: String,
    pub summary: String,
    pub message_count: i64,
    pub covers_from: i64,
    pub covers_to: i64,
    pub created_at: i64,
}

impl Ranked for ChronicleHistoryItem {
    /// The newest first.
    open spec fn outranks(&self, other: &Self) -> bool {
        self.created_at > other.created_at
    }

    fn comes_first(&self, other: &Self) -> (yes: bool) {
        self.created_at > other.created_at
    }
}

/// The chronicle history of an instance.
#[derive(Debug)]
pub struct ChronicleHistoryResponse {
    pub daily_briefs: Vec<AgentDailyBrief>,
    pub checkpoints: Vec<ChronicleHistoryItem>,
}

/// What one agent's stores hold.
#[derive(Debug)]
pub struct AgentHistory {
    pub agent_id: String,
    /// The latest brief, where there is one.
    pub brief: Option<AgentDailyBrief>,
    /// The recent checkpoints.
    pub checkpoints: Vec<ChronicleCheckpoint>,
}

/// How many checkpoints are listed: as many as asked for, at least one and at
/// most a hundred.
pub open spec fn held_limit(limit: Option<usize>) -> int {
    crate::api::clamped(
        match limit {
            Some(limit) => limit as int,
            None => DEFAULT_LIMIT as int,
        },
        1,
        MAX_LIMIT as int,
    )
}

/// How many checkpoints are listed.
pub fn hold_limit(limit: Option<usize>) -> (held: usize)
    ensures
        held == held_limit(limit),
{
    let asked: usize = match limit {
        Some(limit) => limit,
        None => DEFAULT_LIMIT,
    };
    if asked < 1 {
        1
    } else if asked > MAX_LIMIT {
        MAX_LIMIT
    } else {
        asked
    }
}

/// A checkpoint as it is listed.
pub open spec fn item_of(agent_id: String, checkpoint: ChronicleCheckpoint) -> ChronicleHistoryItem {
    ChronicleHistoryItem {
        id: checkpoint.id,
        agent_id,
        channel_id: checkpoint.channel_id,
        title: checkpoint.title,
        summary: checkpoint.summary,
        message_count: checkpoint.message_count,
        covers_from: checkpoint.covers_from_at,
        covers_to: checkpoint.covers_to_at,
        created_at: checkpoint.created_at,
    }
}

/// The checkpoints of one agent as they are listed.
pub open spec fn items_of(agent_id: String, checkpoints: Seq<ChronicleCheckpoint>) -> Seq<ChronicleHistoryItem> {
    checkpoints.map_values(|checkpoint: ChronicleCheckpoint| item_of(agent_id, checkpoint))
}

/// The checkpoints of all agents.
pub open spec fn all_items(agents: Seq<AgentHistory>) -> Seq<ChronicleHistoryItem>
    decreases agents.len(),
{
    if agents.len() == 0 {
        Seq::empty()
    } else {
        all_items(agents.drop_last()) + items_of(agents.last().agent_id, agents.last().checkpoints@)
    }
}

/// The briefs of all agents.
pub open spec fn all_briefs(agents: Seq<AgentHistory>) -> Seq<AgentDailyBrief>
    decreases agents.len(),
{
    if agents.len() == 0 {
        Seq::empty()
    } else {
        match agents.last().brief {
            Some(brief) => all_briefs(agents.drop_last()).push(brief),
            None => all_briefs(agents.drop_last()),
        }
    }
}

fn push_items(items: &mut Vec<ChronicleHistoryItem>, agent_id: &String, checkpoints: Vec<ChronicleCheckpoint>)
    ensures
        final(items)@ == old(items)@ + items_of(*agent_id, checkpoints@),
{
    let ghost all = checkpoints@;
    let ghost before = items@;
    let mut rest = checkpoints;
    let ghost mut n: int = 0;
    assert(items@ =~= before + items_of(*agent_id, all.take(0)));
    while rest.len() > 0
        invariant
            0 <= n <= all.len(),
            rest@ == all.subrange(n, all.len() as int),
            items@ == before + items_of(*agent_id, all.take(n)),
        decreases rest@.len(),
    {
        let checkpoint = rest.remove(0);
        assert(checkpoint == all[n]);
        assert(rest@ =~= all.subrange(n + 1, all.len() as int));
        let item = ChronicleHistoryItem {
            id: checkpoint.id,
            agent_id: agent_id.clone(),
            channel_id: checkpoint.channel_id,
            title: checkpoint.title,
            summary: checkpoint.summary,
            message_count: checkpoint.message_count,
            covers_from: checkpoint.covers_from_at,
            covers_to: checkpoint.covers_to_at,
            created_at: checkpoint.created_at,
        };
        assert(items_of(*agent_id, all.take(n + 1)) =~= items_of(*agent_id, all.take(n)).push(item));
        items.push(item);
        assert(items@ =~= before + items_of(*agent_id, all.take(n + 1)));
        proof {
            n = n + 1;
        }
    }
    assert(all.take(n) =~= all);
}

/// Puts the history of all agents together: the briefs by day, and the newest
/// checkpoints.
pub fn get_chronicle_history(agents: Vec<AgentHistory>, limit: Option<usize>) -> (response: ChronicleHistoryResponse)
    ensures
        response.daily_briefs@ == order::ranked(all_briefs(agents@)),
        response.checkpoints@ == crate::api::autonomy::first_of(
            order::ranked(all_items(agents@)),
            held_limit(limit),
        ),
{
    let held: usize = hold_limit(limit);
    let ghost all = agents@;
    let mut rest = agents;
    let mut briefs: Vec<AgentDailyBrief> = Vec::new();
    let mut items: Vec<ChronicleHistoryItem> = Vec::new();
    let ghost mut n: int = 0;
    assert(briefs@ =~= all_briefs(all.take(0)));
    assert(items@ =~= all_items(all.take(0)));
    while rest.len() > 0
        invariant
            0 <= n <= all.len(),
            rest@ == all.subrange(n, all.len() as int),
            briefs@ == all_briefs(all.take(n)),
            items@ == all_items(all.take(n)),
        decreases rest@.len(),
    {
        let next = rest.remove(0);
        assert(next == all[n]);
        assert(rest@ =~= all.subrange(n + 1, all.len() as int));
        assert(all.take(n + 1).drop_last() =~= all.take(n));
        if let Some(brief) = next.brief {
            briefs.push(brief);
        }
        push_items(&mut items, &next.agent_id, next.checkpoints);
        proof {
            n = n + 1;
        }
    }
    assert(all.take(n) =~= all);
    let daily_briefs = order::rank(briefs);
    let mut checkpoints = order::rank(items);
    if checkpoints.len() > held {
        checkpoints.truncate(held);
        assert(checkpoints@ =~= order::ranked(all_items(all)).take(held as int));
    }
    ChronicleHistoryResponse { daily_briefs, checkpoints }
}

// ---------------------------------------------------------------------------
// Laws
// ---------------------------------------------------------------------------

/// The checkpoints are listed with the newest first.
pub proof fn law_the_newest_checkpoints_come_first(agents: Seq<AgentHistory>, i: int, k: int)
    requires
        0 <= i < k < order::ranked(all_items(agents)).len(),
    ensures
        order::ranked(all_items(agents))[i].created_at >= order::ranked(all_items(agents))[k].created_at,
{
    order::law_ranking_orders(all_items(agents));
    let sorted = order::ranked(all_items(agents));
    assert(!sorted[k].outranks(&sorted[i]));
}

/// A page holds what was asked for, within its bounds.
pub proof fn law_a_page_is_neither_empty_nor_endless(limit: Option<usize>)
    ensures
        1 <= held_limit(limit) <= MAX_LIMIT,
        limit is None ==> held_limit(limit) == DEFAULT_LIMIT,
        limit is Some && 1 <= limit->0 <= MAX_LIMIT ==> held_limit(limit) == limit->0,
        limit is Some && limit->0 > MAX_LIMIT ==> held_limit(limit) == MAX_LIMIT,
{
}

/// An item shows its checkpoint under the agent it belongs to.
pub proof fn law_an_item_shows_its_checkpoint(agent_id: String, checkpoints: Seq<ChronicleCheckpoint>, k: int)
    requires
        0 <= k < checkpoints.len(),
    ensures
        items_of(agent_id, checkpoints).len() == checkpoints.len(),
        ({
            let item = items_of(agent_id, checkpoints)[k];
            &&& item.agent_id == agent_id
            &&& item.id == checkpoints[k].id
            &&& item.channel_id == checkpoints[k].channel_id
            &&& item.title == checkpoints[k].title
            &&& item.summary == checkpoints[k].summary
            &&& item.message_count == checkpoints[k].message_count
            &&& item.covers_from == checkpoints[k].covers_from_at
            &&& item.covers_to == checkpoints[k].covers_to_at
            &&& item.created_at == checkpoints[k].created_at
        }),
{
}

/// The history gathers every agent's checkpoints and briefs, agent by agent.
pub proof fn law_history_gathers_every_agent(first: Seq<AgentHistory>, second: Seq<AgentHistory>)
    ensures
        all_items(first + second) == all_items(first) + all_items(second),
        all_briefs(first + second) == all_briefs(first) + all_briefs(second),
        first.len() == 1 ==> all_items(first) == items_of(first[0].agent_id, first[0].checkpoints@),
        first.len() == 1 && first[0].brief is Some ==> all_briefs(first) == seq![first[0].brief->0],
        first.len() == 1 && first[0].brief is None ==> all_briefs(first).len() == 0,
    decreases second.len(),
{
    let all = first + second;
    if second.len() == 0 {
        assert(all =~= first);
        assert(all_items(second) =~= Seq::<ChronicleHistoryItem>::empty());
        assert(all_briefs(second) =~= Seq::<AgentDailyBrief>::empty());
    } else {
        assert(all.drop_last() =~= first + second.drop_last());
        assert(all.last() == second.last());
        law_history_gathers_every_agent(first, second.drop_last());
    }
    assert(all_items(all) =~= all_items(first) + all_items(second));
    assert(all_briefs(all) =~= all_briefs(first) + all_briefs(second));
    if first.len() == 1 {
        assert(first.last() == first[0]);
        assert(all_items(first.drop_last()) =~= Seq::<ChronicleHistoryItem>::empty());
        assert(all_briefs(first.drop_last()) =~= Seq::<AgentDailyBrief>::empty());
        assert(all_items(first) =~= items_of(first[0].agent_id, first[0].checkpoints@));
        if let Some(brief) = first[0].brief {
            assert(all_briefs(first) =~= seq![brief]);
        }
    }
}

/// The latest day's briefs come first, and of one day they go by their agent.
pub proof fn law_the_latest_brief_comes_first(a: AgentDailyBrief, b: AgentDailyBrief)
    ensures
        text::precedes(a.day@, b.day@) ==> b.outranks(&a),
        a.day@ == b.day@ && text::precedes(a.agent_id@, b.agent_id@) ==> a.outranks(&b),
{
}

} // verus!
