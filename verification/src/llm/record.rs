//! Durable records of what was sent to a model.
//!
//! Payloads are JSON files under `<data_dir>/prompts/<date>/`, and an index
//! answers "which requests". The split is deliberate: the index wants joins
//! and ordering, while the payload is large, append-only, and worth being able
//! to read, diff and delete without going through the API.
use vstd::prelude::*;
use crate::llm::history::copy_opt;
use crate::order;
use crate::order::Ranked;
use crate::paths;
use crate::prompts::blocks::PromptBlock;
use crate::table;
use crate::table::{Keyed, Table};
use crate::text;
use crate::time;
use crate::time::{Instant, Pattern};

verus! {

broadcast use vstd::seq::group_seq_axioms;

/// Which process produced a request.
#[derive(Debug)]
pub struct ProcessRef {
    /// channel, branch, worker, compactor, cortex, chronicle, ingestion.
    pub kind: String,
    /// Branch/worker uuid, or the channel id for a channel turn.
    pub id: Option<String>,
    /// Narrower label where a kind has variants (builtin, opencode).
    pub process_type: Option<String>,
    pub channel_id: Option<String>,
}

/// What caused the request.
#[derive(Debug)]
pub struct Trigger {
    /// Short label: user_message, retrigger, spawn_worker, compaction, cron.
    pub kind: String,
    /// Conversation message that started the turn, when there was one.
    pub message_id: Option<String>,
    /// The text the process was prompted with.
    pub input: Option<String>,
    /// Process that started this one, when it was not a user.
    pub parent: Option<String>,
}

/// The model that was asked.
#[derive(Debug)]
pub struct ModelRef {
    pub name: String,
    pub provider: String,
    pub max_tokens: Option<u64>,
}

/// A tool definition as the model received it.
#[derive(Debug)]
pub struct ToolRef {
    pub name: String,
    pub description: String,
    /// The schema, as JSON.
    pub schema: String,
    /// Serialized size, which is what the tool actually costs.
    pub chars: usize,
}

/// What a request used.
#[derive(Debug, Clone, Copy, PartialEq, Eq, Structural)]
pub struct UsageRef {
    pub input_tokens: u64,
    pub output_tokens: u64,
    pub cached_read_tokens: u64,
    pub cached_write_tokens: u64,
}

/// What came back.
#[derive(Debug)]
pub struct ResponseRef {
    pub text: Option<String>,
    pub tool_calls: Vec<String>,
    pub error: Option<String>,
}

/// The assembled system prompt and the map of what it is made of.
#[derive(Debug)]
pub struct SystemRef {
    pub text: String,
    pub blocks: Vec<PromptBlock>,
}

/// One captured request, start to finish.
#[derive(Debug)]
pub struct PromptRecord {
    pub request_id: String,
    pub agent_id: String,
    pub process: ProcessRef,
    pub trigger: Trigger,
    pub model: ModelRef,
    pub started_at: Instant,
    pub duration_ms: u64,
    pub system: SystemRef,
    pub tools: Vec<ToolRef>,
    pub history_length: usize,
    pub response: ResponseRef,
    pub usage: UsageRef,
}

/// Context a process attaches to its model so its requests can be identified.
///
/// Without one a request is still recorded: the prompt is worth having even
/// unlabelled, it just cannot be linked back to the process that sent it.
#[derive(Debug)]
pub struct DebugContext {
    pub process: Option<ProcessRef>,
    pub trigger: Option<Trigger>,
    /// Block map for the system prompt.
    pub blocks: Vec<PromptBlock>,
}

/// Row shape for listing requests without loading their payloads.
#[derive(Debug)]
pub struct PromptRequestSummary {
    pub request_id: String,
    pub process_kind: String,
    pub process_id: Option<String>,
    pub process_type: Option<String>,
    pub channel_id: Option<String>,
    pub message_id: Option<String>,
    pub trigger: Option<String>,
    pub model: String,
    pub provider: String,
    pub started_at: Instant,
    pub duration_ms: Option<i64>,
    pub system_chars: i64,
    pub history_length: i64,
    pub tool_count: i64,
    pub input_tokens: Option<i64>,
    pub output_tokens: Option<i64>,
    pub cached_tokens: Option<i64>,
    pub status: String,
}

impl Clone for PromptRequestSummary {
    fn clone(&self) -> (copy: Self)
        ensures
            copy == *self,
    {
        PromptRequestSummary {
            request_id: self.request_id.clone(),
            process_kind: self.process_kind.clone(),
            process_id: copy_opt(&self.process_id),
            process_type: copy_opt(&self.process_type),
            channel_id: copy_opt(&self.channel_id),
            message_id: copy_opt(&self.message_id),
            trigger: copy_opt(&self.trigger),
            model: self.model.clone(),
            provider: self.provider.clone(),
            started_at: self.started_at,
            duration_ms: self.duration_ms,
            system_chars: self.system_chars,
            history_length: self.history_length,
            tool_count: self.tool_count,
            input_tokens: self.input_tokens,
            output_tokens: self.output_tokens,
            cached_tokens: self.cached_tokens,
            status: self.status.clone(),
        }
    }
}

/// A row of the index: a summary, and where the payload lies.
#[derive(Debug)]
pub struct IndexRow {
    pub summary: PromptRequestSummary,
    pub path: String,
}

impl Keyed for IndexRow {
    open spec fn keyed_by(&self) -> Seq<char> {
        self.summary.request_id@
    }

    fn key(&self) -> (key: &str) {
        self.summary.request_id.as_str()
    }
}

/// A summary listed with the newest first.
#[derive(Debug)]
pub struct NewestFirst {
    pub summary: PromptRequestSummary,
}

impl Ranked for NewestFirst {
    open spec fn outranks(&self, other: &Self) -> bool {
        other.summary.started_at.precedes(self.summary.started_at)
    }

    fn comes_first(&self, other: &Self) -> (yes: bool) {
        other.summary.started_at.is_before(self.summary.started_at)
    }
}

/// A summary listed with the oldest first.
#[derive(Debug)]
pub struct OldestFirst {
    pub summary: PromptRequestSummary,
}

impl Ranked for OldestFirst {
    open spec fn outranks(&self, other: &Self) -> bool {
        self.summary.started_at.precedes(other.summary.started_at)
    }

    fn comes_first(&self, other: &Self) -> (yes: bool) {
        self.summary.started_at.is_before(other.summary.started_at)
    }
}

/// Path a record's payload is written to, relative to the data directory.
pub open spec fn payload_path(started_at: int, request_id: Seq<char>) -> Seq<char> {
    "prompts/"@ + time::written(started_at, Pattern::Day) + "/"@ + request_id + ".json"@
}

/// Path a record's payload is written to, relative to the data directory.
pub fn relative_path(started_at: i64, request_id: &str) -> (path: String)
    requires
        time::in_calendar(started_at as int),
    ensures
        path@ == payload_path(started_at as int, request_id@),
{
    let mut path = "prompts/".to_owned();
    path.push_str(time::write_utc(started_at, Pattern::Day).as_str());
    path.push_str("/");
    path.push_str(request_id);
    path.push_str(".json");
    path
}

/// Whether the numbers of a record fit the index.
pub open spec fn countable(record: PromptRecord) -> bool {
    &&& time::in_calendar(record.started_at.at as int)
    &&& record.duration_ms <= i64::MAX
    &&& record.system.text@.len() <= i64::MAX
    &&& record.history_length <= i64::MAX
    &&& record.tools@.len() <= i64::MAX
    &&& record.usage.input_tokens <= i64::MAX
    &&& record.usage.output_tokens <= i64::MAX
    &&& record.usage.cached_read_tokens + record.usage.cached_write_tokens <= i64::MAX
}

/// Whether a summary is that of a record.
pub open spec fn summarizes(summary: PromptRequestSummary, record: PromptRecord) -> bool {
    &&& summary.request_id == record.request_id
    &&& summary.process_kind == record.process.kind
    &&& summary.process_id == record.process.id
    &&& summary.process_type == record.process.process_type
    &&& summary.channel_id == record.process.channel_id
    &&& summary.message_id == record.trigger.message_id
    &&& summary.trigger == Some(record.trigger.kind)
    &&& summary.model == record.model.name
    &&& summary.provider == record.model.provider
    &&& summary.started_at == record.started_at
    &&& summary.duration_ms == Some(record.duration_ms as i64)
    &&& summary.system_chars == record.system.text@.len()
    &&& summary.history_length == record.history_length
    &&& summary.tool_count == record.tools@.len()
    &&& summary.input_tokens == Some(record.usage.input_tokens as i64)
    &&& summary.output_tokens == Some(record.usage.output_tokens as i64)
    &&& summary.cached_tokens == Some((record.usage.cached_read_tokens + record.usage.cached_write_tokens) as i64)
    &&& summary.status@ == (if record.response.error is Some {
        "error"@
    } else {
        "ok"@
    })
}

impl PromptRecord {
    /// Whether the request failed.
    pub fn status(&self) -> (status: &'static str)
        ensures
            status@ == (if self.response.error is Some {
                "error"@
            } else {
                "ok"@
            }),
    {
        if self.response.error.is_some() {
            "error"
        } else {
            "ok"
        }
    }

    /// The row of the index that a record gets.
    fn summarize(&self) -> (summary: PromptRequestSummary)
        requires
            countable(*self),
        ensures
            summarizes(summary, *self),
    {
        PromptRequestSummary {
            request_id: self.request_id.clone(),
            process_kind: self.process.kind.clone(),
            process_id: copy_opt(&self.process.id),
            process_type: copy_opt(&self.process.process_type),
            channel_id: copy_opt(&self.process.channel_id),
            message_id: copy_opt(&self.trigger.message_id),
            trigger: Some(self.trigger.kind.clone()),
            model: self.model.name.clone(),
            provider: self.model.provider.clone(),
            started_at: self.started_at,
            duration_ms: Some(self.duration_ms as i64),
            system_chars: self.system.text.as_str().unicode_len() as i64,
            history_length: self.history_length as i64,
            tool_count: self.tools.len() as i64,
            input_tokens: Some(self.usage.input_tokens as i64),
            output_tokens: Some(self.usage.output_tokens as i64),
            cached_tokens: Some((self.usage.cached_read_tokens + self.usage.cached_write_tokens) as i64),
            status: self.status().to_owned(),
        }
    }
}

/// What a lookup by id comes to.
#[derive(Debug)]
pub enum Lookup {
    /// No record.
    Missing,
    /// The payload of the one record.
    Path(String),
    /// Several records begin like the id: what is said of it.
    Ambiguous(String),
}

/// The rows whose id begins with what is asked for.
pub open spec fn beginning(asked: Seq<char>) -> spec_fn(IndexRow) -> bool {
    |row: IndexRow| text::begins(row.summary.request_id@, asked)
}

/// Writes prompt records and maintains their index.
#[derive(Debug)]
pub struct PromptRecordStore {
    /// The directory of the payloads.
    pub dir: String,
    pub index: Table<IndexRow>,
    pub enabled: bool,
}

/// Whether a summary belongs to a channel and a process, as far as they are
/// given.
pub open spec fn in_scope(channel_id: Option<Seq<char>>, process_id: Option<Seq<char>>) -> spec_fn(IndexRow) -> bool {
    |row: IndexRow|
        (channel_id is None || text::opt_text(row.summary.channel_id) == channel_id) && (process_id is None
            || text::opt_text(row.summary.process_id) == process_id)
}

/// Whether a summary belongs to a message.
pub open spec fn of_message(message_id: Seq<char>) -> spec_fn(IndexRow) -> bool {
    |row: IndexRow| text::opt_text(row.summary.message_id) == Some(message_id)
}

/// Summaries to be listed with the newest first.
pub open spec fn newest(rows: Seq<IndexRow>) -> Seq<NewestFirst> {
    rows.map_values(|row: IndexRow| NewestFirst { summary: row.summary })
}

/// Summaries to be listed with the oldest first.
pub open spec fn oldest(rows: Seq<IndexRow>) -> Seq<OldestFirst> {
    rows.map_values(|row: IndexRow| OldestFirst { summary: row.summary })
}

/// The first of a list, up to a limit; all of it where the limit is negative.
pub open spec fn limited<T>(list: Seq<T>, limit: int) -> Seq<T> {
    if limit < 0 || list.len() <= limit {
        list
    } else {
        list.take(limit)
    }
}

fn is_opt(a: &Option<String>, b: &Option<String>) -> (same: bool)
    ensures
        same == (text::opt_text(*a) == text::opt_text(*b)),
{
    match (a, b) {
        (Some(a), Some(b)) => text::same(a.as_str(), b.as_str()),
        (None, None) => true,
        _ => false,
    }
}

impl PromptRecordStore {
    /// Whether no request stands in the index twice.
    pub open spec fn well_formed(self) -> bool {
        self.index.well_formed()
    }

    /// A store without records. `dir` is the agent data directory; payloads go
    /// in `prompts/` beneath it.
    pub fn new(dir: &str, enabled: bool) -> (store: Self)
        ensures
            store.well_formed(),
            store.index@ == Map::<Seq<char>, IndexRow>::empty(),
            store.dir@ == paths::joined(dir@, "prompts"@),
            store.enabled == enabled,
    {
        PromptRecordStore { dir: paths::join(dir, "prompts"), index: Table::new(), enabled }
    }

    /// Whether requests are captured.
    pub fn is_enabled(&self) -> (enabled: bool)
        ensures
            enabled == self.enabled,
    {
        self.enabled
    }

    /// Switches capture on or off.
    pub fn set_enabled(&mut self, enabled: bool)
        ensures
            final(self).enabled == enabled,
            final(self).dir == old(self).dir,
            final(self).index == old(self).index,
    {
        self.enabled = enabled;
    }

    /// Enters a record into the index, in place of an earlier one of its id.
    /// Returns the path that its payload goes to, relative to the data
    /// directory.
    pub fn write(&mut self, record: &PromptRecord) -> (path: String)
        requires
            old(self).well_formed(),
            countable(*record),
        ensures
            final(self).well_formed(),
            final(self).dir == old(self).dir,
            final(self).enabled == old(self).enabled,
            path@ == payload_path(record.started_at.at as int, record.request_id@),
            exists|row: IndexRow|
                summarizes(row.summary, *record) && row.path@ == path@ && #[trigger] old(self).index@.insert(
                    record.request_id@,
                    row,
                ) == final(self).index@,
    {
        let path = relative_path(record.started_at.at, record.request_id.as_str());
        let row = IndexRow { summary: record.summarize(), path: path.clone() };
        let ghost before = self.index@;
        self.index.put(row);
        assert(before.insert(record.request_id@, row) == self.index@);
        path
    }

    /// Finds a payload by exact id, or by unique id prefix.
    ///
    /// Prefix resolution exists because a record's id is something a person
    /// copies out of the UI and pastes into a terminal; an ambiguous prefix is
    /// reported rather than resolved arbitrarily.
    pub fn get(&self, request_id: &str) -> (found: Lookup)
        requires
            self.well_formed(),
        ensures
            self.index@.contains_key(request_id@) ==> found == Lookup::Path(self.index@[request_id@].path),
            !self.index@.contains_key(request_id@) ==> {
                let rows = self.index.rows@.filter(beginning(request_id@));
                match found {
                    Lookup::Missing => rows.len() == 0,
                    Lookup::Path(path) => rows.len() == 1 && path == rows[0].path,
                    Lookup::Ambiguous(message) => rows.len() > 1 && message@ == "request id '"@ + request_id@
                        + "' is ambiguous; use more characters"@,
                }
            },
    {
        if let Some(row) = self.index.get(request_id) {
            return Lookup::Path(row.path.clone());
        }
        let ghost wanted = beginning(request_id@);
        let rows = &self.index.rows;
        let mut first: Option<usize> = None;
        let mut second = false;
        let mut k: usize = 0;
        reveal(Seq::filter);
        while k < rows.len()
            invariant
                rows@ == self.index.rows@,
                wanted == beginning(request_id@),
                k <= rows@.len(),
                match first {
                    None => rows@.take(k as int).filter(wanted).len() == 0 && !second,
                    Some(at) => at < rows@.len() && rows@.take(k as int).filter(wanted).len() >= 1 && rows@.take(
                        k as int,
                    ).filter(wanted)[0] == rows@[at as int],
                },
                second == (rows@.take(k as int).filter(wanted).len() > 1),
            decreases rows@.len() - k,
        {
            proof {
                reveal(Seq::filter);
                assert(rows@.take(k + 1).drop_last() =~= rows@.take(k as int));
            }
            if text::starts_with(rows[k].summary.request_id.as_str(), request_id) {
                if first.is_none() {
                    first = Some(k);
                } else {
                    second = true;
                }
            }
            k = k + 1;
        }
        assert(rows@.take(k as int) =~= rows@);
        if second {
            let mut message = "request id '".to_owned();
            message.push_str(request_id);
            message.push_str("' is ambiguous; use more characters");
            return Lookup::Ambiguous(message);
        }
        match first {
            None => Lookup::Missing,
            Some(at) => Lookup::Path(rows[at].path.clone()),
        }
    }

    /// Lists requests, newest first, optionally scoped to a channel or process.
    pub fn list(&self, channel_id: &Option<String>, process_id: &Option<String>, limit: i64) -> (listed: Vec<NewestFirst>)
        ensures
            listed@ == limited(
                order::ranked(
                    newest(
                        self.index.rows@.filter(
                            in_scope(text::opt_text(*channel_id), text::opt_text(*process_id)),
                        ),
                    ),
                ),
                limit as int,
            ),
    {
        let ghost wanted = in_scope(text::opt_text(*channel_id), text::opt_text(*process_id));
        let rows = &self.index.rows;
        let mut all: Vec<NewestFirst> = Vec::new();
        let mut k: usize = 0;
        reveal(Seq::filter);
        assert(all@ =~= newest(rows@.take(0).filter(wanted)));
        while k < rows.len()
            invariant
                rows@ == self.index.rows@,
                wanted == in_scope(text::opt_text(*channel_id), text::opt_text(*process_id)),
                k <= rows@.len(),
                all@ == newest(rows@.take(k as int).filter(wanted)),
            decreases rows@.len() - k,
        {
            let ghost here = rows@.take(k as int).filter(wanted);
            proof {
                reveal(Seq::filter);
                assert(rows@.take(k + 1).drop_last() =~= rows@.take(k as int));
            }
            let summary = &rows[k].summary;
            if (channel_id.is_none() || is_opt(&summary.channel_id, channel_id)) && (process_id.is_none() || is_opt(
                &summary.process_id,
                process_id,
            )) {
                let item = NewestFirst { summary: summary.clone() };
                assert(newest(here.push(rows@[k as int])) =~= newest(here).push(item));
                all.push(item);
            }
            k = k + 1;
        }
        assert(rows@.take(k as int) =~= rows@);
        let mut listed = order::rank(all);
        if limit >= 0 && listed.len() as u64 > limit as u64 {
            listed.truncate(limit as usize);
            assert(listed@ =~= order::ranked(newest(rows@.filter(wanted))).take(limit as int));
        }
        listed
    }

    /// Requests recorded for a conversation message, oldest first.
    ///
    /// A single message can produce several requests (the channel turn, any
    /// branches and workers it spawned, a compaction it triggered), so this
    /// returns all of them rather than assuming one.
    pub fn for_message(&self, message_id: &str) -> (listed: Vec<OldestFirst>)
        ensures
            listed@ == order::ranked(oldest(self.index.rows@.filter(of_message(message_id@)))),
    {
        let ghost wanted = of_message(message_id@);
        let rows = &self.index.rows;
        let mut all: Vec<OldestFirst> = Vec::new();
        let mut k: usize = 0;
        reveal(Seq::filter);
        assert(all@ =~= oldest(rows@.take(0).filter(wanted)));
        while k < rows.len()
            invariant
                rows@ == self.index.rows@,
                wanted == of_message(message_id@),
                k <= rows@.len(),
                all@ == oldest(rows@.take(k as int).filter(wanted)),
            decreases rows@.len() - k,
        {
            let ghost here = rows@.take(k as int).filter(wanted);
            proof {
                reveal(Seq::filter);
                assert(rows@.take(k + 1).drop_last() =~= rows@.take(k as int));
            }
            let summary = &rows[k].summary;
            let mine = match &summary.message_id {
                Some(id) => text::same(id.as_str(), message_id),
                None => false,
            };
            if mine {
                let item = OldestFirst { summary: summary.clone() };
                assert(oldest(here.push(rows@[k as int])) =~= oldest(here).push(item));
                all.push(item);
            }
            k = k + 1;
        }
        assert(rows@.take(k as int) =~= rows@);
        order::rank(all)
    }

    /// Drops the index rows older than a cutoff. Returns how many.
    pub fn sweep(&mut self, cutoff: Instant) -> (removed: usize)
        requires
            old(self).well_formed(),
        ensures
            final(self).well_formed(),
            final(self).dir == old(self).dir,
            final(self).enabled == old(self).enabled,
            removed == old(self).index.rows@.len() - final(self).index.rows@.len(),
            forall|id: Seq<char>| #[trigger]
                final(self).index@.contains_key(id) == (old(self).index@.contains_key(id)
                    && !old(self).index@[id].summary.started_at.precedes(cutoff)),
            forall|id: Seq<char>| #[trigger]
                final(self).index@.contains_key(id) ==> final(self).index@[id] == old(self).index@[id],
    {
        let ghost rows = self.index.rows@;
        let ghost before = self.index@;
        let mut marks: Vec<bool> = Vec::new();
        let mut k: usize = 0;
        while k < self.index.rows.len()
            invariant
                k <= self.index.rows@.len(),
                self.index.rows@ == rows,
                self.dir == old(self).dir,
                self.enabled == old(self).enabled,
                marks@.len() == k,
                forall|i: int| 0 <= i < k ==> #[trigger] marks@[i] == !rows[i].summary.started_at.precedes(cutoff),
            decreases self.index.rows@.len() - k,
        {
            marks.push(!self.index.rows[k].summary.started_at.is_before(cutoff));
            k = k + 1;
        }
        let removed: usize = self.index.retain(&marks);
        proof {
            assert forall|id: Seq<char>| #[trigger]
                self.index@.contains_key(id) == (before.contains_key(id) && !before[id].summary.started_at.precedes(cutoff)) by {
                if self.index@.contains_key(id) {
                    let at = choose|at: int| #[trigger] table::at_key(rows, id, at) && marks@[at];
                    table::mapped_at(rows, at);
                }
                if before.contains_key(id) {
                    let at = choose|at: int| #[trigger] table::at_key(rows, id, at);
                    table::mapped_at(rows, at);
                    assert(table::at_key(rows, id, at));
                    if !before[id].summary.started_at.precedes(cutoff) {
                        assert(marks@[at]);
                    }
                }
            }
        }
        removed
    }
}

/// Whether a day directory lies before the day of a cutoff.
pub open spec fn outdated(cutoff_day: Seq<char>) -> spec_fn(Seq<char>) -> bool {
    |name: Seq<char>| text::precedes(name, cutoff_day)
}

/// The day directories to be removed in a sweep: those before the day of the
/// cutoff. Their names are dates, which sort as texts.
pub fn days_to_sweep(names: &Vec<String>, cutoff: i64) -> (gone: Vec<String>)
    requires
        time::in_calendar(cutoff as int),
    ensures
        text::texts(gone@) == text::texts(names@).filter(outdated(time::written(cutoff as int, Pattern::Day))),
{
    broadcast use text::texts_push;

    let day = time::write_utc(cutoff, Pattern::Day);
    let ghost wanted = outdated(day@);
    let ghost all = text::texts(names@);
    let mut gone: Vec<String> = Vec::new();
    let mut k: usize = 0;
    reveal(Seq::filter);
    assert(text::texts(gone@) =~= all.take(0).filter(wanted));
    while k < names.len()
        invariant
            all == text::texts(names@),
            wanted == outdated(day@),
            k <= names@.len(),
            text::texts(gone@) == all.take(k as int).filter(wanted),
        decreases names@.len() - k,
    {
        proof {
            reveal(Seq::filter);
            assert(all.take(k + 1).drop_last() =~= all.take(k as int));
            assert(all[k as int] == names@[k as int]@);
        }
        if text::comes_before(names[k].as_str(), day.as_str()) {
            gone.push(names[k].clone());
        }
        k = k + 1;
    }
    assert(all.take(k as int) =~= all);
    gone
}

// ---------------------------------------------------------------------------
// Laws
// ---------------------------------------------------------------------------

/// Every beginning of a record's id that no other record's id begins with
/// selects that record alone.
pub proof fn law_unique_prefixes_find_their_record(rows: Seq<IndexRow>, at: int, n: int)
    requires
        0 <= at < rows.len(),
        0 <= n <= rows[at].summary.request_id@.len(),
        forall|k: int|
            0 <= k < rows.len() && k != at ==> !text::begins(
                (#[trigger] rows[k]).summary.request_id@,
                rows[at].summary.request_id@.take(n),
            ),
    ensures
        rows.filter(beginning(rows[at].summary.request_id@.take(n))) == seq![rows[at]],
{
    let wanted = beginning(rows[at].summary.request_id@.take(n));
    only_one_left(rows, wanted, at);
}

/// A filter that one row alone passes leaves that row.
proof fn only_one_left(rows: Seq<IndexRow>, wanted: spec_fn(IndexRow) -> bool, at: int)
    requires
        forall|k: int| 0 <= k < rows.len() ==> wanted(#[trigger] rows[k]) == (k == at),
    ensures
        0 <= at < rows.len() ==> rows.filter(wanted) == seq![rows[at]],
        !(0 <= at < rows.len()) ==> rows.filter(wanted).len() == 0,
    decreases rows.len(),
{
    reveal(Seq::filter);
    if rows.len() > 0 {
        let front = rows.drop_last();
        only_one_left(front, wanted, at);
        if at == rows.len() - 1 {
            assert(rows.filter(wanted) =~= seq![rows[at]]);
        } else if 0 <= at < rows.len() {
            assert(front[at] == rows[at]);
        }
    }
}

/// Requests are listed with the newest first, whatever the limit.
pub proof fn law_requests_are_listed_newest_first(rows: Seq<IndexRow>, limit: int, i: int, k: int)
    requires
        0 <= i < k < limited(order::ranked(newest(rows)), limit).len(),
    ensures
        !limited(order::ranked(newest(rows)), limit)[i].summary.started_at.precedes(
            limited(order::ranked(newest(rows)), limit)[k].summary.started_at,
        ),
{
    order::law_ranking_orders(newest(rows));
    let sorted = order::ranked(newest(rows));
    assert(!sorted[k].outranks(&sorted[i]));
}

/// The requests of a message are listed with the oldest first.
pub proof fn law_requests_of_a_message_are_listed_oldest_first(rows: Seq<IndexRow>, i: int, k: int)
    requires
        0 <= i < k < order::ranked(oldest(rows)).len(),
    ensures
        !order::ranked(oldest(rows))[k].summary.started_at.precedes(order::ranked(oldest(rows))[i].summary.started_at),
{
    order::law_ranking_orders(oldest(rows));
    let sorted = order::ranked(oldest(rows));
    assert(!sorted[k].outranks(&sorted[i]));
}

/// A summary counts what its record holds, and is in error exactly where its
/// response is.
pub proof fn law_a_summary_counts_its_record(summary: PromptRequestSummary, record: PromptRecord)
    requires
        countable(record),
        summarizes(summary, record),
    ensures
        summary.request_id == record.request_id && summary.started_at == record.started_at,
        summary.process_kind == record.process.kind && summary.process_id == record.process.id,
        summary.process_type == record.process.process_type && summary.channel_id == record.process.channel_id,
        summary.message_id == record.trigger.message_id && summary.trigger == Some(record.trigger.kind),
        summary.model == record.model.name && summary.provider == record.model.provider,
        summary.duration_ms is Some && summary.duration_ms->0 == record.duration_ms,
        summary.system_chars == record.system.text@.len() && summary.history_length == record.history_length,
        summary.tool_count == record.tools@.len(),
        summary.input_tokens is Some && summary.input_tokens->0 == record.usage.input_tokens,
        summary.output_tokens is Some && summary.output_tokens->0 == record.usage.output_tokens,
        summary.cached_tokens is Some && summary.cached_tokens->0 == record.usage.cached_read_tokens
            + record.usage.cached_write_tokens,
        record.response.error is Some ==> summary.status@ == "error"@,
        record.response.error is None ==> summary.status@ == "ok"@,
{
}

/// A payload lies under the day it began on and is named after its request.
pub proof fn law_a_payload_lies_under_its_day(started_at: int, request_id: Seq<char>)
    ensures
        text::begins(
            payload_path(started_at, request_id),
            "prompts/"@ + time::utc_text(started_at, Pattern::Day.notation()),
        ),
        text::ends(payload_path(started_at, request_id), "/"@ + request_id + ".json"@),
{
    let day = "prompts/"@ + time::written(started_at, Pattern::Day);
    text::law_grouping_does_not_matter(day + "/"@, request_id, ".json"@);
    text::law_grouping_does_not_matter(day, "/"@, request_id + ".json"@);
    text::law_grouping_does_not_matter("/"@, request_id, ".json"@);
    text::law_parts_occur(Seq::empty(), day, "/"@ + request_id + ".json"@);
    text::law_parts_occur(day, "/"@ + request_id + ".json"@, Seq::empty());
}

/// A request is in scope where it matches every bound that is given, and a bound
/// that is not given leaves none out.
pub proof fn law_a_scope_leaves_out_only_what_it_names(
    channel_id: Option<Seq<char>>,
    process_id: Option<Seq<char>>,
    message_id: Seq<char>,
    row: IndexRow,
)
    ensures
        in_scope(None, None)(row),
        in_scope(channel_id, process_id)(row) <==> in_scope(channel_id, None)(row) && in_scope(None, process_id)(row),
        channel_id is Some ==> (in_scope(channel_id, None)(row) <==> row.summary.channel_id is Some
            && row.summary.channel_id->0@ == channel_id->0),
        process_id is Some ==> (in_scope(None, process_id)(row) <==> row.summary.process_id is Some
            && row.summary.process_id->0@ == process_id->0),
        of_message(message_id)(row) <==> row.summary.message_id is Some && row.summary.message_id->0@ == message_id,
{
}

/// A limit keeps the beginning of a list, and none below zero keeps it all.
pub proof fn law_a_limit_keeps_the_first<T>(list: Seq<T>, limit: int)
    ensures
        limited(list, limit).is_prefix_of(list),
        limit < 0 || list.len() <= limit ==> limited(list, limit) == list,
        0 <= limit < list.len() ==> limited(list, limit).len() == limit,
{
    assert(list.subrange(0, list.len() as int) =~= list);
}

/// A listing holds every row once, as its summary.
pub proof fn law_a_listing_holds_every_row(rows: Seq<IndexRow>, k: int)
    requires
        0 <= k < rows.len(),
    ensures
        newest(rows).len() == rows.len() && newest(rows)[k].summary == rows[k].summary,
        oldest(rows).len() == rows.len() && oldest(rows)[k].summary == rows[k].summary,
{
}

/// A day is outdated exactly where it comes before the cutoff.
pub proof fn law_only_days_before_the_cutoff_are_outdated(day: Seq<char>, cutoff_day: Seq<char>)
    ensures
        outdated(cutoff_day)(day) <==> text::precedes(day, cutoff_day),
        !outdated(day)(day),
{
    not_before_itself(day);
}

proof fn not_before_itself(s: Seq<char>)
    ensures
        !text::precedes(s, s),
    decreases s.len(),
{
    if s.len() > 0 {
        not_before_itself(s.subrange(1, s.len() as int));
    }
}

} // verus!
