//! Session chronicles.
//!
//! A chronicle is an append-only sequence of checkpoints over a channel's
//! conversation log. Each checkpoint summarizes exactly the span since the
//! previous one, so coverage is contiguous and no span is ever summarized
//! twice. Boundaries are anchored to the logged messages rather than to a
//! channel's in-memory history, because the log is what survives restart and
//! what a later expansion can be resolved against.
//!
//! The order is that of the log everywhere: cut selection, boundary
//! comparison, and expansion all use it, which is what contiguity requires.
use vstd::prelude::*;
use crate::conversation::history;
use crate::conversation::history::ConversationMessage;
use crate::llm::history::copy_opt;
use crate::order;
use crate::order::Ranked;
use crate::text;
use crate::time;
use crate::time::Pattern;

verus! {

broadcast use vstd::seq::group_seq_axioms;

/// Renders an instant in the shape that SQLite writes for `CURRENT_TIMESTAMP`,
/// so that bound values and stored values compare identically.
pub fn sql_timestamp(at: i64) -> (s: String)
    requires
        time::in_calendar(at as int),
    ensures
        s@ == time::written(at as int, Pattern::Second),
{
    time::write_utc(at, Pattern::Second)
}

/// Why a checkpoint was cut.
#[derive(Debug, Clone, Copy, PartialEq, Eq, Structural)]
pub enum CheckpointKind {
    /// The configured message or token interval elapsed.
    Interval,
    /// The first checkpoint for a channel that already had history.
    Bootstrap,
    /// Context pressure forced a cut before the interval elapsed.
    Pressure,
    /// Emergency truncation discarded the span without summarizing it.
    Emergency,
    /// A higher-level summary over a contiguous run of checkpoints.
    Rollup,
}

impl CheckpointKind {
    /// The stored name of a kind.
    pub open spec fn name(self) -> Seq<char> {
        match self {
            CheckpointKind::Interval => "interval"@,
            CheckpointKind::Bootstrap => "bootstrap"@,
            CheckpointKind::Pressure => "pressure"@,
            CheckpointKind::Emergency => "emergency"@,
            CheckpointKind::Rollup => "rollup"@,
        }
    }

    pub fn as_str(self) -> (name: &'static str)
        ensures
            name@ == self.name(),
    {
        match self {
            CheckpointKind::Interval => "interval",
            CheckpointKind::Bootstrap => "bootstrap",
            CheckpointKind::Pressure => "pressure",
            CheckpointKind::Emergency => "emergency",
            CheckpointKind::Rollup => "rollup",
        }
    }

    /// The kind that a stored name stands for.
    pub open spec fn named(value: Seq<char>) -> CheckpointKind {
        if value == "bootstrap"@ {
            CheckpointKind::Bootstrap
        } else if value == "pressure"@ {
            CheckpointKind::Pressure
        } else if value == "emergency"@ {
            CheckpointKind::Emergency
        } else if value == "rollup"@ {
            CheckpointKind::Rollup
        } else {
            CheckpointKind::Interval
        }
    }

    /// Maps the stored value back to a kind, defaulting to `Interval` for
    /// anything a future version wrote that this one does not know.
    pub fn from_db(value: &str) -> (kind: Self)
        ensures
            kind == CheckpointKind::named(value@),
    {
        if text::same(value, "bootstrap") {
            CheckpointKind::Bootstrap
        } else if text::same(value, "pressure") {
            CheckpointKind::Pressure
        } else if text::same(value, "emergency") {
            CheckpointKind::Emergency
        } else if text::same(value, "rollup") {
            CheckpointKind::Rollup
        } else {
            CheckpointKind::Interval
        }
    }
}

/// What is stored of a kind gives the kind back.
pub proof fn law_kind_names_read_back(kind: CheckpointKind)
    ensures
        CheckpointKind::named(kind.name()) == kind,
{
    reveal_strlit("interval");
    reveal_strlit("bootstrap");
    reveal_strlit("pressure");
    reveal_strlit("emergency");
    reveal_strlit("rollup");
    assert("interval"@.len() == 8);
    assert("bootstrap"@[0] == 'b');
    assert("pressure"@.len() == 8 && "pressure"@[0] == 'p');
    assert("emergency"@[0] == 'e');
    assert("rollup"@.len() == 6);
    assert("interval"@[0] == 'i');
    assert("bootstrap"@.len() == 9 && "emergency"@.len() == 9);
}

/// One end of a coverage range: a position in the order of the log.
///
/// `message_id` is `None` only for the open start of a channel whose chronicle
/// begins with its first message.
#[derive(Debug)]
pub struct ChronicleBoundary {
    pub at: i64,
    pub message_id: Option<String>,
}

impl Clone for ChronicleBoundary {
    fn clone(&self) -> (copy: Self)
        ensures
            copy == *self,
    {
        ChronicleBoundary { at: self.at, message_id: copy_opt(&self.message_id) }
    }
}

impl ChronicleBoundary {
    pub fn new(at: i64, message_id: Option<String>) -> (boundary: Self)
        ensures
            boundary.at == at,
            boundary.message_id == message_id,
    {
        ChronicleBoundary { at, message_id }
    }

    /// The boundary a channel with no prior chronicle starts from.
    pub fn origin(at: i64) -> (boundary: Self)
        ensures
            boundary.at == at,
            boundary.message_id is None,
    {
        ChronicleBoundary { at, message_id: None }
    }

    /// Whether a message lies after the boundary. An open start covers from
    /// its instant on.
    pub open spec fn precedes(self, message: ConversationMessage) -> bool {
        match self.message_id {
            Some(id) => message.created_at > self.at || (message.created_at == self.at && text::precedes(
                id@,
                message.id@,
            )),
            None => message.created_at >= self.at,
        }
    }

    /// Whether a message lies at the boundary or before it.
    pub open spec fn reaches(self, message: ConversationMessage) -> bool {
        message.created_at < self.at || (message.created_at == self.at && match self.message_id {
            Some(id) => message.id@ == id@ || text::precedes(message.id@, id@),
            None => message.id@.len() == 0,
        })
    }

    /// Whether a message lies after the boundary.
    pub fn is_before(&self, message: &ConversationMessage) -> (yes: bool)
        ensures
            yes == self.precedes(*message),
    {
        match &self.message_id {
            Some(id) => message.created_at > self.at || (message.created_at == self.at && text::comes_before(
                id.as_str(),
                message.id.as_str(),
            )),
            None => message.created_at >= self.at,
        }
    }

    /// Whether a message lies at the boundary or before it.
    pub fn covers(&self, message: &ConversationMessage) -> (yes: bool)
        ensures
            yes == self.reaches(*message),
    {
        message.created_at < self.at || (message.created_at == self.at && match &self.message_id {
            Some(id) => message.id == *id || text::comes_before(message.id.as_str(), id.as_str()),
            None => message.id.as_str().is_empty(),
        })
    }
}

/// A committed checkpoint.
#[derive(Debug)]
pub struct ChronicleCheckpoint {
    pub id: String,
    pub channel_id: String,
    pub seq: i64,
    pub level: i64,
    pub kind: CheckpointKind,
    pub title: String,
    pub summary: String,
    pub covers_from_at: i64,
    pub covers_to_at: i64,
    pub covers_from_message_id: Option<String>,
    pub covers_to_message_id: Option<String>,
    pub message_count: i64,
    pub token_estimate: i64,
    pub rolled_up_into: Option<String>,
    pub rolls_up_from_seq: Option<i64>,
    pub rolls_up_to_seq: Option<i64>,
    pub model: Option<String>,
    pub created_at: i64,
}

impl Clone for ChronicleCheckpoint {
    fn clone(&self) -> (copy: Self)
        ensures
            copy == *self,
    {
        ChronicleCheckpoint {
            id: self.id.clone(),
            channel_id: self.channel_id.clone(),
            seq: self.seq,
            level: self.level,
            kind: self.kind,
            title: self.title.clone(),
            summary: self.summary.clone(),
            covers_from_at: self.covers_from_at,
            covers_to_at: self.covers_to_at,
            covers_from_message_id: copy_opt(&self.covers_from_message_id),
            covers_to_message_id: copy_opt(&self.covers_to_message_id),
            message_count: self.message_count,
            token_estimate: self.token_estimate,
            rolled_up_into: copy_opt(&self.rolled_up_into),
            rolls_up_from_seq: self.rolls_up_from_seq,
            rolls_up_to_seq: self.rolls_up_to_seq,
            model: copy_opt(&self.model),
            created_at: self.created_at,
        }
    }
}

impl ChronicleCheckpoint {
    /// The boundary a following checkpoint must start from.
    pub open spec fn end(self) -> ChronicleBoundary {
        ChronicleBoundary { at: self.covers_to_at, message_id: self.covers_to_message_id }
    }

    /// The boundary a following checkpoint must start from.
    pub fn end_boundary(&self) -> (boundary: ChronicleBoundary)
        ensures
            boundary == self.end(),
    {
        ChronicleBoundary::new(self.covers_to_at, copy_opt(&self.covers_to_message_id))
    }
}

/// A checkpoint about to be committed.
#[derive(Debug)]
pub struct NewCheckpoint {
    pub channel_id: String,
    pub level: i64,
    pub kind: CheckpointKind,
    pub title: String,
    pub summary: String,
    pub covers_from: ChronicleBoundary,
    pub covers_to: ChronicleBoundary,
    pub message_count: i64,
    pub token_estimate: i64,
    pub rolls_up_from_seq: Option<i64>,
    pub rolls_up_to_seq: Option<i64>,
    pub model: Option<String>,
}

/// What happened to a commit attempt.
#[derive(Debug)]
pub enum CommitOutcome {
    Committed(Box<ChronicleCheckpoint>),
    /// The tail moved while this cut was being summarized, so its start
    /// boundary no longer joins the last committed checkpoint. The span stays
    /// unsummarized and the next cut covers it.
    Superseded { expected: Option<String>, found: Option<String> },
}

/// Aggregate chronicle state for a channel, used to build the prompt header.
#[derive(Debug, Clone, Copy, PartialEq, Eq)]
pub struct ChronicleStats {
    pub checkpoint_count: i64,
    pub interval_count: i64,
    pub rollup_count: i64,
    pub total_messages: i64,
    pub first_message_at: Option<i64>,
    pub last_message_at: Option<i64>,
    /// Messages logged after the newest checkpoint's end boundary.
    pub unsummarized_messages: i64,
}

// ---------------------------------------------------------------------------
// The store
// ---------------------------------------------------------------------------

/// Checkpoints and the log they cover. The durable rows are read into it in
/// the order of commits, and what it commits is written back as one row.
#[derive(Debug)]
pub struct ChronicleStore {
    /// In the order of commits.
    pub checkpoints: Vec<ChronicleCheckpoint>,
    /// In the order of the log.
    pub messages: Vec<ConversationMessage>,
}

/// Which checkpoints a query asks for.
#[derive(Debug, Clone, Copy)]
pub struct Wanted {
    pub level: i64,
    /// Coverage ends at this instant or later.
    pub since: Option<i64>,
    /// The sequence number lies below this one.
    pub before_seq: Option<i64>,
}

/// Whether a query asks for a checkpoint.
pub open spec fn wants(channel: Seq<char>, wanted: Wanted, checkpoint: ChronicleCheckpoint) -> bool {
    &&& checkpoint.channel_id@ == channel
    &&& checkpoint.level == wanted.level
    &&& wanted.since matches Some(since) ==> checkpoint.covers_to_at >= since
    &&& wanted.before_seq matches Some(before) ==> checkpoint.seq < before
}

/// The checkpoints that a query asks for, in the order of commits.
pub open spec fn chosen(rows: Seq<ChronicleCheckpoint>, channel: Seq<char>, wanted: Wanted) -> Seq<
    ChronicleCheckpoint,
> {
    rows.filter(|row: ChronicleCheckpoint| wants(channel, wanted, row))
}

/// Every checkpoint at a level.
pub open spec fn at_level(level: i64) -> Wanted {
    Wanted { level, since: None, before_seq: None }
}

/// How many of `n` rows a limit lets through. A negative limit stops none.
pub open spec fn within(limit: int, n: nat) -> nat {
    if limit < 0 || limit > n {
        n
    } else {
        limit as nat
    }
}

/// The last rows, as many as a limit lets through.
pub open spec fn last_rows<T>(rows: Seq<T>, limit: int) -> Seq<T> {
    rows.subrange(rows.len() - within(limit, rows.len()), rows.len() as int)
}

/// The first rows, as many as a limit lets through.
pub open spec fn first_rows<T>(rows: Seq<T>, limit: int) -> Seq<T> {
    rows.take(within(limit, rows.len()) as int)
}

/// The newest checkpoint of a channel at a level.
pub open spec fn newest(rows: Seq<ChronicleCheckpoint>, channel: Seq<char>, level: i64) -> Option<
    ChronicleCheckpoint,
> {
    let all = chosen(rows, channel, at_level(level));
    if all.len() == 0 {
        None
    } else {
        Some(all.last())
    }
}

/// The message that the newest checkpoint ends at.
pub open spec fn tail_id(rows: Seq<ChronicleCheckpoint>, channel: Seq<char>, level: i64) -> Option<Seq<char>> {
    match newest(rows, channel, level) {
        Some(last) => text::opt_text(last.covers_to_message_id),
        None => None,
    }
}

/// The highest sequence number of a channel.
pub open spec fn highest_seq(rows: Seq<ChronicleCheckpoint>, channel: Seq<char>) -> Option<int>
    decreases rows.len(),
{
    if rows.len() == 0 {
        None
    } else {
        let front = highest_seq(rows.drop_last(), channel);
        if rows.last().channel_id@ != channel {
            front
        } else {
            match front {
                Some(seq) => Some(if rows.last().seq > seq {
                    rows.last().seq as int
                } else {
                    seq
                }),
                None => Some(rows.last().seq as int),
            }
        }
    }
}

/// The sequence number that a channel's next checkpoint gets.
pub open spec fn next_seq(rows: Seq<ChronicleCheckpoint>, channel: Seq<char>) -> int {
    match highest_seq(rows, channel) {
        Some(seq) => seq + 1,
        None => 1,
    }
}

/// Whether a checkpoint of the channel and level already ends at a message.
pub open spec fn ends_at(rows: Seq<ChronicleCheckpoint>, channel: Seq<char>, level: i64, id: Option<Seq<char>>) -> bool {
    id is Some && exists|k: int|
        0 <= k < rows.len() && wants(channel, at_level(level), #[trigger] rows[k]) && text::opt_text(
            rows[k].covers_to_message_id,
        ) == id
}

/// Whether a cut joins the tail it is to follow and ends where no other does.
pub open spec fn joins(rows: Seq<ChronicleCheckpoint>, new: NewCheckpoint) -> bool {
    &&& text::opt_text(new.covers_from.message_id) == tail_id(rows, new.channel_id@, new.level)
    &&& !ends_at(rows, new.channel_id@, new.level, text::opt_text(new.covers_to.message_id))
}

/// The row of a cut.
pub open spec fn row_of(new: NewCheckpoint, seq: i64, id: String, created_at: i64) -> ChronicleCheckpoint {
    ChronicleCheckpoint {
        id,
        channel_id: new.channel_id,
        seq,
        level: new.level,
        kind: new.kind,
        title: new.title,
        summary: new.summary,
        covers_from_at: new.covers_from.at,
        covers_to_at: new.covers_to.at,
        covers_from_message_id: new.covers_from.message_id,
        covers_to_message_id: new.covers_to.message_id,
        message_count: new.message_count,
        token_estimate: new.token_estimate,
        rolled_up_into: None,
        rolls_up_from_seq: new.rolls_up_from_seq,
        rolls_up_to_seq: new.rolls_up_to_seq,
        model: new.model,
        created_at,
    }
}

/// The checkpoints of a channel, in the order of commits.
pub open spec fn checkpoints_of(rows: Seq<ChronicleCheckpoint>, channel: Seq<char>) -> Seq<ChronicleCheckpoint> {
    rows.filter(|row: ChronicleCheckpoint| row.channel_id@ == channel)
}

/// Whether every checkpoint starts where the one before it at its level ends,
/// the checkpoints of a channel are numbered from one on, and no two checkpoints
/// of a level end at one message.
pub open spec fn contiguous(rows: Seq<ChronicleCheckpoint>) -> bool {
    &&& forall|k: int|
        0 <= k < rows.len() ==> text::opt_text((#[trigger] rows[k]).covers_from_message_id) == tail_id(
            rows.take(k),
            rows[k].channel_id@,
            rows[k].level,
        )
    &&& forall|k: int|
        0 <= k < rows.len() ==> (#[trigger] rows[k]).seq == checkpoints_of(
            rows.take(k),
            rows[k].channel_id@,
        ).len() + 1
    &&& forall|k: int|
        0 <= k < rows.len() ==> !ends_at(
            rows.take(k),
            (#[trigger] rows[k]).channel_id@,
            rows[k].level,
            text::opt_text(rows[k].covers_to_message_id),
        )
}

/// The messages of a channel after one boundary and up to another, where they
/// are given.
pub open spec fn spans(
    channel: Seq<char>,
    from: Option<ChronicleBoundary>,
    to: Option<ChronicleBoundary>,
) -> spec_fn(ConversationMessage) -> bool {
    |m: ConversationMessage|
        m.channel_id@ == channel && (from matches Some(from) ==> from.precedes(m)) && (to matches Some(to)
            ==> to.reaches(m))
}

/// The messages of a channel after a boundary, in the order of the log.
pub open spec fn after(messages: Seq<ConversationMessage>, channel: Seq<char>, boundary: ChronicleBoundary) -> Seq<
    ConversationMessage,
> {
    messages.filter(spans(channel, Some(boundary), None))
}

/// The messages of a channel between two boundaries, the later one included.
pub open spec fn between(
    messages: Seq<ConversationMessage>,
    channel: Seq<char>,
    from: ChronicleBoundary,
    to: ChronicleBoundary,
) -> Seq<ConversationMessage> {
    messages.filter(spans(channel, Some(from), Some(to)))
}

/// The messages of a channel.
pub open spec fn of_channel(messages: Seq<ConversationMessage>, channel: Seq<char>) -> Seq<ConversationMessage> {
    messages.filter(spans(channel, None, None))
}

/// Whether two optional strings hold the same.
fn same_opt(a: &Option<String>, b: &Option<String>) -> (equal: bool)
    ensures
        equal == (text::opt_text(*a) == text::opt_text(*b)),
{
    match (a, b) {
        (Some(a), Some(b)) => *a == *b,
        (None, None) => true,
        _ => false,
    }
}

/// The first rows, as many as a limit lets through.
fn keep_first<T>(mut rows: Vec<T>, limit: i64) -> (kept: Vec<T>)
    ensures
        kept@ == first_rows(rows@, limit as int),
{
    assert(rows@.take(rows@.len() as int) =~= rows@);
    if limit >= 0 && (limit as u64) < rows.len() as u64 {
        rows.truncate(limit as usize);
    }
    rows
}

/// The last rows, as many as a limit lets through.
fn keep_last<T>(mut rows: Vec<T>, limit: i64) -> (kept: Vec<T>)
    ensures
        kept@ == last_rows(rows@, limit as int),
{
    let len: usize = rows.len();
    assert(rows@.subrange(0, rows@.len() as int) =~= rows@);
    if limit >= 0 && (limit as u64) < len as u64 {
        rows.split_off(len - limit as usize)
    } else {
        rows
    }
}

/// Rows in the opposite order.
fn reversed(mut rows: Vec<ChronicleCheckpoint>) -> (turned: Vec<ChronicleCheckpoint>)
    ensures
        turned@ == rows@.reverse(),
{
    let ghost all = rows@;
    let mut turned: Vec<ChronicleCheckpoint> = Vec::new();
    while rows.len() > 0
        invariant
            rows@.len() <= all.len(),
            rows@ == all.take(rows@.len() as int),
            turned@ == all.reverse().take(all.len() - rows@.len()),
        decreases rows@.len(),
    {
        let ghost n = rows@.len() as int;
        let row = rows.pop();
        if let Some(row) = row {
            assert(row == all[n - 1]);
            assert(all.take(n).drop_last() =~= all.take(n - 1));
            assert(all.reverse().take(all.len() - n + 1) =~= all.reverse().take(all.len() - n).push(all[n - 1]));
            turned.push(row);
        }
    }
    assert(all.reverse().take(all.len() as int) =~= all.reverse());
    turned
}

impl ChronicleStore {
    /// A store with nothing in it.
    pub fn new() -> (store: Self)
        ensures
            store.checkpoints@.len() == 0,
            store.messages@.len() == 0,
            store.well_formed(),
    {
        ChronicleStore { checkpoints: Vec::new(), messages: Vec::new() }
    }

    /// Whether the log is in order and coverage is contiguous.
    pub open spec fn well_formed(self) -> bool {
        contiguous(self.checkpoints@) && history::in_log_order(self.messages@)
    }

    /// The checkpoints that a query asks for, in the order of commits.
    pub fn select(&self, channel_id: &str, wanted: Wanted) -> (rows: Vec<ChronicleCheckpoint>)
        ensures
            rows@ == chosen(self.checkpoints@, channel_id@, wanted),
    {
        let channel = channel_id.to_owned();
        let ghost pred = |row: ChronicleCheckpoint| wants(channel_id@, wanted, row);
        let mut rows: Vec<ChronicleCheckpoint> = Vec::new();
        let mut k: usize = 0;
        assert(self.checkpoints@.take(0).filter(pred) =~= Seq::<ChronicleCheckpoint>::empty()) by {
            reveal(Seq::filter);
        }
        while k < self.checkpoints.len()
            invariant
                channel@ == channel_id@,
                pred == |row: ChronicleCheckpoint| wants(channel_id@, wanted, row),
                k <= self.checkpoints@.len(),
                rows@ == self.checkpoints@.take(k as int).filter(pred),
            decreases self.checkpoints@.len() - k,
        {
            let row = &self.checkpoints[k];
            proof {
                reveal(Seq::filter);
                assert(self.checkpoints@.take(k + 1).drop_last() =~= self.checkpoints@.take(k as int));
            }
            let recent = match wanted.since {
                Some(since) => row.covers_to_at >= since,
                None => true,
            };
            let older = match wanted.before_seq {
                Some(before) => row.seq < before,
                None => true,
            };
            if row.channel_id == channel && row.level == wanted.level && recent && older {
                rows.push(row.clone());
            }
            k = k + 1;
        }
        assert(self.checkpoints@.take(k as int) =~= self.checkpoints@);
        rows
    }

    /// The newest checkpoint at a level, or `None` when the chronicle is empty.
    pub fn latest(&self, channel_id: &str, level: i64) -> (last: Option<ChronicleCheckpoint>)
        ensures
            last == newest(self.checkpoints@, channel_id@, level),
    {
        let mut rows = self.select(channel_id, Wanted { level, since: None, before_seq: None });
        rows.pop()
    }

    /// The sequence number that a channel's next checkpoint gets.
    fn next_sequence(&self, channel_id: &String) -> (seq: i64)
        requires
            next_seq(self.checkpoints@, channel_id@) <= i64::MAX,
        ensures
            seq == next_seq(self.checkpoints@, channel_id@),
    {
        let mut highest: Option<i64> = None;
        let mut k: usize = 0;
        while k < self.checkpoints.len()
            invariant
                k <= self.checkpoints@.len(),
                match highest {
                    Some(seq) => highest_seq(self.checkpoints@.take(k as int), channel_id@) == Some(seq as int),
                    None => highest_seq(self.checkpoints@.take(k as int), channel_id@) is None,
                },
            decreases self.checkpoints@.len() - k,
        {
            assert(self.checkpoints@.take(k + 1).drop_last() =~= self.checkpoints@.take(k as int));
            let row = &self.checkpoints[k];
            if row.channel_id == *channel_id {
                highest = match highest {
                    Some(seq) => if row.seq > seq {
                        Some(row.seq)
                    } else {
                        Some(seq)
                    },
                    None => Some(row.seq),
                };
            }
            k = k + 1;
        }
        assert(self.checkpoints@.take(k as int) =~= self.checkpoints@);
        match highest {
            Some(seq) => seq + 1,
            None => 1,
        }
    }

    /// Whether a checkpoint of the channel and level already ends at a message.
    fn end_is_taken(&self, channel_id: &String, level: i64, id: &Option<String>) -> (taken: bool)
        ensures
            taken == ends_at(self.checkpoints@, channel_id@, level, text::opt_text(*id)),
    {
        if id.is_none() {
            return false;
        }
        let mut k: usize = 0;
        while k < self.checkpoints.len()
            invariant
                id is Some,
                k <= self.checkpoints@.len(),
                forall|i: int|
                    0 <= i < k ==> !(wants(channel_id@, at_level(level), #[trigger] self.checkpoints@[i])
                        && text::opt_text(self.checkpoints@[i].covers_to_message_id) == text::opt_text(*id)),
            decreases self.checkpoints@.len() - k,
        {
            let row = &self.checkpoints[k];
            if row.channel_id == *channel_id && row.level == level && same_opt(&row.covers_to_message_id, id) {
                assert(wants(channel_id@, at_level(level), self.checkpoints@[k as int]));
                return true;
            }
            k = k + 1;
        }
        false
    }

    /// Commits a checkpoint, rejecting it if the tail moved underneath it.
    ///
    /// The start boundary must join the newest checkpoint's end boundary, and
    /// no other checkpoint of the level may end at the same message. The id of
    /// the row and the instant of the commit are the caller's.
    pub fn commit(&mut self, new: NewCheckpoint, id: String, created_at: i64) -> (outcome: CommitOutcome)
        requires
            next_seq(old(self).checkpoints@, new.channel_id@) <= i64::MAX,
        ensures
            final(self).messages == old(self).messages,
            match outcome {
                CommitOutcome::Committed(row) => {
                    &&& joins(old(self).checkpoints@, new)
                    &&& *row == row_of(
                        new,
                        next_seq(old(self).checkpoints@, new.channel_id@) as i64,
                        id,
                        created_at,
                    )
                    &&& final(self).checkpoints@ == old(self).checkpoints@.push(*row)
                },
                CommitOutcome::Superseded { expected, found } => {
                    &&& !joins(old(self).checkpoints@, new)
                    &&& text::opt_text(expected) == tail_id(old(self).checkpoints@, new.channel_id@, new.level)
                    &&& found == new.covers_from.message_id
                    &&& final(self).checkpoints@ == old(self).checkpoints@
                },
            },
            old(self).well_formed() ==> final(self).well_formed(),
    {
        let last = self.latest(new.channel_id.as_str(), new.level);
        let expected = match &last {
            Some(last) => copy_opt(&last.covers_to_message_id),
            None => None,
        };
        if !same_opt(&expected, &new.covers_from.message_id) || self.end_is_taken(
            &new.channel_id,
            new.level,
            &new.covers_to.message_id,
        ) {
            return CommitOutcome::Superseded { expected, found: new.covers_from.message_id };
        }
        let seq: i64 = self.next_sequence(&new.channel_id);
        let row = ChronicleCheckpoint {
            id,
            channel_id: new.channel_id,
            seq,
            level: new.level,
            kind: new.kind,
            title: new.title,
            summary: new.summary,
            covers_from_at: new.covers_from.at,
            covers_to_at: new.covers_to.at,
            covers_from_message_id: new.covers_from.message_id,
            covers_to_message_id: new.covers_to.message_id,
            message_count: new.message_count,
            token_estimate: new.token_estimate,
            rolled_up_into: None,
            rolls_up_from_seq: new.rolls_up_from_seq,
            rolls_up_to_seq: new.rolls_up_to_seq,
            model: new.model,
            created_at,
        };
        let ghost rows = self.checkpoints@;
        self.checkpoints.push(row.clone());
        proof {
            if contiguous(rows) {
                commit_keeps_contiguity(rows, row);
            }
        }
        CommitOutcome::Committed(Box::new(row))
    }

    /// Checkpoints at a level, newest first.
    pub fn list(&self, channel_id: &str, level: i64, limit: i64) -> (rows: Vec<ChronicleCheckpoint>)
        ensures
            rows@ == last_rows(chosen(self.checkpoints@, channel_id@, at_level(level)), limit as int).reverse(),
    {
        let rows = self.select(channel_id, Wanted { level, since: None, before_seq: None });
        reversed(keep_last(rows, limit))
    }

    /// Checkpoints at a level whose coverage ends at or after `since`, oldest
    /// first. Used to select the recent window for the prompt.
    pub fn list_since(&self, channel_id: &str, level: i64, since: i64, limit: i64) -> (rows: Vec<
        ChronicleCheckpoint,
    >)
        ensures
            rows@ == last_rows(
                chosen(
                    self.checkpoints@,
                    channel_id@,
                    (Wanted { level, since: Some(since), before_seq: None }),
                ),
                limit as int,
            ),
    {
        keep_last(self.select(channel_id, Wanted { level, since: Some(since), before_seq: None }), limit)
    }

    /// Checkpoints at a level with a sequence below `before_seq`, oldest first.
    /// Used to select the older-history portion of the prompt view.
    pub fn list_before_seq(&self, channel_id: &str, level: i64, before_seq: i64, limit: i64) -> (rows: Vec<
        ChronicleCheckpoint,
    >)
        ensures
            rows@ == last_rows(
                chosen(
                    self.checkpoints@,
                    channel_id@,
                    (Wanted { level, since: None, before_seq: Some(before_seq) }),
                ),
                limit as int,
            ),
    {
        keep_last(
            self.select(channel_id, Wanted { level, since: None, before_seq: Some(before_seq) }),
            limit,
        )
    }

    /// A single checkpoint by sequence number.
    pub fn get_by_seq(&self, channel_id: &str, seq: i64) -> (found: Option<ChronicleCheckpoint>)
        ensures
            match found {
                Some(row) => self.checkpoints@.contains(row) && row.channel_id@ == channel_id@ && row.seq == seq,
                None => forall|k: int|
                    0 <= k < self.checkpoints@.len() ==> !((#[trigger] self.checkpoints@[k]).channel_id@
                        == channel_id@ && self.checkpoints@[k].seq == seq),
            },
    {
        let channel = channel_id.to_owned();
        let mut k: usize = 0;
        while k < self.checkpoints.len()
            invariant
                channel@ == channel_id@,
                k <= self.checkpoints@.len(),
                forall|i: int|
                    0 <= i < k ==> !((#[trigger] self.checkpoints@[i]).channel_id@ == channel_id@
                        && self.checkpoints@[i].seq == seq),
            decreases self.checkpoints@.len() - k,
        {
            let row = &self.checkpoints[k];
            if row.channel_id == channel && row.seq == seq {
                assert(self.checkpoints@[k as int] == *row);
                return Some(row.clone());
            }
            k = k + 1;
        }
        None
    }

    /// A single checkpoint by id, scoped to its channel.
    pub fn get_by_id(&self, channel_id: &str, id: &str) -> (found: Option<ChronicleCheckpoint>)
        ensures
            match found {
                Some(row) => self.checkpoints@.contains(row) && row.channel_id@ == channel_id@ && row.id@ == id@,
                None => forall|k: int|
                    0 <= k < self.checkpoints@.len() ==> !((#[trigger] self.checkpoints@[k]).channel_id@
                        == channel_id@ && self.checkpoints@[k].id@ == id@),
            },
    {
        let channel = channel_id.to_owned();
        let wanted = id.to_owned();
        let mut k: usize = 0;
        while k < self.checkpoints.len()
            invariant
                channel@ == channel_id@,
                wanted@ == id@,
                k <= self.checkpoints@.len(),
                forall|i: int|
                    0 <= i < k ==> !((#[trigger] self.checkpoints@[i]).channel_id@ == channel_id@
                        && self.checkpoints@[i].id@ == id@),
            decreases self.checkpoints@.len() - k,
        {
            let row = &self.checkpoints[k];
            if row.channel_id == channel && row.id == wanted {
                assert(self.checkpoints@[k as int] == *row);
                return Some(row.clone());
            }
            k = k + 1;
        }
        None
    }
}

/// A row that joins the tail and gets the next number keeps coverage
/// contiguous.
proof fn commit_keeps_contiguity(rows: Seq<ChronicleCheckpoint>, row: ChronicleCheckpoint)
    requires
        contiguous(rows),
        text::opt_text(row.covers_from_message_id) == tail_id(rows, row.channel_id@, row.level),
        !ends_at(rows, row.channel_id@, row.level, text::opt_text(row.covers_to_message_id)),
        row.seq == next_seq(rows, row.channel_id@),
    ensures
        contiguous(rows.push(row)),
{
    let all = rows.push(row);
    assert forall|k: int| 0 <= k < all.len() implies text::opt_text((#[trigger] all[k]).covers_from_message_id)
        == tail_id(all.take(k), all[k].channel_id@, all[k].level) && !ends_at(
        all.take(k),
        all[k].channel_id@,
        all[k].level,
        text::opt_text(all[k].covers_to_message_id),
    ) by {
        if k < rows.len() {
            assert(all.take(k) =~= rows.take(k));
            assert(all[k] == rows[k]);
        } else {
            assert(all.take(k) =~= rows);
        }
    }
    law_numbers_count_the_checkpoints(rows, row.channel_id@);
    assert forall|k: int| 0 <= k < all.len() implies (#[trigger] all[k]).seq == checkpoints_of(
        all.take(k),
        all[k].channel_id@,
    ).len() + 1 by {
        if k < rows.len() {
            assert(all.take(k) =~= rows.take(k));
            assert(all[k] == rows[k]);
        } else {
            assert(all.take(k) =~= rows);
        }
    }
}

/// What is numbered from one on has its count as its highest number.
proof fn highest_is_the_count(rows: Seq<ChronicleCheckpoint>, channel: Seq<char>)
    requires
        forall|k: int|
            0 <= k < rows.len() ==> (#[trigger] rows[k]).seq == checkpoints_of(
                rows.take(k),
                rows[k].channel_id@,
            ).len() + 1,
    ensures
        highest_seq(rows, channel) == (if checkpoints_of(rows, channel).len() == 0 {
            None
        } else {
            Some(checkpoints_of(rows, channel).len() as int)
        }),
    decreases rows.len(),
{
    reveal(Seq::filter);
    if rows.len() > 0 {
        let front = rows.drop_last();
        let last = rows.len() - 1;
        assert(front =~= rows.take(last));
        assert forall|k: int| 0 <= k < front.len() implies (#[trigger] front[k]).seq == checkpoints_of(
            front.take(k),
            front[k].channel_id@,
        ).len() + 1 by {
            assert(front[k] == rows[k]);
            assert(front.take(k) =~= rows.take(k));
        }
        highest_is_the_count(front, channel);
        assert(rows[last].seq == checkpoints_of(front, rows[last].channel_id@).len() + 1);
    }
}

/// The number that a channel's next checkpoint gets is one more than the count
/// of its checkpoints.
pub proof fn law_numbers_count_the_checkpoints(rows: Seq<ChronicleCheckpoint>, channel: Seq<char>)
    requires
        contiguous(rows),
    ensures
        next_seq(rows, channel) == checkpoints_of(rows, channel).len() + 1,
{
    highest_is_the_count(rows, channel);
}

/// In the timeline the checkpoint committed last comes first.
impl Ranked for ChronicleCheckpoint {
    open spec fn outranks(&self, other: &Self) -> bool {
        self.created_at > other.created_at
    }

    fn comes_first(&self, other: &Self) -> (yes: bool) {
        self.created_at > other.created_at
    }
}

/// The checkpoints of a channel committed before an instant, in the order of
/// commits.
pub open spec fn committed_before(
    rows: Seq<ChronicleCheckpoint>,
    channel: Seq<char>,
    before: Option<i64>,
) -> Seq<ChronicleCheckpoint> {
    rows.filter(
        |row: ChronicleCheckpoint|
            row.channel_id@ == channel && (before matches Some(before) ==> row.created_at < before),
    )
}

/// How many rows lie at a level of zero, or above it.
pub open spec fn count_level(rows: Seq<ChronicleCheckpoint>, channel: Seq<char>, rollups: bool) -> nat {
    rows.filter(
        |row: ChronicleCheckpoint|
            row.channel_id@ == channel && (if rollups {
                row.level > 0
            } else {
                row.level == 0
            }),
    ).len()
}

/// The aggregate state of a channel.
pub open spec fn stats_of(store: ChronicleStore, channel: Seq<char>) -> ChronicleStats {
    let log = of_channel(store.messages@, channel);
    ChronicleStats {
        checkpoint_count: committed_before(store.checkpoints@, channel, None).len() as i64,
        interval_count: count_level(store.checkpoints@, channel, false) as i64,
        rollup_count: count_level(store.checkpoints@, channel, true) as i64,
        total_messages: log.len() as i64,
        first_message_at: if log.len() == 0 {
            None
        } else {
            Some(log[0].created_at)
        },
        last_message_at: if log.len() == 0 {
            None
        } else {
            Some(log.last().created_at)
        },
        unsummarized_messages: match newest(store.checkpoints@, channel, 0) {
            Some(last) => after(store.messages@, channel, last.end()).len() as i64,
            None => log.len() as i64,
        },
    }
}

/// A filter keeps the order of the log.
proof fn filtered_in_order(messages: Seq<ConversationMessage>, pred: spec_fn(ConversationMessage) -> bool)
    requires
        history::in_log_order(messages),
    ensures
        history::in_log_order(messages.filter(pred)),
        forall|k: int| 0 <= k < messages.filter(pred).len() ==> messages.contains(#[trigger] messages.filter(pred)[k]),
    decreases messages.len(),
{
    reveal(Seq::filter);
    if messages.len() > 0 {
        let front = messages.drop_last();
        assert(history::in_log_order(front)) by {
            assert forall|i: int, k: int| 0 <= i < k < front.len() implies history::logged_before(
                #[trigger] front[i],
                #[trigger] front[k],
            ) by {
                assert(front[i] == messages[i] && front[k] == messages[k]);
            }
        }
        filtered_in_order(front, pred);
        let kept = front.filter(pred);
        let all = messages.filter(pred);
        assert forall|k: int| 0 <= k < kept.len() implies messages.contains(#[trigger] kept[k]) by {
            assert(front.contains(kept[k]));
            let m = choose|m: int| 0 <= m < front.len() && front[m] == kept[k];
            assert(messages[m] == kept[k]);
        }
        assert(messages.contains(messages[messages.len() - 1]));
        assert forall|i: int, k: int| 0 <= i < k < all.len() implies history::logged_before(
            #[trigger] all[i],
            #[trigger] all[k],
        ) by {
            if k < kept.len() {
                assert(all[i] == kept[i] && all[k] == kept[k]);
            } else {
                assert(front.contains(kept[i]));
                let m = choose|m: int| 0 <= m < front.len() && front[m] == kept[i];
                assert(messages[m] == all[i]);
            }
        }
    }
}

proof fn filter_shorter<T>(list: Seq<T>, pred: spec_fn(T) -> bool)
    ensures
        list.filter(pred).len() <= list.len(),
    decreases list.len(),
{
    reveal(Seq::filter);
    if list.len() > 0 {
        filter_shorter(list.drop_last(), pred);
    }
}

impl ChronicleStore {
    /// The messages of a channel that lie between two boundaries.
    fn spanned(
        &self,
        channel_id: &str,
        from: Option<&ChronicleBoundary>,
        to: Option<&ChronicleBoundary>,
    ) -> (found: Vec<ConversationMessage>)
        ensures
            found@ == self.messages@.filter(
                spans(
                    channel_id@,
                    match from {
                        Some(from) => Some(*from),
                        None => None,
                    },
                    match to {
                        Some(to) => Some(*to),
                        None => None,
                    },
                ),
            ),
            self.well_formed() ==> history::in_log_order(found@),
            found@.len() <= self.messages@.len(),
    {
        let channel = channel_id.to_owned();
        let ghost pred = spans(
            channel_id@,
            match from {
                Some(from) => Some(*from),
                None => None,
            },
            match to {
                Some(to) => Some(*to),
                None => None,
            },
        );
        let mut found: Vec<ConversationMessage> = Vec::new();
        let mut k: usize = 0;
        assert(self.messages@.take(0).filter(pred) =~= Seq::<ConversationMessage>::empty()) by {
            reveal(Seq::filter);
        }
        while k < self.messages.len()
            invariant
                channel@ == channel_id@,
                pred == spans(
                    channel_id@,
                    match from {
                        Some(from) => Some(*from),
                        None => None,
                    },
                    match to {
                        Some(to) => Some(*to),
                        None => None,
                    },
                ),
                k <= self.messages@.len(),
                found@ == self.messages@.take(k as int).filter(pred),
            decreases self.messages@.len() - k,
        {
            proof {
                reveal(Seq::filter);
                assert(self.messages@.take(k + 1).drop_last() =~= self.messages@.take(k as int));
            }
            let message = &self.messages[k];
            let starts = match from {
                Some(from) => from.is_before(message),
                None => true,
            };
            let ends = match to {
                Some(to) => to.covers(message),
                None => true,
            };
            if message.channel_id == channel && starts && ends {
                found.push(message.clone());
            }
            k = k + 1;
        }
        assert(self.messages@.take(k as int) =~= self.messages@);
        proof {
            filter_shorter(self.messages@, pred);
            if self.well_formed() {
                filtered_in_order(self.messages@, pred);
            }
        }
        found
    }

    /// How many logged messages sit after a boundary.
    pub fn count_messages_after(&self, channel_id: &str, boundary: &ChronicleBoundary) -> (count: i64)
        requires
            self.messages@.len() <= i64::MAX,
        ensures
            count == after(self.messages@, channel_id@, *boundary).len(),
    {
        let found = self.spanned(channel_id, Some(boundary), None);
        found.len() as i64
    }

    /// Logged messages after a boundary, oldest first.
    pub fn messages_after(&self, channel_id: &str, boundary: &ChronicleBoundary, limit: i64) -> (found: Vec<
        ConversationMessage,
    >)
        ensures
            found@ == first_rows(after(self.messages@, channel_id@, *boundary), limit as int),
            self.well_formed() ==> history::in_log_order(found@),
    {
        let found = self.spanned(channel_id, Some(boundary), None);
        keep_first(found, limit)
    }

    /// Logged messages inside a checkpoint's coverage, oldest first.
    ///
    /// The range is half-open in the same sense the boundaries are:
    /// `(from, to]`.
    pub fn messages_in_range(
        &self,
        channel_id: &str,
        from: &ChronicleBoundary,
        to: &ChronicleBoundary,
        limit: i64,
    ) -> (found: Vec<ConversationMessage>)
        ensures
            found@ == first_rows(between(self.messages@, channel_id@, *from, *to), limit as int),
            self.well_formed() ==> history::in_log_order(found@),
    {
        let found = self.spanned(channel_id, Some(from), Some(to));
        keep_first(found, limit)
    }

    /// The oldest logged message's position, used to open a bootstrap range.
    pub fn earliest_message(&self, channel_id: &str) -> (first: Option<(i64, String)>)
        ensures
            match first {
                Some((at, id)) => {
                    let log = of_channel(self.messages@, channel_id@);
                    log.len() > 0 && log[0].created_at == at && log[0].id == id
                },
                None => of_channel(self.messages@, channel_id@).len() == 0,
            },
    {
        let found = self.spanned(channel_id, None, None);
        if found.len() == 0 {
            None
        } else {
            Some((found[0].created_at, found[0].id.clone()))
        }
    }

    /// Checkpoints for the channel timeline, newest first.
    ///
    /// Ordered and filtered by commit time rather than coverage, so a
    /// checkpoint lands inline at the point the conversation reached it.
    pub fn list_for_timeline(&self, channel_id: &str, limit: i64, before: Option<i64>) -> (rows: Vec<
        ChronicleCheckpoint,
    >)
        ensures
            rows@ == first_rows(
                order::ranked(committed_before(self.checkpoints@, channel_id@, before).reverse()),
                limit as int,
            ),
    {
        keep_first(order::rank(reversed(self.committed(channel_id, before))), limit)
    }

    /// The checkpoints of a channel committed before an instant.
    fn committed(&self, channel_id: &str, before: Option<i64>) -> (rows: Vec<ChronicleCheckpoint>)
        ensures
            rows@ == committed_before(self.checkpoints@, channel_id@, before),
            rows@.len() <= self.checkpoints@.len(),
    {
        let channel = channel_id.to_owned();
        let ghost pred = |row: ChronicleCheckpoint|
            row.channel_id@ == channel_id@ && (before matches Some(before) ==> row.created_at < before);
        let mut rows: Vec<ChronicleCheckpoint> = Vec::new();
        let mut k: usize = 0;
        assert(self.checkpoints@.take(0).filter(pred) =~= Seq::<ChronicleCheckpoint>::empty()) by {
            reveal(Seq::filter);
        }
        while k < self.checkpoints.len()
            invariant
                channel@ == channel_id@,
                pred == |row: ChronicleCheckpoint|
                    row.channel_id@ == channel_id@ && (before matches Some(before) ==> row.created_at < before),
                k <= self.checkpoints@.len(),
                rows@ == self.checkpoints@.take(k as int).filter(pred),
            decreases self.checkpoints@.len() - k,
        {
            proof {
                reveal(Seq::filter);
                assert(self.checkpoints@.take(k + 1).drop_last() =~= self.checkpoints@.take(k as int));
            }
            let row = &self.checkpoints[k];
            let early = match before {
                Some(before) => row.created_at < before,
                None => true,
            };
            if row.channel_id == channel && early {
                rows.push(row.clone());
            }
            k = k + 1;
        }
        assert(self.checkpoints@.take(k as int) =~= self.checkpoints@);
        proof {
            filter_shorter(self.checkpoints@, pred);
        }
        rows
    }

    /// How many checkpoints of a channel lie at a level of zero, or above it.
    fn count_levels(&self, channel_id: &str, rollups: bool) -> (count: usize)
        ensures
            count == count_level(self.checkpoints@, channel_id@, rollups),
            count <= self.checkpoints@.len(),
    {
        let channel = channel_id.to_owned();
        let ghost pred = |row: ChronicleCheckpoint|
            row.channel_id@ == channel_id@ && (if rollups {
                row.level > 0
            } else {
                row.level == 0
            });
        let mut count: usize = 0;
        let mut k: usize = 0;
        assert(self.checkpoints@.take(0).filter(pred) =~= Seq::<ChronicleCheckpoint>::empty()) by {
            reveal(Seq::filter);
        }
        while k < self.checkpoints.len()
            invariant
                channel@ == channel_id@,
                pred == |row: ChronicleCheckpoint|
                    row.channel_id@ == channel_id@ && (if rollups {
                        row.level > 0
                    } else {
                        row.level == 0
                    }),
                k <= self.checkpoints@.len(),
                count == self.checkpoints@.take(k as int).filter(pred).len(),
                count <= k,
            decreases self.checkpoints@.len() - k,
        {
            proof {
                reveal(Seq::filter);
                assert(self.checkpoints@.take(k + 1).drop_last() =~= self.checkpoints@.take(k as int));
            }
            let row = &self.checkpoints[k];
            let fits = if rollups {
                row.level > 0
            } else {
                row.level == 0
            };
            if row.channel_id == channel && fits {
                count = count + 1;
            }
            k = k + 1;
        }
        assert(self.checkpoints@.take(k as int) =~= self.checkpoints@);
        count
    }

    /// Aggregate state for the prompt header.
    pub fn stats(&self, channel_id: &str) -> (stats: ChronicleStats)
        requires
            self.messages@.len() <= i64::MAX,
            self.checkpoints@.len() <= i64::MAX,
        ensures
            stats == stats_of(*self, channel_id@),
            stats.checkpoint_count >= 0,
            stats.total_messages >= 0,
            stats.unsummarized_messages >= 0,
    {
        let all = self.committed(channel_id, None);
        let log = self.spanned(channel_id, None, None);
        let total: i64 = log.len() as i64;
        let unsummarized: i64 = match self.latest(channel_id, 0) {
            Some(last) => self.count_messages_after(channel_id, &last.end_boundary()),
            None => total,
        };
        let intervals: usize = self.count_levels(channel_id, false);
        let rollups: usize = self.count_levels(channel_id, true);
        ChronicleStats {
            checkpoint_count: all.len() as i64,
            interval_count: intervals as i64,
            rollup_count: rollups as i64,
            total_messages: total,
            first_message_at: if log.len() == 0 {
                None
            } else {
                Some(log[0].created_at)
            },
            last_message_at: if log.len() == 0 {
                None
            } else {
                Some(log[log.len() - 1].created_at)
            },
            unsummarized_messages: unsummarized,
        }
    }

    /// Adds a message to the log, in its place. A position that is taken
    /// already takes no second message.
    pub fn log(&mut self, message: ConversationMessage) -> (added: bool)
        requires
            old(self).well_formed(),
        ensures
            final(self).well_formed(),
            final(self).checkpoints == old(self).checkpoints,
            added <==> !position_taken(old(self).messages@, message),
            added ==> final(self).messages@.to_multiset() == old(self).messages@.to_multiset().insert(message),
            !added ==> final(self).messages@ == old(self).messages@,
    {
        let ghost all = self.messages@;
        let mut p: usize = self.messages.len();
        while p > 0 && (message.created_at < self.messages[p - 1].created_at || (message.created_at
            == self.messages[p - 1].created_at && text::comes_before(
            message.id.as_str(),
            self.messages[p - 1].id.as_str(),
        )))
            invariant
                p <= self.messages@.len(),
                self.messages@ == all,
                forall|k: int| p <= k < all.len() ==> history::logged_before(message, #[trigger] all[k]),
            decreases p,
        {
            p = p - 1;
        }
        if p > 0 && self.messages[p - 1].created_at == message.created_at && self.messages[p - 1].id == message.id {
            assert(position_taken(all, message)) by {
                assert(all[p - 1].created_at == message.created_at);
            }
            return false;
        }
        proof {
            log_order_insert(all, message, p as int);
        }
        self.messages.insert(p, message);
        true
    }
}

/// Whether the log holds a message at the position of another.
pub open spec fn position_taken(messages: Seq<ConversationMessage>, message: ConversationMessage) -> bool {
    exists|k: int|
        0 <= k < messages.len() && (#[trigger] messages[k]).created_at == message.created_at && messages[k].id@
            == message.id@
}

proof fn log_order_insert(all: Seq<ConversationMessage>, message: ConversationMessage, p: int)
    requires
        history::in_log_order(all),
        0 <= p <= all.len(),
        forall|k: int| p <= k < all.len() ==> history::logged_before(message, #[trigger] all[k]),
        p > 0 ==> !history::logged_before(message, all[p - 1]),
        p > 0 ==> !(all[p - 1].created_at == message.created_at && all[p - 1].id@ == message.id@),
    ensures
        history::in_log_order(all.insert(p, message)),
        !position_taken(all, message),
        all.insert(p, message).to_multiset() == all.to_multiset().insert(message),
{
    broadcast use vstd::seq_lib::group_to_multiset_ensures;

    if p > 0 {
        let prev = all[p - 1];
        if prev.created_at == message.created_at {
            text::precedes_total(prev.id@, message.id@);
        }
        assert(history::logged_before(prev, message));
    }
    assert forall|k: int| 0 <= k < p implies history::logged_before(#[trigger] all[k], message) by {
        if k < p - 1 {
            let prev = all[p - 1];
            assert(history::logged_before(all[k], prev));
            if all[k].created_at == message.created_at {
                text::precedes_transitive(all[k].id@, prev.id@, message.id@);
            }
        }
    }
    let new = all.insert(p, message);
    assert forall|i: int, k: int| 0 <= i < k < new.len() implies history::logged_before(
        #[trigger] new[i],
        #[trigger] new[k],
    ) by {
        if i == p {
            assert(new[k] == all[k - 1]);
        } else if k == p {
            assert(new[i] == all[i]);
        } else if i < p && k < p {
            assert(new[i] == all[i] && new[k] == all[k]);
        } else if i < p {
            assert(new[i] == all[i] && new[k] == all[k - 1]);
        } else {
            assert(new[i] == all[i - 1] && new[k] == all[k - 1]);
        }
    }
    if position_taken(all, message) {
        let k = choose|k: int|
            0 <= k < all.len() && (#[trigger] all[k]).created_at == message.created_at && all[k].id@ == message.id@;
        text::precedes_irreflexive(message.id@);
        if k < p {
            assert(history::logged_before(all[k], message));
        } else {
            assert(history::logged_before(message, all[k]));
        }
    }
    let head = all.take(p);
    let tail = all.subrange(p, all.len() as int);
    assert(new =~= head.push(message) + tail);
    assert(all =~= head + tail);
    vstd::seq_lib::lemma_multiset_commutative(head, tail);
    vstd::seq_lib::lemma_multiset_commutative(head.push(message), tail);
    assert(head.to_multiset().insert(message).add(tail.to_multiset()) =~= head.to_multiset().add(
        tail.to_multiset(),
    ).insert(message));
}

// ---------------------------------------------------------------------------
// Laws
// ---------------------------------------------------------------------------

/// The newest of the first `k` checkpoints is the last of them that is asked
/// for.
proof fn newest_is(rows: Seq<ChronicleCheckpoint>, i: int, k: int, channel: Seq<char>, level: i64)
    requires
        0 <= i < k <= rows.len(),
        wants(channel, at_level(level), rows[i]),
        forall|m: int| i < m < k ==> !wants(channel, at_level(level), #[trigger] rows[m]),
    ensures
        newest(rows.take(k), channel, level) == Some(rows[i]),
    decreases k,
{
    reveal(Seq::filter);
    let pred = |row: ChronicleCheckpoint| wants(channel, at_level(level), row);
    assert(rows.take(k).drop_last() =~= rows.take(k - 1));
    assert(rows.take(k).last() == rows[k - 1]);
    if i < k - 1 {
        newest_is(rows, i, k - 1, channel, level);
        assert(!wants(channel, at_level(level), rows[k - 1]));
        assert(rows.take(k).filter(pred) == rows.take(k - 1).filter(pred));
    } else {
        assert(rows.take(k).filter(pred) == rows.take(k - 1).filter(pred).push(rows[i]));
    }
}

/// A checkpoint counts among those before any later one.
proof fn earlier_is_counted(rows: Seq<ChronicleCheckpoint>, i: int, k: int)
    requires
        0 <= i < k <= rows.len(),
    ensures
        checkpoints_of(rows.take(i), rows[i].channel_id@).len() < checkpoints_of(
            rows.take(k),
            rows[i].channel_id@,
        ).len(),
    decreases k,
{
    reveal(Seq::filter);
    assert(rows.take(k).drop_last() =~= rows.take(k - 1));
    assert(rows.take(k).last() == rows[k - 1]);
    if i < k - 1 {
        earlier_is_counted(rows, i, k - 1);
    }
}

/// Of two checkpoints of a channel and level with none between them, the later
/// starts exactly where the earlier ends, and has the higher number.
pub proof fn law_coverage_is_contiguous(rows: Seq<ChronicleCheckpoint>, i: int, k: int)
    requires
        contiguous(rows),
        0 <= i < k < rows.len(),
        rows[i].channel_id@ == rows[k].channel_id@,
        rows[i].level == rows[k].level,
        forall|m: int|
            i < m < k ==> !wants(rows[k].channel_id@, at_level(rows[k].level), #[trigger] rows[m]),
    ensures
        text::opt_text(rows[k].covers_from_message_id) == text::opt_text(rows[i].covers_to_message_id),
        rows[i].seq < rows[k].seq,
{
    newest_is(rows, i, k, rows[k].channel_id@, rows[k].level);
    earlier_is_counted(rows, i, k);
}

/// A cut that was committed is refused when it is tried again, so a retry
/// leaves one row. The cut has to end at a message.
pub proof fn law_a_cut_commits_once(
    rows: Seq<ChronicleCheckpoint>,
    new: NewCheckpoint,
    seq: i64,
    id: String,
    created_at: i64,
)
    requires
        joins(rows, new),
        new.covers_to.message_id is Some,
    ensures
        !joins(rows.push(row_of(new, seq, id, created_at)), new),
{
    let row = row_of(new, seq, id, created_at);
    let all = rows.push(row);
    assert(all[rows.len() as int] == row);
    assert(wants(new.channel_id@, at_level(new.level), all[rows.len() as int]));
}

/// A cut whose start is not where the newest checkpoint ends is refused.
pub proof fn law_a_stale_cut_is_refused(
    rows: Seq<ChronicleCheckpoint>,
    row: ChronicleCheckpoint,
    stale: NewCheckpoint,
)
    requires
        row.channel_id@ == stale.channel_id@,
        row.level == stale.level,
        text::opt_text(row.covers_to_message_id) != text::opt_text(stale.covers_from.message_id),
    ensures
        !joins(rows.push(row), stale),
{
    let all = rows.push(row);
    assert(all.take(all.len() as int) =~= all);
    newest_is(all, rows.len() as int, all.len() as int, row.channel_id@, row.level);
}

/// A boundary at a message splits the log: every message lies either after it
/// or at most at it.
pub proof fn law_a_boundary_splits_the_log(boundary: ChronicleBoundary, message: ConversationMessage)
    requires
        boundary.message_id is Some,
    ensures
        boundary.precedes(message) <==> !boundary.reaches(message),
{
    let id = boundary.message_id->0@;
    text::precedes_irreflexive(id);
    if message.id@ != id {
        text::precedes_total(id, message.id@);
        if text::precedes(id, message.id@) && text::precedes(message.id@, id) {
            text::precedes_transitive(id, message.id@, id);
        }
    }
}

/// Ranges that share a boundary hold no message in common, and leave none out
/// between them.
pub proof fn law_ranges_meet_without_overlap(
    from: ChronicleBoundary,
    middle: ChronicleBoundary,
    to: ChronicleBoundary,
    channel: Seq<char>,
    message: ConversationMessage,
)
    requires
        middle.message_id is Some,
    ensures
        !(spans(channel, Some(from), Some(middle))(message) && spans(channel, Some(middle), Some(to))(message)),
        spans(channel, Some(from), Some(to))(message) ==> spans(channel, Some(from), Some(middle))(message)
            || spans(channel, Some(middle), Some(to))(message),
{
    law_a_boundary_splits_the_log(middle, message);
}

proof fn nothing_is_kept<T>(list: Seq<T>, pred: spec_fn(T) -> bool)
    requires
        forall|i: int| 0 <= i < list.len() ==> !pred(#[trigger] list[i]),
    ensures
        list.filter(pred) == Seq::<T>::empty(),
    decreases list.len(),
{
    reveal(Seq::filter);
    if list.len() > 0 {
        let front = list.drop_last();
        assert forall|i: int| 0 <= i < front.len() implies !pred(#[trigger] front[i]) by {
            assert(front[i] == list[i]);
        }
        nothing_is_kept(front, pred);
        assert(!pred(list[list.len() - 1]));
    }
}

/// Two adjoining ranges of the log, one behind the other, are the range of
/// both. The middle boundary stands at a message, no earlier than the first
/// boundary and no later than the last.
pub proof fn law_adjoining_ranges_join(
    messages: Seq<ConversationMessage>,
    channel: Seq<char>,
    from: ChronicleBoundary,
    middle: ChronicleBoundary,
    to: ChronicleBoundary,
)
    requires
        history::in_log_order(messages),
        middle.message_id is Some,
        forall|m: ConversationMessage| middle.precedes(m) ==> #[trigger] from.precedes(m),
        forall|m: ConversationMessage| middle.reaches(m) ==> #[trigger] to.reaches(m),
    ensures
        between(messages, channel, from, middle) + between(messages, channel, middle, to) == between(
            messages,
            channel,
            from,
            to,
        ),
    decreases messages.len(),
{
    reveal(Seq::filter);
    if messages.len() == 0 {
        assert(between(messages, channel, from, middle) + between(messages, channel, middle, to) =~= between(
            messages,
            channel,
            from,
            to,
        ));
    } else {
        let front = messages.drop_last();
        let last = messages.last();
        assert forall|i: int, k: int| 0 <= i < k < front.len() implies history::logged_before(
            #[trigger] front[i],
            #[trigger] front[k],
        ) by {
            assert(history::logged_before(messages[i], messages[k]));
        }
        law_adjoining_ranges_join(front, channel, from, middle, to);
        law_a_boundary_splits_the_log(middle, last);
        let first_part = between(front, channel, from, middle);
        let second_part = between(front, channel, middle, to);
        if middle.reaches(last) {
            let later = spans(channel, Some(middle), Some(to));
            assert forall|i: int| 0 <= i < front.len() implies !later(#[trigger] front[i]) by {
                assert(history::logged_before(messages[i], messages[messages.len() - 1]));
                let id = middle.message_id->0@;
                if front[i].created_at == last.created_at && last.created_at == middle.at && last.id@ != id {
                    text::precedes_transitive(front[i].id@, last.id@, id);
                }
                assert(middle.reaches(front[i]));
                law_a_boundary_splits_the_log(middle, front[i]);
            }
            nothing_is_kept(front, later);
            assert(to.reaches(last));
            assert(first_part.push(last) + second_part =~= first_part + second_part.push(last));
        } else {
            assert(middle.precedes(last));
            assert(from.precedes(last));
        }
        assert(first_part + second_part.push(last) =~= (first_part + second_part).push(last));
        assert(between(messages, channel, from, middle) + between(messages, channel, middle, to) =~= between(
            messages,
            channel,
            from,
            to,
        ));
    }
}

/// What lies after a boundary is what a range from it covers and what lies
/// after the range: cutting a checkpoint counts every message once.
pub proof fn law_a_cut_counts_every_message_once(
    messages: Seq<ConversationMessage>,
    channel: Seq<char>,
    from: ChronicleBoundary,
    to: ChronicleBoundary,
)
    requires
        to.message_id is Some,
        forall|m: ConversationMessage| to.precedes(m) ==> #[trigger] from.precedes(m),
    ensures
        after(messages, channel, from).len() == between(messages, channel, from, to).len() + after(
            messages,
            channel,
            to,
        ).len(),
    decreases messages.len(),
{
    reveal(Seq::filter);
    if messages.len() > 0 {
        let last = messages.last();
        law_a_cut_counts_every_message_once(messages.drop_last(), channel, from, to);
        law_a_boundary_splits_the_log(to, last);
        assert(to.precedes(last) ==> from.precedes(last));
    }
}

/// An open start covers every message from its instant on.
pub proof fn law_an_open_start_covers_from_its_instant(boundary: ChronicleBoundary, message: ConversationMessage)
    requires
        boundary.message_id is None,
    ensures
        boundary.precedes(message) <==> message.created_at >= boundary.at,
{
}

/// Where the log begins at or behind an open start, nothing of the channel
/// comes before it.
pub proof fn law_an_open_start_at_the_first_message_keeps_all(
    messages: Seq<ConversationMessage>,
    channel: Seq<char>,
    from: ChronicleBoundary,
)
    requires
        history::in_log_order(messages),
        from.message_id is None,
        of_channel(messages, channel).len() > 0,
        from.at == of_channel(messages, channel)[0].created_at,
    ensures
        after(messages, channel, from) == of_channel(messages, channel),
{
    let whole = spans(channel, None, None);
    let later = spans(channel, Some(from), None);
    let log = of_channel(messages, channel);
    filtered_in_order(messages, whole);
    assert forall|i: int| 0 <= i < messages.len() implies whole(#[trigger] messages[i]) == later(messages[i]) by {
        if whole(messages[i]) {
            messages.lemma_filter_contains(whole, i);
            let k = choose|k: int| 0 <= k < log.len() && log[k] == messages[i];
            if k > 0 {
                assert(history::logged_before(log[0], log[k]));
            }
        }
    }
    same_kept(messages, whole, later);
}

proof fn same_kept<T>(list: Seq<T>, p: spec_fn(T) -> bool, q: spec_fn(T) -> bool)
    requires
        forall|i: int| 0 <= i < list.len() ==> p(#[trigger] list[i]) == q(list[i]),
    ensures
        list.filter(p) == list.filter(q),
    decreases list.len(),
{
    reveal(Seq::filter);
    if list.len() > 0 {
        let front = list.drop_last();
        assert forall|i: int| 0 <= i < front.len() implies p(#[trigger] front[i]) == q(front[i]) by {
            assert(front[i] == list[i]);
        }
        same_kept(front, p, q);
        assert(p(list[list.len() - 1]) == q(list[list.len() - 1]));
    }
}

proof fn kept_of_kept<T>(list: Seq<T>, p: spec_fn(T) -> bool, q: spec_fn(T) -> bool)
    requires
        forall|i: int| 0 <= i < list.len() && q(#[trigger] list[i]) ==> p(list[i]),
    ensures
        list.filter(q) == list.filter(p).filter(q),
    decreases list.len(),
{
    reveal(Seq::filter);
    if list.len() > 0 {
        let front = list.drop_last();
        assert forall|i: int| 0 <= i < front.len() && q(#[trigger] front[i]) implies p(front[i]) by {
            assert(front[i] == list[i]);
        }
        kept_of_kept(front, p, q);
        let last = list[list.len() - 1];
        if p(last) {
            assert(front.filter(p).push(last).drop_last() =~= front.filter(p));
        }
    }
}

proof fn everything_is_kept<T>(list: Seq<T>, pred: spec_fn(T) -> bool)
    requires
        forall|i: int| 0 <= i < list.len() ==> pred(#[trigger] list[i]),
    ensures
        list.filter(pred) == list,
    decreases list.len(),
{
    reveal(Seq::filter);
    if list.len() > 0 {
        let front = list.drop_last();
        assert forall|i: int| 0 <= i < front.len() implies pred(#[trigger] front[i]) by {
            assert(front[i] == list[i]);
        }
        everything_is_kept(front, pred);
        assert(pred(list[list.len() - 1]));
        assert(front.push(list.last()) =~= list);
    } else {
        assert(list.filter(pred) =~= list);
    }
}

proof fn kept_from<T>(list: Seq<T>, pred: spec_fn(T) -> bool, n: int)
    requires
        0 <= n <= list.len(),
        forall|i: int| 0 <= i < list.len() ==> pred(#[trigger] list[i]) == (i >= n),
    ensures
        list.filter(pred) == list.subrange(n, list.len() as int),
{
    let head = list.take(n);
    let tail = list.subrange(n, list.len() as int);
    assert(head + tail =~= list);
    Seq::filter_distributes_over_add(head, tail, pred);
    assert forall|i: int| 0 <= i < head.len() implies !pred(#[trigger] head[i]) by {
        assert(head[i] == list[i]);
    }
    assert forall|i: int| 0 <= i < tail.len() implies pred(#[trigger] tail[i]) by {
        assert(tail[i] == list[n + i]);
    }
    nothing_is_kept(head, pred);
    everything_is_kept(tail, pred);
    assert(Seq::<T>::empty() + tail =~= tail);
}

/// A cut takes the oldest uncovered messages, as many as it may read, and what
/// lies after its end is exactly the rest: nothing is lost between a cut and
/// the next.
pub proof fn law_a_cut_leaves_exactly_the_rest(
    messages: Seq<ConversationMessage>,
    channel: Seq<char>,
    from: ChronicleBoundary,
    limit: int,
    to: ChronicleBoundary,
)
    requires
        history::in_log_order(messages),
        first_rows(after(messages, channel, from), limit).len() > 0,
        to.at == first_rows(after(messages, channel, from), limit).last().created_at,
        text::opt_text(to.message_id) == Some(first_rows(after(messages, channel, from), limit).last().id@),
    ensures
        first_rows(after(messages, channel, from), limit) + after(messages, channel, to) == after(
            messages,
            channel,
            from,
        ),
{
    let later = spans(channel, Some(from), None);
    let rest = spans(channel, Some(to), None);
    let all = after(messages, channel, from);
    let n = first_rows(all, limit).len() as int;
    let last = all[n - 1];
    filtered_in_order(messages, later);
    assert forall|i: int| 0 <= i < all.len() implies later(#[trigger] all[i]) by {
        messages.lemma_filter_pred(later, i);
    }
    assert(later(last));
    assert forall|i: int| 0 <= i < messages.len() && rest(#[trigger] messages[i]) implies later(messages[i]) by {
        if let Some(id) = from.message_id {
            if messages[i].created_at == last.created_at && last.created_at == from.at {
                text::precedes_transitive(id@, last.id@, messages[i].id@);
            }
        }
    }
    kept_of_kept(messages, later, rest);
    assert forall|i: int| 0 <= i < all.len() implies rest(#[trigger] all[i]) == (i >= n) by {
        if i < n - 1 {
            assert(history::logged_before(all[i], last));
            if all[i].created_at == last.created_at && text::precedes(last.id@, all[i].id@) {
                text::precedes_transitive(last.id@, all[i].id@, last.id@);
                text::precedes_irreflexive(last.id@);
            }
        } else if i == n - 1 {
            text::precedes_irreflexive(last.id@);
        } else {
            assert(history::logged_before(last, all[i]));
        }
    }
    kept_from(all, rest, n);
    assert(all.take(n) + all.subrange(n, all.len() as int) =~= all);
}

/// What lies after a boundary: the messages of the channel behind it, all of
/// them and no others. An open start lets everything from its instant on pass.
pub proof fn law_what_lies_after_a_boundary(
    messages: Seq<ConversationMessage>,
    channel: Seq<char>,
    from: ChronicleBoundary,
    message: ConversationMessage,
)
    ensures
        after(messages, channel, from).contains(message) <==> messages.contains(message) && message.channel_id@
            == channel && (message.created_at > from.at || message.created_at == from.at && (match from.message_id {
            None => true,
            Some(id) => text::precedes(id@, message.id@),
        })),
{
    kept_exactly(messages, spans(channel, Some(from), None), message);
}

proof fn kept_exactly<T>(list: Seq<T>, pred: spec_fn(T) -> bool, x: T)
    ensures
        list.filter(pred).contains(x) <==> list.contains(x) && pred(x),
    decreases list.len(),
{
    reveal(Seq::filter);
    if list.len() > 0 {
        let front = list.drop_last();
        kept_exactly(front, pred, x);
        let kept = front.filter(pred);
        let all = list.filter(pred);
        if list.contains(x) && pred(x) {
            let k = choose|k: int| 0 <= k < list.len() && list[k] == x;
            if k < front.len() {
                assert(front[k] == x);
                let m = choose|m: int| 0 <= m < kept.len() && kept[m] == x;
                assert(all[m] == x);
            } else {
                assert(all[kept.len() as int] == x);
            }
        }
        if all.contains(x) {
            let m = choose|m: int| 0 <= m < all.len() && all[m] == x;
            if m < kept.len() {
                assert(kept[m] == x);
                let k = choose|k: int| 0 <= k < front.len() && front[k] == x;
                assert(list[k] == x);
            } else {
                assert(list[list.len() - 1] == x);
            }
        }
    }
}

/// A listing holds exactly the checkpoints of the channel at the level that it
/// asks for, within its bounds.
pub proof fn law_a_listing_holds_what_it_asks_for(
    rows: Seq<ChronicleCheckpoint>,
    channel: Seq<char>,
    wanted: Wanted,
    row: ChronicleCheckpoint,
)
    ensures
        chosen(rows, channel, wanted).contains(row) <==> {
            &&& rows.contains(row)
            &&& row.channel_id@ == channel
            &&& row.level == wanted.level
            &&& wanted.since is Some ==> row.covers_to_at >= wanted.since->0
            &&& wanted.before_seq is Some ==> row.seq < wanted.before_seq->0
        },
{
    kept_exactly(rows, |row: ChronicleCheckpoint| wants(channel, wanted, row), row);
}

/// The newest checkpoint of a channel at a level is one of them, and none of
/// them was committed after it; there is none only where there is no such
/// checkpoint at all.
pub proof fn law_the_newest_was_committed_last(rows: Seq<ChronicleCheckpoint>, channel: Seq<char>, level: i64)
    ensures
        match newest(rows, channel, level) {
            None => forall|k: int|
                0 <= k < rows.len() ==> !((#[trigger] rows[k]).channel_id@ == channel && rows[k].level == level),
            Some(last) => exists|k: int|
                0 <= k < rows.len() && #[trigger] rows[k] == last && last.channel_id@ == channel && last.level == level
                    && forall|i: int|
                    k < i < rows.len() ==> !((#[trigger] rows[i]).channel_id@ == channel && rows[i].level == level),
        },
    decreases rows.len(),
{
    reveal(Seq::filter);
    if rows.len() > 0 {
        let front = rows.drop_last();
        law_the_newest_was_committed_last(front, channel, level);
        let end = rows.len() - 1;
        assert forall|i: int| 0 <= i < front.len() implies front[i] == rows[i] by {}
        if wants(channel, at_level(level), rows[end]) {
            assert(newest(rows, channel, level) == Some(rows[end]));
        } else {
            assert(newest(rows, channel, level) == newest(front, channel, level));
            if let Some(last) = newest(front, channel, level) {
                let k = choose|k: int|
                    0 <= k < front.len() && #[trigger] front[k] == last && last.channel_id@ == channel && last.level
                        == level && forall|i: int|
                        k < i < front.len() ==> !((#[trigger] front[i]).channel_id@ == channel && front[i].level
                            == level);
                assert(rows[k] == last);
                assert forall|i: int| k < i < rows.len() implies !((#[trigger] rows[i]).channel_id@ == channel
                    && rows[i].level == level) by {
                    if i < end {
                        assert(front[i] == rows[i]);
                    }
                }
            } else {
                assert forall|i: int| 0 <= i < rows.len() implies !((#[trigger] rows[i]).channel_id@ == channel
                    && rows[i].level == level) by {
                    if i < end {
                        assert(front[i] == rows[i]);
                    }
                }
            }
        }
    }
}

/// A committed checkpoint is the new tail of its channel and level: the next
/// cut has to start where it ends. Other channels and levels keep theirs.
pub proof fn law_a_commit_moves_the_tail(
    rows: Seq<ChronicleCheckpoint>,
    new: NewCheckpoint,
    seq: i64,
    id: String,
    created_at: i64,
    channel: Seq<char>,
    level: i64,
)
    ensures
        newest(rows.push(row_of(new, seq, id, created_at)), channel, level) == if channel == new.channel_id@ && level
            == new.level {
            Some(row_of(new, seq, id, created_at))
        } else {
            newest(rows, channel, level)
        },
        tail_id(rows.push(row_of(new, seq, id, created_at)), new.channel_id@, new.level) == text::opt_text(
            new.covers_to.message_id,
        ),
{
    reveal(Seq::filter);
    let row = row_of(new, seq, id, created_at);
    assert(rows.push(row).drop_last() =~= rows);
}

/// A row says of its cut what the cut says: whose it is, at which level, why it
/// was cut, what it covers and what it tells.
pub proof fn law_a_row_keeps_its_cut(new: NewCheckpoint, seq: i64, id: String, created_at: i64)
    ensures
        ({
            let row = row_of(new, seq, id, created_at);
            &&& row.id == id
            &&& row.seq == seq
            &&& row.created_at == created_at
            &&& row.channel_id == new.channel_id
            &&& row.level == new.level
            &&& row.kind == new.kind
            &&& row.title == new.title
            &&& row.summary == new.summary
            &&& row.covers_from_at == new.covers_from.at
            &&& row.covers_from_message_id == new.covers_from.message_id
            &&& row.end() == new.covers_to
            &&& row.message_count == new.message_count
            &&& row.token_estimate == new.token_estimate
            &&& row.rolls_up_from_seq == new.rolls_up_from_seq
            &&& row.rolls_up_to_seq == new.rolls_up_to_seq
            &&& row.model == new.model
            &&& row.rolled_up_into is None
        }),
{
}

/// A limit keeps as many rows as it says, from the one end or the other, and a
/// negative one keeps all.
pub proof fn law_limits_keep_one_end<T>(rows: Seq<T>, limit: int)
    ensures
        limit < 0 ==> first_rows(rows, limit) == rows && last_rows(rows, limit) == rows,
        0 <= limit <= rows.len() ==> first_rows(rows, limit).len() == limit && last_rows(rows, limit).len() == limit,
        limit > rows.len() ==> first_rows(rows, limit) == rows && last_rows(rows, limit) == rows,
        first_rows(rows, limit).is_prefix_of(rows),
        last_rows(rows, limit).is_suffix_of(rows),
{
    assert(rows.take(rows.len() as int) =~= rows);
    assert(rows.subrange(0, rows.len() as int) =~= rows);
}

/// A cut that joins the tail and ends at a message of its own is committed, and
/// only such a one.
pub proof fn law_what_joins_is_committed(rows: Seq<ChronicleCheckpoint>, new: NewCheckpoint)
    ensures
        joins(rows, new) <==> {
            &&& (match newest(rows, new.channel_id@, new.level) {
                Some(last) => text::opt_text(new.covers_from.message_id) == text::opt_text(last.covers_to_message_id),
                None => new.covers_from.message_id is None,
            })
            &&& new.covers_to.message_id is Some ==> forall|k: int|
                0 <= k < rows.len() && (#[trigger] rows[k]).channel_id@ == new.channel_id@ && rows[k].level
                    == new.level ==> text::opt_text(rows[k].covers_to_message_id) != text::opt_text(
                    new.covers_to.message_id,
                )
        },
{
    let end = text::opt_text(new.covers_to.message_id);
    if end is Some {
        if ends_at(rows, new.channel_id@, new.level, end) {
            let k = choose|k: int|
                0 <= k < rows.len() && wants(new.channel_id@, at_level(new.level), #[trigger] rows[k])
                    && text::opt_text(rows[k].covers_to_message_id) == end;
            assert(rows[k].channel_id@ == new.channel_id@);
        } else {
            assert forall|k: int|
                0 <= k < rows.len() && (#[trigger] rows[k]).channel_id@ == new.channel_id@ && rows[k].level
                    == new.level implies text::opt_text(rows[k].covers_to_message_id) != end by {
                assert(wants(new.channel_id@, at_level(new.level), rows[k]));
            }
        }
    }
}

/// The counts of a channel add up: no more messages are unsummarized than there
/// are, and every checkpoint is an interval or a roll-up.
pub proof fn law_stats_add_up(store: ChronicleStore, channel: Seq<char>)
    requires
        store.messages@.len() <= i64::MAX,
        store.checkpoints@.len() <= i64::MAX,
        forall|k: int| 0 <= k < store.checkpoints@.len() ==> (#[trigger] store.checkpoints@[k]).level >= 0,
    ensures
        0 <= stats_of(store, channel).unsummarized_messages <= stats_of(store, channel).total_messages,
        stats_of(store, channel).checkpoint_count == stats_of(store, channel).interval_count + stats_of(
            store,
            channel,
        ).rollup_count,
        stats_of(store, channel).checkpoint_count == checkpoints_of(store.checkpoints@, channel).len(),
        stats_of(store, channel).total_messages == of_channel(store.messages@, channel).len(),
        newest(store.checkpoints@, channel, 0) is None ==> stats_of(store, channel).unsummarized_messages
            == stats_of(store, channel).total_messages,
{
    levels_add_up(store.checkpoints@, channel);
    let log = of_channel(store.messages@, channel);
    store.messages@.lemma_filter_len(spans(channel, None, None));
    store.checkpoints@.lemma_filter_len(|row: ChronicleCheckpoint| row.channel_id@ == channel);
    if let Some(last) = newest(store.checkpoints@, channel, 0) {
        let later = spans(channel, Some(last.end()), None);
        let whole = spans(channel, None, None);
        kept_of_kept(store.messages@, whole, later);
        log.lemma_filter_len(later);
    }
}

proof fn levels_add_up(rows: Seq<ChronicleCheckpoint>, channel: Seq<char>)
    requires
        forall|k: int| 0 <= k < rows.len() ==> (#[trigger] rows[k]).level >= 0,
    ensures
        checkpoints_of(rows, channel).len() == count_level(rows, channel, false) + count_level(rows, channel, true),
        checkpoints_of(rows, channel).len() == committed_before(rows, channel, None).len(),
    decreases rows.len(),
{
    reveal(Seq::filter);
    if rows.len() > 0 {
        let front = rows.drop_last();
        assert forall|k: int| 0 <= k < front.len() implies (#[trigger] front[k]).level >= 0 by {
            assert(front[k] == rows[k]);
        }
        levels_add_up(front, channel);
        assert(rows[rows.len() - 1].level >= 0);
    }
}

/// What was committed before an instant is every row of the channel that is
/// older than it, and without an instant every row of the channel.
pub proof fn law_what_was_committed_before(
    rows: Seq<ChronicleCheckpoint>,
    channel: Seq<char>,
    before: Option<i64>,
    row: ChronicleCheckpoint,
)
    ensures
        committed_before(rows, channel, before).contains(row) <==> rows.contains(row) && row.channel_id@ == channel && (
        before is Some ==> row.created_at < before->0),
        committed_before(rows, channel, before).len() <= rows.len(),
    decreases rows.len(),
{
    reveal(Seq::filter);
    if rows.len() > 0 {
        let front = rows.drop_last();
        law_what_was_committed_before(front, channel, before, row);
        let some = committed_before(front, channel, before);
        let all = committed_before(rows, channel, before);
        assert(rows =~= front.push(rows.last()));
        if rows.last().channel_id@ == channel && (before is Some ==> rows.last().created_at < before->0) {
            assert(all == some.push(rows.last()));
        } else {
            assert(all == some);
        }
        if front.contains(row) {
            let k = choose|k: int| 0 <= k < front.len() && front[k] == row;
            assert(rows[k] == row);
        }
        if rows.contains(row) && !front.contains(row) {
            let k = choose|k: int| 0 <= k < rows.len() && rows[k] == row;
            if k < front.len() {
                assert(front[k] == row);
            }
            assert(row == rows.last());
            assert(rows[rows.len() - 1] == row);
        }
        if rows.last() == row {
            assert(rows[rows.len() - 1] == row);
        }
        if some.contains(row) {
            let k = choose|k: int| 0 <= k < some.len() && some[k] == row;
            assert(all[k] == row);
        }
        if all.contains(row) && !some.contains(row) {
            let k = choose|k: int| 0 <= k < all.len() && all[k] == row;
            if k < some.len() {
                assert(some[k] == row);
            }
        }
        if all.len() > some.len() {
            assert(all[all.len() - 1] == rows.last());
        }
    }
}

/// A message's place in the log is its instant and its identifier together: one
/// that shares only one of them takes no other's place.
pub proof fn law_a_place_is_an_instant_and_an_identifier(
    messages: Seq<ConversationMessage>,
    message: ConversationMessage,
    k: int,
)
    requires
        0 <= k < messages.len(),
    ensures
        position_taken(messages, messages[k]),
        (forall|i: int| 0 <= i < messages.len() ==> (#[trigger] messages[i]).id@ != message.id@) ==> !position_taken(
            messages,
            message,
        ),
        (forall|i: int| 0 <= i < messages.len() ==> (#[trigger] messages[i]).created_at != message.created_at)
            ==> !position_taken(messages, message),
{
    assert(messages[k].created_at == messages[k].created_at && messages[k].id@ == messages[k].id@);
}

} // verus!
