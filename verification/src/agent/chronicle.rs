//! Chronicle lifecycle: when a checkpoint is cut, and what is cut.
//!
//! A programmatic monitor, not an LLM process: it watches counters and has the
//! summarization started. Its output is durable and append-only: each cut
//! summarizes only the span since the previous checkpoint, and the resulting
//! text never re-enters the transcript that a later cut reads.
use vstd::prelude::*;
use crate::agent::chronicle_view::ChronicleConfig;
use crate::agent::compactor;
use crate::conversation::chronicle;
use crate::conversation::chronicle::{
    CheckpointKind, ChronicleBoundary, ChronicleCheckpoint, ChronicleStore, NewCheckpoint,
};
use crate::conversation::history::ConversationMessage;
use crate::llm::history;
use crate::llm::history::{Message, MessageModel, UserContent, UserModel};
use crate::text;
use crate::time;
use crate::time::Pattern;

verus! {

broadcast use vstd::seq::group_seq_axioms;

/// Live messages kept after a trim regardless of what the chronicle covers.
/// A channel needs its latest exchange to act at all.
pub const MIN_RETAINED_MESSAGES: usize = 4;

/// Extra live messages kept beyond the uncovered count when trimming.
///
/// Log writes are fire-and-forget, so the durable log can lag the in-memory
/// history by a few messages. Over-retention costs a few raw turns of context;
/// under-retention loses them outright, so the margin errs toward keeping.
pub const TRIM_SAFETY_MARGIN: usize = 8;

/// Prior checkpoints handed to a cut as narrative context, newest last.
pub const NARRATIVE_CONTEXT_CHECKPOINTS: i64 = 3;

/// Characters of a checkpoint's title at most.
pub const MAX_TITLE_CHARS: usize = 80;

/// Why `check_and_chronicle` acted.
#[derive(Debug, Clone, Copy, PartialEq, Eq, Structural)]
pub enum ChronicleAction {
    /// The first checkpoint for a channel that entered chronicle mode with
    /// more history than one interval can summarize.
    Bootstrap,
    /// The message or token interval elapsed.
    Interval,
    /// Context pressure forced a cut early.
    Pressure,
    /// Emergency truncation dropped the span without summarizing it.
    Emergency,
}

/// Which thresholds of the context window the live history has reached.
#[derive(Debug, Clone, Copy, PartialEq, Eq, Structural)]
pub struct ContextPressure {
    /// The share at which history is truncated at once.
    pub emergency: bool,
    /// The share at which a cut is made early.
    pub background: bool,
    /// The tokens after which a checkpoint is due.
    pub interval: bool,
}

/// What to do after a turn.
#[derive(Debug)]
pub enum CutDecision {
    Idle,
    /// Truncate the live history at once.
    Truncate,
    /// Cut a checkpoint from a boundary on.
    Cut(ChronicleAction, ChronicleBoundary),
}

/// The boundary that a channel's next cut starts from: where its newest
/// checkpoint ends, or its first message; none where nothing is logged.
pub open spec fn start_boundary(store: ChronicleStore, channel: Seq<char>) -> Option<ChronicleBoundary> {
    match chronicle::newest(store.checkpoints@, channel, 0) {
        Some(checkpoint) => Some(checkpoint.end()),
        None => {
            let log = chronicle::of_channel(store.messages@, channel);
            if log.len() == 0 {
                None
            } else {
                Some(ChronicleBoundary { at: log[0].created_at, message_id: None })
            }
        },
    }
}

/// The cut that is due once `uncovered` messages lie after the boundary.
///
/// A backlog larger than one cut can read bootstraps the chronicle; a smaller
/// one needs no special handling, since the first interval cut covers all of
/// it.
pub open spec fn action_due(
    first: bool,
    uncovered: int,
    pressure: ContextPressure,
    config: ChronicleConfig,
) -> Option<ChronicleAction> {
    if uncovered == 0 {
        None
    } else if first && uncovered > config.max_messages_per_checkpoint {
        Some(ChronicleAction::Bootstrap)
    } else if pressure.background {
        Some(ChronicleAction::Pressure)
    } else if uncovered >= config.interval_messages || pressure.interval {
        Some(ChronicleAction::Interval)
    } else {
        None
    }
}

/// Decides which cut is due.
pub fn due_action(first: bool, uncovered: i64, pressure: ContextPressure, config: &ChronicleConfig) -> (action: Option<
    ChronicleAction,
>)
    ensures
        action == action_due(first, uncovered as int, pressure, *config),
{
    if uncovered == 0 {
        None
    } else if first && uncovered > config.max_messages_per_checkpoint {
        Some(ChronicleAction::Bootstrap)
    } else if pressure.background {
        Some(ChronicleAction::Pressure)
    } else if uncovered >= config.interval_messages || pressure.interval {
        Some(ChronicleAction::Interval)
    } else {
        None
    }
}

/// The boundary that a channel's next cut starts from.
pub fn next_start(store: &ChronicleStore, channel_id: &str) -> (start: Option<ChronicleBoundary>)
    ensures
        start == start_boundary(*store, channel_id@),
{
    match store.latest(channel_id, 0) {
        Some(checkpoint) => Some(checkpoint.end_boundary()),
        None => match store.earliest_message(channel_id) {
            Some((at, _)) => Some(ChronicleBoundary::origin(at)),
            None => None,
        },
    }
}

/// Decides whether to cut a checkpoint after a turn. One cut per channel is
/// made at a time.
pub fn check_and_chronicle(
    store: &ChronicleStore,
    channel_id: &str,
    config: &ChronicleConfig,
    pressure: ContextPressure,
    cutting: bool,
) -> (decision: CutDecision)
    requires
        store.messages@.len() <= i64::MAX,
    ensures
        match decision {
            CutDecision::Truncate => pressure.emergency,
            CutDecision::Cut(action, boundary) => {
                &&& !pressure.emergency
                &&& !cutting
                &&& start_boundary(*store, channel_id@) == Some(boundary)
                &&& action_due(
                    chronicle::newest(store.checkpoints@, channel_id@, 0) is None,
                    chronicle::after(store.messages@, channel_id@, boundary).len() as int,
                    pressure,
                    *config,
                ) == Some(action)
            },
            CutDecision::Idle => {
                &&& !pressure.emergency
                &&& cutting || match start_boundary(*store, channel_id@) {
                    None => true,
                    Some(boundary) => action_due(
                        chronicle::newest(store.checkpoints@, channel_id@, 0) is None,
                        chronicle::after(store.messages@, channel_id@, boundary).len() as int,
                        pressure,
                        *config,
                    ) is None,
                }
            },
        },
{
    if pressure.emergency {
        return CutDecision::Truncate;
    }
    if cutting {
        return CutDecision::Idle;
    }
    let boundary = match next_start(store, channel_id) {
        Some(boundary) => boundary,
        // Nothing logged yet: nothing to chronicle.
        None => {
            return CutDecision::Idle;
        },
    };
    let first = store.latest(channel_id, 0).is_none();
    let uncovered: i64 = store.count_messages_after(channel_id, &boundary);
    match due_action(first, uncovered, pressure, config) {
        Some(action) => CutDecision::Cut(action, boundary),
        None => CutDecision::Idle,
    }
}

/// The kind of checkpoint that an action cuts.
pub open spec fn kind_cut(action: ChronicleAction) -> CheckpointKind {
    match action {
        ChronicleAction::Bootstrap => CheckpointKind::Bootstrap,
        ChronicleAction::Pressure => CheckpointKind::Pressure,
        ChronicleAction::Interval => CheckpointKind::Interval,
        ChronicleAction::Emergency => CheckpointKind::Emergency,
    }
}

/// The kind of checkpoint that an action cuts.
pub fn kind_of(action: ChronicleAction) -> (kind: CheckpointKind)
    ensures
        kind == kind_cut(action),
{
    match action {
        ChronicleAction::Bootstrap => CheckpointKind::Bootstrap,
        ChronicleAction::Pressure => CheckpointKind::Pressure,
        ChronicleAction::Interval => CheckpointKind::Interval,
        ChronicleAction::Emergency => CheckpointKind::Emergency,
    }
}

// ---------------------------------------------------------------------------
// Emergency truncation
// ---------------------------------------------------------------------------

/// How many live messages an emergency drops: the oldest half, but never so
/// many that the latest exchange is lost.
pub open spec fn emergency_drop(total: int) -> int {
    if total <= MIN_RETAINED_MESSAGES {
        0
    } else if total / 2 <= total - MIN_RETAINED_MESSAGES {
        total / 2
    } else {
        total - MIN_RETAINED_MESSAGES
    }
}

/// Drops the oldest half of the live history. The generation moves on, so a
/// cut that is under way leaves the history alone.
pub fn drop_oldest_half<T>(history: &mut Vec<T>, generation: &mut u64) -> (removed: usize)
    ensures
        removed == emergency_drop(old(history)@.len() as int),
        final(history)@ == old(history)@.subrange(removed as int, old(history)@.len() as int),
        *final(generation) == (if removed > 0 {
            (*old(generation)).wrapping_add(1)
        } else {
            *old(generation)
        }),
{
    let total: usize = history.len();
    if total <= MIN_RETAINED_MESSAGES {
        assert(history@.subrange(0, history@.len() as int) =~= history@);
        return 0;
    }
    let half: usize = total / 2;
    let most: usize = total - MIN_RETAINED_MESSAGES;
    let removed: usize = if half <= most {
        half
    } else {
        most
    };
    let kept = history.split_off(removed);
    *history = kept;
    *generation = generation.wrapping_add(1);
    removed
}

/// How much of the uncovered log an emergency covers: what the truncation
/// discarded. The messages still in live context stay uncovered, so that a
/// later interval cut can summarize them properly.
pub open spec fn emergency_covered(logged: int, retained_live: int) -> int {
    if logged > retained_live {
        logged - retained_live
    } else {
        0
    }
}

/// How much of the uncovered log an emergency covers.
pub fn covered_by_emergency(logged: usize, retained_live: usize) -> (covered: usize)
    ensures
        covered == emergency_covered(logged as int, retained_live as int),
{
    if logged > retained_live {
        logged - retained_live
    } else {
        0
    }
}

/// The title of a truncated span.
pub open spec fn emergency_title(covered: int) -> Seq<char> {
    "Truncated span ("@ + text::decimal(covered as nat) + " messages)"@
}

/// What is recorded of a truncated span in place of a summary.
pub open spec fn emergency_summary(removed: int, covered: int) -> Seq<char> {
    "Context reached the emergency threshold and "@ + text::decimal(removed as nat)
        + " live messages were dropped without summarization. "@ + text::decimal(covered as nat)
        + " logged messages in this span were not summarized; use the chronicle tool to expand this range if the detail is needed."@
}

/// Whether a cut is the one that an emergency records.
pub open spec fn is_emergency_cut(
    new: NewCheckpoint,
    channel: Seq<char>,
    from: ChronicleBoundary,
    last: ConversationMessage,
    removed: int,
    covered: int,
) -> bool {
    &&& new.channel_id@ == channel
    &&& new.level == 0
    &&& new.kind == CheckpointKind::Emergency
    &&& new.title@ == emergency_title(covered)
    &&& new.summary@ == emergency_summary(removed, covered)
    &&& new.covers_from == from
    &&& new.covers_to == (ChronicleBoundary { at: last.created_at, message_id: Some(last.id) })
    &&& new.message_count == covered
    &&& new.token_estimate == 0
    &&& new.rolls_up_from_seq is None
    &&& new.rolls_up_to_seq is None
    &&& new.model is None
}

/// The checkpoint that marks the span an emergency discarded.
///
/// This is the one checkpoint whose summary does not describe its contents,
/// and it says so. Recording it keeps coverage contiguous, so the gap is
/// visible in the chronicle rather than silent.
pub fn emergency_cut(
    store: &ChronicleStore,
    channel_id: &str,
    max_messages: i64,
    removed: usize,
    retained_live: usize,
) -> (cut: Option<NewCheckpoint>)
    requires
        store.messages@.len() <= i64::MAX,
    ensures
        match start_boundary(*store, channel_id@) {
            None => cut is None,
            Some(from) => {
                let span = chronicle::first_rows(
                    chronicle::after(store.messages@, channel_id@, from),
                    max_messages as int,
                );
                let covered = emergency_covered(span.len() as int, retained_live as int);
                if covered == 0 {
                    cut is None
                } else {
                    cut matches Some(new) && is_emergency_cut(
                        new,
                        channel_id@,
                        from,
                        span[covered - 1],
                        removed as int,
                        covered,
                    )
                }
            },
        },
{
    let from = match next_start(store, channel_id) {
        Some(from) => from,
        None => {
            return None;
        },
    };
    let messages = store.messages_after(channel_id, &from, max_messages);
    proof {
        after_is_shorter(store.messages@, channel_id@, from);
    }
    let covered: usize = covered_by_emergency(messages.len(), retained_live);
    if covered == 0 {
        return None;
    }
    let last = &messages[covered - 1];
    let mut title = "Truncated span (".to_owned();
    title.push_str(text::show_usize(covered).as_str());
    title.push_str(" messages)");
    let mut summary = "Context reached the emergency threshold and ".to_owned();
    summary.push_str(text::show_usize(removed).as_str());
    summary.push_str(" live messages were dropped without summarization. ");
    summary.push_str(text::show_usize(covered).as_str());
    summary.push_str(
        " logged messages in this span were not summarized; use the chronicle tool to expand this range if the detail is needed.",
    );
    Some(
        NewCheckpoint {
            channel_id: channel_id.to_owned(),
            level: 0,
            kind: CheckpointKind::Emergency,
            title,
            summary,
            covers_from: from,
            covers_to: ChronicleBoundary::new(last.created_at, Some(last.id.clone())),
            message_count: covered as i64,
            token_estimate: 0,
            rolls_up_from_seq: None,
            rolls_up_to_seq: None,
            model: None,
        },
    )
}

proof fn after_is_shorter(messages: Seq<ConversationMessage>, channel: Seq<char>, from: ChronicleBoundary)
    ensures
        chronicle::after(messages, channel, from).len() <= messages.len(),
    decreases messages.len(),
{
    reveal(Seq::filter);
    if messages.len() > 0 {
        after_is_shorter(messages.drop_last(), channel, from);
    }
}

// ---------------------------------------------------------------------------
// Cuts
// ---------------------------------------------------------------------------

/// What a cut reads: the span to summarize, where it ends, and the checkpoints
/// before it, newest first.
#[derive(Debug)]
pub struct CutPlan {
    pub messages: Vec<ConversationMessage>,
    pub to: ChronicleBoundary,
    pub narrative: Vec<ChronicleCheckpoint>,
}

/// Reads what a cut from a boundary on summarizes; nothing where no message
/// lies after the boundary.
pub fn plan_cut(store: &ChronicleStore, channel_id: &str, from: &ChronicleBoundary, max_messages: i64) -> (plan: Option<
    CutPlan,
>)
    ensures
        ({
            let span = chronicle::first_rows(
                chronicle::after(store.messages@, channel_id@, *from),
                max_messages as int,
            );
            match plan {
                None => span.len() == 0,
                Some(plan) => {
                    &&& span.len() > 0
                    &&& plan.messages@ == span
                    &&& plan.to == (ChronicleBoundary {
                        at: span.last().created_at,
                        message_id: Some(span.last().id),
                    })
                    &&& plan.narrative@ == chronicle::last_rows(
                        chronicle::chosen(store.checkpoints@, channel_id@, chronicle::at_level(0)),
                        NARRATIVE_CONTEXT_CHECKPOINTS as int,
                    ).reverse()
                },
            }
        }),
{
    let messages = store.messages_after(channel_id, from, max_messages);
    if messages.len() == 0 {
        return None;
    }
    let last = &messages[messages.len() - 1];
    let to = ChronicleBoundary::new(last.created_at, Some(last.id.clone()));
    let narrative = store.list(channel_id, 0, NARRATIVE_CONTEXT_CHECKPOINTS);
    Some(CutPlan { messages, to, narrative })
}

/// The title, the summary and the model that wrote it.
#[derive(Debug)]
pub struct WriteUp {
    pub title: String,
    pub summary: String,
    pub model: Option<String>,
}

/// How the summarization of a span went.
#[derive(Debug)]
pub enum Attempt {
    /// No prompt could be rendered, or the model gave an error.
    Failed,
    /// The model answered: its name and the answer.
    Answered(String, String),
}

/// What is recorded of a span that could not be summarized.
pub open spec fn notice(count: int) -> Seq<char> {
    "This span of "@ + text::decimal(count as nat)
        + " messages was not summarized — summarization failed. Expand the range with the chronicle tool if the detail is needed."@
}

/// What is recorded of a span that could not be summarized.
pub fn unsummarized_notice(message_count: usize) -> (s: String)
    ensures
        s@ == notice(message_count as int),
{
    let mut s = "This span of ".to_owned();
    s.push_str(text::show_usize(message_count).as_str());
    s.push_str(
        " messages was not summarized — summarization failed. Expand the range with the chronicle tool if the detail is needed.",
    );
    s
}

/// A title cut to its limit.
pub open spec fn short_title(title: Seq<char>) -> Seq<char> {
    if title.len() <= MAX_TITLE_CHARS {
        title
    } else {
        title.take(MAX_TITLE_CHARS - 1) + "…"@
    }
}

/// Cuts a title to its limit.
pub fn truncate_title(title: &str) -> (short: String)
    ensures
        short@ == short_title(title@),
{
    if title.unicode_len() <= MAX_TITLE_CHARS {
        return title.to_owned();
    }
    let mut short = title.substring_char(0, MAX_TITLE_CHARS - 1).to_owned();
    assert(short@ =~= title@.take(MAX_TITLE_CHARS - 1));
    short.push_str("…");
    short
}

/// The title and the summary in a model's answer. A first line `TITLE: …` is a
/// title only if something stands below it.
pub open spec fn split_response(response: Seq<char>) -> (Option<Seq<char>>, Seq<char>) {
    let whole = text::trimmed(response);
    let lines = text::lines_of(whole);
    if lines.len() == 0 {
        (None, Seq::empty())
    } else {
        let first = text::trimmed(lines[0]);
        let title = text::trimmed(first.subrange("TITLE:"@.len() as int, first.len() as int));
        let below = text::trimmed(text::joined(lines.subrange(1, lines.len() as int), "\n"@));
        if text::begins(first, "TITLE:"@) && title.len() > 0 && below.len() > 0 {
            (Some(short_title(title)), below)
        } else {
            (None, whole)
        }
    }
}

/// Splits a `TITLE: …` first line off the model's response.
pub fn parse_checkpoint_response(response: &str) -> (parsed: (Option<String>, String))
    ensures
        (text::opt_text(parsed.0), parsed.1@) == split_response(response@),
{
    let whole = text::trim(response);
    let mut lines = text::lines(whole.as_str());
    let ghost all = text::texts(lines@);
    if lines.len() == 0 {
        return (None, String::new());
    }
    let first = text::trim(lines[0].as_str());
    assert(all[0] == lines@[0]@);
    let rest = lines.split_off(1);
    assert(text::texts(rest@) =~= all.subrange(1, all.len() as int));
    if text::starts_with(first.as_str(), "TITLE:") {
        let len: usize = first.as_str().unicode_len();
        let mark: usize = "TITLE:".unicode_len();
        let title = text::trim(first.as_str().substring_char(mark, len));
        let below = text::trim(text::join(&rest, "\n").as_str());
        if !title.as_str().is_empty() && !below.as_str().is_empty() {
            return (Some(truncate_title(title.as_str())), below);
        }
    }
    (None, whole)
}

/// The summary that the rolling compactor left at the head of a history.
pub open spec fn carried_head(history: Seq<MessageModel>) -> Option<Seq<char>> {
    if history.len() == 0 {
        None
    } else {
        match history[0] {
            MessageModel::User(items) => first_summary(items),
            _ => None,
        }
    }
}

/// The text behind the mark of a compaction summary.
pub open spec fn summary_text(item: UserModel) -> Option<Seq<char>> {
    match item {
        UserModel::Text(text) => if text::begins(text, "[Compaction Summary]: "@) {
            Some(
                text::trimmed(
                    text.subrange("[Compaction Summary]: "@.len() as int, text.len() as int),
                ),
            )
        } else {
            None
        },
        _ => None,
    }
}

/// The first compaction summary among the items of a message.
pub open spec fn first_summary(items: Seq<UserModel>) -> Option<Seq<char>>
    decreases items.len(),
{
    if items.len() == 0 {
        None
    } else {
        match first_summary(items.drop_last()) {
            Some(summary) => Some(summary),
            None => summary_text(items.last()),
        }
    }
}

proof fn first_summary_stays(items: Seq<UserModel>, n: int)
    requires
        0 <= n <= items.len(),
        first_summary(items.take(n)) is Some,
    ensures
        first_summary(items) == first_summary(items.take(n)),
    decreases items.len() - n,
{
    if n < items.len() {
        assert(items.take(n + 1).drop_last() =~= items.take(n));
        first_summary_stays(items, n + 1);
    } else {
        assert(items.take(n) =~= items);
    }
}

/// The rolling compactor's summary head, if this channel was running in
/// rolling mode before the switch.
pub fn rolling_summary_head(live: &Vec<Message>) -> (head: Option<String>)
    ensures
        text::opt_text(head) == carried_head(history::messages(live@)),
{
    if live.len() == 0 {
        return None;
    }
    assert(history::messages(live@)[0] == live@[0]@);
    if let Message::User { content } = &live[0] {
        let ghost items = history::user_items(content@);
        let mark: usize = "[Compaction Summary]: ".unicode_len();
        let mut k: usize = 0;
        while k < content.len()
            invariant
                items == history::user_items(content@),
                mark == "[Compaction Summary]: "@.len(),
                k <= content@.len(),
                first_summary(items.take(k as int)) is None,
                history::messages(live@).len() > 0,
                history::messages(live@)[0] == MessageModel::User(items),
            decreases content@.len() - k,
        {
            assert(items[k as int] == content@[k as int]@);
            assert(items.take(k + 1).drop_last() =~= items.take(k as int));
            if let UserContent::Text(text) = &content[k] {
                if text::starts_with(text.as_str(), "[Compaction Summary]: ") {
                    let len: usize = text.as_str().unicode_len();
                    proof {
                        first_summary_stays(items, k + 1);
                    }
                    return Some(text::trim(text.as_str().substring_char(mark, len)));
                }
            }
            k = k + 1;
        }
        assert(items.take(k as int) =~= items);
        None
    } else {
        None
    }
}

/// What a cut records, given the carried-over summary of the rolling compactor
/// and how the summarization went.
pub open spec fn written_up(
    kind: CheckpointKind,
    head: Option<Seq<char>>,
    fallback_title: Seq<char>,
    count: int,
    answer: Option<(Seq<char>, Seq<char>)>,
) -> (Seq<char>, Seq<char>, Option<Seq<char>>) {
    if kind == CheckpointKind::Bootstrap && head is Some {
        (
            "Prior history — "@ + fallback_title,
            "Carried over from rolling compaction when this channel entered chronicle mode. "@ + head->0,
            None,
        )
    } else {
        match answer {
            Some((model, text)) => {
                let (title, summary) = split_response(text);
                (
                    match title {
                        Some(title) => title,
                        None => fallback_title,
                    },
                    summary,
                    Some(model),
                )
            },
            None => (fallback_title, notice(count), None),
        }
    }
}

/// What an attempt gave: the model and its answer.
pub open spec fn answer_of(attempt: Attempt) -> Option<(Seq<char>, Seq<char>)> {
    match attempt {
        Attempt::Failed => None,
        Attempt::Answered(model, answer) => Some((model@, answer@)),
    }
}

/// Whether a cut is written without asking a model: a bootstrap cut inherits
/// the rolling compactor's summary head rather than paying for a pass over
/// history it cannot fully read.
pub fn inherits_summary(kind: CheckpointKind, head: &Option<String>) -> (inherits: bool)
    ensures
        inherits == (kind == CheckpointKind::Bootstrap && head is Some),
{
    kind == CheckpointKind::Bootstrap && head.is_some()
}

/// Produces the checkpoint's title and summary.
pub fn summarize(
    kind: CheckpointKind,
    head: Option<String>,
    fallback_title: String,
    message_count: usize,
    attempt: Attempt,
) -> (up: WriteUp)
    ensures
        (up.title@, up.summary@, text::opt_text(up.model)) == written_up(
            kind,
            text::opt_text(head),
            fallback_title@,
            message_count as int,
            answer_of(attempt),
        ),
{
    if kind == CheckpointKind::Bootstrap {
        if let Some(existing) = &head {
            let mut title = "Prior history — ".to_owned();
            title.push_str(fallback_title.as_str());
            let mut summary =
                "Carried over from rolling compaction when this channel entered chronicle mode. ".to_owned();
            summary.push_str(existing.as_str());
            return WriteUp { title, summary, model: None };
        }
    }
    match attempt {
        Attempt::Answered(model, answer) => {
            let (title, summary) = parse_checkpoint_response(answer.as_str());
            let title = match title {
                Some(title) => title,
                None => fallback_title,
            };
            WriteUp { title, summary, model: Some(model) }
        },
        Attempt::Failed => WriteUp {
            title: fallback_title,
            summary: unsummarized_notice(message_count),
            model: None,
        },
    }
}

/// The checkpoint of a cut once it is written up.
pub fn cut_checkpoint(
    channel_id: &str,
    kind: CheckpointKind,
    from: ChronicleBoundary,
    plan: &CutPlan,
    up: WriteUp,
) -> (new: NewCheckpoint)
    requires
        plan.messages@.len() <= i64::MAX,
        compactor::text_tokens(up.summary@) <= i64::MAX,
    ensures
        new.channel_id@ == channel_id@,
        new.level == 0,
        new.kind == kind,
        new.title == up.title,
        new.summary == up.summary,
        new.covers_from == from,
        new.covers_to == plan.to,
        new.message_count == plan.messages@.len(),
        new.token_estimate == compactor::text_tokens(up.summary@),
        new.rolls_up_from_seq is None,
        new.rolls_up_to_seq is None,
        new.model == up.model,
{
    let tokens: usize = compactor::estimate_text_tokens(up.summary.as_str());
    NewCheckpoint {
        channel_id: channel_id.to_owned(),
        level: 0,
        kind,
        title: up.title,
        summary: up.summary,
        covers_from: from,
        covers_to: plan.to.clone(),
        message_count: plan.messages.len() as i64,
        token_estimate: tokens as i64,
        rolls_up_from_seq: None,
        rolls_up_to_seq: None,
        model: up.model,
    }
}

/// How many live messages a trim keeps.
pub open spec fn retained(uncovered: int) -> int {
    let kept = if uncovered + TRIM_SAFETY_MARGIN > usize::MAX {
        usize::MAX as int
    } else {
        uncovered + TRIM_SAFETY_MARGIN
    };
    if kept < MIN_RETAINED_MESSAGES {
        MIN_RETAINED_MESSAGES as int
    } else {
        kept
    }
}

/// How many live messages a trim drops.
pub open spec fn trim_drop(total: int, uncovered: int) -> int {
    if total > retained(uncovered) {
        total - retained(uncovered)
    } else {
        0
    }
}

/// Drops live messages the chronicle now covers.
///
/// The live history and the durable log are not indexed against each other, so
/// the retained count is derived from what the log says is uncovered, plus a
/// margin. Skipped entirely when the head moved while the cut was running: the
/// checkpoint stays valid either way, and the next trim catches up.
pub fn trim_live_history<T>(
    live: &mut Vec<T>,
    generation: &mut u64,
    generation_at_cut: u64,
    uncovered: usize,
) -> (removed: usize)
    ensures
        removed == (if *old(generation) == generation_at_cut {
            trim_drop(old(live)@.len() as int, uncovered as int)
        } else {
            0
        }),
        final(live)@ == old(live)@.subrange(removed as int, old(live)@.len() as int),
        *final(generation) == (if removed > 0 {
            (*old(generation)).wrapping_add(1)
        } else {
            *old(generation)
        }),
{
    let margined: usize = if uncovered > usize::MAX - TRIM_SAFETY_MARGIN {
        usize::MAX
    } else {
        uncovered + TRIM_SAFETY_MARGIN
    };
    let retain: usize = if margined < MIN_RETAINED_MESSAGES {
        MIN_RETAINED_MESSAGES
    } else {
        margined
    };
    let total: usize = live.len();
    assert(live@.subrange(0, live@.len() as int) =~= live@);
    if *generation != generation_at_cut || total <= retain {
        return 0;
    }
    let removed: usize = total - retain;
    let kept = live.split_off(removed);
    *live = kept;
    *generation = generation.wrapping_add(1);
    removed
}

// ---------------------------------------------------------------------------
// Prompts and transcripts
// ---------------------------------------------------------------------------

/// Whether every instant of some messages has a date.
pub open spec fn all_logged_dated(messages: Seq<ConversationMessage>) -> bool {
    forall|k: int| 0 <= k < messages.len() ==> time::in_calendar((#[trigger] messages[k]).created_at as int)
}

/// The title of a span by its range.
pub open spec fn ranged(messages: Seq<ConversationMessage>) -> Seq<char> {
    if messages.len() == 0 {
        "Untitled span"@
    } else {
        time::written(messages[0].created_at as int, Pattern::Minute) + "–"@ + time::written(
            messages.last().created_at as int,
            Pattern::Clock,
        ) + " UTC"@
    }
}

/// The title of a span from the instants it begins and ends at.
pub fn span_title(from: &str, to: &str) -> (title: String)
    ensures
        title@ == from@ + "–"@ + to@ + " UTC"@,
{
    let mut title = from.to_owned();
    title.push_str("–");
    title.push_str(to);
    title.push_str(" UTC");
    title
}

/// A date-range title, used when the model does not supply one.
pub fn range_title(messages: &Vec<ConversationMessage>) -> (title: String)
    requires
        all_logged_dated(messages@),
    ensures
        title@ == ranged(messages@),
{
    if messages.len() == 0 {
        return "Untitled span".to_owned();
    }
    let from = time::write_utc(messages[0].created_at, Pattern::Minute);
    let to = time::write_utc(messages[messages.len() - 1].created_at, Pattern::Clock);
    span_title(from.as_str(), to.as_str())
}

/// Who a transcript says a message is from.
pub open spec fn sender_shown(message: ConversationMessage) -> Seq<char> {
    match message.sender_name {
        Some(name) => name@,
        None => if message.role@ == "assistant"@ {
            "assistant"@
        } else if message.role@ == "system"@ {
            "system"@
        } else {
            "user"@
        },
    }
}

/// A line of a transcript, its instant already written out.
pub open spec fn spoken(written: Seq<char>, message: ConversationMessage) -> Seq<char> {
    "["@ + written + "] "@ + sender_shown(message) + " ("@ + message.role@ + "): "@ + message.content@ + "\n"@
}

/// The transcript of some messages.
pub open spec fn transcript(messages: Seq<ConversationMessage>) -> Seq<char>
    decreases messages.len(),
{
    if messages.len() == 0 {
        Seq::empty()
    } else {
        transcript(messages.drop_last()) + spoken(
            time::written(messages.last().created_at as int, Pattern::Second),
            messages.last(),
        )
    }
}

/// A line of a transcript, its instant already written out.
pub fn transcript_line(written: &str, message: &ConversationMessage) -> (line: String)
    ensures
        line@ == spoken(written@, *message),
{
    let sender = match &message.sender_name {
        Some(name) => name.clone(),
        None => if text::same(message.role.as_str(), "assistant") {
            "assistant".to_owned()
        } else if text::same(message.role.as_str(), "system") {
            "system".to_owned()
        } else {
            "user".to_owned()
        },
    };
    let mut line = "[".to_owned();
    line.push_str(written);
    line.push_str("] ");
    line.push_str(sender.as_str());
    line.push_str(" (");
    line.push_str(message.role.as_str());
    line.push_str("): ");
    line.push_str(message.content.as_str());
    line.push_str("\n");
    line
}

/// Renders logged messages for the summarizer.
pub fn render_log_transcript(messages: &Vec<ConversationMessage>) -> (out: String)
    requires
        all_logged_dated(messages@),
    ensures
        out@ == transcript(messages@),
{
    let mut out = String::new();
    let mut k: usize = 0;
    while k < messages.len()
        invariant
            all_logged_dated(messages@),
            k <= messages@.len(),
            out@ == transcript(messages@.take(k as int)),
        decreases messages@.len() - k,
    {
        assert(messages@.take(k + 1).drop_last() =~= messages@.take(k as int));
        let written = time::write_utc(messages[k].created_at, Pattern::Second);
        out.push_str(transcript_line(written.as_str(), &messages[k]).as_str());
        k = k + 1;
    }
    assert(messages@.take(k as int) =~= messages@);
    out
}

/// An earlier checkpoint as a cut is told of it, its coverage written out.
pub open spec fn told(title: Seq<char>, from: Seq<char>, to: Seq<char>, summary: Seq<char>) -> Seq<char> {
    "- **"@ + title + "** ("@ + from + " → "@ + to + "): "@ + summary + "\n"@
}

/// An earlier checkpoint as a cut is told of it.
pub open spec fn told_checkpoint(checkpoint: ChronicleCheckpoint) -> Seq<char> {
    told(
        checkpoint.title@,
        time::written(checkpoint.covers_from_at as int, Pattern::Minute),
        time::written(checkpoint.covers_to_at as int, Pattern::Minute),
        checkpoint.summary@,
    )
}

/// The story so far, oldest first, of checkpoints that come newest first.
pub open spec fn story(narrative: Seq<ChronicleCheckpoint>) -> Seq<char>
    decreases narrative.len(),
{
    if narrative.len() == 0 {
        Seq::empty()
    } else {
        story(narrative.subrange(1, narrative.len() as int)) + told_checkpoint(narrative[0])
    }
}

/// The prompt of a cut: narrative context first, then the span.
pub open spec fn cut_prompt(
    kind: CheckpointKind,
    messages: Seq<ConversationMessage>,
    narrative: Seq<ChronicleCheckpoint>,
) -> Seq<char> {
    let context = if narrative.len() > 0 {
        "## Story so far\n\nThese are earlier checkpoints, for continuity only. Do not restate them.\n\n"@ + story(
            narrative,
        ) + "\n"@
    } else {
        ""@
    };
    let warned = if kind == CheckpointKind::Bootstrap {
        context
            + "## Note\n\nThis channel is entering chronicle mode with existing history. The transcript below may be the tail of a longer past; summarize what is here and do not speculate about what came before.\n\n"@
    } else {
        context
    };
    warned + "## New span to summarize\n\n"@ + transcript(messages)
}

/// An earlier checkpoint as a cut is told of it.
pub fn story_line(title: &str, from: &str, to: &str, summary: &str) -> (line: String)
    ensures
        line@ == told(title@, from@, to@, summary@),
{
    let mut line = "- **".to_owned();
    line.push_str(title);
    line.push_str("** (");
    line.push_str(from);
    line.push_str(" → ");
    line.push_str(to);
    line.push_str("): ");
    line.push_str(summary);
    line.push_str("\n");
    line
}

/// Builds the summarization prompt: narrative context first, then the span.
///
/// Prior summaries are supplied so that the entry reads as a continuation, but
/// no checkpoint is ever regenerated from another checkpoint's text.
pub fn build_cut_prompt(
    kind: CheckpointKind,
    messages: &Vec<ConversationMessage>,
    narrative: &Vec<ChronicleCheckpoint>,
) -> (prompt: String)
    requires
        all_logged_dated(messages@),
        crate::agent::chronicle_view::all_dated(narrative@),
    ensures
        prompt@ == cut_prompt(kind, messages@, narrative@),
{
    let mut prompt = "".to_owned();
    if narrative.len() > 0 {
        prompt =
        "## Story so far\n\nThese are earlier checkpoints, for continuity only. Do not restate them.\n\n".to_owned();
        let mut told = String::new();
        let mut k: usize = narrative.len();
        assert(narrative@.subrange(k as int, narrative@.len() as int).len() == 0);
        while k > 0
            invariant
                crate::agent::chronicle_view::all_dated(narrative@),
                k <= narrative@.len(),
                told@ == story(narrative@.subrange(k as int, narrative@.len() as int)),
            decreases k,
        {
            k = k - 1;
            let checkpoint = &narrative[k];
            assert(crate::agent::chronicle_view::dated(narrative@[k as int]));
            let ghost rest = narrative@.subrange(k as int, narrative@.len() as int);
            assert(rest.subrange(1, rest.len() as int) =~= narrative@.subrange(k + 1, narrative@.len() as int));
            let from = time::write_utc(checkpoint.covers_from_at, Pattern::Minute);
            let to = time::write_utc(checkpoint.covers_to_at, Pattern::Minute);
            told.push_str(
                story_line(
                    checkpoint.title.as_str(),
                    from.as_str(),
                    to.as_str(),
                    checkpoint.summary.as_str(),
                ).as_str(),
            );
        }
        assert(narrative@.subrange(0, narrative@.len() as int) =~= narrative@);
        prompt.push_str(told.as_str());
        prompt.push_str("\n");
    }
    if kind == CheckpointKind::Bootstrap {
        prompt.push_str(
            "## Note\n\nThis channel is entering chronicle mode with existing history. The transcript below may be the tail of a longer past; summarize what is here and do not speculate about what came before.\n\n",
        );
    }
    prompt.push_str("## New span to summarize\n\n");
    prompt.push_str(render_log_transcript(messages).as_str());
    prompt
}

/// What the event bus carries of a committed checkpoint.
#[derive(Debug)]
pub struct ChronicleCheckpointPayload {
    pub checkpoint_id: String,
    pub seq: i64,
    pub level: i64,
    pub kind: String,
    pub title: String,
    pub summary: String,
    pub covers_from: String,
    pub covers_to: String,
    pub message_count: i64,
    pub created_at: String,
}

/// The event that announces a committed checkpoint.
pub fn checkpoint_event(checkpoint: &ChronicleCheckpoint) -> (event: ChronicleCheckpointPayload)
    requires
        crate::agent::chronicle_view::dated(*checkpoint),
        time::in_calendar(checkpoint.created_at as int),
    ensures
        event.checkpoint_id == checkpoint.id,
        event.seq == checkpoint.seq,
        event.level == checkpoint.level,
        event.kind@ == checkpoint.kind.name(),
        event.title == checkpoint.title,
        event.summary == checkpoint.summary,
        event.covers_from@ == time::written(checkpoint.covers_from_at as int, Pattern::Rfc3339),
        event.covers_to@ == time::written(checkpoint.covers_to_at as int, Pattern::Rfc3339),
        event.message_count == checkpoint.message_count,
        event.created_at@ == time::written(checkpoint.created_at as int, Pattern::Rfc3339),
{
    ChronicleCheckpointPayload {
        checkpoint_id: checkpoint.id.clone(),
        seq: checkpoint.seq,
        level: checkpoint.level,
        kind: checkpoint.kind.as_str().to_owned(),
        title: checkpoint.title.clone(),
        summary: checkpoint.summary.clone(),
        covers_from: time::write_utc(checkpoint.covers_from_at, Pattern::Rfc3339),
        covers_to: time::write_utc(checkpoint.covers_to_at, Pattern::Rfc3339),
        message_count: checkpoint.message_count,
        created_at: time::write_utc(checkpoint.created_at, Pattern::Rfc3339),
    }
}

// ---------------------------------------------------------------------------
// Laws
// ---------------------------------------------------------------------------

/// A trim never drops a message that the log says is uncovered, nor the latest
/// exchange.
pub proof fn law_a_trim_keeps_what_is_uncovered(total: int, uncovered: int)
    requires
        0 <= total <= usize::MAX,
        0 <= uncovered <= usize::MAX,
    ensures
        total - trim_drop(total, uncovered) >= (if uncovered <= total {
            uncovered
        } else {
            total
        }),
        total >= MIN_RETAINED_MESSAGES ==> total - trim_drop(total, uncovered) >= MIN_RETAINED_MESSAGES,
        trim_drop(total, uncovered) >= 0,
{
}

/// An emergency keeps the latest exchange and at least half of the history.
pub proof fn law_an_emergency_keeps_the_latest_exchange(total: int)
    requires
        0 <= total,
    ensures
        total > MIN_RETAINED_MESSAGES ==> total - emergency_drop(total) >= MIN_RETAINED_MESSAGES,
        0 <= emergency_drop(total) <= total / 2,
        total > MIN_RETAINED_MESSAGES ==> emergency_drop(total) > 0,
{
}

/// An emergency leaves as many logged messages uncovered as are still live.
pub proof fn law_an_emergency_leaves_live_messages_uncovered(logged: int, retained_live: int)
    requires
        0 <= retained_live,
        0 <= logged,
    ensures
        emergency_covered(logged, retained_live) > 0 ==> logged - emergency_covered(logged, retained_live)
            == retained_live,
        0 <= emergency_covered(logged, retained_live) <= logged,
{
}

/// Bootstrap is for the first cut of a backlog larger than one cut can read; a
/// channel with a chronicle, or with less, gets an ordinary cut.
pub proof fn law_bootstrap_is_for_a_backlog(
    first: bool,
    uncovered: int,
    pressure: ContextPressure,
    config: ChronicleConfig,
)
    ensures
        action_due(first, uncovered, pressure, config) == Some(ChronicleAction::Bootstrap) <==> first
            && uncovered != 0 && uncovered > config.max_messages_per_checkpoint,
{
}

/// A title is never longer than its limit.
pub proof fn law_titles_are_bounded(title: Seq<char>)
    ensures
        short_title(title).len() <= MAX_TITLE_CHARS,
{
    reveal_strlit("…");
}

/// Context pressure forces a cut early: once the background threshold is
/// reached and a message lies uncovered, however few there are, a cut is due.
pub proof fn law_pressure_cuts_early(
    first: bool,
    uncovered: int,
    pressure: ContextPressure,
    config: ChronicleConfig,
)
    requires
        pressure.background,
        uncovered > 0,
    ensures
        action_due(first, uncovered, pressure, config) == Some(ChronicleAction::Pressure) || action_due(
            first,
            uncovered,
            pressure,
            config,
        ) == Some(ChronicleAction::Bootstrap),
        !first ==> action_due(first, uncovered, pressure, config) == Some(ChronicleAction::Pressure),
        uncovered <= config.max_messages_per_checkpoint ==> action_due(first, uncovered, pressure, config) == Some(
            ChronicleAction::Pressure,
        ),
{
}

/// An elapsed interval, in messages or in tokens, makes a cut due.
pub proof fn law_an_elapsed_interval_is_cut(
    first: bool,
    uncovered: int,
    pressure: ContextPressure,
    config: ChronicleConfig,
)
    requires
        uncovered > 0,
        uncovered >= config.interval_messages || pressure.interval,
    ensures
        action_due(first, uncovered, pressure, config) is Some,
        !first && !pressure.background ==> action_due(first, uncovered, pressure, config) == Some(
            ChronicleAction::Interval,
        ),
        uncovered <= config.max_messages_per_checkpoint && !pressure.background ==> action_due(
            first,
            uncovered,
            pressure,
            config,
        ) == Some(ChronicleAction::Interval),
{
}

/// No cut is made without a cause: nothing where every message is covered, and
/// nothing before an interval has elapsed where there is no pressure and no
/// backlog to bootstrap from. Each cause is named by the cut.
pub proof fn law_no_cut_without_a_cause(
    first: bool,
    uncovered: int,
    pressure: ContextPressure,
    config: ChronicleConfig,
)
    requires
        0 <= uncovered,
    ensures
        uncovered == 0 ==> action_due(first, uncovered, pressure, config) is None,
        action_due(first, uncovered, pressure, config) == Some(ChronicleAction::Pressure) ==> pressure.background,
        action_due(first, uncovered, pressure, config) == Some(ChronicleAction::Interval) ==> !pressure.background
            && (uncovered >= config.interval_messages || pressure.interval),
        action_due(first, uncovered, pressure, config) == Some(ChronicleAction::Bootstrap) ==> first && uncovered
            > config.max_messages_per_checkpoint,
        action_due(first, uncovered, pressure, config) != Some(ChronicleAction::Emergency),
        uncovered < config.interval_messages && !pressure.interval && !pressure.background && (!first || uncovered
            <= config.max_messages_per_checkpoint) ==> action_due(first, uncovered, pressure, config) is None,
{
}

/// More uncovered messages and more pressure never take a due cut back.
pub proof fn law_a_due_cut_stays_due(
    first: bool,
    uncovered: int,
    pressure: ContextPressure,
    config: ChronicleConfig,
    more: int,
    stronger: ContextPressure,
)
    requires
        0 <= uncovered <= more,
        pressure.background ==> stronger.background,
        pressure.interval ==> stronger.interval,
        action_due(first, uncovered, pressure, config) is Some,
    ensures
        action_due(first, more, stronger, config) is Some,
{
}

/// A checkpoint records the cause it was cut for.
pub proof fn law_a_checkpoint_records_its_cause(action: ChronicleAction)
    ensures
        kind_cut(action) == CheckpointKind::Bootstrap <==> action == ChronicleAction::Bootstrap,
        kind_cut(action) == CheckpointKind::Interval <==> action == ChronicleAction::Interval,
        kind_cut(action) == CheckpointKind::Pressure <==> action == ChronicleAction::Pressure,
        kind_cut(action) == CheckpointKind::Emergency <==> action == ChronicleAction::Emergency,
        kind_cut(action) != CheckpointKind::Rollup,
{
}

/// A trim keeps what is uncovered and the margin, and no more: everything else
/// goes.
pub proof fn law_a_trim_keeps_no_more_than_the_margin(total: int, uncovered: int)
    requires
        0 <= total <= usize::MAX,
        0 <= uncovered,
        uncovered + TRIM_SAFETY_MARGIN <= usize::MAX,
    ensures
        total <= uncovered + TRIM_SAFETY_MARGIN ==> trim_drop(total, uncovered) == 0,
        total > uncovered + TRIM_SAFETY_MARGIN ==> total - trim_drop(total, uncovered) == uncovered
            + TRIM_SAFETY_MARGIN,
{
}

/// An emergency drops half of the history, and less only where that would cost
/// the latest exchange.
pub proof fn law_an_emergency_drops_half(total: int)
    requires
        0 <= total,
    ensures
        emergency_drop(total) == total / 2 || total - emergency_drop(total) == MIN_RETAINED_MESSAGES || total
            <= MIN_RETAINED_MESSAGES && emergency_drop(total) == 0,
        total >= 2 * MIN_RETAINED_MESSAGES ==> emergency_drop(total) == total / 2,
{
}

/// An emergency covers something exactly where more is logged than is still
/// live.
pub proof fn law_an_emergency_covers_what_is_gone(logged: int, retained_live: int)
    requires
        0 <= retained_live,
        0 <= logged,
    ensures
        emergency_covered(logged, retained_live) > 0 <==> logged > retained_live,
        logged > retained_live ==> emergency_covered(logged, retained_live) + retained_live == logged,
{
}

/// A cut starts where the chronicle ends: the boundary that a channel's next
/// cut starts from is the end of its newest checkpoint, so that a checkpoint
/// from there on joins; without one it is open and covers the whole log.
pub proof fn law_the_next_cut_joins_the_last(store: ChronicleStore, channel: Seq<char>)
    ensures
        start_boundary(store, channel) matches Some(from) ==> text::opt_text(from.message_id) == chronicle::tail_id(
            store.checkpoints@,
            channel,
            0,
        ),
        chronicle::newest(store.checkpoints@, channel, 0) matches Some(last) ==> start_boundary(store, channel)
            == Some(ChronicleBoundary { at: last.covers_to_at, message_id: last.covers_to_message_id }),
        start_boundary(store, channel) is None <==> chronicle::newest(store.checkpoints@, channel, 0) is None
            && chronicle::of_channel(store.messages@, channel).len() == 0,
{
}

/// Without a checkpoint, a cut from the start of the log leaves no message of
/// the channel out.
pub proof fn law_a_first_cut_covers_the_whole_log(store: ChronicleStore, channel: Seq<char>)
    requires
        store.well_formed(),
        chronicle::newest(store.checkpoints@, channel, 0) is None,
    ensures
        start_boundary(store, channel) matches Some(from) ==> chronicle::after(store.messages@, channel, from)
            == chronicle::of_channel(store.messages@, channel),
{
    if let Some(from) = start_boundary(store, channel) {
        chronicle::law_an_open_start_at_the_first_message_keeps_all(store.messages@, channel, from);
    }
}

/// A title keeps its beginning: the whole of it where it is short enough, and
/// else as much as fits before the mark of the cut.
pub proof fn law_titles_keep_their_beginning(title: Seq<char>)
    ensures
        title.len() <= MAX_TITLE_CHARS ==> short_title(title) == title,
        title.len() > MAX_TITLE_CHARS ==> short_title(title).len() == MAX_TITLE_CHARS && short_title(
            title,
        ).last() == '…' && forall|k: int|
            0 <= k < MAX_TITLE_CHARS - 1 ==> #[trigger] short_title(title)[k] == title[k],
{
    reveal_strlit("…");
    if title.len() > MAX_TITLE_CHARS {
        assert(short_title(title).last() == "…"@[0]);
    }
}

/// What a cut records is said to come from where it came from: a model is named
/// exactly where its answer was used, and a span that nobody summarized says
/// so.
pub proof fn law_a_write_up_names_its_source(
    kind: CheckpointKind,
    head: Option<Seq<char>>,
    fallback_title: Seq<char>,
    count: int,
    answer: Option<(Seq<char>, Seq<char>)>,
)
    ensures
        ({
            let (title, summary, model) = written_up(kind, head, fallback_title, count, answer);
            let carried = kind == CheckpointKind::Bootstrap && head is Some;
            &&& model is Some <==> !carried && answer is Some
            &&& model is Some ==> model == Some((answer->0).0)
            &&& carried ==> text::ends(summary, head->0) && text::ends(title, fallback_title)
            &&& !carried && answer is None ==> summary == notice(count) && title == fallback_title
            &&& !carried && answer is Some ==> summary == split_response((answer->0).1).1
            &&& !carried && answer is Some && split_response((answer->0).1).0 is None ==> title == fallback_title
            &&& !carried && answer is Some && split_response((answer->0).1).0 is Some ==> Some(title)
                == split_response((answer->0).1).0
        }),
{
    if let Some(head) = head {
        let lead = "Carried over from rolling compaction when this channel entered chronicle mode. "@;
        assert((lead + head).subrange(lead.len() as int, (lead + head).len() as int) =~= head);
    }
    let lead = "Prior history — "@;
    let whole = lead + fallback_title;
    assert(whole.subrange(lead.len() as int, whole.len() as int) =~= fallback_title);
}

/// An answer is split without loss: without a title the summary is the whole
/// answer, and with one the first line begins with the mark of a title and
/// neither part is empty.
pub proof fn law_an_answer_is_split_at_its_title(response: Seq<char>)
    ensures
        split_response(response).0 is None ==> split_response(response).1 == text::trimmed(response),
        split_response(response).0 matches Some(title) ==> {
            let lines = text::lines_of(text::trimmed(response));
            &&& 0 < title.len() <= MAX_TITLE_CHARS
            &&& split_response(response).1.len() > 0
            &&& lines.len() > 1
            &&& text::begins(text::trimmed(lines[0]), "TITLE:"@)
            &&& split_response(response).1 == text::trimmed(
                text::joined(lines.subrange(1, lines.len() as int), "\n"@),
            )
        },
{
    reveal_strlit("…");
    let lines = text::lines_of(text::trimmed(response));
    text::law_lines_hold_no_line_feed(text::trimmed(response));
    if lines.len() == 1 {
        assert(lines.subrange(1, 1).len() == 0);
        assert(text::joined(lines.subrange(1, 1), "\n"@) =~= Seq::<char>::empty());
    }
}

/// The transcript of a span holds every message in the order of the log: two
/// spans one behind the other read as one.
pub proof fn law_transcripts_run_on(a: Seq<ConversationMessage>, b: Seq<ConversationMessage>)
    ensures
        transcript(a + b) == transcript(a) + transcript(b),
    decreases b.len(),
{
    if b.len() == 0 {
        assert(a + b =~= a);
        assert(transcript(a) + transcript(b) =~= transcript(a));
    } else {
        law_transcripts_run_on(a, b.drop_last());
        assert((a + b).drop_last() =~= a + b.drop_last());
        assert(transcript(a + b) =~= transcript(a) + transcript(b));
    }
}

/// The story so far runs from the oldest checkpoint to the newest, though the
/// checkpoints come newest first.
pub proof fn law_the_story_runs_forward(newer: Seq<ChronicleCheckpoint>, older: Seq<ChronicleCheckpoint>)
    ensures
        story(newer + older) == story(older) + story(newer),
    decreases newer.len(),
{
    if newer.len() == 0 {
        assert(newer + older =~= older);
        assert(story(older) + story(newer) =~= story(older));
    } else {
        let rest = newer.subrange(1, newer.len() as int);
        law_the_story_runs_forward(rest, older);
        assert((newer + older).subrange(1, (newer + older).len() as int) =~= rest + older);
        assert(story(newer + older) =~= story(older) + story(newer));
    }
}

/// A prompt ends with the span that is to be summarized, and tells of earlier
/// checkpoints only before it.
pub proof fn law_a_prompt_ends_with_its_span(
    kind: CheckpointKind,
    messages: Seq<ConversationMessage>,
    narrative: Seq<ChronicleCheckpoint>,
)
    ensures
        text::ends(cut_prompt(kind, messages, narrative), transcript(messages)),
        narrative.len() > 0 ==> text::occurs_in(cut_prompt(kind, messages, narrative), story(narrative)),
        narrative.len() == 0 && kind != CheckpointKind::Bootstrap ==> cut_prompt(kind, messages, narrative)
            == "## New span to summarize\n\n"@ + transcript(messages),
{
    let whole = cut_prompt(kind, messages, narrative);
    let span = transcript(messages);
    assert(whole.subrange(whole.len() - span.len(), whole.len() as int) =~= span);
    if narrative.len() > 0 {
        let lead = "## Story so far\n\nThese are earlier checkpoints, for continuity only. Do not restate them.\n\n"@;
        let told = story(narrative);
        let at = lead.len() as int;
        assert(whole.subrange(at, at + told.len()) =~= told);
        assert(text::occurs_at(whole, told, at));
    } else {
        reveal_strlit("");
        assert(""@ =~= Seq::<char>::empty());
        if kind != CheckpointKind::Bootstrap {
            assert(whole =~= "## New span to summarize\n\n"@ + span);
        }
    }
}

/// What is carried over is the first compaction summary of the first message,
/// without its mark; there is none where no item of it bears the mark.
pub proof fn law_the_first_summary_is_carried(items: Seq<UserModel>)
    ensures
        first_summary(items) is None <==> forall|k: int|
            0 <= k < items.len() ==> !(#[trigger] items[k] matches UserModel::Text(text) && text::begins(
                text,
                "[Compaction Summary]: "@,
            )),
        first_summary(items) is Some ==> exists|k: int|
            0 <= k < items.len() && first_summary(items) == summary_text(#[trigger] items[k]) && forall|i: int|
                0 <= i < k ==> summary_text(#[trigger] items[i]) is None,
    decreases items.len(),
{
    if items.len() > 0 {
        let front = items.drop_last();
        law_the_first_summary_is_carried(front);
        assert forall|i: int| 0 <= i < front.len() implies front[i] == items[i] by {}
        assert(items[items.len() - 1] == items.last());
        if let Some(summary) = first_summary(front) {
            let k = choose|k: int|
                0 <= k < front.len() && first_summary(front) == summary_text(#[trigger] front[k]) && forall|i: int|
                    0 <= i < k ==> summary_text(#[trigger] front[i]) is None;
            assert(summary_text(items[k]) == first_summary(items));
            assert forall|i: int| 0 <= i < k implies summary_text(#[trigger] items[i]) is None by {
                assert(front[i] == items[i]);
            }
            assert(items[k] is Text);
        } else {
            let k = items.len() - 1;
            assert forall|i: int| 0 <= i < k implies summary_text(#[trigger] items[i]) is None by {
                assert(front[i] == items[i]);
            }
            if first_summary(items) is Some {
                assert(first_summary(items) == summary_text(items[k]));
            } else {
                assert forall|i: int| 0 <= i < items.len() implies !(#[trigger] items[i] matches UserModel::Text(text)
                    && text::begins(text, "[Compaction Summary]: "@)) by {
                    if i < k {
                        assert(front[i] == items[i]);
                    }
                }
            }
        }
    }
}

/// An emergency cut is committed without a model, under its channel, from where
/// the log was left to the last message that is gone.
pub proof fn law_an_emergency_cut_ends_with_the_last_message(
    new: NewCheckpoint,
    channel: Seq<char>,
    from: ChronicleBoundary,
    last: ConversationMessage,
    removed: int,
    covered: int,
)
    requires
        is_emergency_cut(new, channel, from, last, removed, covered),
    ensures
        new.kind == CheckpointKind::Emergency && new.level == 0 && new.channel_id@ == channel,
        new.covers_from == from,
        new.covers_to.at == last.created_at && new.covers_to.message_id == Some(last.id),
        new.message_count == covered && new.token_estimate == 0 && new.model is None,
        new.rolls_up_from_seq is None && new.rolls_up_to_seq is None,
        text::occurs_in(new.title@, text::decimal(covered as nat)),
        text::occurs_in(new.summary@, text::decimal(removed as nat)),
        text::occurs_in(new.summary@, text::decimal(covered as nat)),
{
    let gone = text::decimal(removed as nat);
    let held = text::decimal(covered as nat);
    text::law_parts_occur("Truncated span ("@, held, " messages)"@);
    let a = "Context reached the emergency threshold and "@;
    let b = " live messages were dropped without summarization. "@;
    let c =
        " logged messages in this span were not summarized; use the chronicle tool to expand this range if the detail is needed."@;
    text::law_parts_occur(a + gone + b, held, c);
    text::law_grouping_does_not_matter(a + gone, b, held);
    text::law_grouping_does_not_matter(a + gone, b + held, c);
    text::law_parts_occur(a, gone, b + held + c);
}

/// A span without a title is named from its first message to its last.
pub proof fn law_an_untitled_span_is_named_by_its_ends(messages: Seq<ConversationMessage>)
    ensures
        messages.len() > 0 ==> text::begins(
            ranged(messages),
            time::utc_text(messages[0].created_at as int, Pattern::Minute.notation()),
        ) && text::ends(
            ranged(messages),
            time::utc_text(messages.last().created_at as int, Pattern::Clock.notation()) + " UTC"@,
        ),
{
    if messages.len() > 0 {
        let begun = time::written(messages[0].created_at as int, Pattern::Minute);
        let ended = time::written(messages.last().created_at as int, Pattern::Clock);
        text::law_grouping_does_not_matter(begun + "–"@, ended, " UTC"@);
        text::law_parts_occur(begun + "–"@, ended + " UTC"@, Seq::empty());
        text::law_grouping_does_not_matter(begun, "–"@, ended + " UTC"@);
        text::law_parts_occur(Seq::empty(), begun, "–"@ + (ended + " UTC"@));
    }
}

/// A summary is carried from a user's first message alone.
pub proof fn law_only_a_first_user_message_carries_a_summary(history: Seq<MessageModel>)
    ensures
        history.len() == 0 ==> carried_head(history) is None,
        history.len() > 0 && !(history[0] is User) ==> carried_head(history) is None,
        history.len() > 0 && history[0] is User ==> carried_head(history) == first_summary(history[0]->User_0),
{
}

/// A line of the transcript tells when, who and as what something was said, and
/// all of what was said.
pub proof fn law_a_transcript_line_tells_who_spoke(written: Seq<char>, message: ConversationMessage)
    ensures
        text::begins(spoken(written, message), "["@ + written + "] "@ + sender_shown(message)),
        text::ends(spoken(written, message), message.content@ + "\n"@),
        message.sender_name is Some ==> sender_shown(message) == message.sender_name->0@,
        message.sender_name is None && message.role@ == "assistant"@ ==> sender_shown(message) == "assistant"@,
        message.sender_name is None && message.role@ == "system"@ ==> sender_shown(message) == "system"@,
        message.sender_name is None && message.role@ != "assistant"@ && message.role@ != "system"@ ==> sender_shown(
            message,
        ) == "user"@,
{
    reveal_strlit("assistant");
    reveal_strlit("system");
    assert("assistant"@.len() != "system"@.len());
    let whole = spoken(written, message);
    let head = "["@ + written + "] "@ + sender_shown(message);
    let tail = message.content@ + "\n"@;
    assert(whole.subrange(0, head.len() as int) =~= head);
    assert(whole.subrange(whole.len() - tail.len(), whole.len() as int) =~= tail);
}

} // verus!
