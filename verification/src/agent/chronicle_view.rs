//! The bounded view of a chronicle that goes into a channel's system prompt.
use vstd::prelude::*;
use crate::agent::compactor;
use crate::conversation::chronicle;
use crate::conversation::chronicle::{CheckpointKind, ChronicleCheckpoint, ChronicleStats, ChronicleStore};
use crate::text;
use crate::time;
use crate::time::Pattern;

verus! {

broadcast use vstd::seq::group_seq_axioms;

/// A checkpoint as the view shows it, its coverage already written out.
#[derive(Debug)]
pub struct ViewEntry {
    pub seq: i64,
    pub title: String,
    pub from: String,
    pub to: String,
    pub message_count: i64,
    pub kind: CheckpointKind,
    pub summary: String,
}

/// What an entry shows.
pub struct EntryModel {
    pub seq: int,
    pub title: Seq<char>,
    pub from: Seq<char>,
    pub to: Seq<char>,
    pub message_count: int,
    pub kind: CheckpointKind,
    pub summary: Seq<char>,
}

impl View for ViewEntry {
    type V = EntryModel;

    open spec fn view(&self) -> EntryModel {
        EntryModel {
            seq: self.seq as int,
            title: self.title@,
            from: self.from@,
            to: self.to@,
            message_count: self.message_count as int,
            kind: self.kind,
            summary: self.summary@,
        }
    }
}

/// What a list of entries shows.
pub open spec fn shown(entries: Seq<ViewEntry>) -> Seq<EntryModel> {
    entries.map_values(|entry: ViewEntry| entry@)
}

/// The one line that is left of a collapsed entry.
pub open spec fn collapsed_line(entry: EntryModel) -> Seq<char> {
    "- **#"@ + text::signed_decimal(entry.seq) + " "@ + entry.title + "** ("@ + (entry.from + " → "@ + entry.to)
        + ", "@ + text::signed_decimal(entry.message_count)
        + " messages) — collapsed; open with the chronicle tool.\n"@
}

/// An entry in full.
pub open spec fn full_entry(entry: EntryModel) -> Seq<char> {
    "\n### #"@ + text::signed_decimal(entry.seq) + " "@ + entry.title + "\n"@ + (entry.from + " → "@ + entry.to)
        + " · "@ + text::signed_decimal(entry.message_count) + " messages · "@ + entry.kind.name() + "\n\n"@
        + entry.summary + "\n"@
}

/// The entries one after the other, the first ones collapsed.
pub open spec fn body(entries: Seq<EntryModel>, collapsed: int) -> Seq<char>
    decreases entries.len(),
{
    if entries.len() == 0 {
        Seq::empty()
    } else {
        body(entries.drop_last(), collapsed) + if entries.len() - 1 < collapsed {
            collapsed_line(entries.last())
        } else {
            full_entry(entries.last())
        }
    }
}

/// Whether a header and the entries below it stay within a token budget.
pub open spec fn fits(header: Seq<char>, entries: Seq<EntryModel>, collapsed: int, budget: int) -> bool {
    compactor::text_tokens(header) + compactor::text_tokens(body(entries, collapsed)) <= budget
}

/// How many entries collapse, from `from` on: as few as let the view fit, or
/// all of them.
pub open spec fn collapse_count(header: Seq<char>, entries: Seq<EntryModel>, budget: int, from: int) -> int
    decreases entries.len() - from,
{
    if fits(header, entries, from, budget) || from >= entries.len() {
        from
    } else {
        collapse_count(header, entries, budget, from + 1)
    }
}

/// The header and the entries within a token budget.
pub open spec fn composed(header: Seq<char>, entries: Seq<EntryModel>, budget: int) -> Seq<char> {
    header + "\n"@ + body(entries, collapse_count(header, entries, budget, 0))
}

/// Renders an entry, collapsed or in full.
pub fn render_entry(entry: &ViewEntry, collapsed: bool) -> (out: String)
    ensures
        out@ == (if collapsed {
            collapsed_line(entry@)
        } else {
            full_entry(entry@)
        }),
{
    let mut range = entry.from.clone();
    range.push_str(" → ");
    range.push_str(entry.to.as_str());
    if collapsed {
        let mut out = "- **#".to_owned();
        out.push_str(text::show_signed(entry.seq).as_str());
        out.push_str(" ");
        out.push_str(entry.title.as_str());
        out.push_str("** (");
        out.push_str(range.as_str());
        out.push_str(", ");
        out.push_str(text::show_signed(entry.message_count).as_str());
        out.push_str(" messages) — collapsed; open with the chronicle tool.\n");
        out
    } else {
        let mut out = "\n### #".to_owned();
        out.push_str(text::show_signed(entry.seq).as_str());
        out.push_str(" ");
        out.push_str(entry.title.as_str());
        out.push_str("\n");
        out.push_str(range.as_str());
        out.push_str(" · ");
        out.push_str(text::show_signed(entry.message_count).as_str());
        out.push_str(" messages · ");
        out.push_str(entry.kind.as_str());
        out.push_str("\n\n");
        out.push_str(entry.summary.as_str());
        out.push_str("\n");
        out
    }
}

/// Renders the entries, the first ones collapsed.
pub fn render_entries(entries: &Vec<ViewEntry>, collapsed_upto: usize) -> (out: String)
    ensures
        out@ == body(shown(entries@), collapsed_upto as int),
{
    let ghost all = shown(entries@);
    let mut out = String::new();
    let mut k: usize = 0;
    while k < entries.len()
        invariant
            all == shown(entries@),
            k <= entries@.len(),
            out@ == body(all.take(k as int), collapsed_upto as int),
        decreases entries@.len() - k,
    {
        assert(all.take(k + 1).drop_last() =~= all.take(k as int));
        assert(all[k as int] == entries@[k as int]@);
        out.push_str(render_entry(&entries[k], k < collapsed_upto).as_str());
        k = k + 1;
    }
    assert(all.take(k as int) =~= all);
    out
}

/// Renders a header and the entries below it within a token budget.
///
/// Under pressure the oldest entries collapse to a title and range line before
/// any entry is dropped, and the header never collapses: it is what tells the
/// agent that more exists and can be expanded.
pub fn compose_entries(header: &str, entries: &Vec<ViewEntry>, budget_tokens: usize) -> (view: String)
    ensures
        view@ == composed(header@, shown(entries@), budget_tokens as int),
{
    let ghost all = shown(entries@);
    let mut collapsed: usize = 0;
    loop
        invariant
            all == shown(entries@),
            collapsed <= entries@.len(),
            collapse_count(header@, all, budget_tokens as int, 0) == collapse_count(
                header@,
                all,
                budget_tokens as int,
                collapsed as int,
            ),
        decreases entries@.len() - collapsed,
    {
        let rendered = render_entries(entries, collapsed);
        let header_tokens: usize = compactor::estimate_text_tokens(header);
        let body_tokens: usize = compactor::estimate_text_tokens(rendered.as_str());
        let over = budget_tokens < header_tokens || budget_tokens - header_tokens < body_tokens;
        if !over || collapsed >= entries.len() {
            let mut view = header.to_owned();
            view.push_str("\n");
            view.push_str(rendered.as_str());
            return view;
        }
        collapsed = collapsed + 1;
    }
}

/// How long a session lasted, as the header says it.
pub open spec fn age_text(span: Option<(Seq<char>, Seq<char>, int)>) -> Seq<char> {
    match span {
        Some((first, last, days)) => "Session spans "@ + first + " → "@ + last + " ("@ + text::signed_decimal(days)
            + " day"@ + (if days == 1 {
            ""@
        } else {
            "s"@
        }) + ")."@,
        None => "Session age unknown."@,
    }
}

/// The header of the view.
pub open spec fn header_text(age: Seq<char>, stats: ChronicleStats, listed: int) -> Seq<char> {
    "## Session Chronicle\n\n"@ + age + " "@ + text::signed_decimal(stats.total_messages as int)
        + " messages logged, "@ + text::signed_decimal(stats.checkpoint_count as int) + " checkpoints ("@
        + text::decimal(listed as nat) + " shown below). "@ + text::signed_decimal(
        stats.unsummarized_messages as int,
    )
        + " messages since the last checkpoint are still in raw context.\n\nCheckpoints below are summaries, not the transcript. Use the `chronicle` tool to list the full checkpoint index or open one; a branch can expand any checkpoint back into raw messages.\n"@
}

/// Writes how long a session lasted from the days it began and ended on.
pub fn render_age(first: &str, last: &str, days: i64) -> (age: String)
    ensures
        age@ == age_text(Some((first@, last@, days as int))),
{
    let mut age = "Session spans ".to_owned();
    age.push_str(first);
    age.push_str(" → ");
    age.push_str(last);
    age.push_str(" (");
    age.push_str(text::show_signed(days).as_str());
    age.push_str(" day");
    if days == 1 {
        age.push_str("");
    } else {
        age.push_str("s");
    }
    age.push_str(").");
    age
}

/// Writes the header once the age of the session is written.
pub fn write_header(age: &str, stats: &ChronicleStats, listed: usize) -> (header: String)
    ensures
        header@ == header_text(age@, *stats, listed as int),
{
    let mut header = "## Session Chronicle\n\n".to_owned();
    header.push_str(age);
    header.push_str(" ");
    header.push_str(text::show_signed(stats.total_messages).as_str());
    header.push_str(" messages logged, ");
    header.push_str(text::show_signed(stats.checkpoint_count).as_str());
    header.push_str(" checkpoints (");
    header.push_str(text::show_usize(listed).as_str());
    header.push_str(" shown below). ");
    header.push_str(text::show_signed(stats.unsummarized_messages).as_str());
    header.push_str(
        " messages since the last checkpoint are still in raw context.\n\nCheckpoints below are summaries, not the transcript. Use the `chronicle` tool to list the full checkpoint index or open one; a branch can expand any checkpoint back into raw messages.\n",
    );
    header
}

/// Whether the instants that a header shows have a date.
pub open spec fn stats_dated(stats: ChronicleStats) -> bool {
    (stats.first_message_at matches Some(at) ==> time::in_calendar(at as int)) && (
    stats.last_message_at matches Some(at) ==> time::in_calendar(at as int))
}

/// What the header says of the session's age.
pub open spec fn stats_span(stats: ChronicleStats) -> Option<(Seq<char>, Seq<char>, int)> {
    match (stats.first_message_at, stats.last_message_at) {
        (Some(first), Some(last)) => Some(
            (
                time::written(first as int, Pattern::Day),
                time::written(last as int, Pattern::Day),
                time::days_between(first as int, last as int),
            ),
        ),
        _ => None,
    }
}

/// Renders the header of the view.
pub fn render_header(stats: &ChronicleStats, listed: usize) -> (header: String)
    requires
        stats_dated(*stats),
    ensures
        header@ == header_text(age_text(stats_span(*stats)), *stats, listed as int),
{
    let age = match (stats.first_message_at, stats.last_message_at) {
        (Some(first), Some(last)) => {
            let from = time::write_utc(first, Pattern::Day);
            let to = time::write_utc(last, Pattern::Day);
            render_age(from.as_str(), to.as_str(), time::whole_days(first, last))
        },
        _ => "Session age unknown.".to_owned(),
    };
    write_header(age.as_str(), stats, listed)
}

/// Whether the instants that an entry shows have a date.
pub open spec fn dated(checkpoint: ChronicleCheckpoint) -> bool {
    time::in_calendar(checkpoint.covers_from_at as int) && time::in_calendar(checkpoint.covers_to_at as int)
}

/// Whether the instants that entries show have a date.
pub open spec fn all_dated(checkpoints: Seq<ChronicleCheckpoint>) -> bool {
    forall|k: int| 0 <= k < checkpoints.len() ==> dated(#[trigger] checkpoints[k])
}

/// A checkpoint as the view shows it.
pub open spec fn entry_of(checkpoint: ChronicleCheckpoint) -> EntryModel {
    EntryModel {
        seq: checkpoint.seq as int,
        title: checkpoint.title@,
        from: time::written(checkpoint.covers_from_at as int, Pattern::Minute),
        to: time::written(checkpoint.covers_to_at as int, Pattern::Minute),
        message_count: checkpoint.message_count as int,
        kind: checkpoint.kind,
        summary: checkpoint.summary@,
    }
}

/// Checkpoints as the view shows them.
pub open spec fn entries_of(checkpoints: Seq<ChronicleCheckpoint>) -> Seq<EntryModel> {
    checkpoints.map_values(|checkpoint: ChronicleCheckpoint| entry_of(checkpoint))
}

/// Writes out the coverage of checkpoints.
fn push_entries(entries: &mut Vec<ViewEntry>, checkpoints: &Vec<ChronicleCheckpoint>)
    requires
        all_dated(checkpoints@),
    ensures
        shown(final(entries)@) == shown(old(entries)@) + entries_of(checkpoints@),
{
    let ghost before = shown(entries@);
    let ghost all = entries_of(checkpoints@);
    let mut k: usize = 0;
    assert(before + all.take(0) =~= before);
    while k < checkpoints.len()
        invariant
            all_dated(checkpoints@),
            all == entries_of(checkpoints@),
            k <= checkpoints@.len(),
            shown(entries@) == before + all.take(k as int),
        decreases checkpoints@.len() - k,
    {
        let checkpoint = &checkpoints[k];
        assert(dated(checkpoints@[k as int]));
        let entry = ViewEntry {
            seq: checkpoint.seq,
            title: checkpoint.title.clone(),
            from: time::write_utc(checkpoint.covers_from_at, Pattern::Minute),
            to: time::write_utc(checkpoint.covers_to_at, Pattern::Minute),
            message_count: checkpoint.message_count,
            kind: checkpoint.kind,
            summary: checkpoint.summary.clone(),
        };
        let ghost held = entries@;
        assert(entry@ == all[k as int]);
        entries.push(entry);
        assert(shown(entries@) =~= shown(held).push(entry@));
        assert(before + all.take(k + 1) =~= (before + all.take(k as int)).push(all[k as int]));
        k = k + 1;
    }
    assert(all.take(k as int) =~= all);
}

/// Renders the header and entries within a token budget.
pub fn compose_view(
    stats: &ChronicleStats,
    older: &Vec<ChronicleCheckpoint>,
    recent: &Vec<ChronicleCheckpoint>,
    budget_tokens: usize,
) -> (view: String)
    requires
        stats_dated(*stats),
        all_dated(older@),
        all_dated(recent@),
        older@.len() + recent@.len() <= usize::MAX,
    ensures
        view@ == composed(
            header_text(age_text(stats_span(*stats)), *stats, (older@.len() + recent@.len()) as int),
            entries_of(older@ + recent@),
            budget_tokens as int,
        ),
{
    let header = render_header(stats, older.len() + recent.len());
    let mut entries: Vec<ViewEntry> = Vec::new();
    push_entries(&mut entries, older);
    push_entries(&mut entries, recent);
    assert(shown(entries@) =~= entries_of(older@ + recent@));
    compose_entries(header.as_str(), &entries, budget_tokens)
}

/// How a channel's chronicle is cut and shown.
#[derive(Debug, Clone, Copy)]
pub struct ChronicleConfig {
    /// Messages after which a checkpoint is due.
    pub interval_messages: i64,
    /// Messages that one cut reads at most.
    pub max_messages_per_checkpoint: i64,
    /// Hours that the recent window of the view reaches back.
    pub recent_window_hours: i64,
    /// Checkpoints of the recent window that the view shows at most.
    pub max_recent: i64,
    /// Checkpoints before the recent window that the view shows at most.
    pub max_older: i64,
    /// Tokens that the view takes at most.
    pub context_token_budget: usize,
}

/// The checkpoints in the recent window.
pub open spec fn recent_rows(
    rows: Seq<ChronicleCheckpoint>,
    channel: Seq<char>,
    now: int,
    config: ChronicleConfig,
) -> Seq<ChronicleCheckpoint> {
    chronicle::last_rows(
        chronicle::chosen(
            rows,
            channel,
            chronicle::Wanted {
                level: 0,
                since: Some((now - config.recent_window_hours * 3600) as i64),
                before_seq: None,
            },
        ),
        config.max_recent as int,
    )
}

/// The checkpoints before the recent window.
pub open spec fn older_rows(
    rows: Seq<ChronicleCheckpoint>,
    channel: Seq<char>,
    recent: Seq<ChronicleCheckpoint>,
    config: ChronicleConfig,
) -> Seq<ChronicleCheckpoint> {
    let before = if recent.len() > 0 {
        Some(recent[0].seq)
    } else {
        None
    };
    chronicle::last_rows(
        chronicle::chosen(rows, channel, chronicle::Wanted { level: 0, since: None, before_seq: before }),
        config.max_older as int,
    )
}

/// The view of a channel's chronicle; none before its first checkpoint.
pub open spec fn chronicle_view(store: ChronicleStore, channel: Seq<char>, now: int, config: ChronicleConfig) -> Option<
    Seq<char>,
> {
    let stats = chronicle::stats_of(store, channel);
    let recent = recent_rows(store.checkpoints@, channel, now, config);
    let older = older_rows(store.checkpoints@, channel, recent, config);
    if stats.checkpoint_count == 0 {
        None
    } else {
        Some(
            composed(
                header_text(age_text(stats_span(stats)), stats, (older.len() + recent.len()) as int),
                entries_of(older + recent),
                config.context_token_budget as int,
            ),
        )
    }
}

/// Whether every instant that a store holds has a date.
pub open spec fn store_dated(store: ChronicleStore) -> bool {
    all_dated(store.checkpoints@) && forall|k: int|
        0 <= k < store.messages@.len() ==> time::in_calendar((#[trigger] store.messages@[k]).created_at as int)
}

proof fn chosen_dated(rows: Seq<ChronicleCheckpoint>, channel: Seq<char>, wanted: chronicle::Wanted)
    requires
        all_dated(rows),
    ensures
        all_dated(chronicle::chosen(rows, channel, wanted)),
        chronicle::chosen(rows, channel, wanted).len() <= rows.len(),
    decreases rows.len(),
{
    reveal(Seq::filter);
    if rows.len() > 0 {
        let front = rows.drop_last();
        assert forall|k: int| 0 <= k < front.len() implies dated(#[trigger] front[k]) by {
            assert(front[k] == rows[k]);
        }
        chosen_dated(front, channel, wanted);
        assert(dated(rows[rows.len() - 1]));
    }
}

proof fn log_dated(store: ChronicleStore, channel: Seq<char>)
    requires
        store_dated(store),
    ensures
        stats_dated(chronicle::stats_of(store, channel)),
{
    kept_dated(store.messages@, chronicle::spans(channel, None, None));
}

proof fn kept_dated(
    messages: Seq<crate::conversation::history::ConversationMessage>,
    pred: spec_fn(crate::conversation::history::ConversationMessage) -> bool,
)
    requires
        forall|k: int| 0 <= k < messages.len() ==> time::in_calendar((#[trigger] messages[k]).created_at as int),
    ensures
        forall|k: int|
            0 <= k < messages.filter(pred).len() ==> time::in_calendar(
                (#[trigger] messages.filter(pred)[k]).created_at as int,
            ),
    decreases messages.len(),
{
    reveal(Seq::filter);
    if messages.len() > 0 {
        let front = messages.drop_last();
        assert forall|k: int| 0 <= k < front.len() implies time::in_calendar(
            (#[trigger] front[k]).created_at as int,
        ) by {
            assert(front[k] == messages[k]);
        }
        kept_dated(front, pred);
        assert(time::in_calendar(messages[messages.len() - 1].created_at as int));
    }
}

/// Assembles the bounded chronicle view for a channel's system prompt.
///
/// A function of durable state alone, so a restart reproduces it exactly.
/// Returns `None` when the channel has no chronicle yet.
pub fn render_chronicle_view(
    store: &ChronicleStore,
    channel_id: &str,
    now: i64,
    config: &ChronicleConfig,
) -> (view: Option<String>)
    requires
        store_dated(*store),
        store.messages@.len() <= i64::MAX,
        store.checkpoints@.len() * 2 <= i64::MAX,
        store.checkpoints@.len() * 2 <= usize::MAX,
        time::in_calendar(now - config.recent_window_hours * 3600),
    ensures
        text::opt_text(view) == chronicle_view(*store, channel_id@, now as int, *config),
{
    let stats = store.stats(channel_id);
    if stats.checkpoint_count == 0 {
        return None;
    }
    let since: i64 = (now as i128 - config.recent_window_hours as i128 * 3600) as i64;
    let recent = store.list_since(channel_id, 0, since, config.max_recent);
    let older = if recent.len() > 0 {
        store.list_before_seq(channel_id, 0, recent[0].seq, config.max_older)
    } else {
        let mut newest_first = store.list(channel_id, 0, config.max_older);
        let ghost turned = newest_first@;
        let mut rows: Vec<ChronicleCheckpoint> = Vec::new();
        while newest_first.len() > 0
            invariant
                newest_first@.len() <= turned.len(),
                newest_first@ == turned.take(newest_first@.len() as int),
                rows@ == turned.reverse().take(turned.len() - newest_first@.len()),
            decreases newest_first@.len(),
        {
            let ghost n = newest_first@.len() as int;
            if let Some(row) = newest_first.pop() {
                assert(turned.take(n).drop_last() =~= turned.take(n - 1));
                assert(turned.reverse().take(turned.len() - n + 1) =~= turned.reverse().take(turned.len() - n).push(
                    turned[n - 1],
                ));
                rows.push(row);
            }
        }
        assert(rows@ =~= turned.reverse());
        assert(turned.reverse() =~= chronicle::last_rows(
            chronicle::chosen(store.checkpoints@, channel_id@, chronicle::at_level(0)),
            config.max_older as int,
        ));
        rows
    };
    proof {
        log_dated(*store, channel_id@);
        chosen_dated(
            store.checkpoints@,
            channel_id@,
            chronicle::Wanted { level: 0, since: Some(since), before_seq: None },
        );
        chosen_dated(
            store.checkpoints@,
            channel_id@,
            chronicle::Wanted {
                level: 0,
                since: None,
                before_seq: if recent@.len() > 0 {
                    Some(recent@[0].seq)
                } else {
                    None
                },
            },
        );
        assert(recent@ == recent_rows(store.checkpoints@, channel_id@, now as int, *config));
        assert(older@ == older_rows(store.checkpoints@, channel_id@, recent@, *config));
    }
    Some(compose_view(&stats, &older, &recent, config.context_token_budget))
}

// ---------------------------------------------------------------------------
// Laws
// ---------------------------------------------------------------------------

/// The entries that collapse are as few as the budget allows: no smaller
/// number of them would fit, and the view fits unless all of them are
/// collapsed.
pub proof fn law_no_more_entries_collapse_than_must(
    header: Seq<char>,
    entries: Seq<EntryModel>,
    budget: int,
    from: int,
)
    requires
        0 <= from <= entries.len(),
    ensures
        from <= collapse_count(header, entries, budget, from) <= entries.len(),
        forall|fewer: int|
            from <= fewer < collapse_count(header, entries, budget, from) ==> !#[trigger] fits(
                header,
                entries,
                fewer,
                budget,
            ),
        fits(header, entries, collapse_count(header, entries, budget, from), budget) || collapse_count(
            header,
            entries,
            budget,
            from,
        ) == entries.len(),
    decreases entries.len() - from,
{
    if !fits(header, entries, from, budget) && from < entries.len() {
        law_no_more_entries_collapse_than_must(header, entries, budget, from + 1);
    }
}

/// A larger budget does not collapse more entries.
pub proof fn law_a_larger_budget_collapses_no_more(
    header: Seq<char>,
    entries: Seq<EntryModel>,
    smaller: int,
    larger: int,
)
    requires
        smaller <= larger,
    ensures
        collapse_count(header, entries, larger, 0) <= collapse_count(header, entries, smaller, 0),
{
    law_no_more_entries_collapse_than_must(header, entries, smaller, 0);
    law_no_more_entries_collapse_than_must(header, entries, larger, 0);
    let n = collapse_count(header, entries, smaller, 0);
    if n < collapse_count(header, entries, larger, 0) {
        assert(!fits(header, entries, n, larger));
    }
}

/// The header never collapses: every view begins with it.
pub proof fn law_the_header_never_collapses(header: Seq<char>, entries: Seq<EntryModel>, budget: int)
    ensures
        text::begins(composed(header, entries, budget), header),
{
    let view = composed(header, entries, budget);
    assert(view.subrange(0, header.len() as int) =~= header);
}

/// Every checkpoint stays in the view, in full or as a line.
pub proof fn law_every_entry_stays_listed(header: Seq<char>, entries: Seq<EntryModel>, budget: int, k: int)
    requires
        0 <= k < entries.len(),
    ensures
        ({
            let collapsed = collapse_count(header, entries, budget, 0);
            text::occurs_in(
                composed(header, entries, budget),
                if k < collapsed {
                    collapsed_line(entries[k])
                } else {
                    full_entry(entries[k])
                },
            )
        }),
{
    let collapsed = collapse_count(header, entries, budget, 0);
    let part = if k < collapsed {
        collapsed_line(entries[k])
    } else {
        full_entry(entries[k])
    };
    let below = body(entries, collapsed);
    let i = entry_place(entries, collapsed, k);
    let at = header.len() + "\n"@.len() + i;
    let view = composed(header, entries, budget);
    assert(view.subrange(at, at + part.len()) =~= below.subrange(i, i + part.len()));
    assert(text::occurs_at(view, part, at));
}

/// Where an entry stands among the entries.
proof fn entry_place(entries: Seq<EntryModel>, collapsed: int, k: int) -> (i: int)
    requires
        0 <= k < entries.len(),
    ensures
        text::occurs_at(
            body(entries, collapsed),
            if k < collapsed {
                collapsed_line(entries[k])
            } else {
                full_entry(entries[k])
            },
            i,
        ),
    decreases entries.len(),
{
    let front = entries.drop_last();
    let part = if k < collapsed {
        collapsed_line(entries[k])
    } else {
        full_entry(entries[k])
    };
    let whole = body(entries, collapsed);
    if k < front.len() {
        let i = entry_place(front, collapsed, k);
        assert(whole.subrange(i, i + part.len()) =~= body(front, collapsed).subrange(i, i + part.len()));
        i
    } else {
        let i = body(front, collapsed).len() as int;
        assert(whole.subrange(i, i + part.len()) =~= part);
        i
    }
}

/// A budget that the view in full keeps within collapses nothing.
pub proof fn law_an_ample_budget_keeps_every_body(header: Seq<char>, entries: Seq<EntryModel>, budget: int)
    requires
        fits(header, entries, 0, budget),
    ensures
        composed(header, entries, budget) == header + "\n"@ + body(entries, 0),
{
}

/// The view depends on the stored rows and the log alone: stores that hold the
/// same show the same.
pub proof fn law_the_view_is_a_function_of_durable_state(
    a: ChronicleStore,
    b: ChronicleStore,
    channel: Seq<char>,
    now: int,
    config: ChronicleConfig,
)
    requires
        a.checkpoints@ == b.checkpoints@,
        a.messages@ == b.messages@,
    ensures
        chronicle_view(a, channel, now, config) == chronicle_view(b, channel, now, config),
{
}

/// An entry in full shows every part of its checkpoint, in order: the number
/// before the title, the title before the coverage, and the summary last.
#[verifier::rlimit(80)]
pub proof fn law_an_entry_shows_its_checkpoint(entry: EntryModel)
    ensures
        text::occurs_in(full_entry(entry), text::signed_decimal(entry.seq) + " "@ + entry.title),
        text::occurs_in(full_entry(entry), entry.from + " → "@ + entry.to),
        text::occurs_in(full_entry(entry), text::signed_decimal(entry.message_count) + " messages"@),
        text::occurs_in(full_entry(entry), entry.kind.name()),
        text::ends(full_entry(entry), entry.summary + "\n"@),
{
    reveal_strlit(" messages · ");
    reveal_strlit(" messages");
    reveal_strlit(" · ");
    let number = text::signed_decimal(entry.seq);
    let count = text::signed_decimal(entry.message_count);
    let named = number + " "@ + entry.title;
    let range = entry.from + " → "@ + entry.to;
    let counted = count + " messages"@;
    let full = full_entry(entry);
    let last = entry.summary + "\n"@;
    let kind = entry.kind.name();
    let a = "\n### #"@;
    let b = "\n"@ + range + " · "@ + count + " messages · "@ + kind + "\n\n"@ + last;
    assert(full =~= a + named + b);
    text::law_parts_occur(a, named, b);
    let a = "\n### #"@ + named + "\n"@;
    let b = " · "@ + count + " messages · "@ + kind + "\n\n"@ + last;
    assert(full =~= a + range + b);
    text::law_parts_occur(a, range, b);
    let a = "\n### #"@ + named + "\n"@ + range + " · "@;
    let b = " · "@ + kind + "\n\n"@ + last;
    assert(" messages · "@ =~= " messages"@ + " · "@);
    assert(full =~= a + counted + b);
    text::law_parts_occur(a, counted, b);
    let a = "\n### #"@ + named + "\n"@ + range + " · "@ + count + " messages · "@;
    let b = "\n\n"@ + last;
    assert(full =~= a + kind + b);
    text::law_parts_occur(a, kind, b);
    let a = "\n### #"@ + named + "\n"@ + range + " · "@ + count + " messages · "@ + kind + "\n\n"@;
    assert(full =~= a + last);
    text::law_parts_occur(a, last, Seq::empty());
}

/// A collapsed entry still tells its number, title, coverage and messages.
pub proof fn law_a_collapsed_entry_can_be_found_again(entry: EntryModel)
    ensures
        text::occurs_in(collapsed_line(entry), text::signed_decimal(entry.seq) + " "@ + entry.title),
        text::occurs_in(collapsed_line(entry), entry.from + " → "@ + entry.to),
        text::occurs_in(collapsed_line(entry), text::signed_decimal(entry.message_count) + " messages"@),
{
    reveal_strlit(" messages");
    reveal_strlit(" messages) — collapsed; open with the chronicle tool.\n");
    reveal_strlit(") — collapsed; open with the chronicle tool.\n");
    let number = text::signed_decimal(entry.seq);
    let count = text::signed_decimal(entry.message_count);
    let named = number + " "@ + entry.title;
    let range = entry.from + " → "@ + entry.to;
    let counted = count + " messages"@;
    let line = collapsed_line(entry);
    let end = " messages) — collapsed; open with the chronicle tool.\n"@;
    let rest = ") — collapsed; open with the chronicle tool.\n"@;
    assert(end =~= " messages"@ + rest);
    let a = "- **#"@;
    let b = "** ("@ + range + ", "@ + count + end;
    assert(line =~= a + named + b);
    text::law_parts_occur(a, named, b);
    let a = "- **#"@ + named + "** ("@;
    let b = ", "@ + count + end;
    assert(line =~= a + range + b);
    text::law_parts_occur(a, range, b);
    let a = "- **#"@ + named + "** ("@ + range + ", "@;
    assert(line =~= a + counted + rest);
    text::law_parts_occur(a, counted, rest);
}

/// What an entry shows is its checkpoint's own: number, title, messages, kind
/// and summary are taken over, and the coverage is written from its two ends.
pub proof fn law_entries_stand_for_their_checkpoints(checkpoints: Seq<ChronicleCheckpoint>, k: int)
    requires
        0 <= k < checkpoints.len(),
    ensures
        entries_of(checkpoints).len() == checkpoints.len(),
        ({
            let entry = entries_of(checkpoints)[k];
            &&& entry.seq == checkpoints[k].seq
            &&& entry.title == checkpoints[k].title@
            &&& entry.message_count == checkpoints[k].message_count
            &&& entry.kind == checkpoints[k].kind
            &&& entry.summary == checkpoints[k].summary@
            &&& entry.from == time::utc_text(checkpoints[k].covers_from_at as int, Pattern::Minute.notation())
            &&& entry.to == time::utc_text(checkpoints[k].covers_to_at as int, Pattern::Minute.notation())
        }),
{
}

/// The entries run on in their order, and which ones collapse goes by their
/// place: the entries of two lists are those of the first and behind them
/// those of the second, with as many collapsed as the first list left over.
pub proof fn law_entries_run_on(first: Seq<EntryModel>, second: Seq<EntryModel>, collapsed: int)
    ensures
        body(first + second, collapsed) == body(first, collapsed) + body(second, collapsed - first.len()),
    decreases second.len(),
{
    let all = first + second;
    if second.len() == 0 {
        assert(all =~= first);
        assert(body(second, collapsed - first.len()) =~= Seq::<char>::empty());
    } else {
        assert(all.drop_last() =~= first + second.drop_last());
        law_entries_run_on(first, second.drop_last(), collapsed);
        assert(all.last() == second.last());
    }
    assert(body(all, collapsed) =~= body(first, collapsed) + body(second, collapsed - first.len()));
}

/// A single entry is shown in full unless one is to collapse, and a collapsed
/// view is the lines alone.
pub proof fn law_the_oldest_collapse_first(entry: EntryModel, collapsed: int)
    ensures
        collapsed <= 0 ==> body(seq![entry], collapsed) == full_entry(entry),
        collapsed > 0 ==> body(seq![entry], collapsed) == collapsed_line(entry),
{
    assert(seq![entry].drop_last() =~= Seq::<EntryModel>::empty());
    assert(body(seq![entry].drop_last(), collapsed) =~= Seq::<char>::empty());
}

/// A view that fits spends no more tokens than it has, header and entries
/// together.
pub proof fn law_a_view_that_fits_keeps_its_budget(
    header: Seq<char>,
    entries: Seq<EntryModel>,
    collapsed: int,
    budget: int,
)
    ensures
        fits(header, entries, collapsed, budget) <==> compactor::text_tokens(header) + compactor::text_tokens(
            body(entries, collapsed),
        ) <= budget,
{
}

/// The header tells the session's age and all of its counts.
pub proof fn law_the_header_tells_every_count(age: Seq<char>, stats: ChronicleStats, listed: int)
    ensures
        text::occurs_in(header_text(age, stats, listed), age),
        text::occurs_in(
            header_text(age, stats, listed),
            text::signed_decimal(stats.total_messages as int) + " messages logged"@,
        ),
        text::occurs_in(
            header_text(age, stats, listed),
            text::signed_decimal(stats.checkpoint_count as int) + " checkpoints"@,
        ),
        text::occurs_in(header_text(age, stats, listed), text::decimal(listed as nat) + " shown below"@),
        text::occurs_in(
            header_text(age, stats, listed),
            text::signed_decimal(stats.unsummarized_messages as int) + " messages since the last checkpoint"@,
        ),
{
    let head = "## Session Chronicle\n\n"@;
    let logged = text::signed_decimal(stats.total_messages as int);
    let kept = text::signed_decimal(stats.checkpoint_count as int);
    let below = text::decimal(listed as nat);
    let left = text::signed_decimal(stats.unsummarized_messages as int);
    let tail =
        " messages since the last checkpoint are still in raw context.\n\nCheckpoints below are summaries, not the transcript. Use the `chronicle` tool to list the full checkpoint index or open one; a branch can expand any checkpoint back into raw messages.\n"@;
    let whole = header_text(age, stats, listed);
    reveal_strlit(" messages logged, ");
    reveal_strlit(" messages logged");
    reveal_strlit(" checkpoints (");
    reveal_strlit(" checkpoints");
    reveal_strlit(" shown below). ");
    reveal_strlit(" shown below");
    reveal_strlit(" messages since the last checkpoint");
    reveal_strlit(
        " messages since the last checkpoint are still in raw context.\n\nCheckpoints below are summaries, not the transcript. Use the `chronicle` tool to list the full checkpoint index or open one; a branch can expand any checkpoint back into raw messages.\n",
    );
    let b = " "@ + logged + " messages logged, "@ + kept + " checkpoints ("@ + below + " shown below). "@ + left + tail;
    assert(whole =~= head + age + b);
    text::law_parts_occur(head, age, b);
    let a = head + age + " "@;
    let b = " messages logged, "@.subrange(16, 18) + kept + " checkpoints ("@ + below + " shown below). "@ + left + tail;
    assert(" messages logged, "@ =~= " messages logged"@ + " messages logged, "@.subrange(16, 18));
    assert(whole =~= a + (logged + " messages logged"@) + b);
    text::law_parts_occur(a, logged + " messages logged"@, b);
    let a = head + age + " "@ + logged + " messages logged, "@;
    let b = " checkpoints ("@.subrange(12, 14) + below + " shown below). "@ + left + tail;
    assert(" checkpoints ("@ =~= " checkpoints"@ + " checkpoints ("@.subrange(12, 14));
    assert(whole =~= a + (kept + " checkpoints"@) + b);
    text::law_parts_occur(a, kept + " checkpoints"@, b);
    let a = head + age + " "@ + logged + " messages logged, "@ + kept + " checkpoints ("@;
    let b = " shown below). "@.subrange(12, 15) + left + tail;
    assert(" shown below). "@ =~= " shown below"@ + " shown below). "@.subrange(12, 15));
    assert(whole =~= a + (below + " shown below"@) + b);
    text::law_parts_occur(a, below + " shown below"@, b);
    let a = head + age + " "@ + logged + " messages logged, "@ + kept + " checkpoints ("@ + below + " shown below). "@;
    let since = " messages since the last checkpoint"@;
    let b = tail.subrange(since.len() as int, tail.len() as int);
    assert(tail.subrange(0, since.len() as int) =~= since);
    assert(tail =~= since + b);
    assert(whole =~= a + (left + since) + b);
    text::law_parts_occur(a, left + since, b);
}

/// The age of a session is told from its first and last message: both days and
/// the number of days between them, one day in the singular; it is unknown
/// where a session has no messages.
pub proof fn law_the_age_is_told_from_both_ends(stats: ChronicleStats, first: Seq<char>, last: Seq<char>, days: int)
    ensures
        stats.first_message_at is None || stats.last_message_at is None ==> stats_span(stats) is None,
        stats.first_message_at is Some && stats.last_message_at is Some ==> stats_span(stats) is Some,
        stats_span(stats) matches Some((from, to, days)) ==> {
            let (begun, ended) = (stats.first_message_at->0 as int, stats.last_message_at->0 as int);
            &&& from == time::utc_text(begun, Pattern::Day.notation())
            &&& to == time::utc_text(ended, Pattern::Day.notation())
            &&& begun <= ended ==> days * time::DAY <= ended - begun < (days + 1) * time::DAY
        },
        text::occurs_in(age_text(Some((first, last, days))), first + " → "@ + last),
        days == 1 ==> text::ends(age_text(Some((first, last, days))), "(1 day)."@),
        days != 1 ==> text::ends(age_text(Some((first, last, days))), text::signed_decimal(days) + " days)."@),
{
    reveal_strlit("(1 day).");
    reveal_strlit(" day");
    reveal_strlit("s");
    reveal_strlit("");
    reveal_strlit(").");
    reveal_strlit(" (");
    reveal_strlit(" days).");
    if let (Some(first), Some(last)) = (stats.first_message_at, stats.last_message_at) {
        time::law_days_are_whole(first as int, last as int);
    }
    let shown = text::signed_decimal(days);
    let plural = if days == 1 {
        ""@
    } else {
        "s"@
    };
    let whole = age_text(Some((first, last, days)));
    let a = "Session spans "@;
    let range = first + " → "@ + last;
    let b = " ("@ + shown + " day"@ + plural + ")."@;
    assert(whole =~= a + range + b);
    text::law_parts_occur(a, range, b);
    if days == 1 {
        assert(shown =~= seq!['1']);
        let end = "(1 day)."@;
        let front = a + range + " ("@.subrange(0, 1);
        assert(whole =~= front + end);
        text::law_parts_occur(front, end, Seq::empty());
    } else {
        let end = shown + " days)."@;
        let front = a + range + " ("@;
        assert(whole =~= front + end);
        text::law_parts_occur(front, end, Seq::empty());
    }
}

/// A channel has a view exactly when it has a checkpoint, and the view begins
/// with a header that counts what it lists.
pub proof fn law_a_view_needs_a_checkpoint(
    store: ChronicleStore,
    channel: Seq<char>,
    now: int,
    config: ChronicleConfig,
)
    requires
        store.checkpoints@.len() <= i64::MAX,
    ensures
        chronicle_view(store, channel, now, config) is Some <==> exists|k: int|
            0 <= k < store.checkpoints@.len() && (#[trigger] store.checkpoints@[k]).channel_id@ == channel,
{
    let rows = store.checkpoints@;
    let kept = chronicle::committed_before(rows, channel, None);
    chronicle::law_what_was_committed_before(rows, channel, None, kept[0]);
    if kept.len() > 0 {
        assert(kept.contains(kept[0]));
        let k = choose|k: int| 0 <= k < rows.len() && rows[k] == kept[0];
        assert(rows[k].channel_id@ == channel);
    }
    if exists|k: int| 0 <= k < rows.len() && (#[trigger] rows[k]).channel_id@ == channel {
        let k = choose|k: int| 0 <= k < rows.len() && (#[trigger] rows[k]).channel_id@ == channel;
        chronicle::law_what_was_committed_before(rows, channel, None, rows[k]);
        assert(rows.contains(rows[k]));
    }
}

/// The recent window holds the channel's latest checkpoints that end within
/// it, and no more than its limit.
pub proof fn law_recent_rows_end_within_the_window(
    rows: Seq<ChronicleCheckpoint>,
    channel: Seq<char>,
    now: int,
    config: ChronicleConfig,
    row: ChronicleCheckpoint,
)
    requires
        i64::MIN <= now - config.recent_window_hours * 3600 <= i64::MAX,
    ensures
        recent_rows(rows, channel, now, config).contains(row) ==> rows.contains(row) && row.channel_id@ == channel
            && row.level == 0 && row.covers_to_at >= now - config.recent_window_hours * 3600,
        rows.contains(row) && row.channel_id@ == channel && row.level == 0 && row.covers_to_at >= now
            - config.recent_window_hours * 3600 && (config.max_recent < 0 || config.max_recent >= rows.len())
            ==> recent_rows(rows, channel, now, config).contains(row),
        config.max_recent >= 0 ==> recent_rows(rows, channel, now, config).len() <= config.max_recent,
{
    let since = (now - config.recent_window_hours * 3600) as i64;
    let wanted = chronicle::Wanted { level: 0, since: Some(since), before_seq: None };
    let all = chronicle::chosen(rows, channel, wanted);
    chronicle::law_a_listing_holds_what_it_asks_for(rows, channel, wanted, row);
    chronicle::law_limits_keep_one_end(all, config.max_recent as int);
    filtered_is_no_longer(rows, |row: ChronicleCheckpoint| chronicle::wants(channel, wanted, row));
    let listed = chronicle::last_rows(all, config.max_recent as int);
    suffix_holds_no_more(listed, all, row);
    if listed.len() == all.len() {
        assert(listed =~= all);
    }
}

proof fn filtered_is_no_longer(rows: Seq<ChronicleCheckpoint>, pred: spec_fn(ChronicleCheckpoint) -> bool)
    ensures
        rows.filter(pred).len() <= rows.len(),
    decreases rows.len(),
{
    reveal(Seq::filter);
    if rows.len() > 0 {
        filtered_is_no_longer(rows.drop_last(), pred);
    }
}

proof fn suffix_holds_no_more(part: Seq<ChronicleCheckpoint>, all: Seq<ChronicleCheckpoint>, row: ChronicleCheckpoint)
    requires
        part.is_suffix_of(all),
    ensures
        part.contains(row) ==> all.contains(row),
{
    if part.contains(row) {
        let k = choose|k: int| 0 <= k < part.len() && part[k] == row;
        assert(all[all.len() - part.len() + k] == row);
    }
}

/// The older rows all come before the recent ones, so that none is shown twice;
/// with no recent rows they are the channel's latest.
pub proof fn law_older_rows_come_before_the_recent(
    rows: Seq<ChronicleCheckpoint>,
    channel: Seq<char>,
    recent: Seq<ChronicleCheckpoint>,
    config: ChronicleConfig,
    row: ChronicleCheckpoint,
)
    ensures
        older_rows(rows, channel, recent, config).contains(row) ==> rows.contains(row) && row.channel_id@ == channel
            && row.level == 0 && (recent.len() > 0 ==> row.seq < recent[0].seq),
        rows.contains(row) && row.channel_id@ == channel && row.level == 0 && (recent.len() > 0 ==> row.seq
            < recent[0].seq) && (config.max_older < 0 || config.max_older >= rows.len()) ==> older_rows(
            rows,
            channel,
            recent,
            config,
        ).contains(row),
        config.max_older >= 0 ==> older_rows(rows, channel, recent, config).len() <= config.max_older,
{
    let before = if recent.len() > 0 {
        Some(recent[0].seq)
    } else {
        None
    };
    let wanted = chronicle::Wanted { level: 0, since: None, before_seq: before };
    let all = chronicle::chosen(rows, channel, wanted);
    chronicle::law_a_listing_holds_what_it_asks_for(rows, channel, wanted, row);
    chronicle::law_limits_keep_one_end(all, config.max_older as int);
    filtered_is_no_longer(rows, |row: ChronicleCheckpoint| chronicle::wants(channel, wanted, row));
    let listed = chronicle::last_rows(all, config.max_older as int);
    suffix_holds_no_more(listed, all, row);
    if listed.len() == all.len() {
        assert(listed =~= all);
    }
}

/// The view lists the older rows and behind them the recent ones, under a
/// header that counts both.
pub proof fn law_a_view_lists_older_rows_before_recent(
    store: ChronicleStore,
    channel: Seq<char>,
    now: int,
    config: ChronicleConfig,
)
    requires
        chronicle_view(store, channel, now, config) is Some,
    ensures
        ({
            let view = chronicle_view(store, channel, now, config)->0;
            let recent = recent_rows(store.checkpoints@, channel, now, config);
            let older = older_rows(store.checkpoints@, channel, recent, config);
            let stats = chronicle::stats_of(store, channel);
            let header = header_text(age_text(stats_span(stats)), stats, (older.len() + recent.len()) as int);
            let listed = entries_of(older) + entries_of(recent);
            let collapsed = collapse_count(header, listed, config.context_token_budget as int, 0);
            &&& text::begins(view, header)
            &&& text::ends(
                view,
                body(entries_of(older), collapsed) + body(entries_of(recent), collapsed - older.len()),
            )
        }),
{
    let recent = recent_rows(store.checkpoints@, channel, now, config);
    let older = older_rows(store.checkpoints@, channel, recent, config);
    let stats = chronicle::stats_of(store, channel);
    let header = header_text(age_text(stats_span(stats)), stats, (older.len() + recent.len()) as int);
    let listed = entries_of(older) + entries_of(recent);
    let collapsed = collapse_count(header, listed, config.context_token_budget as int, 0);
    assert(entries_of(older + recent) =~= listed);
    law_entries_run_on(entries_of(older), entries_of(recent), collapsed);
    framed(header, body(listed, collapsed));
}

proof fn framed(header: Seq<char>, below: Seq<char>)
    ensures
        text::begins(header + "\n"@ + below, header),
        text::ends(header + "\n"@ + below, below),
{
    let whole = header + "\n"@ + below;
    let at = header.len() + "\n"@.len();
    assert(whole.subrange(0, header.len() as int) =~= header);
    assert(whole.subrange(at as int, whole.len() as int) =~= below);
}

} // verus!
