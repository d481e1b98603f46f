//! `spacebot memory`: agent memories over the control API.
use vstd::prelude::*;
use crate::cli::output;
use crate::cli::output::{LineModel, Report, Row};
use crate::cli::request;
use crate::cli::request::{Query, Request, RequestModel};
use crate::json;
use crate::text;
use crate::time;
use crate::time::Pattern;

verus! {

broadcast use vstd::seq::group_seq_axioms;

/// The memory commands.
#[derive(Debug)]
#[allow(inconsistent_fields)]
pub enum MemoryCommand {
    /// List memories for an agent
    List {
        agent: String,
        limit: Option<i64>,
        offset: Option<usize>,
        memory_type: Option<String>,
        sort: Option<String>,
    },
    /// Search memories with hybrid search (vector + FTS + graph)
    Search { query: String, agent: String, limit: Option<usize>, memory_type: Option<String> },
}

/// The request that a command makes.
pub open spec fn request_of(command: MemoryCommand) -> RequestModel {
    match command {
        MemoryCommand::List { agent, limit, offset, memory_type, sort } => {
            let parts = request::with_text(request::no_params(), "agent_id"@, agent@);
            let parts = request::with_opt_number(parts, "limit"@, json::opt_int(limit));
            let parts = request::with_opt_count(parts, "offset"@, offset);
            let parts = request::with_opt_text(parts, "memory_type"@, text::opt_text(memory_type));
            let parts = request::with_opt_text(parts, "sort"@, text::opt_text(sort));
            request::reads(request::with_query("agents/memories"@, parts))
        },
        MemoryCommand::Search { query, agent, limit, memory_type } => {
            let parts = request::with_text(request::no_params(), "agent_id"@, agent@);
            let parts = request::with_text(parts, "q"@, query@);
            let parts = request::with_opt_count(parts, "limit"@, limit);
            let parts = request::with_opt_text(parts, "memory_type"@, text::opt_text(memory_type));
            request::reads(request::with_query("agents/memories/search"@, parts))
        },
    }
}

/// Plans the request of a command.
pub fn plan(command: &MemoryCommand) -> (request: Request)
    ensures
        request@ == request_of(*command),
{
    let mut params = Query::new();
    match command {
        MemoryCommand::List { agent, limit, offset, memory_type, sort } => {
            params.text("agent_id", agent.as_str());
            params.opt_number("limit", *limit);
            params.opt_count("offset", *offset);
            params.opt_text("memory_type", memory_type);
            params.opt_text("sort", sort);
            Request::get(params.after("agents/memories"))
        },
        MemoryCommand::Search { query, agent, limit, memory_type } => {
            params.text("agent_id", agent.as_str());
            params.text("q", query.as_str());
            params.opt_count("limit", *limit);
            params.opt_text("memory_type", memory_type);
            Request::get(params.after("agents/memories/search"))
        },
    }
}

/// How many characters of a memory are shown.
pub const MAX_CHARS: usize = 80;

/// The first line of a content, cut for display, with an ellipsis where
/// something is left out.
pub open spec fn summary_of(content: Seq<char>) -> Seq<char> {
    let lines = text::lines_of(content);
    let line = if lines.len() > 0 {
        lines[0]
    } else {
        ""@
    };
    let shown = if line.len() > MAX_CHARS {
        line.take(MAX_CHARS as int)
    } else {
        line
    };
    if lines.len() > 1 || line.len() > MAX_CHARS {
        shown + "..."@
    } else {
        shown
    }
}

/// First line of the content, truncated for table display.
pub fn summary(content: &str) -> (shown: String)
    ensures
        shown@ == summary_of(content@),
{
    let lines = text::lines(content);
    let ghost all = text::lines_of(content@);
    let line = if lines.len() > 0 {
        assert(text::texts(lines@)[0] == lines@[0]@);
        lines[0].as_str()
    } else {
        ""
    };
    let len: usize = line.unicode_len();
    let mut shown = if len > MAX_CHARS {
        let cut = line.substring_char(0, MAX_CHARS);
        assert(cut@ =~= line@.take(MAX_CHARS as int));
        cut.to_owned()
    } else {
        line.to_owned()
    };
    if lines.len() > 1 || len > MAX_CHARS {
        shown.push_str("...");
    }
    shown
}

/// A memory as a listing has it, with its importance written out.
#[derive(Debug)]
pub struct MemoryEntry {
    pub id: String,
    pub memory_type: String,
    pub importance: String,
    pub updated_at: i64,
    pub content: String,
}

/// The row of a memory.
pub open spec fn memory_cells(memory: MemoryEntry) -> Seq<Seq<char>> {
    seq![
        memory.id@,
        memory.memory_type@,
        memory.importance@,
        time::written(memory.updated_at as int, Pattern::Minute),
        summary_of(memory.content@),
    ]
}

/// The headings of a listing.
pub open spec fn list_headers() -> Seq<Seq<char>> {
    seq!["ID"@, "TYPE"@, "IMPORTANCE"@, "UPDATED"@, "CONTENT"@]
}

/// What is printed of a listing.
pub open spec fn list_lines(memories: Seq<MemoryEntry>, total: int) -> Seq<LineModel> {
    if memories.len() == 0 {
        seq![LineModel::Note("No memories found."@)]
    } else {
        output::out_lines(
            output::table_lines(list_headers(), memories.map_values(|memory: MemoryEntry| memory_cells(memory))),
        ) + seq![
            LineModel::Note(
                text::decimal(memories.len()) + " of "@ + text::signed_decimal(total) + " memories."@,
            ),
        ]
    }
}

/// Prints a listing.
pub fn print_list(memories: &Vec<MemoryEntry>, total: i64) -> (report: Report)
    requires
        forall|i: int| 0 <= i < memories@.len() ==> time::in_calendar((#[trigger] memories@[i]).updated_at as int),
    ensures
        report@ == list_lines(memories@, total as int),
{
    if memories.len() == 0 {
        return output::message("No memories found.");
    }
    let ghost all = memories@.map_values(|memory: MemoryEntry| memory_cells(memory));
    let mut rows: Vec<Vec<String>> = Vec::new();
    let mut k: usize = 0;
    assert(output::row_texts(rows@) =~= all.take(0));
    while k < memories.len()
        invariant
            all == memories@.map_values(|memory: MemoryEntry| memory_cells(memory)),
            k <= memories@.len(),
            output::row_texts(rows@) == all.take(k as int),
            forall|i: int| 0 <= i < memories@.len() ==> time::in_calendar((#[trigger] memories@[i]).updated_at as int),
        decreases memories@.len() - k,
    {
        let ghost before = rows@;
        let memory = &memories[k];
        let row = vec![
            memory.id.clone(),
            memory.memory_type.clone(),
            memory.importance.clone(),
            time::write_utc(memory.updated_at, Pattern::Minute),
            summary(memory.content.as_str()),
        ];
        assert(text::texts(row@) =~= memory_cells(memories@[k as int]));
        rows.push(row);
        assert(output::row_texts(rows@) =~= output::row_texts(before).push(text::texts(row@)));
        assert(all.take(k + 1) =~= all.take(k as int).push(all[k as int]));
        k = k + 1;
    }
    assert(all.take(k as int) =~= all);
    let names = vec!["ID", "TYPE", "IMPORTANCE", "UPDATED", "CONTENT"];
    assert(text::slices(names@) =~= list_headers());
    let mut report = Report::new();
    report.grid(&names, &rows);
    let mut count = text::show_usize(memories.len());
    count.push_str(" of ");
    count.push_str(text::show_signed(total).as_str());
    count.push_str(" memories.");
    report.err(count.as_str());
    assert(report@ =~= list_lines(memories@, total as int));
    report
}

/// A memory that a search found, with its score written out.
#[derive(Debug)]
pub struct MemoryMatch {
    pub score: String,
    pub id: String,
    pub memory_type: String,
    pub content: String,
}

impl Row for MemoryMatch {
    open spec fn cells(&self) -> Seq<Seq<char>> {
        seq![self.score@, self.id@, self.memory_type@, summary_of(self.content@)]
    }

    fn row(&self) -> (row: Vec<String>) {
        let row = vec![
            self.score.clone(),
            self.id.clone(),
            self.memory_type.clone(),
            summary(self.content.as_str()),
        ];
        assert(text::texts(row@) =~= self.cells());
        row
    }
}

/// The headings of a search.
pub open spec fn search_headers() -> Seq<Seq<char>> {
    seq!["SCORE"@, "ID"@, "TYPE"@, "CONTENT"@]
}

/// Prints what a search found.
pub fn print_matches(matches: &Vec<MemoryMatch>) -> (report: Report)
    ensures
        report@ == output::listing("No matching memories."@, search_headers(), matches@),
{
    let names = vec!["SCORE", "ID", "TYPE", "CONTENT"];
    assert(text::slices(names@) =~= search_headers());
    output::print_listing("No matching memories.", &names, matches)
}

// ---------------------------------------------------------------------------
// Laws
// ---------------------------------------------------------------------------

/// What is shown of a memory never exceeds the limit but for the ellipsis.
pub proof fn law_summaries_stay_short(content: Seq<char>)
    ensures
        summary_of(content).len() <= MAX_CHARS + 3,
{
    reveal_strlit("...");
    reveal_strlit("");
}

/// A summary begins its memory, and is marked as cut exactly where something is
/// left out.
pub proof fn law_a_summary_begins_its_memory(content: Seq<char>)
    requires
        content.len() > 0,
    ensures
        ({
            let line = text::lines_of(content)[0];
            &&& text::lines_of(content).len() == 1 && line.len() <= MAX_CHARS ==> summary_of(content) == line
            &&& text::lines_of(content).len() > 1 && line.len() <= MAX_CHARS ==> summary_of(content) == line + "..."@
            &&& line.len() > MAX_CHARS ==> summary_of(content) == line.take(MAX_CHARS as int) + "..."@
        }),
{
    text::law_lines_hold_no_line_feed(content);
}

/// Memories are asked for by their agent and by what they are searched for.
pub proof fn law_memories_are_asked_for_by_agent(command: MemoryCommand)
    ensures
        request_of(command).method == request::Method::Get && request_of(command).body is None,
        command matches MemoryCommand::List { agent, limit, offset, memory_type, sort } ==> {
            &&& text::begins(request_of(command).path, "agents/memories"@)
            &&& text::occurs_in(request_of(command).path, "agent_id"@ + "="@ + request::in_query(agent@))
            &&& limit is Some ==> text::occurs_in(
                request_of(command).path,
                "limit"@ + "="@ + text::signed_decimal(limit->0 as int),
            )
            &&& memory_type is Some ==> text::occurs_in(
                request_of(command).path,
                "memory_type"@ + "="@ + request::in_query(memory_type->0@),
            )
            &&& sort is Some ==> text::occurs_in(request_of(command).path, "sort"@ + "="@ + request::in_query(sort->0@))
        },
        command matches MemoryCommand::Search { query, agent, limit, memory_type } ==> {
            &&& text::begins(request_of(command).path, "agents/memories/search"@)
            &&& text::occurs_in(request_of(command).path, "agent_id"@ + "="@ + request::in_query(agent@))
            &&& text::occurs_in(request_of(command).path, "q"@ + "="@ + request::in_query(query@))
            &&& memory_type is Some ==> text::occurs_in(
                request_of(command).path,
                "memory_type"@ + "="@ + request::in_query(memory_type->0@),
            )
        },
{
    broadcast use request::params_after_param;

    match command {
        MemoryCommand::List { agent, limit, offset, memory_type, sort } => {
            let one = request::with_text(request::no_params(), "agent_id"@, agent@);
            let two = request::with_opt_number(one, "limit"@, json::opt_int(limit));
            let three = request::with_opt_count(two, "offset"@, offset);
            let four = request::with_opt_text(three, "memory_type"@, text::opt_text(memory_type));
            let parts = request::with_opt_text(four, "sort"@, text::opt_text(sort));
            let whose = "agent_id"@ + "="@ + request::in_query(agent@);
            assert(one.contains(whose));
            held_on(one, limit, offset, memory_type, sort, whose);
            request::law_parameters_stand_in_the_address("agents/memories"@, parts, whose);
            if let Some(limit) = limit {
                let part = "limit"@ + "="@ + text::signed_decimal(limit as int);
                assert(two.contains(part));
                assert(three.contains(part));
                assert(four.contains(part));
                assert(parts.contains(part));
                request::law_parameters_stand_in_the_address("agents/memories"@, parts, part);
            }
            if let Some(kind) = memory_type {
                let part = "memory_type"@ + "="@ + request::in_query(kind@);
                assert(four.contains(part));
                assert(parts.contains(part));
                request::law_parameters_stand_in_the_address("agents/memories"@, parts, part);
            }
            if let Some(sort) = sort {
                let part = "sort"@ + "="@ + request::in_query(sort@);
                assert(parts.contains(part));
                request::law_parameters_stand_in_the_address("agents/memories"@, parts, part);
            }
        },
        MemoryCommand::Search { query, agent, limit, memory_type } => {
            let one = request::with_text(request::no_params(), "agent_id"@, agent@);
            let two = request::with_text(one, "q"@, query@);
            let three = request::with_opt_count(two, "limit"@, limit);
            let parts = request::with_opt_text(three, "memory_type"@, text::opt_text(memory_type));
            let whose = "agent_id"@ + "="@ + request::in_query(agent@);
            let what = "q"@ + "="@ + request::in_query(query@);
            assert(one.contains(whose));
            assert(two.contains(whose) && two.contains(what));
            assert(three.contains(whose) && three.contains(what));
            assert(parts.contains(whose) && parts.contains(what));
            request::law_parameters_stand_in_the_address("agents/memories/search"@, parts, whose);
            request::law_parameters_stand_in_the_address("agents/memories/search"@, parts, what);
            if let Some(kind) = memory_type {
                let part = "memory_type"@ + "="@ + request::in_query(kind@);
                assert(parts.contains(part));
                request::law_parameters_stand_in_the_address("agents/memories/search"@, parts, part);
            }
        },
    }
}

proof fn held_on(
    parts: Seq<Seq<char>>,
    limit: Option<i64>,
    offset: Option<usize>,
    memory_type: Option<String>,
    sort: Option<String>,
    part: Seq<char>,
)
    requires
        parts.contains(part),
    ensures
        request::with_opt_text(
            request::with_opt_text(
                request::with_opt_count(
                    request::with_opt_number(parts, "limit"@, json::opt_int(limit)),
                    "offset"@,
                    offset,
                ),
                "memory_type"@,
                text::opt_text(memory_type),
            ),
            "sort"@,
            text::opt_text(sort),
        ).contains(part),
{
    broadcast use request::params_after_param;

    let two = request::with_opt_number(parts, "limit"@, json::opt_int(limit));
    assert(two.contains(part));
    let three = request::with_opt_count(two, "offset"@, offset);
    assert(three.contains(part));
    let four = request::with_opt_text(three, "memory_type"@, text::opt_text(memory_type));
    assert(four.contains(part));
}

/// A row shows its memory, and a listing counts what it shows of all there are.
pub proof fn law_a_listed_memory_shows_itself(memory: MemoryEntry, memories: Seq<MemoryEntry>, total: int)
    ensures
        memory_cells(memory).len() == list_headers().len(),
        memory_cells(memory)[0] == memory.id@ && memory_cells(memory)[1] == memory.memory_type@,
        memory_cells(memory)[2] == memory.importance@ && memory_cells(memory)[4] == summary_of(memory.content@),
        memories.len() == 0 ==> list_lines(memories, total).len() == 1,
        memories.len() > 0 ==> list_lines(memories, total).len() == memories.len() + 2 && list_lines(
            memories,
            total,
        ).last() == LineModel::Note(
            text::decimal(memories.len()) + " of "@ + text::signed_decimal(total) + " memories."@,
        ),
{
}

} // verus!
