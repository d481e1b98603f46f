//! `spacebot prompt`: captured LLM requests in the terminal.
use vstd::prelude::*;
use crate::cli::output;
use crate::cli::output::{LineModel, Report};
use crate::cli::request;
use crate::cli::request::{Method, Query, Request, RequestModel};
use crate::json;
use crate::json::{Body, Json, JsonModel};
use crate::llm::record::{PromptRecord, PromptRequestSummary, ToolRef};
use crate::prompts::blocks::PromptBlock;
use crate::text;
use crate::time;
use crate::time::Pattern;

verus! {

broadcast use vstd::seq::group_seq_axioms;

/// The prompt commands.
#[derive(Debug)]
pub enum PromptCommand {
    /// List captured requests, newest first
    List { channel: Option<String>, process: Option<String>, message: Option<String>, limit: i64 },
    /// Show one captured request
    Show { request_id: String, raw: bool },
    /// Compare the block maps of two captured requests
    ///
    /// Reports which blocks changed rather than which bytes did, so a prompt
    /// that grew between two turns names the block responsible.
    Diff { first: String, second: String },
    /// Turn request capture on or off
    Capture { state: String, retain: Option<i64> },
}

/// The request for a captured one.
pub open spec fn record_request(request_id: Seq<char>) -> RequestModel {
    request::reads(
        request::with_query("prompts/get"@, request::with_text(request::no_params(), "request_id"@, request_id)),
    )
}

/// Whether a word turns capture on or off; neither for other words.
pub open spec fn switched(state: Seq<char>) -> Option<bool> {
    if state == "on"@ || state == "true"@ || state == "enable"@ {
        Some(true)
    } else if state == "off"@ || state == "false"@ || state == "disable"@ {
        Some(false)
    } else {
        None
    }
}

/// Reads a word that turns capture on or off.
pub fn read_state(state: &str) -> (enabled: Option<bool>)
    ensures
        enabled == switched(state@),
{
    if text::same(state, "on") || text::same(state, "true") || text::same(state, "enable") {
        Some(true)
    } else if text::same(state, "off") || text::same(state, "false") || text::same(state, "disable") {
        Some(false)
    } else {
        None
    }
}

/// The requests that a command makes, or why it makes none.
pub open spec fn requests_of(command: PromptCommand) -> Result<Seq<RequestModel>, Seq<char>> {
    match command {
        PromptCommand::List { channel, process, message, limit } => {
            let parts = request::with_number(request::no_params(), "limit"@, limit as int);
            let parts = request::with_opt_text(parts, "channel_id"@, text::opt_text(channel));
            let parts = request::with_opt_text(parts, "process_id"@, text::opt_text(process));
            let parts = request::with_opt_text(parts, "message_id"@, text::opt_text(message));
            Ok(seq![request::reads(request::with_query("prompts"@, parts))])
        },
        PromptCommand::Show { request_id, .. } => Ok(seq![record_request(request_id@)]),
        PromptCommand::Diff { first, second } => Ok(seq![record_request(first@), record_request(second@)]),
        PromptCommand::Capture { state, retain } => match switched(state@) {
            Some(enabled) => Ok(
                seq![
                    request::sends(
                        Method::Post,
                        "prompts/capture"@,
                        json::with_opt_number(
                            json::with_flag(json::no_members(), "enabled"@, enabled),
                            "retention_days"@,
                            json::opt_int(retain),
                        ),
                    ),
                ],
            ),
            None => Err("expected `on` or `off`, got `"@ + state@ + "`"@),
        },
    }
}

/// What planned requests are.
pub open spec fn planned_all(plan: Result<Vec<Request>, String>) -> Result<Seq<RequestModel>, Seq<char>> {
    match plan {
        Ok(requests) => Ok(requests@.map_values(|request: Request| request@)),
        Err(reason) => Err(reason@),
    }
}

fn ask_record(request_id: &str) -> (request: Request)
    ensures
        request@ == record_request(request_id@),
{
    let mut query = Query::new();
    query.text("request_id", request_id);
    Request::get(query.after("prompts/get"))
}

/// Plans the requests of a command.
pub fn plan(command: &PromptCommand) -> (plan: Result<Vec<Request>, String>)
    ensures
        planned_all(plan) == requests_of(*command),
{
    let ghost expected = requests_of(*command);
    let requests = match command {
        PromptCommand::List { channel, process, message, limit } => {
            let mut query = Query::new();
            query.number("limit", *limit);
            query.opt_text("channel_id", channel);
            query.opt_text("process_id", process);
            query.opt_text("message_id", message);
            vec![Request::get(query.after("prompts"))]
        },
        PromptCommand::Show { request_id, .. } => vec![ask_record(request_id.as_str())],
        PromptCommand::Diff { first, second } => vec![ask_record(first.as_str()), ask_record(second.as_str())],
        PromptCommand::Capture { state, retain } => match read_state(state.as_str()) {
            Some(enabled) => {
                let mut body = Body::new();
                body.flag("enabled", enabled);
                body.opt_number("retention_days", *retain);
                vec![Request::with(Method::Post, "prompts/capture".to_owned(), body)]
            },
            None => {
                return Err(request::path_around("expected `on` or `off`, got `", state.as_str(), "`"));
            },
        },
    };
    assert(requests@.map_values(|request: Request| request@) =~= expected->Ok_0);
    Ok(requests)
}

// ---------------------------------------------------------------------------
// Listings
// ---------------------------------------------------------------------------

/// A quarter of a number, rounded towards zero.
pub open spec fn quarter_of(n: int) -> int {
    if n >= 0 {
        n / 4
    } else {
        -((-n) / 4)
    }
}

fn quarter(n: i64) -> (q: i64)
    ensures
        q == quarter_of(n as int),
{
    if n >= 0 {
        n / 4
    } else {
        let positive: u64 = (0 - n as i128) as u64;
        0 - (positive / 4) as i64
    }
}

/// The first characters of a request's id.
pub open spec fn short_id(id: Seq<char>) -> Seq<char> {
    if id.len() <= 8 {
        id
    } else {
        id.take(8)
    }
}

/// The row of a captured request.
pub open spec fn summary_cells(summary: PromptRequestSummary) -> Seq<Seq<char>> {
    seq![
        short_id(summary.request_id@),
        output::minute_of(time::written(summary.started_at.at as int, Pattern::Rfc3339)),
        summary.process_kind@,
        text::or_text(text::opt_text(summary.trigger), ""@),
        text::signed_decimal(quarter_of(summary.system_chars as int)),
        text::signed_decimal(summary.history_length as int),
        text::signed_decimal(summary.tool_count as int),
        summary.model@,
    ]
}

/// The headings of a listing.
pub open spec fn list_headers() -> Seq<Seq<char>> {
    seq!["ID"@, "WHEN"@, "PROCESS"@, "TRIGGER"@, "~SYSTOK"@, "MSGS"@, "TOOLS"@, "MODEL"@]
}

/// What is printed of captured requests.
pub open spec fn list_lines(requests: Seq<PromptRequestSummary>, capture_on: bool) -> Seq<LineModel> {
    if requests.len() == 0 {
        seq![
            LineModel::Note(
                if capture_on {
                    "No captured requests match."@
                } else {
                    "Prompt capture is off. Turn it on with `spacebot prompt capture on`."@
                },
            ),
        ]
    } else {
        output::out_lines(
            output::table_lines(
                list_headers(),
                requests.map_values(|summary: PromptRequestSummary| summary_cells(summary)),
            ),
        )
    }
}

fn summary_row(summary: &PromptRequestSummary) -> (row: Vec<String>)
    requires
        time::in_calendar(summary.started_at.at as int),
    ensures
        text::texts(row@) == summary_cells(*summary),
{
    let id = if summary.request_id.as_str().unicode_len() <= 8 {
        summary.request_id.clone()
    } else {
        let cut = summary.request_id.as_str().substring_char(0, 8);
        assert(cut@ =~= summary.request_id@.take(8));
        cut.to_owned()
    };
    let row = vec![
        id,
        output::short_timestamp(time::write_utc(summary.started_at.at, Pattern::Rfc3339).as_str()),
        summary.process_kind.clone(),
        text::or_default(&summary.trigger, ""),
        text::show_signed(quarter(summary.system_chars)),
        text::show_signed(summary.history_length),
        text::show_signed(summary.tool_count),
        summary.model.clone(),
    ];
    assert(text::texts(row@) =~= summary_cells(*summary));
    row
}

/// Prints captured requests.
pub fn print_list(requests: &Vec<PromptRequestSummary>, capture_on: bool) -> (report: Report)
    requires
        forall|i: int| 0 <= i < requests@.len() ==> time::in_calendar((#[trigger] requests@[i]).started_at.at as int),
    ensures
        report@ == list_lines(requests@, capture_on),
{
    if requests.len() == 0 {
        return output::message(
            if capture_on {
                "No captured requests match."
            } else {
                "Prompt capture is off. Turn it on with `spacebot prompt capture on`."
            },
        );
    }
    let ghost all = requests@.map_values(|summary: PromptRequestSummary| summary_cells(summary));
    let mut rows: Vec<Vec<String>> = Vec::new();
    let mut k: usize = 0;
    assert(output::row_texts(rows@) =~= all.take(0));
    while k < requests.len()
        invariant
            all == requests@.map_values(|summary: PromptRequestSummary| summary_cells(summary)),
            k <= requests@.len(),
            output::row_texts(rows@) == all.take(k as int),
            forall|i: int| 0 <= i < requests@.len() ==> time::in_calendar((#[trigger] requests@[i]).started_at.at as int),
        decreases requests@.len() - k,
    {
        let ghost before = rows@;
        let row = summary_row(&requests[k]);
        rows.push(row);
        assert(output::row_texts(rows@) =~= output::row_texts(before).push(text::texts(row@)));
        assert(all.take(k + 1) =~= all.take(k as int).push(all[k as int]));
        k = k + 1;
    }
    assert(all.take(k as int) =~= all);
    let names = vec!["ID", "WHEN", "PROCESS", "TRIGGER", "~SYSTOK", "MSGS", "TOOLS", "MODEL"];
    assert(text::slices(names@) =~= list_headers());
    let mut report = Report::new();
    report.grid(&names, &rows);
    assert(report@ =~= list_lines(requests@, capture_on));
    report
}

// ---------------------------------------------------------------------------
// One request
// ---------------------------------------------------------------------------

/// Whether a block lies in a prompt, between two characters each.
pub open spec fn lies_in(prompt: Seq<char>, block: PromptBlock) -> bool {
    &&& block.start <= block.end
    &&& text::is_boundary(prompt, block.start as int)
    &&& text::is_boundary(prompt, block.end as int)
}

/// Whether all blocks lie in a prompt.
pub open spec fn all_lie_in(prompt: Seq<char>, blocks: Seq<PromptBlock>) -> bool {
    forall|i: int| 0 <= i < blocks.len() ==> lies_in(prompt, #[trigger] blocks[i])
}

/// The text of a block.
pub open spec fn block_text(prompt: Seq<char>, block: PromptBlock) -> Seq<char> {
    prompt.subrange(
        text::chars_before(prompt, block.start as int),
        text::chars_before(prompt, block.end as int),
    )
}

/// The line that heads a block. `percent` is its share of the prompt's bytes,
/// written out.
pub open spec fn block_head(block: PromptBlock, percent: Seq<char>) -> Seq<char> {
    "--- "@ + block.id@ + " ["@ + block.layer.name() + "·"@ + block.stability.name() + "] "@ + text::decimal(
        block.chars as nat,
    ) + " ch · ~"@ + text::decimal(block.tokens as nat) + " tok · "@ + percent + "% ---"@
}

/// What is printed of the first blocks.
pub open spec fn block_lines(
    prompt: Seq<char>,
    blocks: Seq<PromptBlock>,
    percents: Seq<Seq<char>>,
    n: int,
) -> Seq<LineModel>
    decreases n,
{
    if n <= 0 {
        Seq::empty()
    } else {
        block_lines(prompt, blocks, percents, n - 1) + seq![
            LineModel::Out(block_head(blocks[n - 1], percents[n - 1])),
            LineModel::Out(block_text(prompt, blocks[n - 1])),
        ]
    }
}

/// What is printed of the system prompt: whole, or block by block.
pub open spec fn system_lines(prompt: Seq<char>, blocks: Seq<PromptBlock>, percents: Seq<Seq<char>>) -> Seq<LineModel> {
    if blocks.len() == 0 {
        seq![
            LineModel::Out("--- SYSTEM PROMPT ("@ + text::decimal(text::byte_len(prompt)) + " chars) ---"@),
            LineModel::Out(prompt),
        ]
    } else {
        block_lines(prompt, blocks, percents, blocks.len() as int)
    }
}

/// The line of a tool.
pub open spec fn tool_line(tool: ToolRef) -> LineModel {
    LineModel::Out(
        tool.name@ + output::blanks(28 - tool.name@.len()) + " "@ + text::decimal(tool.chars as nat) + " ch"@,
    )
}

/// What is printed of the tools.
pub open spec fn tool_lines(tools: Seq<ToolRef>) -> Seq<LineModel> {
    if tools.len() == 0 {
        Seq::empty()
    } else {
        seq![LineModel::Out("\n--- TOOLS ("@ + text::decimal(tools.len()) + ") ---"@)] + tools.map_values(
            |tool: ToolRef| tool_line(tool),
        )
    }
}

/// What is printed of who made the request and what it used. `cost` is the
/// price, written out, where there was one.
pub open spec fn head_lines(record: PromptRecord, cost: Option<Seq<char>>) -> Seq<LineModel> {
    seq![
        LineModel::Out("request  "@ + record.request_id@),
        LineModel::Out(
            "process  "@ + record.process.kind@ + " "@ + output::or_dash(text::opt_text(record.process.id)) + (
            match record.process.process_type {
                Some(kind) => " ("@ + kind@ + ")"@,
                None => ""@,
            }),
        ),
        LineModel::Out("model    "@ + record.model.name@),
        LineModel::Out("trigger  "@ + record.trigger.kind@),
    ] + output::opt_line("parent   "@, text::opt_text(record.trigger.parent)) + seq![
        LineModel::Out(
            "usage    "@ + text::decimal(record.usage.input_tokens as nat) + " in / "@ + text::decimal(
                record.usage.output_tokens as nat,
            ) + " out"@ + (match cost {
                Some(cost) => " · "@ + cost,
                None => ""@,
            }),
        ),
        LineModel::Out(""@),
    ]
}

/// What is printed of what came back.
pub open spec fn response_lines(answer: Option<Seq<char>>, tool_calls: Seq<Seq<char>>, error: Option<Seq<char>>) -> Seq<
    LineModel,
> {
    (match answer {
        Some(answer) => seq![LineModel::Out("\n--- RESPONSE ---"@), LineModel::Out(answer)],
        None => Seq::empty(),
    }) + (if tool_calls.len() == 0 {
        Seq::empty()
    } else {
        seq![LineModel::Out("\ntool calls: "@ + text::joined(tool_calls, ", "@))]
    }) + output::opt_line("\nerror: "@, error)
}

/// What is printed of a captured request. `messages` is its history as JSON.
pub open spec fn record_lines(
    record: PromptRecord,
    percents: Seq<Seq<char>>,
    cost: Option<Seq<char>>,
    messages: Seq<char>,
) -> Seq<LineModel> {
    head_lines(record, cost) + system_lines(record.system.text@, record.system.blocks@, percents) + tool_lines(
        record.tools@,
    ) + seq![
        LineModel::Out("\n--- MESSAGES ("@ + text::decimal(record.history_length as nat) + ") ---"@),
        LineModel::Out(messages),
    ] + response_lines(
        text::opt_text(record.response.text),
        text::texts(record.response.tool_calls@),
        text::opt_text(record.response.error),
    )
}

fn print_head(record: &PromptRecord, cost: &Option<String>) -> (report: Report)
    ensures
        report@ == head_lines(*record, text::opt_text(*cost)),
{
    let mut report = Report::new();
    report.field("request  ", record.request_id.as_str());
    let mut process = "process  ".to_owned();
    process.push_str(record.process.kind.as_str());
    process.push_str(" ");
    process.push_str(output::dash(&record.process.id).as_str());
    match &record.process.process_type {
        Some(kind) => {
            let mut narrow = " (".to_owned();
            narrow.push_str(kind.as_str());
            narrow.push_str(")");
            process.push_str(narrow.as_str());
        },
        None => process.push_str(""),
    }
    report.out(process.as_str());
    report.field("model    ", record.model.name.as_str());
    report.field("trigger  ", record.trigger.kind.as_str());
    report.opt_field("parent   ", &record.trigger.parent);
    let mut usage = "usage    ".to_owned();
    usage.push_str(text::show(record.usage.input_tokens).as_str());
    usage.push_str(" in / ");
    usage.push_str(text::show(record.usage.output_tokens).as_str());
    usage.push_str(" out");
    match cost {
        Some(cost) => {
            let mut price = " · ".to_owned();
            price.push_str(cost.as_str());
            usage.push_str(price.as_str());
        },
        None => usage.push_str(""),
    }
    report.out(usage.as_str());
    report.out("");
    assert(report@ =~= head_lines(*record, text::opt_text(*cost)));
    report
}

fn print_blocks(report: &mut Report, prompt: &str, blocks: &Vec<PromptBlock>, percents: &Vec<String>)
    requires
        all_lie_in(prompt@, blocks@),
        percents@.len() == blocks@.len(),
    ensures
        final(report)@ == old(report)@ + block_lines(
            prompt@,
            blocks@,
            text::texts(percents@),
            blocks@.len() as int,
        ),
{
    let ghost before = report@;
    let ghost shares = text::texts(percents@);
    let mut k: usize = 0;
    assert(report@ =~= before + block_lines(prompt@, blocks@, shares, 0));
    while k < blocks.len()
        invariant
            all_lie_in(prompt@, blocks@),
            percents@.len() == blocks@.len(),
            shares == text::texts(percents@),
            k <= blocks@.len(),
            report@ == before + block_lines(prompt@, blocks@, shares, k as int),
        decreases blocks@.len() - k,
    {
        let block = &blocks[k];
        assert(lies_in(prompt@, blocks@[k as int]));
        let mut head = "--- ".to_owned();
        head.push_str(block.id.as_str());
        head.push_str(" [");
        head.push_str(block.layer.label());
        head.push_str("·");
        head.push_str(block.stability.label());
        head.push_str("] ");
        head.push_str(text::show_usize(block.chars).as_str());
        head.push_str(" ch · ~");
        head.push_str(text::show_usize(block.tokens).as_str());
        head.push_str(" tok · ");
        head.push_str(percents[k].as_str());
        head.push_str("% ---");
        assert(shares[k as int] == percents@[k as int]@);
        report.out(head.as_str());
        report.out(text::slice_bytes(prompt, block.start, block.end).as_str());
        assert(report@ =~= before + block_lines(prompt@, blocks@, shares, k + 1));
        k = k + 1;
    }
}

fn print_tools(report: &mut Report, tools: &Vec<ToolRef>)
    ensures
        final(report)@ == old(report)@ + tool_lines(tools@),
{
    let ghost before = report@;
    if tools.len() == 0 {
        assert(before + tool_lines(tools@) =~= before);
        return;
    }
    let mut head = "\n--- TOOLS (".to_owned();
    head.push_str(text::show_usize(tools.len()).as_str());
    head.push_str(") ---");
    report.out(head.as_str());
    let ghost start = report@;
    let ghost all = tools@.map_values(|tool: ToolRef| tool_line(tool));
    let mut k: usize = 0;
    assert(report@ =~= start + all.take(0));
    while k < tools.len()
        invariant
            all == tools@.map_values(|tool: ToolRef| tool_line(tool)),
            k <= tools@.len(),
            report@ == start + all.take(k as int),
        decreases tools@.len() - k,
    {
        let tool = &tools[k];
        let mut line = tool.name.clone();
        let len: usize = tool.name.as_str().unicode_len();
        if len < 28 {
            output::push_blanks(&mut line, 28 - len);
        } else {
            assert(line@ + output::blanks(28 - len) =~= line@);
        }
        line.push_str(" ");
        line.push_str(text::show_usize(tool.chars).as_str());
        line.push_str(" ch");
        report.out(line.as_str());
        assert(report@ =~= start + all.take(k + 1));
        k = k + 1;
    }
    assert(all.take(k as int) =~= all);
    assert(report@ =~= before + tool_lines(tools@));
}

/// Prints a captured request. `percents` are the blocks' shares of the
/// prompt's bytes and `cost` its price, written out; `messages` is its history
/// as JSON.
pub fn print_record(
    record: &PromptRecord,
    percents: &Vec<String>,
    cost: &Option<String>,
    messages: &str,
) -> (report: Report)
    requires
        all_lie_in(record.system.text@, record.system.blocks@),
        percents@.len() == record.system.blocks@.len(),
    ensures
        report@ == record_lines(*record, text::texts(percents@), text::opt_text(*cost), messages@),
{
    let mut report = print_head(record, cost);
    let ghost head = report@;
    let prompt = record.system.text.as_str();
    if record.system.blocks.len() == 0 {
        let mut line = "--- SYSTEM PROMPT (".to_owned();
        line.push_str(text::show_usize(text::bytes_in(prompt)).as_str());
        line.push_str(" chars) ---");
        report.out(line.as_str());
        report.out(prompt);
    } else {
        print_blocks(&mut report, prompt, &record.system.blocks, percents);
    }
    assert(report@ =~= head + system_lines(record.system.text@, record.system.blocks@, text::texts(percents@)));
    print_tools(&mut report, &record.tools);
    let mut line = "\n--- MESSAGES (".to_owned();
    line.push_str(text::show_usize(record.history_length).as_str());
    line.push_str(") ---");
    report.out(line.as_str());
    report.out(messages);
    let ghost before = report@;
    if let Some(answer) = &record.response.text {
        report.out("\n--- RESPONSE ---");
        report.out(answer.as_str());
    }
    if record.response.tool_calls.len() > 0 {
        report.field("\ntool calls: ", text::join(&record.response.tool_calls, ", ").as_str());
    }
    report.opt_field("\nerror: ", &record.response.error);
    assert(report@ =~= before + response_lines(
        text::opt_text(record.response.text),
        text::texts(record.response.tool_calls@),
        text::opt_text(record.response.error),
    ));
    assert(report@ =~= record_lines(*record, text::texts(percents@), text::opt_text(*cost), messages@));
    report
}

/// Prints the system prompt of a captured request, with no annotations.
pub fn print_raw(record: &PromptRecord) -> (report: Report)
    ensures
        report@ == seq![LineModel::Out(record.system.text@)],
{
    output::line(record.system.text.as_str())
}

// ---------------------------------------------------------------------------
// Comparing two requests
// ---------------------------------------------------------------------------

/// The counts of two blocks, one after the other.
pub open spec fn chars_change(a: PromptBlock, b: PromptBlock) -> Seq<char> {
    text::decimal(a.chars as nat) + " → "@ + text::decimal(b.chars as nat)
}

/// What changed at a place of two block maps.
pub open spec fn change_at(left: PromptRecord, right: PromptRecord, i: int) -> Option<Seq<Seq<char>>> {
    let a = left.system.blocks@;
    let b = right.system.blocks@;
    if i < a.len() && i < b.len() {
        if a[i].id@ != b[i].id@ {
            Some(seq![a[i].id@ + " / "@ + b[i].id@, "reordered"@, chars_change(a[i], b[i])])
        } else if block_text(left.system.text@, a[i]) != block_text(right.system.text@, b[i]) {
            Some(seq![a[i].id@, "changed"@, chars_change(a[i], b[i])])
        } else {
            None
        }
    } else if i < a.len() {
        Some(seq![a[i].id@, "removed"@, "-"@])
    } else if i < b.len() {
        Some(seq![b[i].id@, "added"@, "-"@])
    } else {
        None
    }
}

/// What changed at the first places of two block maps.
pub open spec fn changes(left: PromptRecord, right: PromptRecord, n: int) -> Seq<Seq<Seq<char>>>
    decreases n,
{
    if n <= 0 {
        Seq::empty()
    } else {
        match change_at(left, right, n - 1) {
            Some(row) => changes(left, right, n - 1).push(row),
            None => changes(left, right, n - 1),
        }
    }
}

/// How many places the longer of two block maps has.
pub open spec fn places(left: PromptRecord, right: PromptRecord) -> int {
    let a = left.system.blocks@.len() as int;
    let b = right.system.blocks@.len() as int;
    if a > b {
        a
    } else {
        b
    }
}

/// Whether the blocks whose texts are compared lie in their prompts: those
/// with the same id at the same place.
pub open spec fn compared_lie_in(left: PromptRecord, right: PromptRecord) -> bool {
    let a = left.system.blocks@;
    let b = right.system.blocks@;
    forall|i: int|
        #![trigger a[i], b[i]]
        0 <= i < a.len() && i < b.len() && a[i].id@ == b[i].id@ ==> lies_in(left.system.text@, a[i]) && lies_in(
            right.system.text@,
            b[i],
        )
}

fn show_change(a: &PromptBlock, b: &PromptBlock) -> (s: String)
    ensures
        s@ == chars_change(*a, *b),
{
    let mut s = text::show_usize(a.chars);
    s.push_str(" → ");
    s.push_str(text::show_usize(b.chars).as_str());
    s
}

fn row_of(id: String, change: &str, chars: String) -> (row: Vec<String>)
    ensures
        text::texts(row@) == seq![id@, change@, chars@],
{
    let row = vec![id, change.to_owned(), chars];
    assert(text::texts(row@) =~= seq![id@, change@, chars@]);
    row
}

fn compare_at(left: &PromptRecord, right: &PromptRecord, i: usize) -> (row: Option<Vec<String>>)
    requires
        compared_lie_in(*left, *right),
    ensures
        (match row {
            Some(row) => Some(text::texts(row@)),
            None => None,
        }) == change_at(*left, *right, i as int),
{
    let a = &left.system.blocks;
    let b = &right.system.blocks;
    if i < a.len() && i < b.len() {
        if !text::same(a[i].id.as_str(), b[i].id.as_str()) {
            let mut id = a[i].id.clone();
            id.push_str(" / ");
            id.push_str(b[i].id.as_str());
            return Some(row_of(id, "reordered", show_change(&a[i], &b[i])));
        }
        assert(lies_in(left.system.text@, a@[i as int]));
        assert(lies_in(right.system.text@, b@[i as int]));
        let before = text::slice_bytes(left.system.text.as_str(), a[i].start, a[i].end);
        let after = text::slice_bytes(right.system.text.as_str(), b[i].start, b[i].end);
        if !text::same(before.as_str(), after.as_str()) {
            return Some(row_of(a[i].id.clone(), "changed", show_change(&a[i], &b[i])));
        }
        None
    } else if i < a.len() {
        Some(row_of(a[i].id.clone(), "removed", "-".to_owned()))
    } else if i < b.len() {
        Some(row_of(b[i].id.clone(), "added", "-".to_owned()))
    } else {
        None
    }
}

/// Compares the block maps of two captured requests.
pub fn diff(left: &PromptRecord, right: &PromptRecord) -> (rows: Vec<Vec<String>>)
    requires
        compared_lie_in(*left, *right),
    ensures
        output::row_texts(rows@) == changes(*left, *right, places(*left, *right)),
{
    let a: usize = left.system.blocks.len();
    let b: usize = right.system.blocks.len();
    let n: usize = if a > b {
        a
    } else {
        b
    };
    let mut rows: Vec<Vec<String>> = Vec::new();
    let mut k: usize = 0;
    assert(output::row_texts(rows@) =~= changes(*left, *right, 0));
    while k < n
        invariant
            compared_lie_in(*left, *right),
            k <= n,
            output::row_texts(rows@) == changes(*left, *right, k as int),
        decreases n - k,
    {
        let ghost before = rows@;
        if let Some(row) = compare_at(left, right, k) {
            rows.push(row);
            assert(output::row_texts(rows@) =~= output::row_texts(before).push(text::texts(row@)));
        }
        k = k + 1;
    }
    rows
}

/// The headings of a comparison.
pub open spec fn diff_headers() -> Seq<Seq<char>> {
    seq!["BLOCK"@, "CHANGE"@, "CHARS"@]
}

/// Prints a comparison.
pub fn print_diff(rows: &Vec<Vec<String>>) -> (report: Report)
    ensures
        report@ == (if rows@.len() == 0 {
            seq![LineModel::Out("Block maps are identical."@)]
        } else {
            output::out_lines(output::table_lines(diff_headers(), output::row_texts(rows@)))
        }),
{
    if rows.len() == 0 {
        return output::line("Block maps are identical.");
    }
    let names = vec!["BLOCK", "CHANGE", "CHARS"];
    assert(text::slices(names@) =~= diff_headers());
    let mut report = Report::new();
    report.grid(&names, rows);
    assert(report@ =~= output::out_lines(output::table_lines(diff_headers(), output::row_texts(rows@))));
    report
}

/// What is printed of a switch of capture.
pub open spec fn capture_line(enabled: bool, response: JsonModel) -> Seq<char> {
    "Prompt capture "@ + (if enabled {
        "on"@
    } else {
        "off"@
    }) + (match response.at("retention_days"@).as_whole() {
        Some(days) => ", keeping "@ + text::signed_decimal(days) + " days"@,
        None => ""@,
    })
}

/// Prints that capture was turned on or off.
pub fn print_capture(enabled: bool, response: &Json) -> (report: Report)
    ensures
        report@ == seq![LineModel::Out(capture_line(enabled, response@))],
{
    let mut line = "Prompt capture ".to_owned();
    line.push_str(
        if enabled {
            "on"
        } else {
            "off"
        },
    );
    match response.whole("retention_days") {
        Some(days) => {
            let kept = request::path_around(", keeping ", text::show_signed(days).as_str(), " days");
            line.push_str(kept.as_str());
        },
        None => line.push_str(""),
    }
    output::line(line.as_str())
}

// ---------------------------------------------------------------------------
// Laws
// ---------------------------------------------------------------------------

proof fn no_change_to_itself(record: PromptRecord, n: int)
    requires
        n <= record.system.blocks@.len(),
    ensures
        changes(record, record, n) == Seq::<Seq<Seq<char>>>::empty(),
    decreases n,
{
    if n > 0 {
        no_change_to_itself(record, n - 1);
    }
}

/// A record compared with itself shows no change.
pub proof fn law_a_record_equals_itself(record: PromptRecord)
    ensures
        changes(record, record, places(record, record)) == Seq::<Seq<Seq<char>>>::empty(),
{
    no_change_to_itself(record, places(record, record));
}

proof fn changes_show_a_place(left: PromptRecord, right: PromptRecord, n: int, i: int)
    requires
        0 <= i < n,
        change_at(left, right, i) is Some,
    ensures
        changes(left, right, n).contains(change_at(left, right, i)->0),
    decreases n,
{
    if i == n - 1 {
        assert(changes(left, right, n).last() == change_at(left, right, i)->0);
    } else {
        changes_show_a_place(left, right, n - 1, i);
        let front = changes(left, right, n - 1);
        let k = choose|k: int| 0 <= k < front.len() && front[k] == change_at(left, right, i)->0;
        assert(changes(left, right, n)[k] == front[k]);
    }
}

/// A block whose text differs between two prompts that agree on its id is
/// named by the comparison.
pub proof fn law_changed_blocks_are_named(left: PromptRecord, right: PromptRecord, i: int)
    requires
        0 <= i < left.system.blocks@.len(),
        i < right.system.blocks@.len(),
        left.system.blocks@[i].id@ == right.system.blocks@[i].id@,
        block_text(left.system.text@, left.system.blocks@[i]) != block_text(
            right.system.text@,
            right.system.blocks@[i],
        ),
    ensures
        changes(left, right, places(left, right)).contains(
            seq![
                left.system.blocks@[i].id@,
                "changed"@,
                chars_change(left.system.blocks@[i], right.system.blocks@[i]),
            ],
        ),
{
    changes_show_a_place(left, right, places(left, right), i);
}

/// Capture is switched by the words for on and off, and by no other.
pub proof fn law_capture_is_switched_by_its_words(state: Seq<char>)
    ensures
        switched("on"@) == Some(true) && switched("true"@) == Some(true) && switched("enable"@) == Some(true),
        switched("off"@) == Some(false) && switched("false"@) == Some(false) && switched("disable"@) == Some(false),
        switched(state) is Some ==> state == "on"@ || state == "true"@ || state == "enable"@ || state == "off"@ || state
            == "false"@ || state == "disable"@,
{
    reveal_strlit("on");
    reveal_strlit("true");
    reveal_strlit("enable");
    reveal_strlit("off");
    reveal_strlit("false");
    reveal_strlit("disable");
    assert("off"@.len() == 3 && "false"@.len() == 5 && "disable"@.len() == 7);
    assert("on"@.len() == 2 && "true"@.len() == 4 && "enable"@.len() == 6);
}

/// A record is asked for by its identifier, a comparison for two, and a switch
/// is sent with its state.
pub proof fn law_prompt_commands_ask_for_their_records(command: PromptCommand)
    ensures
        command matches PromptCommand::Show { request_id, .. } ==> requests_of(command) == Ok::<
            Seq<RequestModel>,
            Seq<char>,
        >(seq![record_request(request_id@)]),
        command matches PromptCommand::Diff { first, second } ==> requests_of(command) == Ok::<
            Seq<RequestModel>,
            Seq<char>,
        >(seq![record_request(first@), record_request(second@)]),
        command matches PromptCommand::Capture { state, retain } ==> {
            &&& requests_of(command) is Ok <==> switched(state@) is Some
            &&& requests_of(command) is Ok ==> {
                let asked = requests_of(command)->Ok_0[0];
                &&& requests_of(command)->Ok_0.len() == 1
                &&& asked.method == Method::Post
                &&& asked.body->0.at("enabled"@).as_flag() == switched(state@)
                &&& asked.body->0.at("retention_days"@).as_whole() == json::opt_int(retain)
            }
        },
        command is List ==> requests_of(command) is Ok && requests_of(command)->Ok_0.len() == 1 && requests_of(
            command,
        )->Ok_0[0].method == Method::Get,
{
    broadcast use json::member_after_set;

    reveal_strlit("enabled");
    reveal_strlit("retention_days");
    assert("enabled"@.len() != "retention_days"@.len());
}

/// A record is read, by its own identifier.
pub proof fn law_a_record_is_read_by_its_identifier(request_id: Seq<char>)
    ensures
        record_request(request_id).method == Method::Get && record_request(request_id).body is None,
        text::ends(record_request(request_id).path, "request_id"@ + "="@ + request::in_query(request_id)),
{
    let part = "request_id"@ + "="@ + request::in_query(request_id);
    let parts = request::with_text(request::no_params(), "request_id"@, request_id);
    assert(parts =~= seq![part]);
    assert(text::joined(parts, "&"@) =~= part);
    text::law_parts_occur("prompts/get"@ + "?"@, part, Seq::empty());
}

/// A quarter is rounded towards zero, and a short identifier begins its own.
pub proof fn law_quarters_round_towards_zero(n: int, id: Seq<char>)
    ensures
        n >= 0 ==> quarter_of(n) * 4 <= n < quarter_of(n) * 4 + 4,
        quarter_of(-n) == -quarter_of(n),
        short_id(id).is_prefix_of(id),
        id.len() <= 8 ==> short_id(id) == id,
        id.len() > 8 ==> short_id(id).len() == 8,
{
    assert(id.subrange(0, id.len() as int) =~= id);
}

/// A listed request shows itself, and why there is none is told by whether
/// capture is on.
pub proof fn law_a_listed_request_shows_itself(
    summary: PromptRequestSummary,
    requests: Seq<PromptRequestSummary>,
    capture_on: bool,
)
    ensures
        summary_cells(summary).len() == list_headers().len(),
        summary_cells(summary)[0] == short_id(summary.request_id@),
        summary_cells(summary)[2] == summary.process_kind@,
        summary_cells(summary)[4] == text::signed_decimal(quarter_of(summary.system_chars as int)),
        summary_cells(summary)[5] == text::signed_decimal(summary.history_length as int),
        summary_cells(summary)[6] == text::signed_decimal(summary.tool_count as int),
        summary_cells(summary)[7] == summary.model@,
        requests.len() > 0 ==> list_lines(requests, capture_on).len() == requests.len() + 1,
        requests.len() == 0 && capture_on ==> list_lines(requests, capture_on) == seq![
            LineModel::Note("No captured requests match."@),
        ],
        requests.len() == 0 && !capture_on ==> list_lines(requests, capture_on) == seq![
            LineModel::Note("Prompt capture is off. Turn it on with `spacebot prompt capture on`."@),
        ],
{
}

/// Every block is shown by a line of its own and its text below it, in order.
pub proof fn law_every_block_is_shown(prompt: Seq<char>, blocks: Seq<PromptBlock>, percents: Seq<Seq<char>>, k: int, n: int)
    requires
        0 <= k < n <= blocks.len(),
    ensures
        block_lines(prompt, blocks, percents, n).len() == 2 * n,
        block_lines(prompt, blocks, percents, n)[2 * k] == LineModel::Out(block_head(blocks[k], percents[k])),
        block_lines(prompt, blocks, percents, n)[2 * k + 1] == LineModel::Out(block_text(prompt, blocks[k])),
    decreases n,
{
    let before = block_lines(prompt, blocks, percents, n - 1);
    if n == 1 {
        assert(before.len() == 0);
    } else {
        law_every_block_is_shown(prompt, blocks, percents, if k < n - 1 {
            k
        } else {
            0
        }, n - 1);
    }
    let two = seq![
        LineModel::Out(block_head(blocks[n - 1], percents[n - 1])),
        LineModel::Out(block_text(prompt, blocks[n - 1])),
    ];
    assert(block_lines(prompt, blocks, percents, n) == before + two);
    if k == n - 1 {
        assert((before + two)[2 * k] == two[0] && (before + two)[2 * k + 1] == two[1]);
    } else {
        assert((before + two)[2 * k] == before[2 * k] && (before + two)[2 * k + 1] == before[2 * k + 1]);
    }
}

/// A prompt without a map is shown whole.
pub proof fn law_an_unmapped_prompt_is_shown_whole(prompt: Seq<char>, percents: Seq<Seq<char>>)
    ensures
        system_lines(prompt, Seq::empty(), percents).len() == 2,
        system_lines(prompt, Seq::empty(), percents)[1] == LineModel::Out(prompt),
{
}

/// A block that is only on one side is added or removed, and blocks of
/// different names are reordered.
pub proof fn law_blocks_are_compared_place_by_place(left: PromptRecord, right: PromptRecord, i: int)
    requires
        0 <= i,
    ensures
        ({
            let (a, b) = (left.system.blocks@, right.system.blocks@);
            let row = change_at(left, right, i);
            &&& i >= a.len() && i >= b.len() ==> row is None
            &&& i < a.len() && i >= b.len() ==> row == Some(seq![a[i].id@, "removed"@, "-"@])
            &&& i >= a.len() && i < b.len() ==> row == Some(seq![b[i].id@, "added"@, "-"@])
            &&& i < a.len() && i < b.len() && a[i].id@ != b[i].id@ ==> row is Some && row->0[1] == "reordered"@
            &&& i < a.len() && i < b.len() && a[i].id@ == b[i].id@ ==> (row is Some <==> block_text(
                left.system.text@,
                a[i],
            ) != block_text(right.system.text@, b[i]))
        }),
{
}

/// A response shows its answer, its tool calls and its error, each where there
/// is one.
pub proof fn law_a_response_shows_what_came(answer: Option<Seq<char>>, tool_calls: Seq<Seq<char>>, error: Option<Seq<char>>)
    ensures
        response_lines(answer, tool_calls, error).len() == (if answer is Some {
            2int
        } else {
            0
        }) + (if tool_calls.len() > 0 {
            1int
        } else {
            0
        }) + (if error is Some {
            1int
        } else {
            0
        }),
        answer is Some ==> response_lines(answer, tool_calls, error)[1] == LineModel::Out(answer->0),
        error is Some ==> response_lines(answer, tool_calls, error).last() == LineModel::Out("\nerror: "@ + error->0),
{
}

/// What capture was set to is told, with the days it keeps where it says so.
pub proof fn law_a_switch_tells_its_state(enabled: bool, response: JsonModel)
    ensures
        enabled ==> text::begins(capture_line(enabled, response), "Prompt capture "@ + "on"@),
        !enabled ==> text::begins(capture_line(enabled, response), "Prompt capture "@ + "off"@),
        response.at("retention_days"@).as_whole() matches Some(days) ==> text::occurs_in(
            capture_line(enabled, response),
            text::signed_decimal(days) + " days"@,
        ),
{
    let state = "Prompt capture "@ + (if enabled {
        "on"@
    } else {
        "off"@
    });
    match response.at("retention_days"@).as_whole() {
        Some(days) => {
            let told = text::signed_decimal(days) + " days"@;
            text::law_grouping_does_not_matter(", keeping "@, text::signed_decimal(days), " days"@);
            text::law_grouping_does_not_matter(state, ", keeping "@, told);
            text::law_parts_occur(Seq::empty(), state, ", keeping "@ + told);
            text::law_parts_occur(state + ", keeping "@, told, Seq::empty());
        },
        None => {
            text::law_parts_occur(Seq::empty(), state, ""@);
        },
    }
}

/// A record is shown with its head, its prompt, its tools, its messages and its
/// response, in this order.
pub proof fn law_a_shown_record_begins_with_its_request(
    record: PromptRecord,
    percents: Seq<Seq<char>>,
    cost: Option<Seq<char>>,
    messages: Seq<char>,
)
    ensures
        record_lines(record, percents, cost, messages)[0] == LineModel::Out("request  "@ + record.request_id@),
        record_lines(record, percents, cost, messages)[2] == LineModel::Out("model    "@ + record.model.name@),
        record_lines(record, percents, cost, messages)[3] == LineModel::Out("trigger  "@ + record.trigger.kind@),
        head_lines(record, cost).len() == (if record.trigger.parent is Some {
            7int
        } else {
            6
        }),
        record_lines(record, percents, cost, messages).len() == head_lines(record, cost).len() + system_lines(
            record.system.text@,
            record.system.blocks@,
            percents,
        ).len() + tool_lines(record.tools@).len() + 2 + response_lines(
            text::opt_text(record.response.text),
            text::texts(record.response.tool_calls@),
            text::opt_text(record.response.error),
        ).len(),
        record.tools@.len() == 0 ==> tool_lines(record.tools@).len() == 0,
        record.tools@.len() > 0 ==> tool_lines(record.tools@).len() == record.tools@.len() + 1,
{
}

} // verus!
