//! `spacebot channel`: channels over the control API.
use vstd::prelude::*;
use crate::cli::output;
use crate::cli::output::{LineModel, Report, Row};
use crate::cli::request;
use crate::cli::request::{Method, Query, Request, RequestModel};
use crate::json;
use crate::json::{Body, Json, JsonModel, Member};
use crate::order;
use crate::order::Ranked;
use crate::text;

verus! {

broadcast use vstd::seq::group_seq_axioms;

/// The channel commands.
#[derive(Debug)]
#[allow(inconsistent_fields)]
pub enum ChannelCommand {
    /// List channels across agents
    List { all: bool, agent: Option<String> },
    /// Show live status (active branches and workers) for channels
    Status { channel_id: Option<String> },
    /// Show the message timeline for a channel
    Messages { channel_id: String, limit: i64, before: Option<String> },
    /// Archive a channel without deleting its history
    Archive { agent_id: String, channel_id: String },
    /// Restore an archived channel
    Unarchive { agent_id: String, channel_id: String },
    /// Delete a channel and its message history
    Delete { agent_id: String, channel_id: String },
    /// Cancel a running worker or branch
    Cancel { channel_id: String, process_type: String, process_id: String },
}

/// The request that archives a channel or restores it.
pub open spec fn archive_request(agent_id: Seq<char>, channel_id: Seq<char>, archived: bool) -> RequestModel {
    request::sends(
        Method::Post,
        "channels/archive"@,
        json::with_flag(
            json::with_text(json::with_text(json::no_members(), "agent_id"@, agent_id), "channel_id"@, channel_id),
            "archived"@,
            archived,
        ),
    )
}

/// The query of a listing.
pub open spec fn list_params(all: bool, agent: Option<Seq<char>>) -> Seq<Seq<char>> {
    let parts = if all {
        request::with_param(request::no_params(), "include_inactive"@, "true"@)
    } else {
        request::no_params()
    };
    request::with_opt_text(parts, "agent_id"@, agent)
}

/// The request that a command makes.
pub open spec fn request_of(command: ChannelCommand) -> RequestModel {
    match command {
        ChannelCommand::List { all, agent } => request::reads(
            request::with_any_query("channels"@, list_params(all, text::opt_text(agent))),
        ),
        ChannelCommand::Status { .. } => request::reads("channels/status"@),
        ChannelCommand::Messages { channel_id, limit, before } => request::reads(
            request::with_query(
                "channels/messages"@,
                request::with_opt_text(
                    request::with_number(
                        request::with_text(request::no_params(), "channel_id"@, channel_id@),
                        "limit"@,
                        limit as int,
                    ),
                    "before"@,
                    text::opt_text(before),
                ),
            ),
        ),
        ChannelCommand::Archive { agent_id, channel_id } => archive_request(agent_id@, channel_id@, true),
        ChannelCommand::Unarchive { agent_id, channel_id } => archive_request(agent_id@, channel_id@, false),
        ChannelCommand::Delete { agent_id, channel_id } => request::deletes(
            request::with_query(
                "channels"@,
                request::with_text(
                    request::with_text(request::no_params(), "agent_id"@, agent_id@),
                    "channel_id"@,
                    channel_id@,
                ),
            ),
        ),
        ChannelCommand::Cancel { channel_id, process_type, process_id } => request::sends(
            Method::Post,
            "channels/cancel-process"@,
            json::with_text(
                json::with_text(
                    json::with_text(json::no_members(), "channel_id"@, channel_id@),
                    "process_type"@,
                    process_type@,
                ),
                "process_id"@,
                process_id@,
            ),
        ),
    }
}

fn set_archived(agent_id: &str, channel_id: &str, archived: bool) -> (request: Request)
    ensures
        request@ == archive_request(agent_id@, channel_id@, archived),
{
    let mut body = Body::new();
    body.text("agent_id", agent_id);
    body.text("channel_id", channel_id);
    body.flag("archived", archived);
    Request::with(Method::Post, "channels/archive".to_owned(), body)
}

/// Plans the request of a command.
pub fn plan(command: &ChannelCommand) -> (request: Request)
    ensures
        request@ == request_of(*command),
{
    match command {
        ChannelCommand::List { all, agent } => {
            let mut query = Query::new();
            if *all {
                query.word("include_inactive", "true");
            }
            query.opt_text("agent_id", agent);
            Request::get(query.after_if_any("channels"))
        },
        ChannelCommand::Status { .. } => Request::get("channels/status".to_owned()),
        ChannelCommand::Messages { channel_id, limit, before } => {
            let mut query = Query::new();
            query.text("channel_id", channel_id.as_str());
            query.number("limit", *limit);
            query.opt_text("before", before);
            Request::get(query.after("channels/messages"))
        },
        ChannelCommand::Archive { agent_id, channel_id } => set_archived(agent_id.as_str(), channel_id.as_str(), true),
        ChannelCommand::Unarchive { agent_id, channel_id } => set_archived(
            agent_id.as_str(),
            channel_id.as_str(),
            false,
        ),
        ChannelCommand::Delete { agent_id, channel_id } => {
            let mut query = Query::new();
            query.text("agent_id", agent_id.as_str());
            query.text("channel_id", channel_id.as_str());
            Request::delete(query.after("channels"))
        },
        ChannelCommand::Cancel { channel_id, process_type, process_id } => {
            let mut body = Body::new();
            body.text("channel_id", channel_id.as_str());
            body.text("process_type", process_type.as_str());
            body.text("process_id", process_id.as_str());
            Request::with(Method::Post, "channels/cancel-process".to_owned(), body)
        },
    }
}

// ---------------------------------------------------------------------------
// Listings
// ---------------------------------------------------------------------------

/// A channel as the control API lists it.
#[derive(Debug)]
pub struct ChannelEntry {
    pub id: String,
    pub agent_id: String,
    pub platform: String,
    pub display_name: Option<String>,
    pub is_active: bool,
    pub last_activity_at: String,
}

impl Row for ChannelEntry {
    open spec fn cells(&self) -> Seq<Seq<char>> {
        seq![
            self.id@,
            self.agent_id@,
            self.platform@,
            text::or_text(text::opt_text(self.display_name), ""@),
            output::yes_or_no(self.is_active),
            output::minute_of(self.last_activity_at@),
        ]
    }

    fn row(&self) -> (row: Vec<String>) {
        let row = vec![
            self.id.clone(),
            self.agent_id.clone(),
            self.platform.clone(),
            text::or_default(&self.display_name, ""),
            output::yes_no(self.is_active),
            output::short_timestamp(self.last_activity_at.as_str()),
        ];
        assert(text::texts(row@) =~= self.cells());
        row
    }
}

/// The headings of a listing.
pub open spec fn list_headers() -> Seq<Seq<char>> {
    seq!["ID"@, "AGENT"@, "PLATFORM"@, "NAME"@, "ACTIVE"@, "LAST ACTIVITY"@]
}

/// Prints a listing.
pub fn print_list(channels: &Vec<ChannelEntry>) -> (report: Report)
    ensures
        report@ == output::listing("No channels found."@, list_headers(), channels@),
{
    let names = vec!["ID", "AGENT", "PLATFORM", "NAME", "ACTIVE", "LAST ACTIVITY"];
    assert(text::slices(names@) =~= list_headers());
    output::print_listing("No channels found.", &names, channels)
}

// ---------------------------------------------------------------------------
// Live status
// ---------------------------------------------------------------------------

impl Ranked for Member {
    /// Members are listed by name.
    open spec fn outranks(&self, other: &Self) -> bool {
        text::precedes(self.name@, other.name@)
    }

    fn comes_first(&self, other: &Self) -> (yes: bool) {
        text::comes_before(self.name.as_str(), other.name.as_str())
    }
}

/// Whether a member has a name.
pub open spec fn named(name: Seq<char>) -> spec_fn(Member) -> bool {
    |member: Member| member.name@ == name
}

/// The members of an object; none where the value is no object.
pub open spec fn members_of(value: Json) -> Seq<Member> {
    match value {
        Json::Object(members) => members@,
        _ => Seq::empty(),
    }
}

/// The lines of active branches.
pub open spec fn branch_lines(branches: Seq<JsonModel>) -> Seq<LineModel> {
    branches.map_values(
        |branch: JsonModel|
            LineModel::Out("  branch "@ + branch.text_or("id"@, ""@) + "  "@ + branch.text_or("description"@, ""@)),
    )
}

/// The lines of active workers.
pub open spec fn worker_lines(workers: Seq<JsonModel>) -> Seq<LineModel> {
    workers.map_values(
        |worker: JsonModel|
            LineModel::Out(
                "  worker "@ + worker.text_or("id"@, ""@) + "  ["@ + worker.text_or("status"@, ""@) + "] "@
                    + worker.text_or("task"@, ""@),
            ),
    )
}

/// What is printed of a channel's status.
pub open spec fn block_lines(id: Seq<char>, block: JsonModel) -> Seq<LineModel> {
    let branches = block.at("active_branches"@).items();
    let workers = block.at("active_workers"@).items();
    seq![LineModel::Out(id)] + branch_lines(branches) + worker_lines(workers) + (if branches.len() == 0 && workers.len()
        == 0 {
        seq![LineModel::Out("  idle"@)]
    } else {
        Seq::empty()
    })
}

/// What is printed of channels' statuses.
pub open spec fn blocks_lines(entries: Seq<Member>) -> Seq<LineModel>
    decreases entries.len(),
{
    if entries.len() == 0 {
        Seq::empty()
    } else {
        blocks_lines(entries.drop_last()) + block_lines(entries.last().name@, entries.last().value@)
    }
}

/// What is printed of the statuses: those that were asked for, by channel.
pub open spec fn status_lines(value: Json, channel_id: Option<Seq<char>>) -> Seq<LineModel> {
    let entries = match channel_id {
        Some(id) => members_of(value).filter(named(id)),
        None => members_of(value),
    };
    match channel_id {
        Some(id) if entries.len() == 0 => seq![LineModel::Note("No status for channel "@ + id + "."@)],
        _ => if entries.len() == 0 {
            seq![LineModel::Note("No channel status available."@)]
        } else {
            blocks_lines(order::ranked(entries))
        },
    }
}

fn keep_named(members: Vec<Member>, name: &str) -> (kept: Vec<Member>)
    ensures
        kept@ == members@.filter(named(name@)),
{
    let ghost all = members@;
    let mut rest = members;
    let mut kept: Vec<Member> = Vec::new();
    let ghost mut n: int = 0;
    proof {
        reveal(Seq::filter);
        assert(all.take(0).filter(named(name@)) =~= kept@);
        assert(rest@ =~= all.subrange(0, all.len() as int));
    }
    while rest.len() > 0
        invariant
            0 <= n <= all.len(),
            rest@ == all.subrange(n, all.len() as int),
            kept@ == all.take(n).filter(named(name@)),
        decreases rest@.len(),
    {
        let member = rest.remove(0);
        proof {
            reveal(Seq::filter);
            assert(member == all[n]);
            assert(all.take(n + 1).drop_last() =~= all.take(n));
            assert(rest@ =~= all.subrange(n + 1, all.len() as int));
            n = n + 1;
        }
        if text::same(member.name.as_str(), name) {
            kept.push(member);
        }
    }
    assert(all.take(n) =~= all);
    kept
}

fn print_branches(report: &mut Report, branches: &Vec<Json>)
    ensures
        final(report)@ == old(report)@ + branch_lines(json::json_models(branches@)),
{
    let ghost before = report@;
    let ghost models = json::json_models(branches@);
    let mut k: usize = 0;
    assert(report@ =~= before + branch_lines(models).take(0));
    while k < branches.len()
        invariant
            models == json::json_models(branches@),
            k <= branches@.len(),
            report@ == before + branch_lines(models).take(k as int),
        decreases branches@.len() - k,
    {
        let branch = &branches[k];
        let mut line = "  branch ".to_owned();
        line.push_str(branch.text_or("id", "").as_str());
        line.push_str("  ");
        line.push_str(branch.text_or("description", "").as_str());
        report.out(line.as_str());
        assert(models[k as int] == branches@[k as int]@);
        assert(report@ =~= before + branch_lines(models).take(k + 1));
        k = k + 1;
    }
    assert(branch_lines(models).take(k as int) =~= branch_lines(models));
}

fn print_workers(report: &mut Report, workers: &Vec<Json>)
    ensures
        final(report)@ == old(report)@ + worker_lines(json::json_models(workers@)),
{
    let ghost before = report@;
    let ghost models = json::json_models(workers@);
    let mut k: usize = 0;
    assert(report@ =~= before + worker_lines(models).take(0));
    while k < workers.len()
        invariant
            models == json::json_models(workers@),
            k <= workers@.len(),
            report@ == before + worker_lines(models).take(k as int),
        decreases workers@.len() - k,
    {
        let worker = &workers[k];
        let mut line = "  worker ".to_owned();
        line.push_str(worker.text_or("id", "").as_str());
        line.push_str("  [");
        line.push_str(worker.text_or("status", "").as_str());
        line.push_str("] ");
        line.push_str(worker.text_or("task", "").as_str());
        report.out(line.as_str());
        assert(models[k as int] == workers@[k as int]@);
        assert(report@ =~= before + worker_lines(models).take(k + 1));
        k = k + 1;
    }
    assert(worker_lines(models).take(k as int) =~= worker_lines(models));
}

fn print_block(report: &mut Report, id: &str, block: &Json)
    ensures
        final(report)@ == old(report)@ + block_lines(id@, block@),
{
    let ghost before = report@;
    let ghost branch_models = block@.at("active_branches"@).items();
    let ghost worker_models = block@.at("active_workers"@).items();
    report.out(id);
    let ghost head = report@;
    let mut busy = false;
    match block.items("active_branches") {
        Some(branches) => {
            print_branches(report, branches);
            busy = branches.len() > 0;
        },
        None => {
            assert(head + branch_lines(branch_models) =~= head);
        },
    }
    let ghost middle = report@;
    match block.items("active_workers") {
        Some(workers) => {
            print_workers(report, workers);
            busy = busy || workers.len() > 0;
        },
        None => {
            assert(middle + worker_lines(worker_models) =~= middle);
        },
    }
    if !busy {
        report.out("  idle");
    }
    assert(report@ =~= before + block_lines(id@, block@));
}

/// Prints the statuses of channels, or of one.
pub fn print_status(value: Json, channel_id: &Option<String>) -> (report: Report)
    ensures
        report@ == status_lines(value, text::opt_text(*channel_id)),
{
    let members = match value {
        Json::Object(members) => members,
        _ => Vec::new(),
    };
    assert(members@ =~= members_of(value));
    let entries = match channel_id {
        Some(id) => {
            let kept = keep_named(members, id.as_str());
            if kept.len() == 0 {
                return output::message_about("No status for channel ", id.as_str(), ".");
            }
            kept
        },
        None => members,
    };
    if entries.len() == 0 {
        return output::message("No channel status available.");
    }
    let sorted = order::rank(entries);
    let mut report = Report::new();
    let mut k: usize = 0;
    assert(sorted@.take(0) =~= Seq::<Member>::empty());
    while k < sorted.len()
        invariant
            k <= sorted@.len(),
            report@ == blocks_lines(sorted@.take(k as int)),
        decreases sorted@.len() - k,
    {
        assert(sorted@.take(k + 1).drop_last() =~= sorted@.take(k as int));
        print_block(&mut report, sorted[k].name.as_str(), &sorted[k].value);
        k = k + 1;
    }
    assert(sorted@.take(k as int) =~= sorted@);
    report
}

// ---------------------------------------------------------------------------
// Message timelines
// ---------------------------------------------------------------------------

/// When an item of a timeline was made or began.
pub open spec fn stamp_of(item: JsonModel) -> Seq<char> {
    match item.at("created_at"@).as_text() {
        Some(at) => output::minute_of(at),
        None => output::minute_of(item.text_or("started_at"@, ""@)),
    }
}

/// Who sent a message.
pub open spec fn sender_of(item: JsonModel) -> Seq<char> {
    match item.at("sender_name"@).as_text() {
        Some(name) => name,
        None => item.text_or("role"@, ""@),
    }
}

/// The line of an item of a timeline.
pub open spec fn item_line(item: JsonModel) -> LineModel {
    let head = "["@ + stamp_of(item) + "] "@;
    let kind = item.text_or("type"@, ""@);
    if kind == "message"@ {
        LineModel::Out(head + sender_of(item) + ": "@ + item.text_or("content"@, ""@))
    } else if kind == "branch_run"@ {
        LineModel::Out(head + "branch "@ + item.text_or("id"@, ""@) + ": "@ + item.text_or("description"@, ""@))
    } else if kind == "worker_run"@ {
        LineModel::Out(
            head + "worker "@ + item.text_or("id"@, ""@) + " ["@ + item.text_or("status"@, ""@) + "]: "@
                + item.text_or("task"@, ""@),
        )
    } else if kind == "tool_call_run"@ {
        LineModel::Out(head + "tool "@ + item.text_or("tool_name"@, ""@) + " ["@ + item.text_or("status"@, ""@) + "]"@)
    } else {
        LineModel::Out(head + kind)
    }
}

/// What is printed of a timeline.
pub open spec fn message_lines(channel_id: Seq<char>, response: JsonModel) -> Seq<LineModel> {
    let items = response.at("items"@).items();
    if items.len() == 0 {
        seq![LineModel::Note("No messages found for channel "@ + channel_id + "."@)]
    } else {
        items.map_values(|item: JsonModel| item_line(item)) + (if response.is_set("has_more"@) {
            seq![LineModel::Note("Older messages available — pass --before with a pagination cursor."@)]
        } else {
            Seq::empty()
        })
    }
}

fn print_item(report: &mut Report, item: &Json)
    ensures
        final(report)@ == old(report)@.push(item_line(item@)),
{
    let stamp = match item.text("created_at") {
        Some(at) => output::short_timestamp(at.as_str()),
        None => output::short_timestamp(item.text_or("started_at", "").as_str()),
    };
    let mut line = "[".to_owned();
    line.push_str(stamp.as_str());
    line.push_str("] ");
    let kind = item.text_or("type", "");
    if text::same(kind.as_str(), "message") {
        let sender = match item.text("sender_name") {
            Some(name) => name,
            None => item.text_or("role", ""),
        };
        line.push_str(sender.as_str());
        line.push_str(": ");
        line.push_str(item.text_or("content", "").as_str());
    } else if text::same(kind.as_str(), "branch_run") {
        line.push_str("branch ");
        line.push_str(item.text_or("id", "").as_str());
        line.push_str(": ");
        line.push_str(item.text_or("description", "").as_str());
    } else if text::same(kind.as_str(), "worker_run") {
        line.push_str("worker ");
        line.push_str(item.text_or("id", "").as_str());
        line.push_str(" [");
        line.push_str(item.text_or("status", "").as_str());
        line.push_str("]: ");
        line.push_str(item.text_or("task", "").as_str());
    } else if text::same(kind.as_str(), "tool_call_run") {
        line.push_str("tool ");
        line.push_str(item.text_or("tool_name", "").as_str());
        line.push_str(" [");
        line.push_str(item.text_or("status", "").as_str());
        line.push_str("]");
    } else {
        line.push_str(kind.as_str());
    }
    report.out(line.as_str());
}

/// Prints the message timeline of a channel.
pub fn print_messages(channel_id: &str, response: &Json) -> (report: Report)
    ensures
        report@ == message_lines(channel_id@, response@),
{
    match response.items("items") {
        None => output::message_about("No messages found for channel ", channel_id, "."),
        Some(items) => {
            if items.len() == 0 {
                return output::message_about("No messages found for channel ", channel_id, ".");
            }
            let ghost models = json::json_models(items@);
            let ghost all = models.map_values(|item: JsonModel| item_line(item));
            let mut report = Report::new();
            let mut k: usize = 0;
            assert(report@ =~= all.take(0));
            while k < items.len()
                invariant
                    models == json::json_models(items@),
                    all == models.map_values(|item: JsonModel| item_line(item)),
                    k <= items@.len(),
                    report@ == all.take(k as int),
                decreases items@.len() - k,
            {
                print_item(&mut report, &items[k]);
                assert(models[k as int] == items@[k as int]@);
                assert(report@ =~= all.take(k + 1));
                k = k + 1;
            }
            assert(all.take(k as int) =~= all);
            if response.is_set("has_more") {
                report.err("Older messages available — pass --before with a pagination cursor.");
            }
            assert(report@ =~= message_lines(channel_id@, response@));
            report
        },
    }
}

/// Prints that a channel was archived or restored.
pub fn print_archived(channel_id: &str, archived: bool) -> (report: Report)
    ensures
        report@ == seq![
            LineModel::Note(
                "Channel "@ + channel_id@ + (if archived {
                    " archived."@
                } else {
                    " restored."@
                }),
            ),
        ],
{
    output::message_about(
        "Channel ",
        channel_id,
        if archived {
            " archived."
        } else {
            " restored."
        },
    )
}

/// Prints that a channel was deleted.
pub fn print_deleted(channel_id: &str) -> (report: Report)
    ensures
        report@ == seq![LineModel::Note("Channel "@ + channel_id@ + " deleted."@)],
{
    output::message_about("Channel ", channel_id, " deleted.")
}

// ---------------------------------------------------------------------------
// Laws
// ---------------------------------------------------------------------------

/// Looking at channels changes nothing; archiving and bringing back differ in
/// nothing but what they set, and a deletion names the channel and its agent.
pub proof fn law_channel_commands_name_their_channel(command: ChannelCommand)
    ensures
        command is List || command is Status || command is Messages ==> request_of(command).method == Method::Get
            && request_of(command).body is None,
        command matches ChannelCommand::Archive { agent_id, channel_id } ==> {
            let sent = request_of(command).body->0;
            &&& request_of(command).method == Method::Post && request_of(command).path == "channels/archive"@
            &&& sent.at("agent_id"@).as_text() == Some(agent_id@)
            &&& sent.at("channel_id"@).as_text() == Some(channel_id@)
            &&& sent.at("archived"@).as_flag() == Some(true)
        },
        command matches ChannelCommand::Unarchive { agent_id, channel_id } ==> {
            let sent = request_of(command).body->0;
            &&& request_of(command).method == Method::Post && request_of(command).path == "channels/archive"@
            &&& sent.at("agent_id"@).as_text() == Some(agent_id@)
            &&& sent.at("channel_id"@).as_text() == Some(channel_id@)
            &&& sent.at("archived"@).as_flag() == Some(false)
        },
        command matches ChannelCommand::Cancel { channel_id, process_type, process_id } ==> {
            let sent = request_of(command).body->0;
            &&& request_of(command).method == Method::Post && request_of(command).path == "channels/cancel-process"@
            &&& sent.at("channel_id"@).as_text() == Some(channel_id@)
            &&& sent.at("process_type"@).as_text() == Some(process_type@)
            &&& sent.at("process_id"@).as_text() == Some(process_id@)
        },
{
    broadcast use json::member_after_set;

    reveal_strlit("agent_id");
    reveal_strlit("channel_id");
    reveal_strlit("archived");
    reveal_strlit("process_type");
    reveal_strlit("process_id");
    assert("agent_id"@.len() == 8 && "channel_id"@.len() == 10 && "archived"@.len() == 8);
    assert("process_type"@.len() == 12 && "process_id"@.len() == 10);
    assert("agent_id"@[1] != "archived"@[1] && "channel_id"@[0] != "process_id"@[0]);
}

/// A deletion and a reading name the channel in their address.
pub proof fn law_a_channel_stands_in_the_address(command: ChannelCommand)
    ensures
        command matches ChannelCommand::Delete { agent_id, channel_id } ==> request_of(command).method == Method::Delete
            && request_of(command).body is None && text::occurs_in(
            request_of(command).path,
            "agent_id"@ + "="@ + request::in_query(agent_id@),
        ) && text::occurs_in(request_of(command).path, "channel_id"@ + "="@ + request::in_query(channel_id@)),
        command matches ChannelCommand::Messages { channel_id, limit, before } ==> text::occurs_in(
            request_of(command).path,
            "channel_id"@ + "="@ + request::in_query(channel_id@),
        ) && text::occurs_in(request_of(command).path, "limit"@ + "="@ + text::signed_decimal(limit as int)) && (
        before is Some ==> text::occurs_in(
            request_of(command).path,
            "before"@ + "="@ + request::in_query(before->0@),
        )),
{
    broadcast use request::params_after_param;

    match command {
        ChannelCommand::Delete { agent_id, channel_id } => {
            let one = request::with_text(request::no_params(), "agent_id"@, agent_id@);
            let parts = request::with_text(one, "channel_id"@, channel_id@);
            let named = "agent_id"@ + "="@ + request::in_query(agent_id@);
            let placed = "channel_id"@ + "="@ + request::in_query(channel_id@);
            assert(one.contains(named));
            assert(parts.contains(named) && parts.contains(placed));
            request::law_parameters_stand_in_the_address("channels"@, parts, named);
            request::law_parameters_stand_in_the_address("channels"@, parts, placed);
        },
        ChannelCommand::Messages { channel_id, limit, before } => {
            let one = request::with_text(request::no_params(), "channel_id"@, channel_id@);
            let two = request::with_number(one, "limit"@, limit as int);
            let parts = request::with_opt_text(two, "before"@, text::opt_text(before));
            let placed = "channel_id"@ + "="@ + request::in_query(channel_id@);
            let limited = "limit"@ + "="@ + text::signed_decimal(limit as int);
            assert(one.contains(placed));
            assert(two.contains(placed) && two.contains(limited));
            assert(parts.contains(placed) && parts.contains(limited));
            request::law_parameters_stand_in_the_address("channels/messages"@, parts, placed);
            request::law_parameters_stand_in_the_address("channels/messages"@, parts, limited);
            if let Some(before) = before {
                let cut = "before"@ + "="@ + request::in_query(before@);
                assert(parts.contains(cut));
                request::law_parameters_stand_in_the_address("channels/messages"@, parts, cut);
            }
        },
        _ => {},
    }
}

/// Inactive channels are listed only where all are asked for.
pub proof fn law_inactive_channels_are_asked_for(agent: Option<Seq<char>>, part: Seq<char>)
    ensures
        list_params(true, agent).contains("include_inactive"@ + "="@ + "true"@),
        list_params(false, None).len() == 0,
        list_params(false, agent).contains(part) <==> agent is Some && part == "agent_id"@ + "="@ + request::in_query(
            agent->0,
        ),
{
    broadcast use request::params_after_param;

    let one = request::with_param(request::no_params(), "include_inactive"@, "true"@);
    assert(one.contains("include_inactive"@ + "="@ + "true"@));
}

/// A channel without branches and workers is idle, and else each of them has a
/// line.
pub proof fn law_a_channel_with_no_work_is_idle(id: Seq<char>, block: JsonModel)
    ensures
        ({
            let branches = block.at("active_branches"@).items();
            let workers = block.at("active_workers"@).items();
            let lines = block_lines(id, block);
            &&& lines[0] == LineModel::Out(id)
            &&& branches.len() + workers.len() > 0 ==> lines.len() == 1 + branches.len() + workers.len()
            &&& branches.len() + workers.len() == 0 ==> lines == seq![LineModel::Out(id), LineModel::Out("  idle"@)]
            &&& branches.len() > 0 ==> lines[1] == LineModel::Out(
                "  branch "@ + branches[0].text_or("id"@, ""@) + "  "@ + branches[0].text_or("description"@, ""@),
            )
        }),
{
    let branches = block.at("active_branches"@).items();
    let workers = block.at("active_workers"@).items();
    if branches.len() == 0 && workers.len() == 0 {
        assert(block_lines(id, block) =~= seq![LineModel::Out(id), LineModel::Out("  idle"@)]);
    }
}

/// Channels are shown one after the other.
pub proof fn law_channels_are_shown_one_by_one(first: Seq<Member>, second: Seq<Member>)
    ensures
        blocks_lines(first + second) == blocks_lines(first) + blocks_lines(second),
        first.len() == 1 ==> blocks_lines(first) == block_lines(first[0].name@, first[0].value@),
    decreases second.len(),
{
    let all = first + second;
    if second.len() == 0 {
        assert(all =~= first);
        assert(blocks_lines(second) =~= Seq::<LineModel>::empty());
    } else {
        assert(all.drop_last() =~= first + second.drop_last());
        assert(all.last() == second.last());
        law_channels_are_shown_one_by_one(first, second.drop_last());
    }
    assert(blocks_lines(all) =~= blocks_lines(first) + blocks_lines(second));
    if first.len() == 1 {
        assert(first.last() == first[0]);
        assert(blocks_lines(first.drop_last()) =~= Seq::<LineModel>::empty());
        assert(blocks_lines(first) =~= block_lines(first[0].name@, first[0].value@));
    }
}

/// An item is stamped by its creation, or else by its start, and a message is
/// signed by its sender's name, or else by its role.
pub proof fn law_an_item_is_stamped_and_signed(item: JsonModel)
    ensures
        item.at("created_at"@) matches JsonModel::Text(at) ==> stamp_of(item) == output::minute_of(at),
        !(item.at("created_at"@) is Text) ==> stamp_of(item) == output::minute_of(item.text_or("started_at"@, ""@)),
        item.at("sender_name"@) matches JsonModel::Text(name) ==> sender_of(item) == name,
        !(item.at("sender_name"@) is Text) ==> sender_of(item) == item.text_or("role"@, ""@),
        item.text_or("type"@, ""@) == "message"@ ==> item_line(item) == LineModel::Out(
            "["@ + stamp_of(item) + "] "@ + sender_of(item) + ": "@ + item.text_or("content"@, ""@),
        ),
{
}

/// Messages are shown in order, and that there are more is noted exactly where
/// there are.
pub proof fn law_messages_are_shown_in_order(channel_id: Seq<char>, response: JsonModel, k: int)
    ensures
        ({
            let items = response.at("items"@).items();
            let lines = message_lines(channel_id, response);
            &&& items.len() == 0 ==> lines.len() == 1 && lines[0] is Note
            &&& 0 <= k < items.len() ==> lines[k] == item_line(items[k])
            &&& items.len() > 0 && response.is_set("has_more"@) ==> lines.len() == items.len() + 1 && lines.last() is Note
            &&& items.len() > 0 && !response.is_set("has_more"@) ==> lines.len() == items.len()
        }),
{
}

/// A row shows its channel.
pub proof fn law_a_listed_channel_shows_itself(entry: ChannelEntry)
    ensures
        entry.cells().len() == list_headers().len(),
        entry.cells()[0] == entry.id@ && entry.cells()[1] == entry.agent_id@ && entry.cells()[2] == entry.platform@,
        entry.display_name is Some ==> entry.cells()[3] == entry.display_name->0@,
        entry.is_active ==> entry.cells()[4] == "yes"@,
        !entry.is_active ==> entry.cells()[4] == "no"@,
{
}

} // verus!
