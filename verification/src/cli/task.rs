//! `spacebot task`: task management over the control API.
use vstd::prelude::*;
use crate::cli::output;
use crate::cli::output::{LineModel, Report, Row};
use crate::cli::request;
use crate::cli::request::{Method, Query, Request, RequestModel};
use crate::json;
use crate::json::{Body, Json, JsonModel};
use crate::tasks::{Task, TaskPriority, TaskStatus, TaskSubtask};
use crate::text;

verus! {

broadcast use vstd::seq::group_seq_axioms;

/// Marks every write from this binary so revision history records where a
/// change came from.
pub const CLI_SOURCE: &'static str = "cli";

/// The task commands.
#[derive(Debug)]
#[allow(inconsistent_fields)]
pub enum TaskCommand {
    /// List tasks
    List {
        agent: Option<String>,
        owner: Option<String>,
        assigned: Option<String>,
        status: Option<String>,
        priority: Option<String>,
        created_by: Option<String>,
        limit: i64,
    },
    /// Show a task
    Get { number: i64 },
    /// Create a task
    Create {
        title: String,
        owner: String,
        assigned: Option<String>,
        description: Option<String>,
        priority: Option<String>,
        subtasks: Vec<String>,
        created_by: Option<String>,
    },
    /// Update a task
    Update {
        number: i64,
        title: Option<String>,
        description: Option<String>,
        status: Option<String>,
        priority: Option<String>,
        assigned: Option<String>,
        complete_subtask: Option<usize>,
        summary: Option<String>,
        expect: Option<i64>,
    },
    /// Add a comment to a task's discussion
    Comment { number: i64, body: String, author: Option<String> },
    /// List a task's comments
    Comments { number: i64, limit: i64, after: Option<i64> },
    /// List a task's revision history
    History { number: i64, limit: i64 },
    /// Show one historical revision of a task
    Revision { number: i64, revision: i64 },
    /// Show what changed between two revisions
    Diff { number: i64, from: i64, to: Option<i64> },
    /// Restore a task to a historical revision
    Restore { number: i64, revision: i64, summary: Option<String>, expect: Option<i64> },
    /// Approve a task (move to ready)
    Approve { number: i64, approved_by: Option<String> },
    /// Queue a task for execution (must already be approved)
    Execute { number: i64, approved_by: Option<String> },
    /// Reassign a task to a different agent
    Assign { number: i64, agent: String },
    /// Delete a task
    Delete { number: i64 },
}

/// A task's path.
pub open spec fn task_path(number: i64, rest: Seq<char>) -> Seq<char> {
    "tasks/"@ + text::signed_decimal(number as int) + rest
}

/// What a body from this binary begins with.
pub open spec fn marked_body() -> Seq<(Seq<char>, JsonModel)> {
    json::with_text(json::no_members(), "source"@, "cli"@)
}

/// Subtasks that are yet to be done.
pub open spec fn open_subtasks(titles: Seq<Seq<char>>) -> JsonModel {
    JsonModel::List(
        titles.map_values(
            |title: Seq<char>|
                JsonModel::Object(
                    json::with_flag(json::with_text(json::no_members(), "title"@, title), "completed"@, false),
                ),
        ),
    )
}

/// The query of a listing.
pub open spec fn list_params(
    agent: Option<Seq<char>>,
    owner: Option<Seq<char>>,
    assigned: Option<Seq<char>>,
    status: Option<Seq<char>>,
    priority: Option<Seq<char>>,
    created_by: Option<Seq<char>>,
    limit: i64,
) -> Seq<Seq<char>> {
    let parts = request::with_number(request::no_params(), "limit"@, limit as int);
    let parts = request::with_opt_text(parts, "agent_id"@, agent);
    let parts = request::with_opt_text(parts, "owner_agent_id"@, owner);
    let parts = request::with_opt_text(parts, "assigned_agent_id"@, assigned);
    let parts = request::with_opt_text(parts, "status"@, status);
    let parts = request::with_opt_text(parts, "priority"@, priority);
    request::with_opt_text(parts, "created_by"@, created_by)
}

/// The body of a new task.
pub open spec fn create_body(
    title: Seq<char>,
    owner: Seq<char>,
    assigned: Option<Seq<char>>,
    description: Option<Seq<char>>,
    priority: Option<Seq<char>>,
    subtasks: Seq<Seq<char>>,
    created_by: Option<Seq<char>>,
) -> Seq<(Seq<char>, JsonModel)> {
    let body = json::with_text(json::no_members(), "owner_agent_id"@, owner);
    let body = json::with_text(body, "title"@, title);
    let body = json::with_text(body, "source"@, "cli"@);
    let body = json::with_opt_text(body, "assigned_agent_id"@, assigned);
    let body = json::with_opt_text(body, "description"@, description);
    let body = json::with_opt_text(body, "priority"@, priority);
    let body = if subtasks.len() > 0 {
        json::with_member(body, "subtasks"@, open_subtasks(subtasks))
    } else {
        body
    };
    json::with_opt_text(body, "created_by"@, created_by)
}

/// The body of a change.
pub open spec fn update_body(
    title: Option<Seq<char>>,
    description: Option<Seq<char>>,
    status: Option<Seq<char>>,
    priority: Option<Seq<char>>,
    assigned: Option<Seq<char>>,
    complete_subtask: Option<int>,
    summary: Option<Seq<char>>,
    expect: Option<int>,
) -> Seq<(Seq<char>, JsonModel)> {
    let body = marked_body();
    let body = json::with_opt_text(body, "title"@, title);
    let body = json::with_opt_text(body, "description"@, description);
    let body = json::with_opt_text(body, "status"@, status);
    let body = json::with_opt_text(body, "priority"@, priority);
    let body = json::with_opt_text(body, "assigned_agent_id"@, assigned);
    let body = json::with_opt_number(body, "complete_subtask"@, complete_subtask);
    let body = json::with_opt_text(body, "edit_summary"@, summary);
    json::with_opt_number(body, "expected_revision"@, expect)
}

/// The request that a command makes, or why it makes none. A restore is made
/// against a revision, which has to be known.
pub open spec fn request_of(command: TaskCommand) -> Result<RequestModel, Seq<char>> {
    match command {
        TaskCommand::List { agent, owner, assigned, status, priority, created_by, limit } => Ok(
            request::reads(
                request::with_query(
                    "tasks"@,
                    list_params(
                        text::opt_text(agent),
                        text::opt_text(owner),
                        text::opt_text(assigned),
                        text::opt_text(status),
                        text::opt_text(priority),
                        text::opt_text(created_by),
                        limit,
                    ),
                ),
            ),
        ),
        TaskCommand::Get { number } => Ok(request::reads(task_path(number, ""@))),
        TaskCommand::Create { title, owner, assigned, description, priority, subtasks, created_by } => Ok(
            request::sends(
                Method::Post,
                "tasks"@,
                create_body(
                    title@,
                    owner@,
                    text::opt_text(assigned),
                    text::opt_text(description),
                    text::opt_text(priority),
                    text::texts(subtasks@),
                    text::opt_text(created_by),
                ),
            ),
        ),
        TaskCommand::Update {
            number,
            title,
            description,
            status,
            priority,
            assigned,
            complete_subtask,
            summary,
            expect,
        } => if title is None && description is None && status is None && priority is None && assigned is None
            && complete_subtask is None {
            Err("nothing to update — pass at least one field flag"@)
        } else {
            Ok(
                request::sends(
                    Method::Put,
                    task_path(number, ""@),
                    update_body(
                        text::opt_text(title),
                        text::opt_text(description),
                        text::opt_text(status),
                        text::opt_text(priority),
                        text::opt_text(assigned),
                        json::opt_place(complete_subtask),
                        text::opt_text(summary),
                        json::opt_int(expect),
                    ),
                ),
            )
        },
        TaskCommand::Comment { number, body, author } => Ok(
            request::sends(
                Method::Post,
                task_path(number, "/comments"@),
                json::with_opt_text(
                    json::with_text(json::no_members(), "body"@, body@),
                    "author_id"@,
                    text::opt_text(author),
                ),
            ),
        ),
        TaskCommand::Comments { number, limit, after } => Ok(
            request::reads(
                request::with_query(
                    task_path(number, "/comments"@),
                    request::with_opt_number(
                        request::with_number(request::no_params(), "limit"@, limit as int),
                        "after"@,
                        json::opt_int(after),
                    ),
                ),
            ),
        ),
        TaskCommand::History { number, limit } => Ok(
            request::reads(
                request::with_query(
                    task_path(number, "/revisions"@),
                    request::with_number(request::no_params(), "limit"@, limit as int),
                ),
            ),
        ),
        TaskCommand::Revision { number, revision } => Ok(
            request::reads(task_path(number, "/revisions/"@ + text::signed_decimal(revision as int))),
        ),
        TaskCommand::Diff { number, from, to } => Ok(
            request::reads(
                request::with_query(
                    task_path(number, "/revisions/diff"@),
                    request::with_opt_number(
                        request::with_number(request::no_params(), "from"@, from as int),
                        "to"@,
                        json::opt_int(to),
                    ),
                ),
            ),
        ),
        TaskCommand::Restore { number, revision, summary, expect } => match expect {
            Some(expected) => Ok(
                request::sends(
                    Method::Post,
                    task_path(number, "/revisions/"@ + text::signed_decimal(revision as int) + "/restore"@),
                    json::with_opt_text(
                        json::with_text(
                            json::with_number(json::no_members(), "expected_revision"@, expected as int),
                            "source"@,
                            "cli"@,
                        ),
                        "edit_summary"@,
                        text::opt_text(summary),
                    ),
                ),
            ),
            None => Ok(request::reads(task_path(number, ""@))),
        },
        TaskCommand::Approve { number, approved_by } => Ok(
            request::sends(
                Method::Post,
                task_path(number, "/approve"@),
                json::with_opt_text(marked_body(), "approved_by"@, text::opt_text(approved_by)),
            ),
        ),
        TaskCommand::Execute { number, approved_by } => Ok(
            request::sends(
                Method::Post,
                task_path(number, "/execute"@),
                json::with_opt_text(marked_body(), "approved_by"@, text::opt_text(approved_by)),
            ),
        ),
        TaskCommand::Assign { number, agent } => Ok(
            request::sends(
                Method::Post,
                task_path(number, "/assign"@),
                json::with_text(
                    json::with_text(json::no_members(), "assigned_agent_id"@, agent@),
                    "source"@,
                    "cli"@,
                ),
            ),
        ),
        TaskCommand::Delete { number } => Ok(request::deletes(task_path(number, ""@))),
    }
}

fn list_subtasks(titles: &Vec<String>) -> (json: Json)
    ensures
        json@ == open_subtasks(text::texts(titles@)),
{
    let ghost all = text::texts(titles@);
    let mut items: Vec<Json> = Vec::new();
    let mut k: usize = 0;
    while k < titles.len()
        invariant
            all == text::texts(titles@),
            k <= titles@.len(),
            items@.len() == k,
            forall|i: int|
                0 <= i < k ==> (#[trigger] items@[i])@ == JsonModel::Object(
                    json::with_flag(json::with_text(json::no_members(), "title"@, all[i]), "completed"@, false),
                ),
        decreases titles@.len() - k,
    {
        let mut item = Body::new();
        item.text("title", titles[k].as_str());
        item.flag("completed", false);
        assert(all[k as int] == titles@[k as int]@);
        items.push(item.object());
        k = k + 1;
    }
    proof {
        json::list_model(items);
        assert(json::json_models(items@) =~= open_subtasks(all)->List_0);
    }
    Json::List(items)
}

fn path_of(number: i64, rest: &str) -> (path: String)
    ensures
        path@ == task_path(number, rest@),
{
    request::path_with("tasks/", number, rest)
}

fn start_body() -> (body: Body)
    ensures
        body@ == marked_body(),
{
    let mut body = Body::new();
    body.text("source", CLI_SOURCE);
    body
}

/// Plans the request of a command. A restore without an expected revision
/// first reads the task to learn its current one.
pub fn plan(command: &TaskCommand) -> (plan: Result<Request, String>)
    ensures
        request::planned(plan) == request_of(*command),
{
    match command {
        TaskCommand::List { agent, owner, assigned, status, priority, created_by, limit } => {
            let mut query = Query::new();
            query.number("limit", *limit);
            query.opt_text("agent_id", agent);
            query.opt_text("owner_agent_id", owner);
            query.opt_text("assigned_agent_id", assigned);
            query.opt_text("status", status);
            query.opt_text("priority", priority);
            query.opt_text("created_by", created_by);
            Ok(Request::get(query.after("tasks")))
        },
        TaskCommand::Get { number } => Ok(Request::get(path_of(*number, ""))),
        TaskCommand::Create { title, owner, assigned, description, priority, subtasks, created_by } => {
            let mut body = Body::new();
            body.text("owner_agent_id", owner.as_str());
            body.text("title", title.as_str());
            body.text("source", CLI_SOURCE);
            body.opt_text("assigned_agent_id", assigned);
            body.opt_text("description", description);
            body.opt_text("priority", priority);
            if subtasks.len() > 0 {
                body.set("subtasks", list_subtasks(subtasks));
            }
            body.opt_text("created_by", created_by);
            Ok(Request::with(Method::Post, "tasks".to_owned(), body))
        },
        TaskCommand::Update {
            number,
            title,
            description,
            status,
            priority,
            assigned,
            complete_subtask,
            summary,
            expect,
        } => {
            if title.is_none() && description.is_none() && status.is_none() && priority.is_none()
                && assigned.is_none() && complete_subtask.is_none() {
                return Err("nothing to update — pass at least one field flag".to_owned());
            }
            let mut body = start_body();
            body.opt_text("title", title);
            body.opt_text("description", description);
            body.opt_text("status", status);
            body.opt_text("priority", priority);
            body.opt_text("assigned_agent_id", assigned);
            body.opt_place("complete_subtask", *complete_subtask);
            body.opt_text("edit_summary", summary);
            body.opt_number("expected_revision", *expect);
            Ok(Request::with(Method::Put, path_of(*number, ""), body))
        },
        TaskCommand::Comment { number, body, author } => {
            let mut request = Body::new();
            request.text("body", body.as_str());
            request.opt_text("author_id", author);
            Ok(Request::with(Method::Post, path_of(*number, "/comments"), request))
        },
        TaskCommand::Comments { number, limit, after } => {
            let mut query = Query::new();
            query.number("limit", *limit);
            query.opt_number("after", *after);
            Ok(Request::get(query.after(path_of(*number, "/comments").as_str())))
        },
        TaskCommand::History { number, limit } => {
            let mut query = Query::new();
            query.number("limit", *limit);
            Ok(Request::get(query.after(path_of(*number, "/revisions").as_str())))
        },
        TaskCommand::Revision { number, revision } => {
            let mut rest = "/revisions/".to_owned();
            rest.push_str(text::show_signed(*revision).as_str());
            Ok(Request::get(path_of(*number, rest.as_str())))
        },
        TaskCommand::Diff { number, from, to } => {
            let mut query = Query::new();
            query.number("from", *from);
            query.opt_number("to", *to);
            Ok(Request::get(query.after(path_of(*number, "/revisions/diff").as_str())))
        },
        TaskCommand::Restore { number, revision, summary, expect } => match expect {
            Some(expected) => {
                let mut body = Body::new();
                body.number("expected_revision", *expected);
                body.text("source", CLI_SOURCE);
                body.opt_text("edit_summary", summary);
                let mut rest = "/revisions/".to_owned();
                rest.push_str(text::show_signed(*revision).as_str());
                rest.push_str("/restore");
                Ok(Request::with(Method::Post, path_of(*number, rest.as_str()), body))
            },
            None => Ok(Request::get(path_of(*number, ""))),
        },
        TaskCommand::Approve { number, approved_by } => {
            let mut body = start_body();
            body.opt_text("approved_by", approved_by);
            Ok(Request::with(Method::Post, path_of(*number, "/approve"), body))
        },
        TaskCommand::Execute { number, approved_by } => {
            let mut body = start_body();
            body.opt_text("approved_by", approved_by);
            Ok(Request::with(Method::Post, path_of(*number, "/execute"), body))
        },
        TaskCommand::Assign { number, agent } => {
            let mut body = Body::new();
            body.text("assigned_agent_id", agent.as_str());
            body.text("source", CLI_SOURCE);
            Ok(Request::with(Method::Post, path_of(*number, "/assign"), body))
        },
        TaskCommand::Delete { number } => Ok(Request::delete(path_of(*number, ""))),
    }
}

/// A restore against the revision that the task was found at. Other commands
/// stay as they are.
pub fn expecting(command: TaskCommand, current: i64) -> (settled: TaskCommand)
    ensures
        settled == (match command {
            TaskCommand::Restore { number, revision, summary, expect: None } => TaskCommand::Restore {
                number,
                revision,
                summary,
                expect: Some(current),
            },
            other => other,
        }),
{
    match command {
        TaskCommand::Restore { number, revision, summary, expect: None } => TaskCommand::Restore {
            number,
            revision,
            summary,
            expect: Some(current),
        },
        other => other,
    }
}

// ---------------------------------------------------------------------------
// What is printed
// ---------------------------------------------------------------------------

impl Row for Task {
    open spec fn cells(&self) -> Seq<Seq<char>> {
        seq![
            text::signed_decimal(self.task_number as int),
            output::truncated(self.title@, 50),
            self.status.name(),
            self.priority.name(),
            output::or_dash(text::opt_text(self.assigned_agent_id)),
            output::minute_of(self.updated_at@),
        ]
    }

    fn row(&self) -> (row: Vec<String>) {
        let row = vec![
            text::show_signed(self.task_number),
            output::truncate(self.title.as_str(), 50),
            self.status.as_str().to_owned(),
            self.priority.as_str().to_owned(),
            output::dash(&self.assigned_agent_id),
            output::short_timestamp(self.updated_at.as_str()),
        ];
        assert(text::texts(row@) =~= self.cells());
        row
    }
}

/// The headings of a listing.
pub open spec fn list_headers() -> Seq<Seq<char>> {
    seq!["#"@, "TITLE"@, "STATUS"@, "PRIORITY"@, "ASSIGNED"@, "UPDATED"@]
}

/// Prints a listing.
pub fn print_list(tasks: &Vec<Task>) -> (report: Report)
    ensures
        report@ == output::listing("No tasks found."@, list_headers(), tasks@),
{
    let names = vec!["#", "TITLE", "STATUS", "PRIORITY", "ASSIGNED", "UPDATED"];
    assert(text::slices(names@) =~= list_headers());
    output::print_listing("No tasks found.", &names, tasks)
}

/// The line of a subtask.
pub open spec fn subtask_line(subtask: TaskSubtask) -> LineModel {
    LineModel::Out(
        "  ["@ + (if subtask.completed {
            "x"@
        } else {
            " "@
        }) + "] "@ + subtask.title@,
    )
}

/// The lines of subtasks.
pub open spec fn subtask_lines(subtasks: Seq<TaskSubtask>) -> Seq<LineModel> {
    if subtasks.len() == 0 {
        Seq::empty()
    } else {
        seq![LineModel::Out("Subtasks:"@)] + subtasks.map_values(|subtask: TaskSubtask| subtask_line(subtask))
    }
}

fn print_subtasks(report: &mut Report, subtasks: &Vec<TaskSubtask>)
    ensures
        final(report)@ == old(report)@ + subtask_lines(subtasks@),
{
    let ghost before = report@;
    if subtasks.len() == 0 {
        assert(before + subtask_lines(subtasks@) =~= before);
        return;
    }
    report.out("Subtasks:");
    let ghost start = report@;
    let ghost all = subtasks@.map_values(|subtask: TaskSubtask| subtask_line(subtask));
    let mut k: usize = 0;
    assert(report@ =~= start + all.take(0));
    while k < subtasks.len()
        invariant
            all == subtasks@.map_values(|subtask: TaskSubtask| subtask_line(subtask)),
            k <= subtasks@.len(),
            report@ == start + all.take(k as int),
        decreases subtasks@.len() - k,
    {
        let subtask = &subtasks[k];
        let mut line = "  [".to_owned();
        line.push_str(
            if subtask.completed {
                "x"
            } else {
                " "
            },
        );
        line.push_str("] ");
        line.push_str(subtask.title.as_str());
        report.out(line.as_str());
        assert(report@ =~= start + all.take(k + 1));
        k = k + 1;
    }
    assert(all.take(k as int) =~= all);
    assert(report@ =~= before + subtask_lines(subtasks@));
}

/// The line of an approval, where there is one.
pub open spec fn approval_line(at: Option<Seq<char>>, by: Option<Seq<char>>) -> Seq<LineModel> {
    match at {
        Some(at) => seq![
            LineModel::Out(
                "Approved:    "@ + output::minute_of(at) + " by "@ + (match by {
                    Some(by) => by,
                    None => "unknown"@,
                }),
            ),
        ],
        None => Seq::empty(),
    }
}

/// The line of a completion, where there is one.
pub open spec fn completion_line(at: Option<Seq<char>>) -> Seq<LineModel> {
    match at {
        Some(at) => seq![LineModel::Out("Completed:   "@ + output::minute_of(at))],
        None => Seq::empty(),
    }
}

/// What is printed of a task.
pub open spec fn task_lines(task: Task) -> Seq<LineModel> {
    seq![
        LineModel::Out("Number:      #"@ + text::signed_decimal(task.task_number as int)),
        LineModel::Out("Title:       "@ + task.title@),
        LineModel::Out("Status:      "@ + task.status.name()),
        LineModel::Out("Priority:    "@ + task.priority.name()),
        LineModel::Out("Owner:       "@ + task.owner_agent_id@),
        LineModel::Out("Assigned:    "@ + output::or_dash(text::opt_text(task.assigned_agent_id))),
        LineModel::Out("Created by:  "@ + task.created_by@),
        LineModel::Out("Revision:    "@ + text::signed_decimal(task.revision as int)),
        LineModel::Out("Created:     "@ + output::minute_of(task.created_at@)),
        LineModel::Out("Updated:     "@ + output::minute_of(task.updated_at@)),
    ] + output::opt_line("Worker:      "@, text::opt_text(task.worker_id)) + approval_line(
        text::opt_text(task.approved_at),
        text::opt_text(task.approved_by),
    ) + completion_line(text::opt_text(task.completed_at)) + output::opt_line(
        "Description: "@,
        text::opt_text(task.description),
    ) + subtask_lines(task.subtasks@)
}

/// Prints a task.
pub fn print_task(task: &Task) -> (report: Report)
    ensures
        report@ == task_lines(*task),
{
    let mut report = Report::new();
    report.field("Number:      #", text::show_signed(task.task_number).as_str());
    report.field("Title:       ", task.title.as_str());
    report.field("Status:      ", task.status.as_str());
    report.field("Priority:    ", task.priority.as_str());
    report.field("Owner:       ", task.owner_agent_id.as_str());
    report.field("Assigned:    ", output::dash(&task.assigned_agent_id).as_str());
    report.field("Created by:  ", task.created_by.as_str());
    report.field("Revision:    ", text::show_signed(task.revision).as_str());
    report.field("Created:     ", output::short_timestamp(task.created_at.as_str()).as_str());
    report.field("Updated:     ", output::short_timestamp(task.updated_at.as_str()).as_str());
    report.opt_field("Worker:      ", &task.worker_id);
    let ghost before = report@;
    if let Some(at) = &task.approved_at {
        let mut line = "Approved:    ".to_owned();
        line.push_str(output::short_timestamp(at.as_str()).as_str());
        line.push_str(" by ");
        match &task.approved_by {
            Some(by) => line.push_str(by.as_str()),
            None => line.push_str("unknown"),
        }
        report.out(line.as_str());
    }
    assert(report@ =~= before + approval_line(text::opt_text(task.approved_at), text::opt_text(task.approved_by)));
    let ghost approved = report@;
    if let Some(at) = &task.completed_at {
        report.field("Completed:   ", output::short_timestamp(at.as_str()).as_str());
    }
    assert(report@ =~= approved + completion_line(text::opt_text(task.completed_at)));
    report.opt_field("Description: ", &task.description);
    print_subtasks(&mut report, &task.subtasks);
    assert(report@ =~= task_lines(*task));
    report
}

/// A sentence on a task.
pub open spec fn task_note(before: Seq<char>, number: i64, after: Seq<char>) -> Seq<LineModel> {
    seq![LineModel::Note(before + text::signed_decimal(number as int) + after)]
}

fn note(before: &str, number: i64, after: &str) -> (report: Report)
    ensures
        report@ == task_note(before@, number, after@),
{
    let mut report = Report::new();
    report.err(request::path_with(before, number, after).as_str());
    assert(report@ =~= task_note(before@, number, after@));
    report
}

/// Prints that a task was created.
pub fn print_created(task: &Task) -> (report: Report)
    ensures
        report@ == task_note("Task #"@, task.task_number, " created ("@ + task.status.name() + ")."@),
{
    let mut after = " created (".to_owned();
    after.push_str(task.status.as_str());
    after.push_str(").");
    note("Task #", task.task_number, after.as_str())
}

/// Prints that a task was updated.
pub fn print_updated(task: &Task) -> (report: Report)
    ensures
        report@ == task_note(
            "Task #"@,
            task.task_number,
            " updated ("@ + task.status.name() + ", revision "@ + text::signed_decimal(task.revision as int) + ")."@,
        ),
{
    let mut after = " updated (".to_owned();
    after.push_str(task.status.as_str());
    after.push_str(", revision ");
    after.push_str(text::show_signed(task.revision).as_str());
    after.push_str(").");
    note("Task #", task.task_number, after.as_str())
}

/// Prints that a comment was made.
pub fn print_commented(number: i64, seq_number: i64) -> (report: Report)
    ensures
        report@ == task_note(
            "Commented on task #"@,
            number,
            " (#"@ + text::signed_decimal(seq_number as int) + ")."@,
        ),
{
    let mut after = " (#".to_owned();
    after.push_str(text::show_signed(seq_number).as_str());
    after.push_str(").");
    note("Commented on task #", number, after.as_str())
}

/// Prints that a task was restored.
pub fn print_restored(number: i64, revision: i64, task: &Task) -> (report: Report)
    ensures
        report@ == task_note(
            "Task #"@,
            number,
            " restored to revision "@ + text::signed_decimal(revision as int) + ", now at revision "@
                + text::signed_decimal(task.revision as int) + "."@,
        ),
{
    let mut after = " restored to revision ".to_owned();
    after.push_str(text::show_signed(revision).as_str());
    after.push_str(", now at revision ");
    after.push_str(text::show_signed(task.revision).as_str());
    after.push_str(".");
    note("Task #", number, after.as_str())
}

/// Prints that a task was approved.
pub fn print_approved(task: &Task) -> (report: Report)
    ensures
        report@ == task_note("Task #"@, task.task_number, " approved ("@ + task.status.name() + ")."@),
{
    let mut after = " approved (".to_owned();
    after.push_str(task.status.as_str());
    after.push_str(").");
    note("Task #", task.task_number, after.as_str())
}

/// Prints where a task stands that was to be executed.
pub fn print_executed(task: &Task) -> (report: Report)
    ensures
        report@ == task_note("Task #"@, task.task_number, " is "@ + task.status.name() + "."@),
{
    let mut after = " is ".to_owned();
    after.push_str(task.status.as_str());
    after.push_str(".");
    note("Task #", task.task_number, after.as_str())
}

/// Prints that a task was assigned.
pub fn print_assigned(task: &Task) -> (report: Report)
    ensures
        report@ == task_note(
            "Task #"@,
            task.task_number,
            " assigned to "@ + output::or_dash(text::opt_text(task.assigned_agent_id)) + "."@,
        ),
{
    let mut after = " assigned to ".to_owned();
    after.push_str(output::dash(&task.assigned_agent_id).as_str());
    after.push_str(".");
    note("Task #", task.task_number, after.as_str())
}

/// A comment on a task.
#[derive(Debug)]
pub struct TaskComment {
    pub seq: i64,
    pub author_type: String,
    pub author_id: Option<String>,
    pub created_at: String,
    pub body: String,
}

/// Comments on a task.
#[derive(Debug)]
pub struct TaskCommentListResponse {
    pub comments: Vec<TaskComment>,
    pub total: i64,
}

/// Lines, indented.
pub open spec fn indented(lines: Seq<Seq<char>>) -> Seq<LineModel> {
    lines.map_values(|line: Seq<char>| LineModel::Out("    "@ + line))
}

fn print_indented(report: &mut Report, body: &str)
    ensures
        final(report)@ == old(report)@ + indented(text::lines_of(body@)),
{
    let lines = text::lines(body);
    let ghost all = text::texts(lines@);
    let ghost before = report@;
    let mut k: usize = 0;
    assert(report@ =~= before + indented(all.take(0)));
    while k < lines.len()
        invariant
            all == text::texts(lines@),
            k <= lines@.len(),
            report@ == before + indented(all.take(k as int)),
        decreases lines@.len() - k,
    {
        report.field("    ", lines[k].as_str());
        assert(all[k as int] == lines@[k as int]@);
        assert(report@ =~= before + indented(all.take(k + 1)));
        k = k + 1;
    }
    assert(all.take(k as int) =~= all);
}

/// What is printed of a comment.
pub open spec fn comment_lines(comment: TaskComment) -> Seq<LineModel> {
    seq![
        LineModel::Out(
            "#"@ + text::signed_decimal(comment.seq as int) + " "@ + comment.author_type@ + " "@ + output::or_dash(
                text::opt_text(comment.author_id),
            ) + " · "@ + output::minute_of(comment.created_at@),
        ),
    ] + indented(text::lines_of(comment.body@)) + seq![LineModel::Out(""@)]
}

/// What is printed of comments.
pub open spec fn all_comment_lines(comments: Seq<TaskComment>) -> Seq<LineModel>
    decreases comments.len(),
{
    if comments.len() == 0 {
        Seq::empty()
    } else {
        all_comment_lines(comments.drop_last()) + comment_lines(comments.last())
    }
}

fn print_comment(report: &mut Report, comment: &TaskComment)
    ensures
        final(report)@ == old(report)@ + comment_lines(*comment),
{
    let ghost before = report@;
    let mut line = "#".to_owned();
    line.push_str(text::show_signed(comment.seq).as_str());
    line.push_str(" ");
    line.push_str(comment.author_type.as_str());
    line.push_str(" ");
    line.push_str(output::dash(&comment.author_id).as_str());
    line.push_str(" · ");
    line.push_str(output::short_timestamp(comment.created_at.as_str()).as_str());
    report.out(line.as_str());
    print_indented(report, comment.body.as_str());
    report.out("");
    assert(report@ =~= before + comment_lines(*comment));
}

/// Prints comments.
pub fn print_comments(number: i64, response: &TaskCommentListResponse) -> (report: Report)
    ensures
        report@ == (if response.comments@.len() == 0 {
            task_note("No comments on task #"@, number, "."@)
        } else {
            all_comment_lines(response.comments@).push(
                LineModel::Note(
                    text::decimal(response.comments@.len()) + " of "@ + text::signed_decimal(response.total as int)
                        + " comment(s) shown."@,
                ),
            )
        }),
{
    if response.comments.len() == 0 {
        return note("No comments on task #", number, ".");
    }
    let mut report = Report::new();
    let comments = &response.comments;
    let mut k: usize = 0;
    assert(report@ =~= all_comment_lines(comments@.take(0)));
    while k < comments.len()
        invariant
            k <= comments@.len(),
            report@ == all_comment_lines(comments@.take(k as int)),
        decreases comments@.len() - k,
    {
        assert(comments@.take(k + 1).drop_last() =~= comments@.take(k as int));
        print_comment(&mut report, &comments[k]);
        k = k + 1;
    }
    assert(comments@.take(k as int) =~= comments@);
    let mut line = text::show_usize(comments.len());
    line.push_str(" of ");
    line.push_str(text::show_signed(response.total).as_str());
    line.push_str(" comment(s) shown.");
    report.err(line.as_str());
    report
}

/// A revision of a task, apart from what the task was.
#[derive(Debug)]
pub struct TaskRevisionSummary {
    pub revision: i64,
    pub author_type: String,
    pub author_id: Option<String>,
    pub source: String,
    pub restored_from: Option<i64>,
    pub edit_summary: Option<String>,
    pub created_at: String,
}

/// The revisions of a task.
#[derive(Debug)]
pub struct TaskHistoryResponse {
    pub revisions: Vec<TaskRevisionSummary>,
    pub current: i64,
}

impl Row for TaskRevisionSummary {
    open spec fn cells(&self) -> Seq<Seq<char>> {
        seq![
            text::signed_decimal(self.revision as int),
            self.author_type@,
            output::or_dash(text::opt_text(self.author_id)),
            self.source@,
            match self.restored_from {
                Some(from) => "restore of "@ + text::signed_decimal(from as int),
                None => output::or_dash(text::opt_text(self.edit_summary)),
            },
            output::minute_of(self.created_at@),
        ]
    }

    fn row(&self) -> (row: Vec<String>) {
        let summary = match self.restored_from {
            Some(from) => {
                let mut summary = "restore of ".to_owned();
                summary.push_str(text::show_signed(from).as_str());
                summary
            },
            None => output::dash(&self.edit_summary),
        };
        let row = vec![
            text::show_signed(self.revision),
            self.author_type.clone(),
            output::dash(&self.author_id),
            self.source.clone(),
            summary,
            output::short_timestamp(self.created_at.as_str()),
        ];
        assert(text::texts(row@) =~= self.cells());
        row
    }
}

/// The headings of a history.
pub open spec fn history_headers() -> Seq<Seq<char>> {
    seq!["REV"@, "AUTHOR"@, "ID"@, "SOURCE"@, "SUMMARY"@, "WHEN"@]
}

/// Prints a history.
pub fn print_history(number: i64, response: &TaskHistoryResponse) -> (report: Report)
    ensures
        report@ == (if response.revisions@.len() == 0 {
            task_note("Task #"@, number, " has no revision history."@)
        } else {
            output::item_table(history_headers(), response.revisions@) + task_note(
                "Task #"@,
                number,
                " is at revision "@ + text::signed_decimal(response.current as int) + "."@,
            )
        }),
{
    if response.revisions.len() == 0 {
        return note("Task #", number, " has no revision history.");
    }
    let mut report = Report::new();
    let names = vec!["REV", "AUTHOR", "ID", "SOURCE", "SUMMARY", "WHEN"];
    assert(text::slices(names@) =~= history_headers());
    report.table(&names, &response.revisions);
    let mut after = " is at revision ".to_owned();
    after.push_str(text::show_signed(response.current).as_str());
    after.push_str(".");
    report.err(request::path_with("Task #", number, after.as_str()).as_str());
    assert(report@ =~= output::item_table(history_headers(), response.revisions@) + task_note(
        "Task #"@,
        number,
        after@,
    ));
    report
}

/// A dependency of a task, with the label of its kind.
#[derive(Debug)]
pub struct TaskRevisionDependency {
    pub task: i64,
    pub kind: String,
}

/// What a task was at a revision.
#[derive(Debug)]
pub struct TaskRevisionSnapshot {
    pub title: String,
    pub status: TaskStatus,
    pub priority: TaskPriority,
    pub assigned_agent_id: Option<String>,
    pub description: Option<String>,
    pub subtasks: Vec<TaskSubtask>,
    pub depends_on: Vec<TaskRevisionDependency>,
}

/// A revision of a task.
#[derive(Debug)]
pub struct TaskRevision {
    pub summary: TaskRevisionSummary,
    pub snapshot: TaskRevisionSnapshot,
}

/// The edges of dependencies, in words.
pub open spec fn edge_texts(edges: Seq<TaskRevisionDependency>) -> Seq<Seq<char>> {
    edges.map_values(
        |edge: TaskRevisionDependency| "#"@ + text::signed_decimal(edge.task as int) + " ("@ + edge.kind@ + ")"@,
    )
}

/// The line of the dependencies, where there are any.
pub open spec fn edge_line(edges: Seq<TaskRevisionDependency>) -> Seq<LineModel> {
    if edges.len() == 0 {
        Seq::empty()
    } else {
        seq![LineModel::Out("Depends on:  "@ + text::joined(edge_texts(edges), ", "@))]
    }
}

fn print_edges(report: &mut Report, edges: &Vec<TaskRevisionDependency>)
    ensures
        final(report)@ == old(report)@ + edge_line(edges@),
{
    let ghost before = report@;
    if edges.len() == 0 {
        assert(before + edge_line(edges@) =~= before);
        return;
    }
    let ghost all = edge_texts(edges@);
    let mut parts: Vec<String> = Vec::new();
    let mut k: usize = 0;
    assert(text::texts(parts@) =~= all.take(0));
    while k < edges.len()
        invariant
            all == edge_texts(edges@),
            k <= edges@.len(),
            text::texts(parts@) == all.take(k as int),
        decreases edges@.len() - k,
    {
        let mut part = "#".to_owned();
        part.push_str(text::show_signed(edges[k].task).as_str());
        part.push_str(" (");
        part.push_str(edges[k].kind.as_str());
        part.push_str(")");
        proof {
            text::texts_push(parts@, part);
            assert(all.take(k + 1) =~= all.take(k as int).push(part@));
        }
        parts.push(part);
        k = k + 1;
    }
    assert(all.take(k as int) =~= all);
    report.field("Depends on:  ", text::join(&parts, ", ").as_str());
    assert(report@ =~= before + edge_line(edges@));
}

/// The line of a restore, where there was one.
pub open spec fn restored_line(from: Option<i64>) -> Seq<LineModel> {
    match from {
        Some(from) => seq![LineModel::Out("Restored:    revision "@ + text::signed_decimal(from as int))],
        None => Seq::empty(),
    }
}

/// What is printed of a revision.
pub open spec fn revision_lines(revision: TaskRevision) -> Seq<LineModel> {
    let summary = revision.summary;
    let snapshot = revision.snapshot;
    seq![
        LineModel::Out("Revision:    "@ + text::signed_decimal(summary.revision as int)),
        LineModel::Out(
            "Author:      "@ + (summary.author_type@ + " "@ + output::or_dash(text::opt_text(summary.author_id))),
        ),
        LineModel::Out("Source:      "@ + summary.source@),
    ] + restored_line(summary.restored_from) + output::opt_line(
        "Summary:     "@,
        text::opt_text(summary.edit_summary),
    ) + seq![
        LineModel::Out("When:        "@ + output::minute_of(summary.created_at@)),
        LineModel::Out(""@),
        LineModel::Out("Title:       "@ + snapshot.title@),
        LineModel::Out("Status:      "@ + snapshot.status.name()),
        LineModel::Out("Priority:    "@ + snapshot.priority.name()),
        LineModel::Out("Assigned:    "@ + output::or_dash(text::opt_text(snapshot.assigned_agent_id))),
    ] + output::opt_line("Description: "@, text::opt_text(snapshot.description)) + subtask_lines(snapshot.subtasks@)
        + edge_line(snapshot.depends_on@)
}

/// Prints a revision.
pub fn print_revision(revision: &TaskRevision) -> (report: Report)
    ensures
        report@ == revision_lines(*revision),
{
    let summary = &revision.summary;
    let snapshot = &revision.snapshot;
    let mut report = Report::new();
    report.field("Revision:    ", text::show_signed(summary.revision).as_str());
    let mut author = summary.author_type.clone();
    author.push_str(" ");
    author.push_str(output::dash(&summary.author_id).as_str());
    report.field("Author:      ", author.as_str());
    report.field("Source:      ", summary.source.as_str());
    let ghost before = report@;
    if let Some(from) = summary.restored_from {
        report.field("Restored:    revision ", text::show_signed(from).as_str());
    }
    assert(report@ =~= before + restored_line(summary.restored_from));
    report.opt_field("Summary:     ", &summary.edit_summary);
    report.field("When:        ", output::short_timestamp(summary.created_at.as_str()).as_str());
    report.out("");
    report.field("Title:       ", snapshot.title.as_str());
    report.field("Status:      ", snapshot.status.as_str());
    report.field("Priority:    ", snapshot.priority.as_str());
    report.field("Assigned:    ", output::dash(&snapshot.assigned_agent_id).as_str());
    report.opt_field("Description: ", &snapshot.description);
    print_subtasks(&mut report, &snapshot.subtasks);
    print_edges(&mut report, &snapshot.depends_on);
    assert(report@ =~= revision_lines(*revision));
    report
}

/// The value of a field of a task.
#[derive(Debug)]
pub enum FieldValue {
    Absent,
    Text(String),
    /// Anything else, as JSON.
    Other(String),
}

impl FieldValue {
    /// A value as it is shown.
    pub open spec fn shown(self) -> Seq<char> {
        match self {
            FieldValue::Absent => "-"@,
            FieldValue::Text(text) => text@,
            FieldValue::Other(json) => json@,
        }
    }
}

/// A value as it is shown.
pub fn render_value(value: &FieldValue) -> (shown: String)
    ensures
        shown@ == value.shown(),
{
    match value {
        FieldValue::Absent => "-".to_owned(),
        FieldValue::Text(text) => text.clone(),
        FieldValue::Other(json) => json.clone(),
    }
}

/// A value behind its label: on one line, or as an indented block when it
/// spans several.
pub open spec fn block_lines(label: Seq<char>, value: Seq<char>) -> Seq<LineModel> {
    if value.contains('\n') {
        seq![LineModel::Out(label + ":"@)] + indented(text::lines_of(value))
    } else {
        seq![LineModel::Out(label + ": "@ + value)]
    }
}

fn print_block(report: &mut Report, label: &str, value: &FieldValue)
    ensures
        final(report)@ == old(report)@ + block_lines(label@, value.shown()),
{
    let ghost before = report@;
    let rendered = render_value(value);
    let mut line = label.to_owned();
    if text::contains_char(rendered.as_str(), '\n') {
        line.push_str(":");
        report.out(line.as_str());
        print_indented(report, rendered.as_str());
    } else {
        line.push_str(": ");
        line.push_str(rendered.as_str());
        report.out(line.as_str());
    }
    assert(report@ =~= before + block_lines(label@, value.shown()));
}

/// A field that changed between two revisions.
#[derive(Debug)]
pub struct TaskFieldChange {
    pub field: String,
    pub before: FieldValue,
    pub after: FieldValue,
}

/// What changed between two revisions.
#[derive(Debug)]
pub struct TaskRevisionDiff {
    pub from: i64,
    pub to: i64,
    pub changes: Vec<TaskFieldChange>,
}

/// What is printed of a change.
pub open spec fn change_lines(change: TaskFieldChange) -> Seq<LineModel> {
    seq![LineModel::Out(""@), LineModel::Out(change.field@)] + block_lines("  before"@, change.before.shown())
        + block_lines("  after"@, change.after.shown())
}

/// What is printed of changes.
pub open spec fn all_change_lines(changes: Seq<TaskFieldChange>) -> Seq<LineModel>
    decreases changes.len(),
{
    if changes.len() == 0 {
        Seq::empty()
    } else {
        all_change_lines(changes.drop_last()) + change_lines(changes.last())
    }
}

/// What is printed of a diff.
pub open spec fn diff_lines(number: i64, diff: TaskRevisionDiff) -> Seq<LineModel> {
    let from = text::signed_decimal(diff.from as int);
    let to = text::signed_decimal(diff.to as int);
    let task = text::signed_decimal(number as int);
    if diff.changes@.len() == 0 {
        seq![
            LineModel::Note(
                "Revisions "@ + from + " and "@ + to + " of task #"@ + task + " are materially identical."@,
            ),
        ]
    } else {
        seq![LineModel::Note("Task #"@ + task + ": revision "@ + from + " → "@ + to)] + all_change_lines(
            diff.changes@,
        )
    }
}

/// Prints a diff.
pub fn print_diff(number: i64, diff: &TaskRevisionDiff) -> (report: Report)
    ensures
        report@ == diff_lines(number, *diff),
{
    let mut report = Report::new();
    if diff.changes.len() == 0 {
        let mut line = "Revisions ".to_owned();
        line.push_str(text::show_signed(diff.from).as_str());
        line.push_str(" and ");
        line.push_str(text::show_signed(diff.to).as_str());
        line.push_str(" of task #");
        line.push_str(text::show_signed(number).as_str());
        line.push_str(" are materially identical.");
        report.err(line.as_str());
        assert(report@ =~= diff_lines(number, *diff));
        return report;
    }
    let mut line = "Task #".to_owned();
    line.push_str(text::show_signed(number).as_str());
    line.push_str(": revision ");
    line.push_str(text::show_signed(diff.from).as_str());
    line.push_str(" → ");
    line.push_str(text::show_signed(diff.to).as_str());
    report.err(line.as_str());
    let ghost start = report@;
    let changes = &diff.changes;
    let mut k: usize = 0;
    assert(report@ =~= start + all_change_lines(changes@.take(0)));
    while k < changes.len()
        invariant
            k <= changes@.len(),
            report@ == start + all_change_lines(changes@.take(k as int)),
        decreases changes@.len() - k,
    {
        assert(changes@.take(k + 1).drop_last() =~= changes@.take(k as int));
        let change = &changes[k];
        report.out("");
        report.out(change.field.as_str());
        print_block(&mut report, "  before", &change.before);
        print_block(&mut report, "  after", &change.after);
        assert(report@ =~= start + all_change_lines(changes@.take(k + 1)));
        k = k + 1;
    }
    assert(changes@.take(k as int) =~= changes@);
    assert(report@ =~= diff_lines(number, *diff));
    report
}

// ---------------------------------------------------------------------------
// Laws
// ---------------------------------------------------------------------------

/// Whether a request carries the mark of this binary.
pub open spec fn marks_source(request: RequestModel) -> bool {
    request.body matches Some(JsonModel::Object(members)) && json::member_of(members, "source"@) == Some(
        JsonModel::Text("cli"@),
    )
}

/// Every write that makes a revision of a task carries the mark of this
/// binary. A comment makes none, nor does a deletion.
pub proof fn law_writes_are_marked(command: TaskCommand)
    requires
        command is Create || command is Update || command is Approve || command is Execute || command is Assign
            || command matches TaskCommand::Restore { expect: Some(_), .. },
        request_of(command) is Ok,
    ensures
        marks_source(request_of(command)->Ok_0),
{
    let source = "source"@;
    let mark = JsonModel::Text("cli"@);
    let body = marked_body();
    json::law_a_set_member_is_found(json::no_members(), source, mark, source);
    distinct_names();
    match command {
        TaskCommand::Update {
            number,
            title,
            description,
            status,
            priority,
            assigned,
            complete_subtask,
            summary,
            expect,
        } => {
            keeps_source_text(body, "title"@, text::opt_text(title));
            let body = json::with_opt_text(body, "title"@, text::opt_text(title));
            keeps_source_text(body, "description"@, text::opt_text(description));
            let body = json::with_opt_text(body, "description"@, text::opt_text(description));
            keeps_source_text(body, "status"@, text::opt_text(status));
            let body = json::with_opt_text(body, "status"@, text::opt_text(status));
            keeps_source_text(body, "priority"@, text::opt_text(priority));
            let body = json::with_opt_text(body, "priority"@, text::opt_text(priority));
            keeps_source_text(body, "assigned_agent_id"@, text::opt_text(assigned));
            let body = json::with_opt_text(body, "assigned_agent_id"@, text::opt_text(assigned));
            keeps_source_number(body, "complete_subtask"@, json::opt_place(complete_subtask));
            let body = json::with_opt_number(body, "complete_subtask"@, json::opt_place(complete_subtask));
            keeps_source_text(body, "edit_summary"@, text::opt_text(summary));
            let body = json::with_opt_text(body, "edit_summary"@, text::opt_text(summary));
            keeps_source_number(body, "expected_revision"@, json::opt_int(expect));
        },
        TaskCommand::Approve { number, approved_by } => {
            keeps_source_text(body, "approved_by"@, text::opt_text(approved_by));
        },
        TaskCommand::Execute { number, approved_by } => {
            keeps_source_text(body, "approved_by"@, text::opt_text(approved_by));
        },
        TaskCommand::Create { title, owner, assigned, description, priority, subtasks, created_by } => {
            let body = json::with_text(json::with_text(json::no_members(), "owner_agent_id"@, owner@), "title"@, title@);
            json::law_a_set_member_is_found(body, source, mark, source);
            let body = json::with_text(body, source, "cli"@);
            keeps_source_text(body, "assigned_agent_id"@, text::opt_text(assigned));
            let body = json::with_opt_text(body, "assigned_agent_id"@, text::opt_text(assigned));
            keeps_source_text(body, "description"@, text::opt_text(description));
            let body = json::with_opt_text(body, "description"@, text::opt_text(description));
            keeps_source_text(body, "priority"@, text::opt_text(priority));
            let body = json::with_opt_text(body, "priority"@, text::opt_text(priority));
            let listed = open_subtasks(text::texts(subtasks@));
            json::law_a_set_member_is_found(body, "subtasks"@, listed, source);
            let body = if subtasks@.len() > 0 {
                json::with_member(body, "subtasks"@, listed)
            } else {
                body
            };
            keeps_source_text(body, "created_by"@, text::opt_text(created_by));
        },
        TaskCommand::Restore { number, revision, summary, expect } => {
            let expected = expect->0;
            let body = json::with_number(json::no_members(), "expected_revision"@, expected as int);
            json::law_a_set_member_is_found(body, source, mark, source);
            keeps_source_text(json::with_text(body, source, "cli"@), "edit_summary"@, text::opt_text(summary));
        },
        TaskCommand::Assign { number, agent } => {
            let body = json::with_text(json::no_members(), "assigned_agent_id"@, agent@);
            json::law_a_set_member_is_found(body, source, mark, source);
        },
        _ => {},
    }
}

proof fn distinct_names()
    ensures
        "title"@ != "source"@,
        "description"@ != "source"@,
        "status"@ != "source"@,
        "priority"@ != "source"@,
        "assigned_agent_id"@ != "source"@,
        "complete_subtask"@ != "source"@,
        "edit_summary"@ != "source"@,
        "expected_revision"@ != "source"@,
        "approved_by"@ != "source"@,
        "subtasks"@ != "source"@,
        "created_by"@ != "source"@,
{
    reveal_strlit("source");
    reveal_strlit("subtasks");
    reveal_strlit("created_by");
    reveal_strlit("title");
    reveal_strlit("description");
    reveal_strlit("status");
    reveal_strlit("priority");
    reveal_strlit("assigned_agent_id");
    reveal_strlit("complete_subtask");
    reveal_strlit("edit_summary");
    reveal_strlit("expected_revision");
    reveal_strlit("approved_by");
    assert("source"@.len() == 6);
    assert("source"@[1] == 'o');
    assert("status"@[1] == 't');
    assert("title"@.len() == 5);
    assert("description"@.len() == 11);
    assert("priority"@.len() == 8);
    assert("assigned_agent_id"@.len() == 17);
    assert("complete_subtask"@.len() == 16);
    assert("edit_summary"@.len() == 12);
    assert("expected_revision"@.len() == 17);
    assert("approved_by"@.len() == 11);
    assert("subtasks"@.len() == 8);
    assert("created_by"@.len() == 10);
}

proof fn keeps_source_text(body: Seq<(Seq<char>, JsonModel)>, name: Seq<char>, value: Option<Seq<char>>)
    requires
        name != "source"@,
    ensures
        json::member_of(json::with_opt_text(body, name, value), "source"@) == json::member_of(body, "source"@),
{
    if let Some(value) = value {
        json::law_a_set_member_is_found(body, name, JsonModel::Text(value), "source"@);
    }
}

proof fn keeps_source_number(body: Seq<(Seq<char>, JsonModel)>, name: Seq<char>, value: Option<int>)
    requires
        name != "source"@,
    ensures
        json::member_of(json::with_opt_number(body, name, value), "source"@) == json::member_of(body, "source"@),
{
    if let Some(value) = value {
        json::law_a_set_member_is_found(body, name, JsonModel::Number(value), "source"@);
    }
}

/// Reading commands read, and a writing command writes in its own way; only a
/// change that changes nothing is refused.
pub proof fn law_commands_keep_to_their_method(command: TaskCommand)
    ensures
        request_of(command) is Err <==> (command matches TaskCommand::Update {
            title: None,
            description: None,
            status: None,
            priority: None,
            assigned: None,
            complete_subtask: None,
            ..
        }),
        command is List || command is Get || command is Comments || command is History || command is Revision || command is Diff
            ==> request_of(command)->Ok_0.method == Method::Get && request_of(command)->Ok_0.body is None,
        command is Create || command is Comment || command is Approve || command is Execute || command is Assign
            ==> request_of(command)->Ok_0.method == Method::Post,
        command is Update && request_of(command) is Ok ==> request_of(command)->Ok_0.method == Method::Put,
        command is Delete ==> request_of(command)->Ok_0.method == Method::Delete && request_of(command)->Ok_0.body is None,
        command matches TaskCommand::Restore { expect, .. } ==> {
            &&& expect is Some ==> request_of(command)->Ok_0.method == Method::Post
            &&& expect is None ==> request_of(command)->Ok_0.method == Method::Get
        },
{
}

/// The number of the task that a command is about.
pub open spec fn number_in(command: TaskCommand) -> Option<i64> {
    match command {
        TaskCommand::List { .. } => None,
        TaskCommand::Create { .. } => None,
        TaskCommand::Get { number } => Some(number),
        TaskCommand::Update { number, .. } => Some(number),
        TaskCommand::Comment { number, .. } => Some(number),
        TaskCommand::Comments { number, .. } => Some(number),
        TaskCommand::History { number, .. } => Some(number),
        TaskCommand::Revision { number, .. } => Some(number),
        TaskCommand::Diff { number, .. } => Some(number),
        TaskCommand::Restore { number, .. } => Some(number),
        TaskCommand::Approve { number, .. } => Some(number),
        TaskCommand::Execute { number, .. } => Some(number),
        TaskCommand::Assign { number, .. } => Some(number),
        TaskCommand::Delete { number } => Some(number),
    }
}

/// Whatever a command asks of a task goes to that task.
pub proof fn law_a_command_goes_to_its_task(command: TaskCommand)
    requires
        request_of(command) is Ok,
        number_in(command) is Some,
    ensures
        text::begins(
            request_of(command)->Ok_0.path,
            "tasks/"@ + text::signed_decimal(number_in(command)->0 as int),
        ),
{
    let path = request_of(command)->Ok_0.path;
    let head = "tasks/"@ + text::signed_decimal(number_in(command)->0 as int);
    assert(path.subrange(0, head.len() as int) =~= head);
}

/// A writing command goes to the address of what it does.
pub proof fn law_a_command_goes_to_its_address(command: TaskCommand)
    requires
        request_of(command) is Ok,
    ensures
        command is Approve ==> text::ends(request_of(command)->Ok_0.path, "/approve"@),
        command is Execute ==> text::ends(request_of(command)->Ok_0.path, "/execute"@),
        command is Assign ==> text::ends(request_of(command)->Ok_0.path, "/assign"@),
        command is Comment ==> text::ends(request_of(command)->Ok_0.path, "/comments"@),
        command matches TaskCommand::Restore { revision, expect: Some(_), .. } ==> text::ends(
            request_of(command)->Ok_0.path,
            "/revisions/"@ + text::signed_decimal(revision as int) + "/restore"@,
        ),
        command matches TaskCommand::Revision { revision, .. } ==> text::ends(
            request_of(command)->Ok_0.path,
            "/revisions/"@ + text::signed_decimal(revision as int),
        ),
{
    if let Some(number) = number_in(command) {
        let head = "tasks/"@ + text::signed_decimal(number as int);
        text::law_parts_occur(head, "/approve"@, Seq::empty());
        text::law_parts_occur(head, "/execute"@, Seq::empty());
        text::law_parts_occur(head, "/assign"@, Seq::empty());
        text::law_parts_occur(head, "/comments"@, Seq::empty());
        match command {
            TaskCommand::Restore { revision, .. } => {
                let rest = "/revisions/"@ + text::signed_decimal(revision as int) + "/restore"@;
                text::law_parts_occur(head, rest, Seq::empty());
            },
            TaskCommand::Revision { revision, .. } => {
                let rest = "/revisions/"@ + text::signed_decimal(revision as int);
                text::law_parts_occur(head, rest, Seq::empty());
            },
            _ => {},
        }
    }
}

/// A new task is sent with everything that was said of it, each under its own
/// name, and with nothing that was not.
pub proof fn law_a_new_task_says_everything_once(
    title: Seq<char>,
    owner: Seq<char>,
    assigned: Option<Seq<char>>,
    description: Option<Seq<char>>,
    priority: Option<Seq<char>>,
    subtasks: Seq<Seq<char>>,
    created_by: Option<Seq<char>>,
)
    ensures
        ({
            let sent = JsonModel::Object(
                create_body(title, owner, assigned, description, priority, subtasks, created_by),
            );
            &&& sent.at("title"@).as_text() == Some(title)
            &&& sent.at("owner_agent_id"@).as_text() == Some(owner)
            &&& sent.at("assigned_agent_id"@).as_text() == assigned
            &&& sent.at("description"@).as_text() == description
            &&& sent.at("priority"@).as_text() == priority
            &&& sent.at("created_by"@).as_text() == created_by
            &&& sent.at("subtasks"@).items().len() == subtasks.len()
        }),
{
    broadcast use json::member_after_set;

    field_names_differ();
}

/// A change is sent with what it changes, each under its own name, and with
/// nothing else.
pub proof fn law_a_change_says_what_it_changes(
    title: Option<Seq<char>>,
    description: Option<Seq<char>>,
    status: Option<Seq<char>>,
    priority: Option<Seq<char>>,
    assigned: Option<Seq<char>>,
    complete_subtask: Option<int>,
    summary: Option<Seq<char>>,
    expect: Option<int>,
)
    requires
        complete_subtask matches Some(k) ==> i64::MIN <= k <= i64::MAX,
        expect matches Some(k) ==> i64::MIN <= k <= i64::MAX,
    ensures
        ({
            let sent = JsonModel::Object(
                update_body(title, description, status, priority, assigned, complete_subtask, summary, expect),
            );
            &&& sent.at("title"@).as_text() == title
            &&& sent.at("description"@).as_text() == description
            &&& sent.at("status"@).as_text() == status
            &&& sent.at("priority"@).as_text() == priority
            &&& sent.at("assigned_agent_id"@).as_text() == assigned
            &&& sent.at("complete_subtask"@).as_whole() == complete_subtask
            &&& sent.at("edit_summary"@).as_text() == summary
            &&& sent.at("expected_revision"@).as_whole() == expect
        }),
{
    broadcast use json::member_after_set;

    field_names_differ();
}

/// The names of fields differ in their length or in a letter.
proof fn field_names_differ()
    ensures
        "title"@.len() == 5,
        "source"@.len() == 6,
        "status"@.len() == 6,
        "priority"@.len() == 8,
        "subtasks"@.len() == 8,
        "created_by"@.len() == 10,
        "description"@.len() == 11,
        "edit_summary"@.len() == 12,
        "owner_agent_id"@.len() == 14,
        "complete_subtask"@.len() == 16,
        "assigned_agent_id"@.len() == 17,
        "expected_revision"@.len() == 17,
        "source"@ != "status"@,
        "priority"@ != "subtasks"@,
        "assigned_agent_id"@ != "expected_revision"@,
{
    reveal_strlit("title");
    reveal_strlit("source");
    reveal_strlit("status");
    reveal_strlit("priority");
    reveal_strlit("subtasks");
    reveal_strlit("created_by");
    reveal_strlit("description");
    reveal_strlit("edit_summary");
    reveal_strlit("owner_agent_id");
    reveal_strlit("complete_subtask");
    reveal_strlit("assigned_agent_id");
    reveal_strlit("expected_revision");
    assert("source"@[1] != "status"@[1]);
    assert("priority"@[0] != "subtasks"@[0]);
    assert("assigned_agent_id"@[0] != "expected_revision"@[0]);
}

/// A subtask is sent by its title, not yet done.
pub proof fn law_new_subtasks_are_open(titles: Seq<Seq<char>>, k: int)
    requires
        0 <= k < titles.len(),
    ensures
        open_subtasks(titles).items().len() == titles.len(),
        open_subtasks(titles).items()[k].at("title"@).as_text() == Some(titles[k]),
        open_subtasks(titles).items()[k].at("completed"@).as_flag() == Some(false),
{
    broadcast use json::member_after_set;

    reveal_strlit("title");
    reveal_strlit("completed");
    assert("title"@.len() != "completed"@.len());
    let named = json::with_text(json::no_members(), "title"@, titles[k]);
    let item = json::with_flag(named, "completed"@, false);
    assert(open_subtasks(titles).items()[k] == JsonModel::Object(item));
    assert(json::member_of(item, "title"@) == json::member_of(named, "title"@));
}

/// A listing asks for what it is filtered by and for nothing else.
pub proof fn law_a_listing_asks_for_its_filters(
    agent: Option<Seq<char>>,
    owner: Option<Seq<char>>,
    assigned: Option<Seq<char>>,
    status: Option<Seq<char>>,
    priority: Option<Seq<char>>,
    created_by: Option<Seq<char>>,
    limit: i64,
    part: Seq<char>,
)
    ensures
        list_params(agent, owner, assigned, status, priority, created_by, limit).contains(part) <==> {
            ||| part == "limit"@ + "="@ + text::signed_decimal(limit as int)
            ||| agent is Some && part == "agent_id"@ + "="@ + request::in_query(agent->0)
            ||| owner is Some && part == "owner_agent_id"@ + "="@ + request::in_query(owner->0)
            ||| assigned is Some && part == "assigned_agent_id"@ + "="@ + request::in_query(assigned->0)
            ||| status is Some && part == "status"@ + "="@ + request::in_query(status->0)
            ||| priority is Some && part == "priority"@ + "="@ + request::in_query(priority->0)
            ||| created_by is Some && part == "created_by"@ + "="@ + request::in_query(created_by->0)
        },
{
    broadcast use request::params_after_text;

    let first = request::with_number(request::no_params(), "limit"@, limit as int);
    let limited = "limit"@ + "="@ + text::signed_decimal(limit as int);
    assert(first =~= seq![limited]);
    assert(first.contains(part) <==> part == limited) by {
        assert(first[0] == limited);
    }
}

/// A row of the listing shows its own task.
pub proof fn law_a_listed_task_is_shown_in_columns(task: Task)
    ensures
        task.cells().len() == list_headers().len(),
        task.cells()[0] == text::signed_decimal(task.task_number as int),
        task.title@.len() <= 50 ==> task.cells()[1] == task.title@,
        task.cells()[2] == task.status.name(),
        task.cells()[3] == task.priority.name(),
        task.assigned_agent_id is Some ==> task.cells()[4] == task.assigned_agent_id->0@,
        task.assigned_agent_id is None ==> task.cells()[4] == "-"@,
        task.cells()[5] == output::minute_of(task.updated_at@),
{
}

/// A subtask is shown by its title behind a box that is ticked once it is done.
pub proof fn law_done_subtasks_are_ticked(subtasks: Seq<TaskSubtask>, k: int)
    requires
        0 <= k < subtasks.len(),
    ensures
        subtask_lines(subtasks).len() == subtasks.len() + 1,
        subtasks[k].completed ==> subtask_lines(subtasks)[k + 1] == LineModel::Out("  [x] "@ + subtasks[k].title@),
        !subtasks[k].completed ==> subtask_lines(subtasks)[k + 1] == LineModel::Out("  [ ] "@ + subtasks[k].title@),
{
    reveal_strlit("  [");
    reveal_strlit("x");
    reveal_strlit(" ");
    reveal_strlit("] ");
    reveal_strlit("  [x] ");
    reveal_strlit("  [ ] ");
    assert("  ["@ + "x"@ + "] "@ =~= "  [x] "@);
    assert("  ["@ + " "@ + "] "@ =~= "  [ ] "@);
}

/// A task is shown with its facts first, in one order, and its subtasks last.
pub proof fn law_a_shown_task_tells_its_facts(task: Task)
    ensures
        task_lines(task)[0] == LineModel::Out("Number:      #"@ + text::signed_decimal(task.task_number as int)),
        task_lines(task)[1] == LineModel::Out("Title:       "@ + task.title@),
        task_lines(task)[2] == LineModel::Out("Status:      "@ + task.status.name()),
        task_lines(task)[3] == LineModel::Out("Priority:    "@ + task.priority.name()),
        task_lines(task)[4] == LineModel::Out("Owner:       "@ + task.owner_agent_id@),
        task_lines(task)[7] == LineModel::Out("Revision:    "@ + text::signed_decimal(task.revision as int)),
        task_lines(task).len() == 10 + (if task.worker_id is Some {
            1int
        } else {
            0
        }) + (if task.approved_at is Some {
            1int
        } else {
            0
        }) + (if task.completed_at is Some {
            1int
        } else {
            0
        }) + (if task.description is Some {
            1int
        } else {
            0
        }) + (if task.subtasks@.len() > 0 {
            task.subtasks@.len() + 1
        } else {
            0
        }),
        task.subtasks@.len() > 0 ==> task_lines(task).subrange(
            task_lines(task).len() - task.subtasks@.len() - 1,
            task_lines(task).len() as int,
        ) == subtask_lines(task.subtasks@),
        task.subtasks@.len() == 0 && task.description is Some ==> task_lines(task).last() == LineModel::Out(
            "Description: "@ + task.description->0@,
        ),
{
    let lines = task_lines(task);
    let last = subtask_lines(task.subtasks@);
    if task.subtasks@.len() > 0 {
        assert(lines.subrange(lines.len() - last.len(), lines.len() as int) =~= last);
    }
}

/// Comments are shown one after the other, each with all of its lines.
pub proof fn law_comments_are_shown_one_by_one(first: Seq<TaskComment>, second: Seq<TaskComment>)
    ensures
        all_comment_lines(first + second) == all_comment_lines(first) + all_comment_lines(second),
        first.len() == 1 ==> all_comment_lines(first) == comment_lines(first[0]),
        first.len() == 1 ==> all_comment_lines(first).len() == text::lines_of(first[0].body@).len() + 2,
    decreases second.len(),
{
    let all = first + second;
    if second.len() == 0 {
        assert(all =~= first);
        assert(all_comment_lines(second) =~= Seq::<LineModel>::empty());
    } else {
        assert(all.drop_last() =~= first + second.drop_last());
        assert(all.last() == second.last());
        law_comments_are_shown_one_by_one(first, second.drop_last());
    }
    assert(all_comment_lines(all) =~= all_comment_lines(first) + all_comment_lines(second));
    if first.len() == 1 {
        assert(first.last() == first[0]);
        assert(all_comment_lines(first.drop_last()) =~= Seq::<LineModel>::empty());
        assert(all_comment_lines(first) =~= comment_lines(first[0]));
    }
}

/// Changes are shown one after the other, what was before what is.
pub proof fn law_changes_are_shown_before_and_after(first: Seq<TaskFieldChange>, second: Seq<TaskFieldChange>)
    ensures
        all_change_lines(first + second) == all_change_lines(first) + all_change_lines(second),
        first.len() == 1 ==> all_change_lines(first).len() >= 4,
        first.len() == 1 ==> all_change_lines(first)[1] == LineModel::Out(first[0].field@),
        first.len() == 1 && !first[0].before.shown().contains('\n') && !first[0].after.shown().contains('\n')
            ==> all_change_lines(first)[2] == LineModel::Out("  before"@ + ": "@ + first[0].before.shown())
            && all_change_lines(first)[3] == LineModel::Out("  after"@ + ": "@ + first[0].after.shown()),
    decreases second.len(),
{
    let all = first + second;
    if second.len() == 0 {
        assert(all =~= first);
        assert(all_change_lines(second) =~= Seq::<LineModel>::empty());
    } else {
        assert(all.drop_last() =~= first + second.drop_last());
        assert(all.last() == second.last());
        law_changes_are_shown_before_and_after(first, second.drop_last());
    }
    assert(all_change_lines(all) =~= all_change_lines(first) + all_change_lines(second));
    if first.len() == 1 {
        assert(first.last() == first[0]);
        assert(all_change_lines(first.drop_last()) =~= Seq::<LineModel>::empty());
        assert(all_change_lines(first) =~= change_lines(first[0]));
    }
}

/// A value of several lines is shown below its label, line by line, and one of
/// one line behind it.
pub proof fn law_long_values_are_shown_below_their_label(label: Seq<char>, value: Seq<char>, k: int)
    ensures
        !value.contains('\n') ==> block_lines(label, value) == seq![LineModel::Out(label + ": "@ + value)],
        value.contains('\n') ==> block_lines(label, value).len() == text::lines_of(value).len() + 1 && (0 <= k
            < text::lines_of(value).len() ==> block_lines(label, value)[k + 1] == LineModel::Out(
            "    "@ + text::lines_of(value)[k],
        )),
{
}

/// Revisions that do not differ are told so, in a note; else every change is
/// shown.
pub proof fn law_a_diff_without_changes_is_a_note(number: i64, diff: TaskRevisionDiff)
    ensures
        diff.changes@.len() == 0 ==> diff_lines(number, diff).len() == 1,
        diff_lines(number, diff)[0] is Note,
        diff.changes@.len() > 0 ==> diff_lines(number, diff).subrange(1, diff_lines(number, diff).len() as int)
            == all_change_lines(diff.changes@),
{
    let lines = diff_lines(number, diff);
    if diff.changes@.len() > 0 {
        assert(lines.subrange(1, lines.len() as int) =~= all_change_lines(diff.changes@));
    }
}

/// A restored revision says what it restored rather than its summary.
pub proof fn law_a_restored_revision_says_so(summary: TaskRevisionSummary)
    ensures
        summary.cells().len() == history_headers().len(),
        summary.cells()[0] == text::signed_decimal(summary.revision as int),
        summary.restored_from matches Some(from) ==> summary.cells()[4] == "restore of "@ + text::signed_decimal(
            from as int,
        ),
        summary.restored_from is None && summary.edit_summary is Some ==> summary.cells()[4]
            == summary.edit_summary->0@,
{
}

/// A revision is shown by its number, its author and its state, and by what it
/// depends on where it does.
pub proof fn law_a_shown_revision_tells_its_state(revision: TaskRevision)
    ensures
        revision_lines(revision)[0] == LineModel::Out(
            "Revision:    "@ + text::signed_decimal(revision.summary.revision as int),
        ),
        revision_lines(revision)[2] == LineModel::Out("Source:      "@ + revision.summary.source@),
        revision_lines(revision).contains(LineModel::Out("Title:       "@ + revision.snapshot.title@)),
        revision_lines(revision).contains(LineModel::Out("Status:      "@ + revision.snapshot.status.name())),
        revision_lines(revision).contains(LineModel::Out("Priority:    "@ + revision.snapshot.priority.name())),
        revision.snapshot.depends_on@.len() > 0 ==> revision_lines(revision).last() == LineModel::Out(
            "Depends on:  "@ + text::joined(edge_texts(revision.snapshot.depends_on@), ", "@),
        ),
{
    let lines = revision_lines(revision);
    let told: int = 3int + restored_line(revision.summary.restored_from).len() + output::opt_line(
        "Summary:     "@,
        text::opt_text(revision.summary.edit_summary),
    ).len();
    assert(lines[told + 2] == LineModel::Out("Title:       "@ + revision.snapshot.title@));
    assert(lines[told + 3] == LineModel::Out("Status:      "@ + revision.snapshot.status.name()));
    assert(lines[told + 4] == LineModel::Out("Priority:    "@ + revision.snapshot.priority.name()));
}

/// A note names its task.
pub proof fn law_a_note_names_its_task(before: Seq<char>, number: i64, after: Seq<char>)
    ensures
        task_note(before, number, after) == seq![
            LineModel::Note(before + text::signed_decimal(number as int) + after),
        ],
{
}

} // verus!
