//! `spacebot notification`: the notification inbox over the control API.
use vstd::prelude::*;
use crate::cli::output;
use crate::cli::output::{LineModel, Report, Row};
use crate::cli::request;
use crate::cli::request::{Method, Query, Request, RequestModel};
use crate::json;
use crate::text;

verus! {

broadcast use vstd::seq::group_seq_axioms;

/// The notification commands.
#[derive(Debug)]
pub enum NotificationCommand {
    /// List notifications
    List {
        unread: bool,
        agent: Option<String>,
        kind: Option<String>,
        limit: Option<i64>,
        offset: Option<i64>,
    },
    /// Count unread notifications
    Count,
    /// Mark a notification as read, or all of them
    Read { id: Option<String>, all: bool },
    /// Dismiss a notification, or all that were read
    Dismiss { id: Option<String>, read: bool },
}

impl NotificationCommand {
    /// Whether a command says what it is about.
    pub open spec fn complete(self) -> bool {
        match self {
            NotificationCommand::Read { id, all } => all || id is Some,
            NotificationCommand::Dismiss { id, read } => read || id is Some,
            _ => true,
        }
    }
}

/// The query of a listing.
pub open spec fn list_params(
    unread: bool,
    agent: Option<Seq<char>>,
    kind: Option<Seq<char>>,
    limit: Option<int>,
    offset: Option<int>,
) -> Seq<Seq<char>> {
    let parts = if unread {
        request::with_param(request::no_params(), "filter"@, "unread"@)
    } else {
        request::no_params()
    };
    let parts = request::with_opt_text(parts, "agent_id"@, agent);
    let parts = request::with_opt_text(parts, "kind"@, kind);
    let parts = request::with_opt_number(parts, "limit"@, limit);
    request::with_opt_number(parts, "offset"@, offset)
}

/// A bare request on a notification, or on all of them.
pub open spec fn inbox_request(
    all: bool,
    whole: Seq<char>,
    id: Option<Seq<char>>,
    rest: Seq<char>,
) -> RequestModel {
    request::sends(
        Method::Post,
        if all {
            whole
        } else {
            "notifications/"@ + id->0 + rest
        },
        json::no_members(),
    )
}

/// The request that a command makes.
pub open spec fn request_of(command: NotificationCommand) -> RequestModel {
    match command {
        NotificationCommand::List { unread, agent, kind, limit, offset } => request::reads(
            request::with_any_query(
                "notifications"@,
                list_params(
                    unread,
                    text::opt_text(agent),
                    text::opt_text(kind),
                    json::opt_int(limit),
                    json::opt_int(offset),
                ),
            ),
        ),
        NotificationCommand::Count => request::reads("notifications/unread_count"@),
        NotificationCommand::Read { id, all } => inbox_request(
            all,
            "notifications/read_all"@,
            text::opt_text(id),
            "/read"@,
        ),
        NotificationCommand::Dismiss { id, read } => inbox_request(
            read,
            "notifications/dismiss_read"@,
            text::opt_text(id),
            "/dismiss"@,
        ),
    }
}

fn inbox(all: bool, whole: &str, id: &Option<String>, rest: &str) -> (request: Request)
    requires
        all || id is Some,
    ensures
        request@ == inbox_request(all, whole@, text::opt_text(*id), rest@),
{
    match id {
        Some(id) if !all => Request::bare(Method::Post, request::path_around("notifications/", id.as_str(), rest).as_str()),
        _ => Request::bare(Method::Post, whole),
    }
}

/// Plans the request of a command.
pub fn plan(command: &NotificationCommand) -> (request: Request)
    requires
        command.complete(),
    ensures
        request@ == request_of(*command),
{
    match command {
        NotificationCommand::List { unread, agent, kind, limit, offset } => {
            let mut query = Query::new();
            if *unread {
                query.word("filter", "unread");
            }
            query.opt_text("agent_id", agent);
            query.opt_text("kind", kind);
            query.opt_number("limit", *limit);
            query.opt_number("offset", *offset);
            Request::get(query.after_if_any("notifications"))
        },
        NotificationCommand::Count => Request::get("notifications/unread_count".to_owned()),
        NotificationCommand::Read { id, all } => inbox(*all, "notifications/read_all", id, "/read"),
        NotificationCommand::Dismiss { id, read } => inbox(*read, "notifications/dismiss_read", id, "/dismiss"),
    }
}

/// A notification as the control API lists it.
#[derive(Debug)]
pub struct NotificationEntry {
    pub id: String,
    pub kind: String,
    pub severity: String,
    pub agent_id: Option<String>,
    pub title: String,
    pub read_at: Option<String>,
    pub created_at: String,
}

impl Row for NotificationEntry {
    open spec fn cells(&self) -> Seq<Seq<char>> {
        seq![
            self.id@,
            self.kind@,
            self.severity@,
            output::or_dash(text::opt_text(self.agent_id)),
            self.title@,
            if self.read_at is Some {
                "read"@
            } else {
                "unread"@
            },
            output::minute_of(self.created_at@),
        ]
    }

    fn row(&self) -> (row: Vec<String>) {
        let status = if self.read_at.is_some() {
            "read".to_owned()
        } else {
            "unread".to_owned()
        };
        let row = vec![
            self.id.clone(),
            self.kind.clone(),
            self.severity.clone(),
            output::dash(&self.agent_id),
            self.title.clone(),
            status,
            output::short_timestamp(self.created_at.as_str()),
        ];
        assert(text::texts(row@) =~= self.cells());
        row
    }
}

/// The headings of a listing.
pub open spec fn list_headers() -> Seq<Seq<char>> {
    seq!["ID"@, "KIND"@, "SEVERITY"@, "AGENT"@, "TITLE"@, "STATUS"@, "CREATED"@]
}

/// Prints a listing.
pub fn print_list(notifications: &Vec<NotificationEntry>) -> (report: Report)
    ensures
        report@ == output::listing("No notifications."@, list_headers(), notifications@),
{
    let names = vec!["ID", "KIND", "SEVERITY", "AGENT", "TITLE", "STATUS", "CREATED"];
    assert(text::slices(names@) =~= list_headers());
    output::print_listing("No notifications.", &names, notifications)
}

/// Prints how many notifications are unread.
pub fn print_count(count: u64) -> (report: Report)
    ensures
        report@ == seq![LineModel::Out(text::decimal(count as nat))],
{
    output::line(text::show(count).as_str())
}

/// Prints that a notification was read, or all of them.
pub fn print_read(all: bool) -> (report: Report)
    ensures
        report@ == seq![
            LineModel::Note(
                if all {
                    "All notifications marked as read."@
                } else {
                    "Marked as read."@
                },
            ),
        ],
{
    output::message(
        if all {
            "All notifications marked as read."
        } else {
            "Marked as read."
        },
    )
}

/// Prints that a notification was dismissed, or all that were read.
pub fn print_dismissed(read: bool) -> (report: Report)
    ensures
        report@ == seq![
            LineModel::Note(
                if read {
                    "Read notifications dismissed."@
                } else {
                    "Dismissed."@
                },
            ),
        ],
{
    output::message(
        if read {
            "Read notifications dismissed."
        } else {
            "Dismissed."
        },
    )
}

// ---------------------------------------------------------------------------
// Laws
// ---------------------------------------------------------------------------

/// A notification is read or dismissed by its identifier, and all of them
/// together where that is asked for.
pub proof fn law_a_notification_is_handled_by_its_identifier(command: NotificationCommand)
    requires
        command.complete(),
    ensures
        command matches NotificationCommand::Read { id, all } ==> {
            &&& request_of(command).method == Method::Post
            &&& all ==> request_of(command).path == "notifications/read_all"@
            &&& !all ==> id is Some && request_of(command).path == "notifications/"@ + id->0@ + "/read"@
        },
        command matches NotificationCommand::Dismiss { id, read } ==> {
            &&& request_of(command).method == Method::Post
            &&& read ==> request_of(command).path == "notifications/dismiss_read"@
            &&& !read ==> id is Some && request_of(command).path == "notifications/"@ + id->0@ + "/dismiss"@
        },
        command is List || command is Count ==> request_of(command).method == Method::Get && request_of(command).body is None,
{
}

/// A listing asks for the unread alone where it is to, and for its filters.
pub proof fn law_the_unread_are_asked_for(
    unread: bool,
    agent: Option<Seq<char>>,
    kind: Option<Seq<char>>,
    limit: Option<int>,
    offset: Option<int>,
    part: Seq<char>,
)
    ensures
        list_params(unread, agent, kind, limit, offset).contains(part) <==> {
            ||| unread && part == "filter"@ + "="@ + "unread"@
            ||| agent is Some && part == "agent_id"@ + "="@ + request::in_query(agent->0)
            ||| kind is Some && part == "kind"@ + "="@ + request::in_query(kind->0)
            ||| limit is Some && part == "limit"@ + "="@ + text::signed_decimal(limit->0)
            ||| offset is Some && part == "offset"@ + "="@ + text::signed_decimal(offset->0)
        },
{
    broadcast use request::params_after_param;

}

/// A row shows whether its notification was read.
pub proof fn law_a_listed_notification_shows_whether_it_was_read(entry: NotificationEntry)
    ensures
        entry.cells().len() == list_headers().len(),
        entry.cells()[0] == entry.id@ && entry.cells()[1] == entry.kind@ && entry.cells()[2] == entry.severity@,
        entry.cells()[4] == entry.title@,
        entry.read_at is Some ==> entry.cells()[5] == "read"@,
        entry.read_at is None ==> entry.cells()[5] == "unread"@,
{
}

} // verus!
