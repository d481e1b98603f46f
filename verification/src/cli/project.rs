//! `spacebot project`: projects, repos and worktrees over the control API.
use vstd::prelude::*;
use crate::cli::output;
use crate::cli::output::{LineModel, Report, Row};
use crate::cli::request;
use crate::cli::request::{Method, Query, Request, RequestModel};
use crate::json;
use crate::json::{Body, JsonModel};
use crate::text;

verus! {

broadcast use vstd::seq::group_seq_axioms;

/// The project commands.
#[derive(Debug)]
#[allow(inconsistent_fields)]
pub enum ProjectCommand {
    /// List projects
    List { status: Option<String> },
    /// Show a project with its repos and worktrees
    Get { id: String },
    /// Create a project
    Create {
        name: String,
        root_path: String,
        description: Option<String>,
        icon: Option<String>,
        tags: Vec<String>,
        no_discover: bool,
    },
    /// Update a project
    Update {
        id: String,
        name: Option<String>,
        description: Option<String>,
        icon: Option<String>,
        tags: Option<Vec<String>>,
        status: Option<String>,
    },
    /// Delete a project (database records only, files stay on disk)
    Delete { id: String },
    /// Re-scan the project root for repos and worktrees
    Scan { id: String },
    /// Show disk usage of the project root
    DiskUsage { id: String },
    /// Manage project repos
    Repo(RepoCommand),
    /// Manage project worktrees
    Worktree(WorktreeCommand),
}

/// The commands on a project's repos.
#[derive(Debug)]
pub enum RepoCommand {
    /// Add a repo to a project
    Create {
        project_id: String,
        name: String,
        path: String,
        remote_url: Option<String>,
        default_branch: Option<String>,
        description: Option<String>,
    },
    /// Remove a repo from a project (database record only)
    Delete { project_id: String, repo_id: String },
}

/// The commands on a project's worktrees.
#[derive(Debug)]
pub enum WorktreeCommand {
    /// Create a git worktree for a repo
    Create {
        project_id: String,
        repo_id: String,
        branch: String,
        name: Option<String>,
        start_point: Option<String>,
    },
    /// Remove a worktree (runs git worktree remove)
    Delete { project_id: String, worktree_id: String },
}

/// The path of a project.
pub open spec fn project_path(id: Seq<char>, rest: Seq<char>) -> Seq<char> {
    "agents/projects/"@ + request::in_query(id) + rest
}

/// An object with tags set, where they are given.
pub open spec fn with_opt_tags(body: Seq<(Seq<char>, JsonModel)>, tags: Option<Vec<String>>) -> Seq<
    (Seq<char>, JsonModel),
> {
    match tags {
        Some(tags) => json::with_member(body, "tags"@, json::text_items(text::texts(tags@))),
        None => body,
    }
}

/// The body of a new project.
pub open spec fn create_body(
    name: Seq<char>,
    root_path: Seq<char>,
    description: Option<Seq<char>>,
    icon: Option<Seq<char>>,
    tags: Seq<Seq<char>>,
    no_discover: bool,
) -> Seq<(Seq<char>, JsonModel)> {
    let body = json::with_text(json::no_members(), "name"@, name);
    let body = json::with_text(body, "root_path"@, root_path);
    let body = json::with_flag(body, "auto_discover"@, !no_discover);
    let body = json::with_opt_text(body, "description"@, description);
    let body = json::with_opt_text(body, "icon"@, icon);
    if tags.len() == 0 {
        body
    } else {
        json::with_member(body, "tags"@, json::text_items(tags))
    }
}

/// The body of a change.
pub open spec fn update_body(
    name: Option<Seq<char>>,
    description: Option<Seq<char>>,
    icon: Option<Seq<char>>,
    tags: Option<Vec<String>>,
    status: Option<Seq<char>>,
) -> Seq<(Seq<char>, JsonModel)> {
    let body = json::with_opt_text(json::no_members(), "name"@, name);
    let body = json::with_opt_text(body, "description"@, description);
    let body = json::with_opt_text(body, "icon"@, icon);
    let body = with_opt_tags(body, tags);
    json::with_opt_text(body, "status"@, status)
}

/// The request of a command on repos.
pub open spec fn repo_request(command: RepoCommand) -> RequestModel {
    match command {
        RepoCommand::Create { project_id, name, path, remote_url, default_branch, description } => {
            let body = json::with_text(json::no_members(), "name"@, name@);
            let body = json::with_text(body, "path"@, path@);
            let body = json::with_opt_text(body, "remote_url"@, text::opt_text(remote_url));
            let body = json::with_opt_text(body, "default_branch"@, text::opt_text(default_branch));
            let body = json::with_opt_text(body, "description"@, text::opt_text(description));
            request::sends(Method::Post, project_path(project_id@, "/repos"@), body)
        },
        RepoCommand::Delete { project_id, repo_id } => request::deletes(
            project_path(project_id@, "/repos/"@ + request::in_query(repo_id@) + ""@),
        ),
    }
}

/// The request of a command on worktrees.
pub open spec fn worktree_request(command: WorktreeCommand) -> RequestModel {
    match command {
        WorktreeCommand::Create { project_id, repo_id, branch, name, start_point } => {
            let body = json::with_text(json::no_members(), "repo_id"@, repo_id@);
            let body = json::with_text(body, "branch"@, branch@);
            let body = json::with_opt_text(body, "worktree_name"@, text::opt_text(name));
            let body = json::with_opt_text(body, "start_point"@, text::opt_text(start_point));
            request::sends(Method::Post, project_path(project_id@, "/worktrees"@), body)
        },
        WorktreeCommand::Delete { project_id, worktree_id } => request::deletes(
            project_path(project_id@, "/worktrees/"@ + request::in_query(worktree_id@) + ""@),
        ),
    }
}

/// The request that a command makes, or why it makes none.
pub open spec fn request_of(command: ProjectCommand) -> Result<RequestModel, Seq<char>> {
    match command {
        ProjectCommand::List { status } => Ok(
            request::reads(
                request::with_any_query(
                    "agents/projects"@,
                    request::with_opt_text(request::no_params(), "status"@, text::opt_text(status)),
                ),
            ),
        ),
        ProjectCommand::Get { id } => Ok(request::reads(project_path(id@, ""@))),
        ProjectCommand::Create { name, root_path, description, icon, tags, no_discover } => Ok(
            request::sends(
                Method::Post,
                "agents/projects"@,
                create_body(
                    name@,
                    root_path@,
                    text::opt_text(description),
                    text::opt_text(icon),
                    text::texts(tags@),
                    no_discover,
                ),
            ),
        ),
        ProjectCommand::Update { id, name, description, icon, tags, status } => if name is None && description is None
            && icon is None && tags is None && status is None {
            Err("nothing to update — pass at least one field flag"@)
        } else {
            Ok(
                request::sends(
                    Method::Put,
                    project_path(id@, ""@),
                    update_body(
                        text::opt_text(name),
                        text::opt_text(description),
                        text::opt_text(icon),
                        tags,
                        text::opt_text(status),
                    ),
                ),
            )
        },
        ProjectCommand::Delete { id } => Ok(request::deletes(project_path(id@, ""@))),
        ProjectCommand::Scan { id } => Ok(
            request::sends(Method::Post, project_path(id@, "/scan"@), json::no_members()),
        ),
        ProjectCommand::DiskUsage { id } => Ok(request::reads(project_path(id@, "/disk-usage"@))),
        ProjectCommand::Repo(command) => Ok(repo_request(command)),
        ProjectCommand::Worktree(command) => Ok(worktree_request(command)),
    }
}

fn path_of(id: &str, rest: &str) -> (path: String)
    ensures
        path@ == project_path(id@, rest@),
{
    request::path_with_text("agents/projects/", id, rest)
}

fn plan_repo(command: &RepoCommand) -> (request: Request)
    ensures
        request@ == repo_request(*command),
{
    match command {
        RepoCommand::Create { project_id, name, path, remote_url, default_branch, description } => {
            let mut body = Body::new();
            body.text("name", name.as_str());
            body.text("path", path.as_str());
            body.opt_text("remote_url", remote_url);
            body.opt_text("default_branch", default_branch);
            body.opt_text("description", description);
            Request::with(Method::Post, path_of(project_id.as_str(), "/repos"), body)
        },
        RepoCommand::Delete { project_id, repo_id } => {
            let rest = request::path_with_text("/repos/", repo_id.as_str(), "");
            Request::delete(path_of(project_id.as_str(), rest.as_str()))
        },
    }
}

fn plan_worktree(command: &WorktreeCommand) -> (request: Request)
    ensures
        request@ == worktree_request(*command),
{
    match command {
        WorktreeCommand::Create { project_id, repo_id, branch, name, start_point } => {
            let mut body = Body::new();
            body.text("repo_id", repo_id.as_str());
            body.text("branch", branch.as_str());
            body.opt_text("worktree_name", name);
            body.opt_text("start_point", start_point);
            Request::with(Method::Post, path_of(project_id.as_str(), "/worktrees"), body)
        },
        WorktreeCommand::Delete { project_id, worktree_id } => {
            let rest = request::path_with_text("/worktrees/", worktree_id.as_str(), "");
            Request::delete(path_of(project_id.as_str(), rest.as_str()))
        },
    }
}

/// Plans the request of a command.
pub fn plan(command: &ProjectCommand) -> (plan: Result<Request, String>)
    ensures
        request::planned(plan) == request_of(*command),
{
    match command {
        ProjectCommand::List { status } => {
            let mut query = Query::new();
            query.opt_text("status", status);
            Ok(Request::get(query.after_if_any("agents/projects")))
        },
        ProjectCommand::Get { id } => Ok(Request::get(path_of(id.as_str(), ""))),
        ProjectCommand::Create { name, root_path, description, icon, tags, no_discover } => {
            let mut body = Body::new();
            body.text("name", name.as_str());
            body.text("root_path", root_path.as_str());
            body.flag("auto_discover", !*no_discover);
            body.opt_text("description", description);
            body.opt_text("icon", icon);
            if tags.len() > 0 {
                body.texts("tags", tags);
            }
            Ok(Request::with(Method::Post, "agents/projects".to_owned(), body))
        },
        ProjectCommand::Update { id, name, description, icon, tags, status } => {
            if name.is_none() && description.is_none() && icon.is_none() && tags.is_none() && status.is_none() {
                return Err("nothing to update — pass at least one field flag".to_owned());
            }
            let mut body = Body::new();
            body.opt_text("name", name);
            body.opt_text("description", description);
            body.opt_text("icon", icon);
            if let Some(tags) = tags {
                body.texts("tags", tags);
            }
            body.opt_text("status", status);
            Ok(Request::with(Method::Put, path_of(id.as_str(), ""), body))
        },
        ProjectCommand::Delete { id } => Ok(Request::delete(path_of(id.as_str(), ""))),
        ProjectCommand::Scan { id } => Ok(Request::bare(Method::Post, path_of(id.as_str(), "/scan").as_str())),
        ProjectCommand::DiskUsage { id } => Ok(Request::get(path_of(id.as_str(), "/disk-usage"))),
        ProjectCommand::Repo(command) => Ok(plan_repo(command)),
        ProjectCommand::Worktree(command) => Ok(plan_worktree(command)),
    }
}

// ---------------------------------------------------------------------------
// What is printed
// ---------------------------------------------------------------------------

/// A project as the control API has it.
#[derive(Debug)]
pub struct ProjectEntry {
    pub id: String,
    pub name: String,
    pub status: String,
    pub root_path: String,
    pub description: String,
    pub tags: Vec<String>,
    pub created_at: String,
    pub updated_at: String,
}

impl Row for ProjectEntry {
    open spec fn cells(&self) -> Seq<Seq<char>> {
        seq![self.name@, self.status@, self.root_path@, output::minute_of(self.updated_at@), self.id@]
    }

    fn row(&self) -> (row: Vec<String>) {
        let row = vec![
            self.name.clone(),
            self.status.clone(),
            self.root_path.clone(),
            output::short_timestamp(self.updated_at.as_str()),
            self.id.clone(),
        ];
        assert(text::texts(row@) =~= self.cells());
        row
    }
}

/// A repo of a project.
#[derive(Debug)]
pub struct RepoEntry {
    pub id: String,
    pub name: String,
    pub path: String,
    pub current_branch: Option<String>,
    pub default_branch: String,
    pub remote_url: String,
}

impl Row for RepoEntry {
    open spec fn cells(&self) -> Seq<Seq<char>> {
        seq![
            self.name@,
            self.path@,
            text::or_text(text::opt_text(self.current_branch), self.default_branch@),
            self.remote_url@,
            self.id@,
        ]
    }

    fn row(&self) -> (row: Vec<String>) {
        let row = vec![
            self.name.clone(),
            self.path.clone(),
            text::or_default(&self.current_branch, self.default_branch.as_str()),
            self.remote_url.clone(),
            self.id.clone(),
        ];
        assert(text::texts(row@) =~= self.cells());
        row
    }
}

/// A worktree of a project.
#[derive(Debug)]
pub struct WorktreeEntry {
    pub id: String,
    pub name: String,
    pub repo_name: String,
    pub branch: String,
    pub path: String,
}

impl Row for WorktreeEntry {
    open spec fn cells(&self) -> Seq<Seq<char>> {
        seq![self.name@, self.repo_name@, self.branch@, self.path@, self.id@]
    }

    fn row(&self) -> (row: Vec<String>) {
        let row = vec![
            self.name.clone(),
            self.repo_name.clone(),
            self.branch.clone(),
            self.path.clone(),
            self.id.clone(),
        ];
        assert(text::texts(row@) =~= self.cells());
        row
    }
}

/// A project with its repos and worktrees.
#[derive(Debug)]
pub struct ProjectDetail {
    pub project: ProjectEntry,
    pub repos: Vec<RepoEntry>,
    pub worktrees: Vec<WorktreeEntry>,
}

/// The headings of a listing.
pub open spec fn list_headers() -> Seq<Seq<char>> {
    seq!["NAME"@, "STATUS"@, "ROOT"@, "UPDATED"@, "ID"@]
}

/// The headings of the repos.
pub open spec fn repo_headers() -> Seq<Seq<char>> {
    seq!["REPO"@, "PATH"@, "BRANCH"@, "REMOTE"@, "ID"@]
}

/// The headings of the worktrees.
pub open spec fn worktree_headers() -> Seq<Seq<char>> {
    seq!["WORKTREE"@, "REPO"@, "BRANCH"@, "PATH"@, "ID"@]
}

/// Prints a listing.
pub fn print_list(projects: &Vec<ProjectEntry>) -> (report: Report)
    ensures
        report@ == output::listing("No projects."@, list_headers(), projects@),
{
    let names = vec!["NAME", "STATUS", "ROOT", "UPDATED", "ID"];
    assert(text::slices(names@) =~= list_headers());
    output::print_listing("No projects.", &names, projects)
}

/// A labelled line, unless the text is empty.
pub open spec fn filled_line(label: Seq<char>, value: Seq<char>, empty: bool) -> Seq<LineModel> {
    if empty {
        Seq::empty()
    } else {
        seq![LineModel::Out(label + value)]
    }
}

/// What is printed of a project.
pub open spec fn project_lines(project: ProjectEntry) -> Seq<LineModel> {
    seq![
        LineModel::Out("Name:     "@ + project.name@),
        LineModel::Out("ID:       "@ + project.id@),
        LineModel::Out("Status:   "@ + project.status@),
        LineModel::Out("Root:     "@ + project.root_path@),
    ] + filled_line("About:    "@, project.description@, project.description@.len() == 0) + filled_line(
        "Tags:     "@,
        text::joined(text::texts(project.tags@), ", "@),
        project.tags@.len() == 0,
    ) + seq![
        LineModel::Out("Created:  "@ + project.created_at@),
        LineModel::Out("Updated:  "@ + project.updated_at@),
    ]
}

/// A table behind an empty line, where there are items.
pub open spec fn section<T: Row>(headers: Seq<Seq<char>>, items: Seq<T>) -> Seq<LineModel> {
    if items.len() == 0 {
        Seq::empty()
    } else {
        seq![LineModel::Out(""@)] + output::item_table(headers, items)
    }
}

fn print_section<T: Row>(report: &mut Report, names: &Vec<&'static str>, items: &Vec<T>)
    ensures
        final(report)@ == old(report)@ + section(text::slices(names@), items@),
{
    let ghost before = report@;
    if items.len() > 0 {
        report.out("");
        report.table(names, items);
    }
    assert(report@ =~= before + section(text::slices(names@), items@));
}

/// Prints a project with its repos and worktrees.
pub fn print_project(detail: &ProjectDetail) -> (report: Report)
    ensures
        report@ == project_lines(detail.project) + section(repo_headers(), detail.repos@) + section(
            worktree_headers(),
            detail.worktrees@,
        ),
{
    let project = &detail.project;
    let mut report = Report::new();
    report.field("Name:     ", project.name.as_str());
    report.field("ID:       ", project.id.as_str());
    report.field("Status:   ", project.status.as_str());
    report.field("Root:     ", project.root_path.as_str());
    let ghost before = report@;
    if !project.description.as_str().is_empty() {
        report.field("About:    ", project.description.as_str());
    }
    assert(report@ =~= before + filled_line(
        "About:    "@,
        project.description@,
        project.description@.len() == 0,
    ));
    let ghost about = report@;
    if project.tags.len() > 0 {
        report.field("Tags:     ", text::join(&project.tags, ", ").as_str());
    }
    assert(report@ =~= about + filled_line(
        "Tags:     "@,
        text::joined(text::texts(project.tags@), ", "@),
        project.tags@.len() == 0,
    ));
    report.field("Created:  ", project.created_at.as_str());
    report.field("Updated:  ", project.updated_at.as_str());
    assert(report@ =~= project_lines(detail.project));
    let repo_names = vec!["REPO", "PATH", "BRANCH", "REMOTE", "ID"];
    assert(text::slices(repo_names@) =~= repo_headers());
    print_section(&mut report, &repo_names, &detail.repos);
    let worktree_names = vec!["WORKTREE", "REPO", "BRANCH", "PATH", "ID"];
    assert(text::slices(worktree_names@) =~= worktree_headers());
    print_section(&mut report, &worktree_names, &detail.worktrees);
    report
}

/// What is printed of a new project.
pub open spec fn created_lines(name: Seq<char>, id: Seq<char>, no_discover: bool) -> Seq<LineModel> {
    let created = LineModel::Note("Created project "@ + name + " ("@ + id + ")."@);
    if no_discover {
        seq![created]
    } else {
        seq![created, LineModel::Note("Scanning root for repos and worktrees in the background."@)]
    }
}

/// Prints that a project was created.
pub fn print_created(name: &str, id: &str, no_discover: bool) -> (report: Report)
    ensures
        report@ == created_lines(name@, id@, no_discover),
{
    let mut line = "Created project ".to_owned();
    line.push_str(name);
    line.push_str(" (");
    line.push_str(id);
    line.push_str(").");
    let mut report = output::message(line.as_str());
    if !no_discover {
        report.err("Scanning root for repos and worktrees in the background.");
    }
    assert(report@ =~= created_lines(name@, id@, no_discover));
    report
}

/// Prints that a project was updated.
pub fn print_updated(name: &str) -> (report: Report)
    ensures
        report@ == seq![LineModel::Note("Updated project "@ + name@ + "."@)],
{
    output::message_about("Updated project ", name, ".")
}

/// Prints what a scan found.
pub fn print_scanned(repos: usize, worktrees: usize) -> (report: Report)
    ensures
        report@ == seq![
            LineModel::Note(
                "Scan complete: "@ + text::decimal(repos as nat) + " repos, "@ + text::decimal(worktrees as nat)
                    + " worktrees."@,
            ),
        ],
{
    let mut line = "Scan complete: ".to_owned();
    line.push_str(text::show_usize(repos).as_str());
    line.push_str(" repos, ");
    line.push_str(text::show_usize(worktrees).as_str());
    line.push_str(" worktrees.");
    output::message(line.as_str())
}

/// What a name under a project root takes, with the size written out.
#[derive(Debug)]
pub struct DiskEntry {
    pub name: String,
    pub size: String,
    pub is_dir: bool,
}

impl Row for DiskEntry {
    open spec fn cells(&self) -> Seq<Seq<char>> {
        seq![
            self.name@,
            self.size@,
            if self.is_dir {
                "dir"@
            } else {
                "file"@
            },
        ]
    }

    fn row(&self) -> (row: Vec<String>) {
        let kind = if self.is_dir {
            "dir".to_owned()
        } else {
            "file".to_owned()
        };
        let row = vec![self.name.clone(), self.size.clone(), kind];
        assert(text::texts(row@) =~= self.cells());
        row
    }
}

/// The headings of a disk usage.
pub open spec fn disk_headers() -> Seq<Seq<char>> {
    seq!["NAME"@, "SIZE"@, "TYPE"@]
}

/// What is printed of a disk usage.
pub open spec fn disk_lines(entries: Seq<DiskEntry>, total: Seq<char>) -> Seq<LineModel> {
    if entries.len() == 0 {
        seq![LineModel::Note("No entries — project root is empty or missing."@)]
    } else {
        output::item_table(disk_headers(), entries) + seq![LineModel::Out(""@), LineModel::Out("Total: "@ + total)]
    }
}

/// Prints a disk usage. `total` is the whole, written out.
pub fn print_disk_usage(entries: &Vec<DiskEntry>, total: &str) -> (report: Report)
    ensures
        report@ == disk_lines(entries@, total@),
{
    if entries.len() == 0 {
        return output::message("No entries — project root is empty or missing.");
    }
    let names = vec!["NAME", "SIZE", "TYPE"];
    assert(text::slices(names@) =~= disk_headers());
    let mut report = Report::new();
    report.table(&names, entries);
    report.out("");
    report.field("Total: ", total);
    assert(report@ =~= disk_lines(entries@, total@));
    report
}

/// Prints that a repo was added.
pub fn print_repo_added(name: &str, id: &str) -> (report: Report)
    ensures
        report@ == seq![LineModel::Note("Added repo "@ + name@ + " ("@ + id@ + ")."@)],
{
    let mut line = "Added repo ".to_owned();
    line.push_str(name);
    line.push_str(" (");
    line.push_str(id);
    line.push_str(").");
    output::message(line.as_str())
}

/// Prints that a worktree was created.
pub fn print_worktree_created(name: &str, branch: &str, id: &str) -> (report: Report)
    ensures
        report@ == seq![
            LineModel::Note("Created worktree "@ + name@ + " on "@ + branch@ + " ("@ + id@ + ")."@),
        ],
{
    let mut line = "Created worktree ".to_owned();
    line.push_str(name);
    line.push_str(" on ");
    line.push_str(branch);
    line.push_str(" (");
    line.push_str(id);
    line.push_str(").");
    output::message(line.as_str())
}

// ---------------------------------------------------------------------------
// Laws
// ---------------------------------------------------------------------------

proof fn field_names_differ()
    ensures
        "name"@.len() == 4,
        "icon"@.len() == 4,
        "tags"@.len() == 4,
        "path"@.len() == 4,
        "status"@.len() == 6,
        "branch"@.len() == 6,
        "repo_id"@.len() == 7,
        "root_path"@.len() == 9,
        "remote_url"@.len() == 10,
        "description"@.len() == 11,
        "start_point"@.len() == 11,
        "auto_discover"@.len() == 13,
        "worktree_name"@.len() == 13,
        "default_branch"@.len() == 14,
        "name"@ != "icon"@ && "name"@ != "tags"@ && "name"@ != "path"@ && "icon"@ != "tags"@,
        "icon"@ != "path"@ && "tags"@ != "path"@ && "status"@ != "branch"@ && "description"@ != "start_point"@,
{
    reveal_strlit("name");
    reveal_strlit("icon");
    reveal_strlit("tags");
    reveal_strlit("path");
    reveal_strlit("status");
    reveal_strlit("branch");
    reveal_strlit("repo_id");
    reveal_strlit("root_path");
    reveal_strlit("remote_url");
    reveal_strlit("description");
    reveal_strlit("start_point");
    reveal_strlit("auto_discover");
    reveal_strlit("worktree_name");
    reveal_strlit("default_branch");
    assert("name"@[0] != "icon"@[0] && "name"@[0] != "tags"@[0] && "name"@[0] != "path"@[0]);
    assert("icon"@[0] != "tags"@[0] && "icon"@[0] != "path"@[0] && "tags"@[0] != "path"@[0]);
    assert("status"@[0] != "branch"@[0] && "description"@[0] != "start_point"@[0]);
}

/// A new project is sent with all that was said of it, and looked through unless
/// that was declined.
pub proof fn law_a_new_project_is_looked_through_unless_declined(
    name: Seq<char>,
    root_path: Seq<char>,
    description: Option<Seq<char>>,
    icon: Option<Seq<char>>,
    tags: Seq<Seq<char>>,
    no_discover: bool,
)
    ensures
        ({
            let sent = JsonModel::Object(create_body(name, root_path, description, icon, tags, no_discover));
            &&& sent.at("name"@).as_text() == Some(name)
            &&& sent.at("root_path"@).as_text() == Some(root_path)
            &&& sent.at("auto_discover"@).as_flag() == Some(!no_discover)
            &&& sent.at("description"@).as_text() == description
            &&& sent.at("icon"@).as_text() == icon
            &&& sent.at("tags"@).items().len() == tags.len()
        }),
{
    broadcast use json::member_after_set;

    field_names_differ();
}

/// A change of a project says what it changes and nothing else, and one that
/// changes nothing is refused.
pub proof fn law_a_project_change_says_what_it_changes(
    id: String,
    name: Option<String>,
    description: Option<String>,
    icon: Option<String>,
    tags: Option<Vec<String>>,
    status: Option<String>,
)
    ensures
        ({
            let planned = request_of(ProjectCommand::Update { id, name, description, icon, tags, status });
            let sent = JsonModel::Object(
                update_body(
                    text::opt_text(name),
                    text::opt_text(description),
                    text::opt_text(icon),
                    tags,
                    text::opt_text(status),
                ),
            );
            &&& planned is Err <==> name is None && description is None && icon is None && tags is None && status is None
            &&& planned matches Ok(asked) ==> asked.method == Method::Put && asked.body == Some(sent)
            &&& sent.at("name"@).as_text() == text::opt_text(name)
            &&& sent.at("description"@).as_text() == text::opt_text(description)
            &&& sent.at("icon"@).as_text() == text::opt_text(icon)
            &&& sent.at("status"@).as_text() == text::opt_text(status)
            &&& tags is Some ==> sent.at("tags"@) == json::text_items(text::texts(tags->0@))
            &&& tags is None ==> sent.at("tags"@) is Null
        }),
{
    broadcast use json::member_after_set;

    field_names_differ();
}

/// A repository and a worktree are made in their project with all that was said
/// of them, and removed from it by their own identifier.
pub proof fn law_repositories_and_worktrees_belong_to_a_project(repo: RepoCommand, worktree: WorktreeCommand)
    ensures
        repo matches RepoCommand::Create { project_id, name, path, remote_url, default_branch, description } ==> {
            let asked = repo_request(repo);
            &&& asked.method == Method::Post
            &&& asked.path == "agents/projects/"@ + request::in_query(project_id@) + "/repos"@
            &&& asked.body->0.at("name"@).as_text() == Some(name@)
            &&& asked.body->0.at("path"@).as_text() == Some(path@)
            &&& asked.body->0.at("remote_url"@).as_text() == text::opt_text(remote_url)
            &&& asked.body->0.at("default_branch"@).as_text() == text::opt_text(default_branch)
            &&& asked.body->0.at("description"@).as_text() == text::opt_text(description)
        },
        repo matches RepoCommand::Delete { project_id, repo_id } ==> repo_request(repo).method == Method::Delete
            && text::ends(repo_request(repo).path, "/repos/"@ + request::in_query(repo_id@)) && text::begins(
            repo_request(repo).path,
            "agents/projects/"@ + request::in_query(project_id@),
        ),
        worktree matches WorktreeCommand::Create { project_id, repo_id, branch, name, start_point } ==> {
            let asked = worktree_request(worktree);
            &&& asked.method == Method::Post
            &&& asked.path == "agents/projects/"@ + request::in_query(project_id@) + "/worktrees"@
            &&& asked.body->0.at("repo_id"@).as_text() == Some(repo_id@)
            &&& asked.body->0.at("branch"@).as_text() == Some(branch@)
            &&& asked.body->0.at("worktree_name"@).as_text() == text::opt_text(name)
            &&& asked.body->0.at("start_point"@).as_text() == text::opt_text(start_point)
        },
        worktree matches WorktreeCommand::Delete { project_id, worktree_id } ==> worktree_request(worktree).method
            == Method::Delete && text::ends(
            worktree_request(worktree).path,
            "/worktrees/"@ + request::in_query(worktree_id@),
        ) && text::begins(
            worktree_request(worktree).path,
            "agents/projects/"@ + request::in_query(project_id@),
        ),
{
    broadcast use json::member_after_set;

    field_names_differ();
    reveal_strlit("");
    if let RepoCommand::Delete { project_id, repo_id } = repo {
        let head = "agents/projects/"@ + request::in_query(project_id@);
        let rest = "/repos/"@ + request::in_query(repo_id@);
        assert(rest + ""@ =~= rest);
        text::law_parts_occur(head, rest, Seq::empty());
        text::law_parts_occur(Seq::empty(), head, rest);
    }
    if let WorktreeCommand::Delete { project_id, worktree_id } = worktree {
        let head = "agents/projects/"@ + request::in_query(project_id@);
        let rest = "/worktrees/"@ + request::in_query(worktree_id@);
        assert(rest + ""@ =~= rest);
        text::law_parts_occur(head, rest, Seq::empty());
        text::law_parts_occur(Seq::empty(), head, rest);
    }
}

/// Looking at projects changes nothing.
pub proof fn law_project_commands_keep_to_their_method(command: ProjectCommand)
    ensures
        command is List || command is Get || command is DiskUsage ==> request_of(command) is Ok && request_of(
            command,
        )->Ok_0.method == Method::Get && request_of(command)->Ok_0.body is None,
        command is Create || command is Scan ==> request_of(command) is Ok && request_of(command)->Ok_0.method
            == Method::Post,
        command is Delete ==> request_of(command) is Ok && request_of(command)->Ok_0.method == Method::Delete,
        command matches ProjectCommand::Scan { id } ==> request_of(command)->Ok_0.path == "agents/projects/"@
            + request::in_query(id@) + "/scan"@,
        command matches ProjectCommand::DiskUsage { id } ==> request_of(command)->Ok_0.path == "agents/projects/"@
            + request::in_query(id@) + "/disk-usage"@,
        command matches ProjectCommand::Repo(one) ==> request_of(command) == Ok::<RequestModel, Seq<char>>(
            repo_request(one),
        ),
        command matches ProjectCommand::Worktree(one) ==> request_of(command) == Ok::<RequestModel, Seq<char>>(
            worktree_request(one),
        ),
{
}

/// A project is shown with what is known of it, and what is empty is left out.
pub proof fn law_a_shown_project_leaves_out_what_is_empty(project: ProjectEntry)
    ensures
        project_lines(project)[0] == LineModel::Out("Name:     "@ + project.name@),
        project_lines(project)[1] == LineModel::Out("ID:       "@ + project.id@),
        project_lines(project)[2] == LineModel::Out("Status:   "@ + project.status@),
        project_lines(project)[3] == LineModel::Out("Root:     "@ + project.root_path@),
        project_lines(project).len() == 6 + (if project.description@.len() > 0 {
            1int
        } else {
            0
        }) + (if project.tags@.len() > 0 {
            1int
        } else {
            0
        }),
        project.description@.len() > 0 ==> project_lines(project)[4] == LineModel::Out(
            "About:    "@ + project.description@,
        ),
        project_lines(project).last() == LineModel::Out("Updated:  "@ + project.updated_at@),
{
}

/// A repository is shown on the branch it is on, or else on its default one.
pub proof fn law_a_listed_repository_shows_its_branch(repo: RepoEntry, disk: DiskEntry)
    ensures
        repo.cells().len() == repo_headers().len(),
        repo.cells()[0] == repo.name@ && repo.cells()[1] == repo.path@,
        repo.current_branch is Some ==> repo.cells()[2] == repo.current_branch->0@,
        repo.current_branch is None ==> repo.cells()[2] == repo.default_branch@,
        disk.cells().len() == disk_headers().len(),
        disk.is_dir ==> disk.cells()[2] == "dir"@,
        !disk.is_dir ==> disk.cells()[2] == "file"@,
{
}

} // verus!
