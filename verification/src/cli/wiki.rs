//! `spacebot wiki`: the instance wiki over the control API.
use vstd::prelude::*;
use crate::cli::output;
use crate::cli::output::{LineModel, Report, Row};
use crate::cli::request;
use crate::cli::request::{Method, Query, Request, RequestModel};
use crate::json;
use crate::json::Body;
use crate::text;

verus! {

broadcast use vstd::seq::group_seq_axioms;

/// The wiki commands. Content is what was read from a file or passed as a
/// text.
#[derive(Debug)]
#[allow(inconsistent_fields)]
pub enum WikiCommand {
    /// List all wiki pages
    List { page_type: Option<String> },
    /// Search wiki pages
    Search { query: String, page_type: Option<String> },
    /// Print a wiki page (content goes to stdout)
    Get { slug: String, version: Option<i64> },
    /// Create a new wiki page
    Create {
        title: String,
        page_type: String,
        file: Option<String>,
        content: Option<String>,
        related: Vec<String>,
        summary: Option<String>,
    },
    /// Replace a page's content
    Edit { slug: String, file: Option<String>, content: Option<String>, summary: Option<String> },
    /// Archive a page
    Archive { slug: String },
    /// List a page's version history
    History { slug: String, limit: Option<i64> },
    /// Restore a page to a historical version
    Restore { slug: String, version: i64 },
}

/// Where a page's content comes from.
#[derive(Debug)]
pub enum ContentSource {
    /// The file at a path.
    File(String),
    /// A text that was passed.
    Given(String),
}

/// Where a page's content comes from: a file goes before a text.
pub open spec fn source_of(file: Option<Seq<char>>, content: Option<Seq<char>>) -> Result<
    (bool, Seq<char>),
    Seq<char>,
> {
    match (file, content) {
        (Some(path), _) => Ok((true, path)),
        (None, Some(content)) => Ok((false, content)),
        (None, None) => Err("provide page content with --file or --content"@),
    }
}

/// Resolves where page content comes from.
pub fn resolve_content(file: &Option<String>, content: &Option<String>) -> (source: Result<ContentSource, String>)
    ensures
        (match source {
            Ok(ContentSource::File(path)) => Ok((true, path@)),
            Ok(ContentSource::Given(content)) => Ok((false, content@)),
            Err(reason) => Err(reason@),
        }) == source_of(text::opt_text(*file), text::opt_text(*content)),
{
    match (file, content) {
        (Some(path), _) => Ok(ContentSource::File(path.clone())),
        (None, Some(content)) => Ok(ContentSource::Given(content.clone())),
        (None, None) => Err("provide page content with --file or --content".to_owned()),
    }
}

/// The path of a page.
pub open spec fn page_path(slug: Seq<char>, rest: Seq<char>) -> Seq<char> {
    "wiki/"@ + slug + rest
}

/// The request that a command makes first. `content` is the content that the
/// command brings; an edit first reads the page.
pub open spec fn request_of(command: WikiCommand, content: Seq<char>) -> RequestModel {
    match command {
        WikiCommand::List { page_type } => request::reads(
            request::with_any_query(
                "wiki"@,
                request::with_opt_text(request::no_params(), "page_type"@, text::opt_text(page_type)),
            ),
        ),
        WikiCommand::Search { query, page_type } => request::reads(
            request::with_query(
                "wiki/search"@,
                request::with_opt_text(
                    request::with_text(request::no_params(), "query"@, query@),
                    "page_type"@,
                    text::opt_text(page_type),
                ),
            ),
        ),
        WikiCommand::Get { slug, version } => request::reads(
            request::with_any_query(
                page_path(slug@, ""@),
                request::with_opt_number(request::no_params(), "version"@, json::opt_int(version)),
            ),
        ),
        WikiCommand::Create { title, page_type, file, content: _, related, summary } => {
            let body = json::with_text(json::no_members(), "title"@, title@);
            let body = json::with_text(body, "page_type"@, page_type@);
            let body = json::with_text(body, "content"@, content);
            let body = if related@.len() == 0 {
                body
            } else {
                json::with_member(body, "related"@, json::text_items(text::texts(related@)))
            };
            request::sends(
                Method::Post,
                "wiki"@,
                json::with_opt_text(body, "edit_summary"@, text::opt_text(summary)),
            )
        },
        WikiCommand::Edit { slug, .. } => request::reads(page_path(slug@, ""@)),
        WikiCommand::Archive { slug } => request::deletes(page_path(slug@, ""@)),
        WikiCommand::History { slug, limit } => request::reads(
            request::with_any_query(
                page_path(slug@, "/history"@),
                request::with_opt_number(request::no_params(), "limit"@, json::opt_int(limit)),
            ),
        ),
        WikiCommand::Restore { slug, version } => request::sends(
            Method::Post,
            page_path(slug@, "/restore"@),
            json::with_number(json::no_members(), "version"@, version as int),
        ),
    }
}

/// Plans the first request of a command.
pub fn plan(command: &WikiCommand, content: &str) -> (request: Request)
    ensures
        request@ == request_of(*command, content@),
{
    match command {
        WikiCommand::List { page_type } => {
            let mut query = Query::new();
            query.opt_text("page_type", page_type);
            Request::get(query.after_if_any("wiki"))
        },
        WikiCommand::Search { query: wanted, page_type } => {
            let mut query = Query::new();
            query.text("query", wanted.as_str());
            query.opt_text("page_type", page_type);
            Request::get(query.after("wiki/search"))
        },
        WikiCommand::Get { slug, version } => {
            let mut query = Query::new();
            query.opt_number("version", *version);
            Request::get(query.after_if_any(request::path_around("wiki/", slug.as_str(), "").as_str()))
        },
        WikiCommand::Create { title, page_type, file: _, content: _, related, summary } => {
            let mut body = Body::new();
            body.text("title", title.as_str());
            body.text("page_type", page_type.as_str());
            body.text("content", content);
            if related.len() > 0 {
                body.texts("related", related);
            }
            body.opt_text("edit_summary", summary);
            Request::with(Method::Post, "wiki".to_owned(), body)
        },
        WikiCommand::Edit { slug, .. } => Request::get(request::path_around("wiki/", slug.as_str(), "")),
        WikiCommand::Archive { slug } => Request::delete(request::path_around("wiki/", slug.as_str(), "")),
        WikiCommand::History { slug, limit } => {
            let mut query = Query::new();
            query.opt_number("limit", *limit);
            Request::get(query.after_if_any(request::path_around("wiki/", slug.as_str(), "/history").as_str()))
        },
        WikiCommand::Restore { slug, version } => {
            let mut body = Body::new();
            body.number("version", *version);
            Request::with(Method::Post, request::path_around("wiki/", slug.as_str(), "/restore"), body)
        },
    }
}

/// What an edit does about a page: the request that swaps its content for the
/// new one, or nothing where they are the same.
pub open spec fn edit_of(
    slug: Seq<char>,
    current: Seq<char>,
    content: Seq<char>,
    summary: Option<Seq<char>>,
) -> Option<RequestModel> {
    if current == content {
        None
    } else {
        Some(
            request::sends(
                Method::Post,
                page_path(slug, "/edit"@),
                json::with_opt_text(
                    json::with_text(
                        json::with_text(json::no_members(), "old_string"@, current),
                        "new_string"@,
                        content,
                    ),
                    "edit_summary"@,
                    summary,
                ),
            ),
        )
    }
}

/// Plans the edit of a page whose current content was read.
///
/// The API exposes string-replacement edits, so the current content is swapped
/// wholesale for the provided one.
pub fn plan_edit(slug: &str, current: &str, content: &str, summary: &Option<String>) -> (request: Option<Request>)
    ensures
        (match request {
            Some(request) => Some(request@),
            None => None,
        }) == edit_of(slug@, current@, content@, text::opt_text(*summary)),
{
    if text::same(current, content) {
        return None;
    }
    let mut body = Body::new();
    body.text("old_string", current);
    body.text("new_string", content);
    body.opt_text("edit_summary", summary);
    Some(Request::with(Method::Post, request::path_around("wiki/", slug, "/edit"), body))
}

// ---------------------------------------------------------------------------
// What is printed
// ---------------------------------------------------------------------------

/// A page as a listing has it.
#[derive(Debug)]
pub struct PageSummary {
    pub slug: String,
    pub page_type: String,
    pub version: i64,
    pub updated_at: String,
    pub updated_by: String,
}

impl Row for PageSummary {
    open spec fn cells(&self) -> Seq<Seq<char>> {
        seq![
            self.slug@,
            self.page_type@,
            text::signed_decimal(self.version as int),
            output::minute_of(self.updated_at@),
            self.updated_by@,
        ]
    }

    fn row(&self) -> (row: Vec<String>) {
        let row = vec![
            self.slug.clone(),
            self.page_type.clone(),
            text::show_signed(self.version),
            output::short_timestamp(self.updated_at.as_str()),
            self.updated_by.clone(),
        ];
        assert(text::texts(row@) =~= self.cells());
        row
    }
}

/// The headings of a listing.
pub open spec fn list_headers() -> Seq<Seq<char>> {
    seq!["SLUG"@, "TYPE"@, "VERSION"@, "UPDATED"@, "BY"@]
}

/// Prints the pages of a listing or a search.
pub fn print_page_list(pages: &Vec<PageSummary>) -> (report: Report)
    ensures
        report@ == output::listing("No pages found."@, list_headers(), pages@),
{
    let names = vec!["SLUG", "TYPE", "VERSION", "UPDATED", "BY"];
    assert(text::slices(names@) =~= list_headers());
    output::print_listing("No pages found.", &names, pages)
}

/// A page.
#[derive(Debug)]
pub struct Page {
    pub slug: String,
    pub title: String,
    pub page_type: String,
    pub version: i64,
    pub updated_at: String,
    pub updated_by: String,
    pub content: String,
}

/// What is printed of a page: what it is on stderr, its content on stdout.
pub open spec fn page_lines(page: Page) -> Seq<LineModel> {
    seq![
        LineModel::Note(
            page.title@ + " ("@ + page.page_type@ + ", v"@ + text::signed_decimal(page.version as int) + ", updated "@
                + output::minute_of(page.updated_at@) + " by "@ + page.updated_by@ + ")"@,
        ),
        LineModel::Out(output::without_break(page.content@)),
    ]
}

/// Prints a page.
pub fn print_page(page: &Page) -> (report: Report)
    ensures
        report@ == page_lines(*page),
{
    let mut head = page.title.clone();
    head.push_str(" (");
    head.push_str(page.page_type.as_str());
    head.push_str(", v");
    head.push_str(text::show_signed(page.version).as_str());
    head.push_str(", updated ");
    head.push_str(output::short_timestamp(page.updated_at.as_str()).as_str());
    head.push_str(" by ");
    head.push_str(page.updated_by.as_str());
    head.push_str(")");
    let mut report = output::message(head.as_str());
    report.content(page.content.as_str());
    assert(report@ =~= page_lines(*page));
    report
}

/// Prints what was done with a page.
pub fn print_changed(verb: &str, slug: &str, version: i64) -> (report: Report)
    ensures
        report@ == seq![
            LineModel::Note(verb@ + " '"@ + slug@ + "' (version "@ + text::signed_decimal(version as int) + ")."@),
        ],
{
    let mut line = verb.to_owned();
    line.push_str(" '");
    line.push_str(slug);
    line.push_str("' (version ");
    line.push_str(text::show_signed(version).as_str());
    line.push_str(").");
    output::message(line.as_str())
}

/// Prints that a page was restored.
pub fn print_restored(slug: &str, restored: i64, version: i64) -> (report: Report)
    ensures
        report@ == seq![
            LineModel::Note(
                "Restored '"@ + slug@ + "' to version "@ + text::signed_decimal(restored as int) + " (now version "@
                    + text::signed_decimal(version as int) + ")."@,
            ),
        ],
{
    let mut line = "Restored '".to_owned();
    line.push_str(slug);
    line.push_str("' to version ");
    line.push_str(text::show_signed(restored).as_str());
    line.push_str(" (now version ");
    line.push_str(text::show_signed(version).as_str());
    line.push_str(").");
    output::message(line.as_str())
}

/// Prints that an edit would change nothing.
pub fn print_unchanged(slug: &str) -> (report: Report)
    ensures
        report@ == seq![LineModel::Note("No changes to '"@ + slug@ + "'."@)],
{
    output::message_about("No changes to '", slug, "'.")
}

/// A version of a page.
#[derive(Debug)]
pub struct PageVersion {
    pub version: i64,
    pub created_at: String,
    pub author_id: String,
    pub edit_summary: Option<String>,
}

impl Row for PageVersion {
    open spec fn cells(&self) -> Seq<Seq<char>> {
        seq![
            text::signed_decimal(self.version as int),
            output::minute_of(self.created_at@),
            self.author_id@,
            text::or_text(text::opt_text(self.edit_summary), ""@),
        ]
    }

    fn row(&self) -> (row: Vec<String>) {
        let row = vec![
            text::show_signed(self.version),
            output::short_timestamp(self.created_at.as_str()),
            self.author_id.clone(),
            text::or_default(&self.edit_summary, ""),
        ];
        assert(text::texts(row@) =~= self.cells());
        row
    }
}

/// The headings of a version history.
pub open spec fn history_headers() -> Seq<Seq<char>> {
    seq!["VERSION"@, "DATE"@, "AUTHOR"@, "SUMMARY"@]
}

/// Prints a page's version history.
pub fn print_history(slug: &str, versions: &Vec<PageVersion>) -> (report: Report)
    ensures
        report@ == output::listing("No history for '"@ + slug@ + "'."@, history_headers(), versions@),
{
    let names = vec!["VERSION", "DATE", "AUTHOR", "SUMMARY"];
    assert(text::slices(names@) =~= history_headers());
    output::print_listing(request::path_around("No history for '", slug, "'.").as_str(), &names, versions)
}

// ---------------------------------------------------------------------------
// Laws
// ---------------------------------------------------------------------------

/// An edit whose content is the page's own sends nothing; any other edit sends
/// both contents whole.
pub proof fn law_edits_swap_the_whole_content(
    slug: Seq<char>,
    current: Seq<char>,
    content: Seq<char>,
    summary: Option<Seq<char>>,
)
    ensures
        edit_of(slug, current, content, summary) is None <==> current == content,
        edit_of(slug, current, content, summary) matches Some(request) ==> request.body is Some && request.body->0.at(
            "old_string"@,
        ) == json::JsonModel::Text(current) && request.body->0.at("new_string"@) == json::JsonModel::Text(content),
{
    reveal_strlit("old_string");
    reveal_strlit("new_string");
    reveal_strlit("edit_summary");
    let first = json::with_text(json::no_members(), "old_string"@, current);
    let second = json::with_text(first, "new_string"@, content);
    assert("old_string"@[0] != "new_string"@[0]);
    assert("edit_summary"@[0] != "new_string"@[0]);
    assert("edit_summary"@[0] != "old_string"@[0]);
    json::law_a_set_member_is_found(
        json::no_members(),
        "old_string"@,
        json::JsonModel::Text(current),
        "new_string"@,
    );
    json::law_a_set_member_is_found(first, "new_string"@, json::JsonModel::Text(content), "old_string"@);
    if let Some(summary) = summary {
        json::law_a_set_member_is_found(second, "edit_summary"@, json::JsonModel::Text(summary), "old_string"@);
        json::law_a_set_member_is_found(second, "edit_summary"@, json::JsonModel::Text(summary), "new_string"@);
    }
}

/// A page's content comes from a file where one is named, and else from what was
/// given; without either there is none.
pub proof fn law_a_file_comes_before_given_content(file: Option<Seq<char>>, content: Option<Seq<char>>)
    ensures
        file is Some ==> source_of(file, content) == Ok::<(bool, Seq<char>), Seq<char>>((true, file->0)),
        file is None && content is Some ==> source_of(file, content) == Ok::<(bool, Seq<char>), Seq<char>>(
            (false, content->0),
        ),
        file is None && content is None ==> source_of(file, content) is Err,
{
}

/// Looking at pages changes nothing, and every change goes to its page.
pub proof fn law_wiki_commands_keep_to_their_page(command: WikiCommand, content: Seq<char>)
    ensures
        command is List || command is Search || command is Get || command is Edit || command is History ==> request_of(
            command,
            content,
        ).method == Method::Get && request_of(command, content).body is None,
        command matches WikiCommand::Archive { slug } ==> request_of(command, content).method == Method::Delete
            && request_of(command, content).path == "wiki/"@ + slug@,
        command matches WikiCommand::Restore { slug, version } ==> request_of(command, content).method == Method::Post
            && request_of(command, content).path == "wiki/"@ + slug@ + "/restore"@ && request_of(
            command,
            content,
        ).body->0.at("version"@).as_whole() == Some(version as int),
        command matches WikiCommand::Edit { slug, .. } ==> request_of(command, content).path == "wiki/"@ + slug@,
        command matches WikiCommand::Create { title, page_type, related, summary, .. } ==> {
            let asked = request_of(command, content);
            &&& asked.method == Method::Post && asked.path == "wiki"@
            &&& asked.body->0.at("title"@).as_text() == Some(title@)
            &&& asked.body->0.at("page_type"@).as_text() == Some(page_type@)
            &&& asked.body->0.at("content"@).as_text() == Some(content)
            &&& asked.body->0.at("edit_summary"@).as_text() == text::opt_text(summary)
            &&& asked.body->0.at("related"@).items().len() == related@.len()
        },
{
    broadcast use json::member_after_set;

    reveal_strlit("");
    reveal_strlit("title");
    reveal_strlit("page_type");
    reveal_strlit("content");
    reveal_strlit("related");
    reveal_strlit("edit_summary");
    assert("title"@.len() == 5 && "page_type"@.len() == 9 && "content"@.len() == 7 && "related"@.len() == 7);
    assert("edit_summary"@.len() == 12 && "content"@[0] != "related"@[0]);
    match command {
        WikiCommand::Archive { slug } => {
            assert("wiki/"@ + slug@ + ""@ =~= "wiki/"@ + slug@);
        },
        WikiCommand::Edit { slug, .. } => {
            assert("wiki/"@ + slug@ + ""@ =~= "wiki/"@ + slug@);
        },
        _ => {},
    }
}

/// A page is shown with its content, and its versions by their own summary.
pub proof fn law_a_shown_page_holds_its_content(page: Page, version: PageVersion, summary: PageSummary)
    ensures
        page_lines(page).len() == 2 && page_lines(page)[0] is Note,
        page_lines(page)[1] == LineModel::Out(output::without_break(page.content@)),
        version.cells().len() == history_headers().len(),
        version.cells()[0] == text::signed_decimal(version.version as int) && version.cells()[2] == version.author_id@,
        version.edit_summary is Some ==> version.cells()[3] == version.edit_summary->0@,
        summary.cells().len() == list_headers().len(),
        summary.cells()[0] == summary.slug@ && summary.cells()[1] == summary.page_type@,
        summary.cells()[2] == text::signed_decimal(summary.version as int) && summary.cells()[4] == summary.updated_by@,
{
}

} // verus!
