//! `spacebot ingest`: agent file ingestion over the control API.
use vstd::prelude::*;
use crate::cli::output;
use crate::cli::output::{LineModel, Report, Row};
use crate::cli::request;
use crate::cli::request::{Method, Query, Request, RequestModel};
use crate::text;

verus! {

broadcast use vstd::seq::group_seq_axioms;

/// The ingest commands.
#[derive(Debug)]
pub enum IngestCommand {
    /// List ingested files with progress
    List { agent_id: String },
    /// Upload a file to the agent's ingest directory
    Upload { agent_id: String, file: String },
    /// Delete an ingestion record from history
    Delete { agent_id: String, content_hash: String },
}

/// The query that names an agent.
pub open spec fn of_agent(agent_id: Seq<char>) -> Seq<Seq<char>> {
    request::with_text(request::no_params(), "agent_id"@, agent_id)
}

/// The request that a command makes. An upload carries the file as a form.
pub open spec fn request_of(command: IngestCommand) -> RequestModel {
    match command {
        IngestCommand::List { agent_id } => request::reads(
            request::with_query("agents/ingest/files"@, of_agent(agent_id@)),
        ),
        IngestCommand::Upload { agent_id, .. } => RequestModel {
            method: Method::Post,
            path: request::with_query("agents/ingest/files"@, of_agent(agent_id@)),
            body: None,
        },
        IngestCommand::Delete { agent_id, content_hash } => request::deletes(
            request::with_query(
                "agents/ingest/files"@,
                request::with_text(of_agent(agent_id@), "content_hash"@, content_hash@),
            ),
        ),
    }
}

/// Plans the request of a command.
pub fn plan(command: &IngestCommand) -> (request: Request)
    ensures
        request@ == request_of(*command),
{
    let mut query = Query::new();
    match command {
        IngestCommand::List { agent_id } => {
            query.text("agent_id", agent_id.as_str());
            Request::get(query.after("agents/ingest/files"))
        },
        IngestCommand::Upload { agent_id, .. } => {
            query.text("agent_id", agent_id.as_str());
            Request { method: Method::Post, path: query.after("agents/ingest/files"), body: None }
        },
        IngestCommand::Delete { agent_id, content_hash } => {
            query.text("agent_id", agent_id.as_str());
            query.text("content_hash", content_hash.as_str());
            Request::delete(query.after("agents/ingest/files"))
        },
    }
}

/// The name that a file is uploaded under.
pub fn upload_name(file_name: &Option<String>) -> (name: String)
    ensures
        name@ == text::or_text(text::opt_text(*file_name), "upload.txt"@),
{
    text::or_default(file_name, "upload.txt")
}

/// An ingested file as the control API lists it, with its size written out.
#[derive(Debug)]
pub struct IngestFile {
    pub filename: String,
    pub size: String,
    pub status: String,
    pub chunks_completed: i64,
    pub total_chunks: i64,
    pub started_at: String,
    pub content_hash: String,
}

impl Row for IngestFile {
    open spec fn cells(&self) -> Seq<Seq<char>> {
        seq![
            self.filename@,
            self.size@,
            self.status@,
            text::signed_decimal(self.chunks_completed as int) + "/"@ + text::signed_decimal(self.total_chunks as int),
            output::minute_of(self.started_at@),
            self.content_hash@,
        ]
    }

    fn row(&self) -> (row: Vec<String>) {
        let mut chunks = text::show_signed(self.chunks_completed);
        chunks.push_str("/");
        chunks.push_str(text::show_signed(self.total_chunks).as_str());
        let row = vec![
            self.filename.clone(),
            self.size.clone(),
            self.status.clone(),
            chunks,
            output::short_timestamp(self.started_at.as_str()),
            self.content_hash.clone(),
        ];
        assert(text::texts(row@) =~= self.cells());
        row
    }
}

/// The headings of a listing.
pub open spec fn list_headers() -> Seq<Seq<char>> {
    seq!["FILENAME"@, "SIZE"@, "STATUS"@, "CHUNKS"@, "STARTED"@, "HASH"@]
}

/// Prints a listing.
pub fn print_list(files: &Vec<IngestFile>) -> (report: Report)
    ensures
        report@ == output::listing("No ingested files."@, list_headers(), files@),
{
    let names = vec!["FILENAME", "SIZE", "STATUS", "CHUNKS", "STARTED", "HASH"];
    assert(text::slices(names@) =~= list_headers());
    output::print_listing("No ingested files.", &names, files)
}

/// What is printed of an upload.
pub open spec fn uploaded_lines(uploaded: Seq<Seq<char>>) -> Result<Seq<LineModel>, Seq<char>> {
    if uploaded.len() == 0 {
        Err("nothing was uploaded — the file may be empty"@)
    } else {
        Ok(uploaded.map_values(|name: Seq<char>| LineModel::Note("Uploaded "@ + name + "."@)))
    }
}

/// Prints what was uploaded.
pub fn print_uploaded(uploaded: &Vec<String>) -> (report: Result<Report, String>)
    ensures
        output::reported(report) == uploaded_lines(text::texts(uploaded@)),
{
    if uploaded.len() == 0 {
        return Err("nothing was uploaded — the file may be empty".to_owned());
    }
    let ghost names = text::texts(uploaded@);
    let ghost all = names.map_values(|name: Seq<char>| LineModel::Note("Uploaded "@ + name + "."@));
    let mut report = Report::new();
    let mut k: usize = 0;
    assert(report@ =~= all.take(0));
    while k < uploaded.len()
        invariant
            names == text::texts(uploaded@),
            all == names.map_values(|name: Seq<char>| LineModel::Note("Uploaded "@ + name + "."@)),
            k <= uploaded@.len(),
            report@ == all.take(k as int),
        decreases uploaded@.len() - k,
    {
        report.err(request::path_around("Uploaded ", uploaded[k].as_str(), ".").as_str());
        assert(names[k as int] == uploaded@[k as int]@);
        assert(report@ =~= all.take(k + 1));
        k = k + 1;
    }
    assert(all.take(k as int) =~= all);
    Ok(report)
}

/// Prints that a record was deleted, where it was.
pub fn print_deleted(success: bool, content_hash: &str) -> (report: Report)
    ensures
        report@ == (if success {
            seq![LineModel::Note("Deleted ingestion record "@ + content_hash@ + "."@)]
        } else {
            Seq::empty()
        }),
{
    if success {
        output::message_about("Deleted ingestion record ", content_hash, ".")
    } else {
        Report::new()
    }
}

// ---------------------------------------------------------------------------
// Laws
// ---------------------------------------------------------------------------

/// Files are listed, uploaded and deleted for an agent, and a deletion names the
/// file.
pub proof fn law_files_belong_to_an_agent(command: IngestCommand)
    ensures
        command is List ==> request_of(command).method == Method::Get && request_of(command).body is None,
        command is Upload ==> request_of(command).method == Method::Post,
        command is Delete ==> request_of(command).method == Method::Delete && request_of(command).body is None,
        command matches IngestCommand::List { agent_id } ==> text::occurs_in(
            request_of(command).path,
            "agent_id"@ + "="@ + request::in_query(agent_id@),
        ),
        command matches IngestCommand::Upload { agent_id, .. } ==> text::occurs_in(
            request_of(command).path,
            "agent_id"@ + "="@ + request::in_query(agent_id@),
        ),
        command matches IngestCommand::Delete { agent_id, content_hash } ==> text::occurs_in(
            request_of(command).path,
            "agent_id"@ + "="@ + request::in_query(agent_id@),
        ) && text::occurs_in(
            request_of(command).path,
            "content_hash"@ + "="@ + request::in_query(content_hash@),
        ),
{
    broadcast use request::params_after_param;

    let agent = match command {
        IngestCommand::List { agent_id } => agent_id@,
        IngestCommand::Upload { agent_id, .. } => agent_id@,
        IngestCommand::Delete { agent_id, .. } => agent_id@,
    };
    let whose = "agent_id"@ + "="@ + request::in_query(agent);
    assert(of_agent(agent).contains(whose));
    request::law_parameters_stand_in_the_address("agents/ingest/files"@, of_agent(agent), whose);
    if let IngestCommand::Delete { content_hash, .. } = command {
        let parts = request::with_text(of_agent(agent), "content_hash"@, content_hash@);
        let which = "content_hash"@ + "="@ + request::in_query(content_hash@);
        assert(parts.contains(whose) && parts.contains(which));
        request::law_parameters_stand_in_the_address("agents/ingest/files"@, parts, whose);
        request::law_parameters_stand_in_the_address("agents/ingest/files"@, parts, which);
    }
}

/// A file is shown with the chunks that are done of all it has, and an upload of
/// nothing is a failure.
pub proof fn law_a_listed_file_shows_its_progress(file: IngestFile, uploaded: Seq<Seq<char>>, k: int)
    ensures
        file.cells().len() == list_headers().len(),
        file.cells()[0] == file.filename@ && file.cells()[1] == file.size@ && file.cells()[2] == file.status@,
        file.cells()[3] == text::signed_decimal(file.chunks_completed as int) + "/"@ + text::signed_decimal(
            file.total_chunks as int,
        ),
        file.cells()[5] == file.content_hash@,
        uploaded.len() == 0 <==> uploaded_lines(uploaded) is Err,
        0 <= k < uploaded.len() ==> uploaded_lines(uploaded)->Ok_0.len() == uploaded.len() && uploaded_lines(
            uploaded,
        )->Ok_0[k] == LineModel::Note("Uploaded "@ + uploaded[k] + "."@),
{
}

} // verus!
