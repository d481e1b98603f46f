//! `spacebot model`: the model catalog over the control API.
use vstd::prelude::*;
use crate::cli::output;
use crate::cli::output::{LineModel, Report, Row};
use crate::cli::request;
use crate::cli::request::{Method, Query, Request, RequestModel};
use crate::json;
use crate::text;

verus! {

broadcast use vstd::seq::group_seq_axioms;

/// The model commands.
#[derive(Debug)]
pub enum ModelCommand {
    /// List models available to the configured providers
    List { provider: Option<String>, capability: Option<String> },
    /// Clear the model catalog cache and refetch it
    Refresh,
}

/// The request that a command makes.
pub open spec fn request_of(command: ModelCommand) -> RequestModel {
    match command {
        ModelCommand::List { provider, capability } => request::reads(
            request::with_any_query(
                "models"@,
                request::with_opt_text(
                    request::with_opt_text(request::no_params(), "provider"@, text::opt_text(provider)),
                    "capability"@,
                    text::opt_text(capability),
                ),
            ),
        ),
        ModelCommand::Refresh => request::sends(Method::Post, "models/refresh"@, json::no_members()),
    }
}

/// Plans the request of a command.
pub fn plan(command: &ModelCommand) -> (request: Request)
    ensures
        request@ == request_of(*command),
{
    match command {
        ModelCommand::List { provider, capability } => {
            let mut query = Query::new();
            query.opt_text("provider", provider);
            query.opt_text("capability", capability);
            Request::get(query.after_if_any("models"))
        },
        ModelCommand::Refresh => Request::bare(Method::Post, "models/refresh"),
    }
}

/// A model of the catalog.
#[derive(Debug)]
pub struct ModelEntry {
    pub id: String,
    pub name: String,
    pub context_window: Option<u64>,
    pub tool_call: bool,
    pub reasoning: bool,
    pub input_audio: bool,
}

impl Row for ModelEntry {
    open spec fn cells(&self) -> Seq<Seq<char>> {
        seq![
            self.id@,
            self.name@,
            match self.context_window {
                Some(window) => text::decimal(window as nat),
                None => "-"@,
            },
            output::yes_or_no(self.tool_call),
            output::yes_or_no(self.reasoning),
            output::yes_or_no(self.input_audio),
        ]
    }

    fn row(&self) -> (row: Vec<String>) {
        let window = match self.context_window {
            Some(window) => text::show(window),
            None => "-".to_owned(),
        };
        let row = vec![
            self.id.clone(),
            self.name.clone(),
            window,
            output::yes_no(self.tool_call),
            output::yes_no(self.reasoning),
            output::yes_no(self.input_audio),
        ];
        assert(text::texts(row@) =~= self.cells());
        row
    }
}

/// The headings of a listing.
pub open spec fn list_headers() -> Seq<Seq<char>> {
    seq!["ID"@, "NAME"@, "CONTEXT"@, "TOOLS"@, "REASONING"@, "AUDIO"@]
}

/// Prints a listing.
pub fn print_list(models: &Vec<ModelEntry>) -> (report: Report)
    ensures
        report@ == output::listing("No models available — configure a provider first."@, list_headers(), models@),
{
    let names = vec!["ID", "NAME", "CONTEXT", "TOOLS", "REASONING", "AUDIO"];
    assert(text::slices(names@) =~= list_headers());
    output::print_listing("No models available — configure a provider first.", &names, models)
}

/// Prints that the catalog was fetched anew.
pub fn print_refreshed(models: usize) -> (report: Report)
    ensures
        report@ == seq![LineModel::Note("Model catalog refreshed ("@ + text::decimal(models as nat) + " models)."@)],
{
    output::message_about("Model catalog refreshed (", text::show_usize(models).as_str(), " models).")
}

// ---------------------------------------------------------------------------
// Laws
// ---------------------------------------------------------------------------

/// Models are listed by what is asked for, and a refresh is a change.
pub proof fn law_models_are_listed_by_what_is_asked_for(command: ModelCommand)
    ensures
        command is Refresh ==> request_of(command).method == Method::Post && request_of(command).path
            == "models/refresh"@,
        command is List ==> request_of(command).method == Method::Get && request_of(command).body is None,
        command matches ModelCommand::List { provider, capability } ==> {
            &&& provider is None && capability is None ==> request_of(command).path == "models"@
            &&& provider is Some ==> text::occurs_in(
                request_of(command).path,
                "provider"@ + "="@ + request::in_query(provider->0@),
            )
            &&& capability is Some ==> text::occurs_in(
                request_of(command).path,
                "capability"@ + "="@ + request::in_query(capability->0@),
            )
        },
{
    broadcast use request::params_after_param;

    if let ModelCommand::List { provider, capability } = command {
        let one = request::with_opt_text(request::no_params(), "provider"@, text::opt_text(provider));
        let parts = request::with_opt_text(one, "capability"@, text::opt_text(capability));
        if let Some(provider) = provider {
            let part = "provider"@ + "="@ + request::in_query(provider@);
            assert(one.contains(part));
            assert(parts.contains(part));
            request::law_parameters_stand_in_the_address("models"@, parts, part);
        }
        if let Some(capability) = capability {
            let part = "capability"@ + "="@ + request::in_query(capability@);
            assert(parts.contains(part));
            request::law_parameters_stand_in_the_address("models"@, parts, part);
        }
    }
}

/// A row shows what its model can do.
pub proof fn law_a_listed_model_shows_what_it_can_do(model: ModelEntry)
    ensures
        model.cells().len() == list_headers().len(),
        model.cells()[0] == model.id@ && model.cells()[1] == model.name@,
        model.context_window is Some ==> model.cells()[2] == text::decimal(model.context_window->0 as nat),
        model.context_window is None ==> model.cells()[2] == "-"@,
        model.tool_call ==> model.cells()[3] == "yes"@,
        !model.tool_call ==> model.cells()[3] == "no"@,
        model.reasoning ==> model.cells()[4] == "yes"@,
        !model.reasoning ==> model.cells()[4] == "no"@,
        model.input_audio ==> model.cells()[5] == "yes"@,
        !model.input_audio ==> model.cells()[5] == "no"@,
{
}

} // verus!
