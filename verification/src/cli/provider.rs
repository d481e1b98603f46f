//! `spacebot provider`: LLM providers over the control API.
use vstd::prelude::*;
use crate::cli::output;
use crate::cli::output::{LineModel, Report};
use crate::cli::request;
use crate::cli::request::{Method, Request, RequestModel};
use crate::json;
use crate::json::{Body, Json, JsonModel};
use crate::text;

verus! {

broadcast use vstd::seq::group_seq_axioms;

/// The provider commands.
#[derive(Debug)]
pub enum ProviderCommand {
    /// List providers and whether each is configured
    List,
    /// Configure a provider credential and apply a model to default routing
    Put {
        provider: String,
        model: String,
        stdin: bool,
        base_url: Option<String>,
        api_version: Option<String>,
        deployment: Option<String>,
    },
    /// Show a provider's stored configuration (credentials excluded)
    Get { provider: String },
    /// Test a provider/model pair with a live completion
    Test {
        provider: String,
        model: String,
        stdin: bool,
        base_url: Option<String>,
        api_version: Option<String>,
        deployment: Option<String>,
    },
    /// Remove a provider's credentials
    Delete { provider: String },
}

/// The body that names a provider, its credential and its model.
pub open spec fn provider_body(
    provider: Seq<char>,
    api_key: Seq<char>,
    model: Seq<char>,
    base_url: Option<Seq<char>>,
    api_version: Option<Seq<char>>,
    deployment: Option<Seq<char>>,
) -> Seq<(Seq<char>, JsonModel)> {
    let body = json::with_text(json::no_members(), "provider"@, provider);
    let body = json::with_text(body, "api_key"@, api_key);
    let body = json::with_text(body, "model"@, model);
    let body = json::with_opt_text(body, "base_url"@, base_url);
    let body = json::with_opt_text(body, "api_version"@, api_version);
    json::with_opt_text(body, "deployment"@, deployment)
}

/// The credential that is sent: what was piped in, without the whitespace at
/// its end, or what was typed.
pub open spec fn key_of(stdin: bool, api_key: Seq<char>) -> Seq<char> {
    if stdin {
        text::trimmed_end(api_key)
    } else {
        api_key
    }
}

fn take_key(stdin: bool, api_key: &str) -> (key: String)
    ensures
        key@ == key_of(stdin, api_key@),
{
    if stdin {
        text::trim_end(api_key)
    } else {
        api_key.to_owned()
    }
}

/// The request that a command makes. `api_key` is the credential that was
/// read; an empty one is passed through, which the API accepts where a stored
/// one can be used again.
pub open spec fn request_of(command: ProviderCommand, api_key: Seq<char>) -> RequestModel {
    match command {
        ProviderCommand::List => request::reads("providers"@),
        ProviderCommand::Put { provider, model, stdin, base_url, api_version, deployment } => request::sends(
            Method::Post,
            "providers"@,
            provider_body(
                provider@,
                key_of(stdin, api_key),
                model@,
                text::opt_text(base_url),
                text::opt_text(api_version),
                text::opt_text(deployment),
            ),
        ),
        ProviderCommand::Get { provider } => request::reads(
            "providers/"@ + request::in_query(text::trimmed(provider@)) + "/config"@,
        ),
        ProviderCommand::Test { provider, model, stdin, base_url, api_version, deployment } => request::sends(
            Method::Post,
            "providers/test-model"@,
            provider_body(
                provider@,
                key_of(stdin, api_key),
                model@,
                text::opt_text(base_url),
                text::opt_text(api_version),
                text::opt_text(deployment),
            ),
        ),
        ProviderCommand::Delete { provider } => request::deletes(
            "providers/"@ + request::in_query(text::trimmed(provider@)) + ""@,
        ),
    }
}

fn name_provider(
    provider: &str,
    api_key: &str,
    model: &str,
    base_url: &Option<String>,
    api_version: &Option<String>,
    deployment: &Option<String>,
) -> (body: Body)
    ensures
        body@ == provider_body(
            provider@,
            api_key@,
            model@,
            text::opt_text(*base_url),
            text::opt_text(*api_version),
            text::opt_text(*deployment),
        ),
{
    let mut body = Body::new();
    body.text("provider", provider);
    body.text("api_key", api_key);
    body.text("model", model);
    body.opt_text("base_url", base_url);
    body.opt_text("api_version", api_version);
    body.opt_text("deployment", deployment);
    body
}

/// Plans the request of a command.
pub fn plan(command: &ProviderCommand, api_key: &str) -> (request: Request)
    ensures
        request@ == request_of(*command, api_key@),
{
    match command {
        ProviderCommand::List => Request::get("providers".to_owned()),
        ProviderCommand::Put { provider, model, stdin, base_url, api_version, deployment } => {
            let key = take_key(*stdin, api_key);
            let body = name_provider(
                provider.as_str(),
                key.as_str(),
                model.as_str(),
                base_url,
                api_version,
                deployment,
            );
            Request::with(Method::Post, "providers".to_owned(), body)
        },
        ProviderCommand::Get { provider } => {
            let name = text::trim(provider.as_str());
            Request::get(request::path_with_text("providers/", name.as_str(), "/config"))
        },
        ProviderCommand::Test { provider, model, stdin, base_url, api_version, deployment } => {
            let key = take_key(*stdin, api_key);
            let body = name_provider(
                provider.as_str(),
                key.as_str(),
                model.as_str(),
                base_url,
                api_version,
                deployment,
            );
            Request::with(Method::Post, "providers/test-model".to_owned(), body)
        },
        ProviderCommand::Delete { provider } => {
            let name = text::trim(provider.as_str());
            Request::delete(request::path_with_text("providers/", name.as_str(), ""))
        },
    }
}

// ---------------------------------------------------------------------------
// What is printed
// ---------------------------------------------------------------------------

/// The row of a provider: its id, which has hyphens where the answer has
/// underscores, and whether it is configured.
pub open spec fn provider_cells(name: Seq<char>, configured: JsonModel) -> Seq<Seq<char>> {
    seq![text::replaced(name, "_"@, "-"@), output::yes_or_no(configured.as_flag() == Some(true))]
}

/// The headings of a listing.
pub open spec fn list_headers() -> Seq<Seq<char>> {
    seq!["PROVIDER"@, "CONFIGURED"@]
}

/// What is printed of the providers.
pub open spec fn list_lines(response: JsonModel) -> Result<Seq<LineModel>, Seq<char>> {
    match response.at("providers"@) {
        JsonModel::Object(providers) => Ok(
            output::out_lines(
                output::table_lines(
                    list_headers(),
                    providers.map_values(|member: (Seq<char>, JsonModel)| provider_cells(member.0, member.1)),
                ),
            ) + (if response.is_set("has_any"@) {
                Seq::empty()
            } else {
                seq![LineModel::Note(""@), LineModel::Note("No providers configured."@)]
            }),
        ),
        _ => Err("unexpected API response shape"@),
    }
}

/// Prints the providers and whether each is configured.
pub fn print_list(response: &Json) -> (report: Result<Report, String>)
    ensures
        output::reported(report) == list_lines(response@),
{
    match response.member("providers") {
        Some(Json::Object(members)) => {
            proof {
                json::object_model(*members);
                reveal_strlit("_");
            }
            let ghost models = json::member_models(members@);
            let ghost all = models.map_values(|member: (Seq<char>, JsonModel)| provider_cells(member.0, member.1));
            let mut rows: Vec<Vec<String>> = Vec::new();
            let mut k: usize = 0;
            assert(output::row_texts(rows@) =~= all.take(0));
            while k < members.len()
                invariant
                    models == json::member_models(members@),
                    all == models.map_values(|member: (Seq<char>, JsonModel)| provider_cells(member.0, member.1)),
                    k <= members@.len(),
                    "_"@.len() > 0,
                    output::row_texts(rows@) == all.take(k as int),
                decreases members@.len() - k,
            {
                let ghost before = rows@;
                let configured = match &members[k].value {
                    Json::Bool(flag) => *flag,
                    _ => false,
                };
                let row = vec![text::replace(members[k].name.as_str(), "_", "-"), output::yes_no(configured)];
                assert(models[k as int] == (members@[k as int].name@, members@[k as int].value@));
                assert(text::texts(row@) =~= all[k as int]);
                rows.push(row);
                assert(output::row_texts(rows@) =~= output::row_texts(before).push(text::texts(row@)));
                assert(all.take(k + 1) =~= all.take(k as int).push(all[k as int]));
                k = k + 1;
            }
            assert(all.take(k as int) =~= all);
            let names = vec!["PROVIDER", "CONFIGURED"];
            assert(text::slices(names@) =~= list_headers());
            let mut report = Report::new();
            report.grid(&names, &rows);
            if !response.is_set("has_any") {
                report.err("");
                report.err("No providers configured.");
            }
            assert(report@ =~= list_lines(response@)->Ok_0);
            Ok(report)
        },
        _ => Err("unexpected API response shape".to_owned()),
    }
}

/// What is printed of a provider's configuration: its fields, or the answer's
/// message where it has none.
pub open spec fn config_lines(
    success: bool,
    message: Seq<char>,
    base_url: Option<Seq<char>>,
    api_version: Option<Seq<char>>,
    deployment: Option<Seq<char>>,
) -> Result<Seq<LineModel>, Seq<char>> {
    if !success {
        Err(message)
    } else if base_url is None && api_version is None && deployment is None {
        Ok(seq![LineModel::Out(message)])
    } else {
        Ok(
            output::opt_line("Base URL:     "@, base_url) + output::opt_line("API version:  "@, api_version)
                + output::opt_line("Deployment:   "@, deployment),
        )
    }
}

/// Prints a provider's configuration.
pub fn print_config(
    success: bool,
    message: &str,
    base_url: &Option<String>,
    api_version: &Option<String>,
    deployment: &Option<String>,
) -> (report: Result<Report, String>)
    ensures
        output::reported(report) == config_lines(
            success,
            message@,
            text::opt_text(*base_url),
            text::opt_text(*api_version),
            text::opt_text(*deployment),
        ),
{
    if !success {
        return Err(message.to_owned());
    }
    if base_url.is_none() && api_version.is_none() && deployment.is_none() {
        return Ok(output::line(message));
    }
    let mut report = Report::new();
    report.opt_field("Base URL:     ", base_url);
    report.opt_field("API version:  ", api_version);
    report.opt_field("Deployment:   ", deployment);
    assert(report@ =~= output::opt_line("Base URL:     "@, text::opt_text(*base_url)) + output::opt_line(
        "API version:  "@,
        text::opt_text(*api_version),
    ) + output::opt_line("Deployment:   "@, text::opt_text(*deployment)));
    Ok(report)
}

/// Prints that a model is being tested.
pub fn announce_test(model: &str) -> (report: Report)
    ensures
        report@ == seq![LineModel::Note("Testing "@ + model@ + "..."@)],
{
    output::message_about("Testing ", model, "...")
}

/// What is printed of a test.
pub open spec fn test_lines(success: bool, message: Seq<char>, sample: Option<Seq<char>>) -> Result<
    Seq<LineModel>,
    Seq<char>,
> {
    if success {
        Ok(seq![LineModel::Note(message)] + output::opt_line(""@, sample))
    } else {
        Err(message)
    }
}

/// Prints the outcome of a test.
pub fn print_test(success: bool, message: &str, sample: &Option<String>) -> (report: Result<Report, String>)
    ensures
        output::reported(report) == test_lines(success, message@, text::opt_text(*sample)),
{
    if !success {
        return Err(message.to_owned());
    }
    let mut report = output::message(message);
    report.opt_field("", sample);
    Ok(report)
}

// ---------------------------------------------------------------------------
// Laws
// ---------------------------------------------------------------------------

/// A provider is put and tested with the same facts, each under its own name; a
/// key that is piped in loses the whitespace behind it.
pub proof fn law_a_provider_is_sent_with_its_facts(
    provider: Seq<char>,
    api_key: Seq<char>,
    model: Seq<char>,
    base_url: Option<Seq<char>>,
    api_version: Option<Seq<char>>,
    deployment: Option<Seq<char>>,
)
    ensures
        ({
            let sent = JsonModel::Object(provider_body(provider, api_key, model, base_url, api_version, deployment));
            &&& sent.at("provider"@).as_text() == Some(provider)
            &&& sent.at("api_key"@).as_text() == Some(api_key)
            &&& sent.at("model"@).as_text() == Some(model)
            &&& sent.at("base_url"@).as_text() == base_url
            &&& sent.at("api_version"@).as_text() == api_version
            &&& sent.at("deployment"@).as_text() == deployment
        }),
        key_of(false, api_key) == api_key,
        key_of(true, api_key) == text::trimmed_end(api_key),
{
    broadcast use json::member_after_set;

    reveal_strlit("provider");
    reveal_strlit("api_key");
    reveal_strlit("model");
    reveal_strlit("base_url");
    reveal_strlit("api_version");
    reveal_strlit("deployment");
    assert("provider"@.len() == 8 && "api_key"@.len() == 7 && "model"@.len() == 5 && "base_url"@.len() == 8);
    assert("api_version"@.len() == 11 && "deployment"@.len() == 10);
    assert("provider"@[0] != "base_url"@[0]);
}

/// Looking at providers changes nothing, and a test is no change of one.
pub proof fn law_provider_commands_keep_to_their_address(command: ProviderCommand, api_key: Seq<char>)
    ensures
        command is List || command is Get ==> request_of(command, api_key).method == Method::Get && request_of(
            command,
            api_key,
        ).body is None,
        command is Put ==> request_of(command, api_key).method == Method::Post && request_of(command, api_key).path
            == "providers"@,
        command is Test ==> request_of(command, api_key).method == Method::Post && request_of(command, api_key).path
            == "providers/test-model"@,
        command matches ProviderCommand::Delete { provider } ==> request_of(command, api_key).method == Method::Delete
            && request_of(command, api_key).path == "providers/"@ + request::in_query(text::trimmed(provider@)),
        command matches ProviderCommand::Get { provider } ==> request_of(command, api_key).path == "providers/"@
            + request::in_query(text::trimmed(provider@)) + "/config"@,
{
    reveal_strlit("");
    if let ProviderCommand::Delete { provider } = command {
        let path = "providers/"@ + request::in_query(text::trimmed(provider@));
        assert(path + ""@ =~= path);
    }
}

/// A provider is configured exactly where the answer says so, and that none is
/// is noted.
pub proof fn law_a_provider_is_configured_where_it_says_so(name: Seq<char>, configured: JsonModel, response: JsonModel)
    ensures
        configured == JsonModel::Bool(true) ==> provider_cells(name, configured)[1] == "yes"@,
        configured != JsonModel::Bool(true) ==> provider_cells(name, configured)[1] == "no"@,
        list_lines(response) is Ok <==> response.at("providers"@) is Object,
        list_lines(response) is Ok && response.is_set("has_any"@) ==> list_lines(response)->Ok_0.len()
            == response.at("providers"@)->Object_0.len() + 1,
        list_lines(response) is Ok && !response.is_set("has_any"@) ==> list_lines(response)->Ok_0.last()
            == LineModel::Note("No providers configured."@),
{
}

/// A failure is an error, and a configuration is shown by what it holds.
pub proof fn law_a_configuration_is_shown_by_what_it_holds(
    success: bool,
    message: Seq<char>,
    base_url: Option<Seq<char>>,
    api_version: Option<Seq<char>>,
    deployment: Option<Seq<char>>,
    sample: Option<Seq<char>>,
)
    ensures
        !success ==> config_lines(success, message, base_url, api_version, deployment) == Err::<
            Seq<LineModel>,
            Seq<char>,
        >(message) && test_lines(success, message, sample) == Err::<Seq<LineModel>, Seq<char>>(message),
        success ==> config_lines(success, message, base_url, api_version, deployment) is Ok,
        success && base_url is Some ==> config_lines(success, message, base_url, api_version, deployment)->Ok_0[0]
            == LineModel::Out("Base URL:     "@ + base_url->0),
        success && deployment is Some ==> config_lines(
            success,
            message,
            base_url,
            api_version,
            deployment,
        )->Ok_0.last() == LineModel::Out("Deployment:   "@ + deployment->0),
        success && base_url is None && api_version is None && deployment is None ==> config_lines(
            success,
            message,
            base_url,
            api_version,
            deployment,
        )->Ok_0 == seq![LineModel::Out(message)],
        success ==> test_lines(success, message, sample) is Ok && test_lines(success, message, sample)->Ok_0[0]
            == LineModel::Note(message),
{
}

} // verus!
