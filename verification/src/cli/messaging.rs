//! `spacebot messaging`: messaging platforms over the control API.
use vstd::prelude::*;
use crate::cli::output;
use crate::cli::output::{LineModel, Report, Row};
use crate::cli::request;
use crate::cli::request::{Method, Request, RequestModel};
use crate::json;
use crate::json::{Body, Json, JsonModel};
use crate::text;

verus! {

broadcast use vstd::seq::group_seq_axioms;

/// Whether a platform is to be on.
#[derive(Debug, Clone, Copy, PartialEq, Eq, Structural)]
pub enum ToggleState {
    On,
    Off,
}

/// The messaging commands.
#[derive(Debug)]
pub enum MessagingCommand {
    /// Show platform configuration and adapter instances
    Status,
    /// Enable or disable a platform or named instance
    Toggle { platform: String, state: ToggleState, adapter: Option<String> },
    /// Disconnect a platform: remove credentials and bindings, stop the adapter
    Disconnect { platform: String, adapter: Option<String> },
    /// Manage adapter instances
    Instance(InstanceCommand),
}

/// The commands on adapter instances.
#[derive(Debug)]
pub enum InstanceCommand {
    /// Create or update an adapter instance
    Create { platform: String, name: Option<String>, disabled: bool, stdin: bool },
    /// Delete an adapter instance and its bindings
    Delete { platform: String, name: Option<String> },
}

/// An object that names a platform.
pub open spec fn of_platform(platform: Seq<char>) -> Seq<(Seq<char>, JsonModel)> {
    json::with_text(json::no_members(), "platform"@, platform)
}

/// The body of a new instance, or what is wrong with its credentials.
pub open spec fn instance_body(
    platform: Seq<char>,
    name: Option<Seq<char>>,
    disabled: bool,
    credentials: Option<JsonModel>,
) -> Result<Seq<(Seq<char>, JsonModel)>, Seq<char>> {
    let body = json::with_opt_text(of_platform(platform), "name"@, name);
    let body = if disabled {
        json::with_flag(body, "enabled"@, false)
    } else {
        body
    };
    match credentials {
        None => Ok(body),
        Some(credentials) => if credentials is Object {
            Ok(json::with_member(body, "credentials"@, credentials))
        } else {
            Err("credentials must be a JSON object"@)
        },
    }
}

/// The body of a new instance, given the text that was read as its
/// credentials, or what is wrong with that.
pub open spec fn instance_with(
    platform: Seq<char>,
    name: Option<Seq<char>>,
    disabled: bool,
    credentials: Option<Seq<char>>,
) -> Result<Seq<(Seq<char>, JsonModel)>, Seq<char>> {
    match credentials {
        None => instance_body(platform, name, disabled, None),
        Some(credentials) => match json::parsed(credentials, "failed to parse credentials as JSON"@) {
            Ok(credentials) => instance_body(platform, name, disabled, Some(credentials)),
            Err(reason) => Err(reason),
        },
    }
}

/// The request that a command makes, or why it makes none. `credentials` is
/// what was read from stdin for a new instance, where that was asked for.
pub open spec fn request_of(command: MessagingCommand, credentials: Option<Seq<char>>) -> Result<
    RequestModel,
    Seq<char>,
> {
    match command {
        MessagingCommand::Status => Ok(request::reads("messaging/status"@)),
        MessagingCommand::Toggle { platform, state, adapter } => Ok(
            request::sends(
                Method::Post,
                "messaging/toggle"@,
                json::with_opt_text(
                    json::with_flag(of_platform(platform@), "enabled"@, state == ToggleState::On),
                    "adapter"@,
                    text::opt_text(adapter),
                ),
            ),
        ),
        MessagingCommand::Disconnect { platform, adapter } => Ok(
            request::sends(
                Method::Post,
                "messaging/disconnect"@,
                json::with_opt_text(of_platform(platform@), "adapter"@, text::opt_text(adapter)),
            ),
        ),
        MessagingCommand::Instance(InstanceCommand::Create { platform, name, disabled, .. }) => {
            match instance_with(platform@, text::opt_text(name), disabled, credentials) {
                Ok(body) => Ok(request::sends(Method::Post, "messaging/instances"@, body)),
                Err(reason) => Err(reason),
            }
        },
        MessagingCommand::Instance(InstanceCommand::Delete { platform, name }) => Ok(
            request::sends(
                Method::Delete,
                "messaging/instances"@,
                json::with_opt_text(of_platform(platform@), "name"@, text::opt_text(name)),
            ),
        ),
    }
}

fn name_platform(platform: &str) -> (body: Body)
    ensures
        body@ == of_platform(platform@),
{
    let mut body = Body::new();
    body.text("platform", platform);
    body
}

/// The body of a new instance, or what is wrong with its credentials.
pub fn describe_instance(platform: &str, name: &Option<String>, disabled: bool, credentials: Option<Json>) -> (body: Result<
    Body,
    String,
>)
    ensures
        (match body {
            Ok(body) => Ok(body@),
            Err(reason) => Err(reason@),
        }) == instance_body(
            platform@,
            text::opt_text(*name),
            disabled,
            match credentials {
                Some(credentials) => Some(credentials@),
                None => None,
            },
        ),
{
    let mut body = name_platform(platform);
    body.opt_text("name", name);
    if disabled {
        body.flag("enabled", false);
    }
    if let Some(credentials) = credentials {
        match credentials {
            Json::Object(members) => body.set("credentials", Json::Object(members)),
            _ => return Err("credentials must be a JSON object".to_owned()),
        }
    }
    Ok(body)
}

/// Plans the request of a command.
pub fn plan(command: &MessagingCommand, credentials: &Option<String>) -> (plan: Result<Request, String>)
    ensures
        request::planned(plan) == request_of(*command, text::opt_text(*credentials)),
{
    match command {
        MessagingCommand::Status => Ok(Request::get("messaging/status".to_owned())),
        MessagingCommand::Toggle { platform, state, adapter } => {
            let mut body = name_platform(platform.as_str());
            body.flag("enabled", *state == ToggleState::On);
            body.opt_text("adapter", adapter);
            Ok(Request::with(Method::Post, "messaging/toggle".to_owned(), body))
        },
        MessagingCommand::Disconnect { platform, adapter } => {
            let mut body = name_platform(platform.as_str());
            body.opt_text("adapter", adapter);
            Ok(Request::with(Method::Post, "messaging/disconnect".to_owned(), body))
        },
        MessagingCommand::Instance(InstanceCommand::Create { platform, name, disabled, .. }) => {
            let credentials = match credentials {
                None => None,
                Some(credentials) => match json::parse_or(credentials.as_str(), "failed to parse credentials as JSON") {
                    Ok(credentials) => Some(credentials),
                    Err(reason) => return Err(reason),
                },
            };
            match describe_instance(platform.as_str(), name, *disabled, credentials) {
                Ok(body) => Ok(Request::with(Method::Post, "messaging/instances".to_owned(), body)),
                Err(reason) => Err(reason),
            }
        },
        MessagingCommand::Instance(InstanceCommand::Delete { platform, name }) => {
            let mut body = name_platform(platform.as_str());
            body.opt_text("name", name);
            Ok(Request::with(Method::Delete, "messaging/instances".to_owned(), body))
        },
    }
}

// ---------------------------------------------------------------------------
// What is printed
// ---------------------------------------------------------------------------

/// Whether a platform is configured and enabled.
#[derive(Debug, Clone, Copy, PartialEq, Eq, Structural)]
pub struct PlatformStatus {
    pub configured: bool,
    pub enabled: bool,
}

/// The row of a platform.
#[derive(Debug)]
pub struct PlatformRow {
    pub name: &'static str,
    pub status: PlatformStatus,
}

impl Row for PlatformRow {
    open spec fn cells(&self) -> Seq<Seq<char>> {
        seq![self.name@, output::yes_or_no(self.status.configured), output::yes_or_no(self.status.enabled)]
    }

    fn row(&self) -> (row: Vec<String>) {
        let row = vec![
            self.name.to_owned(),
            output::yes_no(self.status.configured),
            output::yes_no(self.status.enabled),
        ];
        assert(text::texts(row@) =~= self.cells());
        row
    }
}

/// An adapter instance.
#[derive(Debug)]
pub struct AdapterInstance {
    pub platform: String,
    pub name: Option<String>,
    pub runtime_key: String,
    pub enabled: bool,
    pub binding_count: u64,
}

impl Row for AdapterInstance {
    open spec fn cells(&self) -> Seq<Seq<char>> {
        seq![
            self.platform@,
            text::or_text(text::opt_text(self.name), "default"@),
            self.runtime_key@,
            output::yes_or_no(self.enabled),
            text::decimal(self.binding_count as nat),
        ]
    }

    fn row(&self) -> (row: Vec<String>) {
        let row = vec![
            self.platform.clone(),
            text::or_default(&self.name, "default"),
            self.runtime_key.clone(),
            output::yes_no(self.enabled),
            text::show(self.binding_count),
        ];
        assert(text::texts(row@) =~= self.cells());
        row
    }
}

/// The platforms and the adapter instances.
#[derive(Debug)]
pub struct MessagingStatus {
    pub discord: PlatformStatus,
    pub slack: PlatformStatus,
    pub telegram: PlatformStatus,
    pub email: PlatformStatus,
    pub webhook: PlatformStatus,
    pub twitch: PlatformStatus,
    pub mattermost: PlatformStatus,
    pub signal: PlatformStatus,
    pub instances: Vec<AdapterInstance>,
}

/// The rows of the platforms.
pub open spec fn platform_cells(name: Seq<char>, status: PlatformStatus) -> Seq<Seq<char>> {
    seq![name, output::yes_or_no(status.configured), output::yes_or_no(status.enabled)]
}

/// The table of the platforms.
pub open spec fn platform_table(status: MessagingStatus) -> Seq<Seq<Seq<char>>> {
    seq![
        platform_cells("discord"@, status.discord),
        platform_cells("slack"@, status.slack),
        platform_cells("telegram"@, status.telegram),
        platform_cells("email"@, status.email),
        platform_cells("webhook"@, status.webhook),
        platform_cells("twitch"@, status.twitch),
        platform_cells("mattermost"@, status.mattermost),
        platform_cells("signal"@, status.signal),
    ]
}

/// The headings of the platforms.
pub open spec fn platform_headers() -> Seq<Seq<char>> {
    seq!["PLATFORM"@, "CONFIGURED"@, "ENABLED"@]
}

/// The headings of the adapter instances.
pub open spec fn instance_headers() -> Seq<Seq<char>> {
    seq!["PLATFORM"@, "INSTANCE"@, "ADAPTER"@, "ENABLED"@, "BINDINGS"@]
}

/// What is printed of the platforms and the adapter instances.
pub open spec fn status_lines(status: MessagingStatus) -> Seq<LineModel> {
    output::out_lines(output::table_lines(platform_headers(), platform_table(status))) + (if status.instances@.len()
        == 0 {
        Seq::empty()
    } else {
        seq![LineModel::Out(""@)] + output::item_table(instance_headers(), status.instances@)
    })
}

/// Prints the platforms and the adapter instances.
pub fn print_status(status: &MessagingStatus) -> (report: Report)
    ensures
        report@ == status_lines(*status),
{
    let rows = vec![
        PlatformRow { name: "discord", status: status.discord },
        PlatformRow { name: "slack", status: status.slack },
        PlatformRow { name: "telegram", status: status.telegram },
        PlatformRow { name: "email", status: status.email },
        PlatformRow { name: "webhook", status: status.webhook },
        PlatformRow { name: "twitch", status: status.twitch },
        PlatformRow { name: "mattermost", status: status.mattermost },
        PlatformRow { name: "signal", status: status.signal },
    ];
    assert(output::rows_of(rows@) =~= platform_table(*status));
    let names = vec!["PLATFORM", "CONFIGURED", "ENABLED"];
    assert(text::slices(names@) =~= platform_headers());
    let mut report = Report::new();
    report.table(&names, &rows);
    if status.instances.len() > 0 {
        report.out("");
        let instance_names = vec!["PLATFORM", "INSTANCE", "ADAPTER", "ENABLED", "BINDINGS"];
        assert(text::slices(instance_names@) =~= instance_headers());
        report.table(&instance_names, &status.instances);
    }
    assert(report@ =~= status_lines(*status));
    report
}

/// Prints the outcome that an action answered, with a sentence of its own
/// where the answer has none.
pub fn report_action(response: &Json, fallback: &str) -> (report: Result<Report, String>)
    ensures
        output::reported(report) == output::outcome_lines(
            response@.is_set("success"@),
            response@.text_or("message"@, fallback@),
        ),
{
    let text = response.text_or("message", fallback);
    output::print_outcome(response.is_set("success"), text.as_str())
}

// ---------------------------------------------------------------------------
// Laws
// ---------------------------------------------------------------------------

proof fn field_names_differ()
    ensures
        "platform"@.len() == 8,
        "name"@.len() == 4,
        "enabled"@.len() == 7,
        "adapter"@.len() == 7,
        "credentials"@.len() == 11,
        "enabled"@ != "adapter"@,
{
    reveal_strlit("platform");
    reveal_strlit("name");
    reveal_strlit("enabled");
    reveal_strlit("adapter");
    reveal_strlit("credentials");
    assert("enabled"@[0] != "adapter"@[0]);
}

/// An instance is made for its platform, switched off exactly where it is
/// disabled, with credentials that are an object.
pub proof fn law_credentials_are_an_object(
    platform: Seq<char>,
    name: Option<Seq<char>>,
    disabled: bool,
    credentials: Option<JsonModel>,
)
    ensures
        ({
            let made = instance_body(platform, name, disabled, credentials);
            &&& made is Err <==> credentials is Some && !(credentials->0 is Object)
            &&& made matches Ok(body) ==> {
                let sent = JsonModel::Object(body);
                &&& sent.at("platform"@).as_text() == Some(platform)
                &&& sent.at("name"@).as_text() == name
                &&& disabled ==> sent.at("enabled"@).as_flag() == Some(false)
                &&& !disabled ==> sent.at("enabled"@) is Null
                &&& credentials is Some ==> sent.at("credentials"@) == credentials->0
                &&& credentials is None ==> sent.at("credentials"@) is Null
            }
        }),
{
    broadcast use json::member_after_set;

    field_names_differ();
}

/// A platform is switched as it is told to, and disconnected by itself.
pub proof fn law_a_platform_is_switched_as_told(command: MessagingCommand, credentials: Option<Seq<char>>)
    ensures
        command matches MessagingCommand::Toggle { platform, state, adapter } ==> {
            let asked = request_of(command, credentials)->Ok_0;
            &&& request_of(command, credentials) is Ok && asked.method == Method::Post
            &&& asked.path == "messaging/toggle"@
            &&& asked.body->0.at("platform"@).as_text() == Some(platform@)
            &&& asked.body->0.at("enabled"@).as_flag() == Some(state == ToggleState::On)
            &&& asked.body->0.at("adapter"@).as_text() == text::opt_text(adapter)
        },
        command matches MessagingCommand::Disconnect { platform, adapter } ==> {
            let asked = request_of(command, credentials)->Ok_0;
            &&& request_of(command, credentials) is Ok && asked.method == Method::Post
            &&& asked.path == "messaging/disconnect"@
            &&& asked.body->0.at("platform"@).as_text() == Some(platform@)
            &&& asked.body->0.at("adapter"@).as_text() == text::opt_text(adapter)
        },
        command is Status ==> request_of(command, credentials) is Ok && request_of(command, credentials)->Ok_0.method
            == Method::Get,
        command matches MessagingCommand::Instance(InstanceCommand::Delete { platform, name }) ==> {
            let asked = request_of(command, credentials)->Ok_0;
            &&& request_of(command, credentials) is Ok && asked.method == Method::Delete
            &&& asked.path == "messaging/instances"@
            &&& asked.body->0.at("platform"@).as_text() == Some(platform@)
            &&& asked.body->0.at("name"@).as_text() == text::opt_text(name)
        },
{
    broadcast use json::member_after_set;

    field_names_differ();
}

/// Every platform has a row, and an instance is shown by its name or as the
/// default one.
pub proof fn law_every_platform_has_a_row(status: MessagingStatus, name: Seq<char>, one: PlatformStatus)
    ensures
        platform_table(status).len() == 8,
        platform_table(status)[0][0] == "discord"@ && platform_table(status)[1][0] == "slack"@,
        platform_table(status)[2][0] == "telegram"@ && platform_table(status)[3][0] == "email"@,
        platform_table(status)[0] == platform_cells("discord"@, status.discord),
        platform_table(status)[1] == platform_cells("slack"@, status.slack),
        platform_table(status)[2] == platform_cells("telegram"@, status.telegram),
        platform_table(status)[3] == platform_cells("email"@, status.email),
        platform_table(status)[4] == platform_cells("webhook"@, status.webhook),
        platform_table(status)[5] == platform_cells("twitch"@, status.twitch),
        platform_table(status)[6] == platform_cells("mattermost"@, status.mattermost),
        platform_table(status)[7] == platform_cells("signal"@, status.signal),
        platform_cells(name, one)[0] == name,
        one.configured ==> platform_cells(name, one)[1] == "yes"@,
        !one.configured ==> platform_cells(name, one)[1] == "no"@,
        one.enabled ==> platform_cells(name, one)[2] == "yes"@,
        !one.enabled ==> platform_cells(name, one)[2] == "no"@,
{
}

/// An instance is shown by its name, or as the default one.
pub proof fn law_an_unnamed_instance_is_the_default(instance: AdapterInstance)
    ensures
        instance.cells().len() == instance_headers().len(),
        instance.cells()[0] == instance.platform@,
        instance.name is Some ==> instance.cells()[1] == instance.name->0@,
        instance.name is None ==> instance.cells()[1] == "default"@,
        instance.cells()[2] == instance.runtime_key@,
        instance.cells()[4] == text::decimal(instance.binding_count as nat),
{
}

} // verus!
