//! `spacebot binding`: agent and channel bindings over the control API.
use vstd::prelude::*;
use crate::cli::output;
use crate::cli::output::{LineModel, Report, Row};
use crate::cli::request;
use crate::cli::request::{Method, Query, Request, RequestModel};
use crate::json;
use crate::json::{Body, JsonModel};
use crate::text;

verus! {

broadcast use vstd::seq::group_seq_axioms;

/// The binding commands.
#[derive(Debug)]
#[allow(inconsistent_fields)]
pub enum BindingCommand {
    /// List bindings
    List { agent: Option<String> },
    /// Create a binding between an agent and a messaging channel
    Create {
        agent_id: String,
        channel: String,
        adapter: Option<String>,
        guild_id: Option<String>,
        workspace_id: Option<String>,
        chat_id: Option<String>,
        team_id: Option<String>,
        channel_ids: Vec<String>,
        require_mention: bool,
        dm_allowed_users: Vec<String>,
        authority: Vec<String>,
    },
    /// Update a binding. The binding is matched by the original selector; the
    /// updated binding is written exactly as the new fields specify, so
    /// omitted optional fields are cleared.
    Update {
        agent_id: String,
        channel: String,
        adapter: Option<String>,
        guild_id: Option<String>,
        workspace_id: Option<String>,
        chat_id: Option<String>,
        team_id: Option<String>,
        new_agent_id: Option<String>,
        new_channel: Option<String>,
        new_adapter: Option<String>,
        new_guild_id: Option<String>,
        new_workspace_id: Option<String>,
        new_chat_id: Option<String>,
        new_team_id: Option<String>,
        channel_ids: Vec<String>,
        require_mention: bool,
        dm_allowed_users: Vec<String>,
        authority: Vec<String>,
    },
    /// Delete a binding matched by agent, channel, and selector
    Delete {
        agent_id: String,
        channel: String,
        adapter: Option<String>,
        guild_id: Option<String>,
        workspace_id: Option<String>,
        chat_id: Option<String>,
        team_id: Option<String>,
    },
}

/// An object with the fields that select a place on a platform, as far as they
/// are given.
pub open spec fn with_place(
    body: Seq<(Seq<char>, JsonModel)>,
    adapter: Option<Seq<char>>,
    guild_id: Option<Seq<char>>,
    workspace_id: Option<Seq<char>>,
    chat_id: Option<Seq<char>>,
    team_id: Option<Seq<char>>,
) -> Seq<(Seq<char>, JsonModel)> {
    let body = json::with_opt_text(body, "adapter"@, adapter);
    let body = json::with_opt_text(body, "guild_id"@, guild_id);
    let body = json::with_opt_text(body, "workspace_id"@, workspace_id);
    let body = json::with_opt_text(body, "chat_id"@, chat_id);
    json::with_opt_text(body, "team_id"@, team_id)
}

/// An object with the fields of the place that a binding was at.
pub open spec fn with_original_place(
    body: Seq<(Seq<char>, JsonModel)>,
    adapter: Option<Seq<char>>,
    guild_id: Option<Seq<char>>,
    workspace_id: Option<Seq<char>>,
    chat_id: Option<Seq<char>>,
    team_id: Option<Seq<char>>,
) -> Seq<(Seq<char>, JsonModel)> {
    let body = json::with_opt_text(body, "original_adapter"@, adapter);
    let body = json::with_opt_text(body, "original_guild_id"@, guild_id);
    let body = json::with_opt_text(body, "original_workspace_id"@, workspace_id);
    let body = json::with_opt_text(body, "original_chat_id"@, chat_id);
    json::with_opt_text(body, "original_team_id"@, team_id)
}

/// An object with an agent and a channel.
pub open spec fn with_ends(body: Seq<(Seq<char>, JsonModel)>, agent_id: Seq<char>, channel: Seq<char>) -> Seq<
    (Seq<char>, JsonModel),
> {
    json::with_text(json::with_text(body, "agent_id"@, agent_id), "channel"@, channel)
}

/// An object with what a binding lets through.
pub open spec fn with_rules(
    body: Seq<(Seq<char>, JsonModel)>,
    channel_ids: Seq<Seq<char>>,
    require_mention: bool,
    dm_allowed_users: Seq<Seq<char>>,
    authority: Seq<Seq<char>>,
) -> Seq<(Seq<char>, JsonModel)> {
    let body = json::with_member(body, "channel_ids"@, json::text_items(channel_ids));
    let body = json::with_flag(body, "require_mention"@, require_mention);
    let body = json::with_member(body, "dm_allowed_users"@, json::text_items(dm_allowed_users));
    json::with_member(body, "authority"@, json::text_items(authority))
}

/// The request that a command makes.
pub open spec fn request_of(command: BindingCommand) -> RequestModel {
    match command {
        BindingCommand::List { agent } => request::reads(
            request::with_any_query(
                "bindings"@,
                request::with_opt_text(request::no_params(), "agent_id"@, text::opt_text(agent)),
            ),
        ),
        BindingCommand::Create {
            agent_id,
            channel,
            adapter,
            guild_id,
            workspace_id,
            chat_id,
            team_id,
            channel_ids,
            require_mention,
            dm_allowed_users,
            authority,
        } => request::sends(
            Method::Post,
            "bindings"@,
            with_place(
                with_rules(
                    with_ends(json::no_members(), agent_id@, channel@),
                    text::texts(channel_ids@),
                    require_mention,
                    text::texts(dm_allowed_users@),
                    text::texts(authority@),
                ),
                text::opt_text(adapter),
                text::opt_text(guild_id),
                text::opt_text(workspace_id),
                text::opt_text(chat_id),
                text::opt_text(team_id),
            ),
        ),
        BindingCommand::Update {
            agent_id,
            channel,
            adapter,
            guild_id,
            workspace_id,
            chat_id,
            team_id,
            new_agent_id,
            new_channel,
            new_adapter,
            new_guild_id,
            new_workspace_id,
            new_chat_id,
            new_team_id,
            channel_ids,
            require_mention,
            dm_allowed_users,
            authority,
        } => {
            let body = json::with_text(json::no_members(), "original_agent_id"@, agent_id@);
            let body = json::with_text(body, "original_channel"@, channel@);
            let body = with_ends(
                body,
                text::or_text(text::opt_text(new_agent_id), agent_id@),
                text::or_text(text::opt_text(new_channel), channel@),
            );
            let body = with_rules(
                body,
                text::texts(channel_ids@),
                require_mention,
                text::texts(dm_allowed_users@),
                text::texts(authority@),
            );
            let body = with_original_place(
                body,
                text::opt_text(adapter),
                text::opt_text(guild_id),
                text::opt_text(workspace_id),
                text::opt_text(chat_id),
                text::opt_text(team_id),
            );
            let body = with_place(
                body,
                text::opt_text(new_adapter),
                text::opt_text(new_guild_id),
                text::opt_text(new_workspace_id),
                text::opt_text(new_chat_id),
                text::opt_text(new_team_id),
            );
            request::sends(Method::Put, "bindings"@, body)
        },
        BindingCommand::Delete { agent_id, channel, adapter, guild_id, workspace_id, chat_id, team_id } => {
            request::sends(
                Method::Delete,
                "bindings"@,
                with_place(
                    with_ends(json::no_members(), agent_id@, channel@),
                    text::opt_text(adapter),
                    text::opt_text(guild_id),
                    text::opt_text(workspace_id),
                    text::opt_text(chat_id),
                    text::opt_text(team_id),
                ),
            )
        },
    }
}

fn set_place(
    body: &mut Body,
    adapter: &Option<String>,
    guild_id: &Option<String>,
    workspace_id: &Option<String>,
    chat_id: &Option<String>,
    team_id: &Option<String>,
)
    ensures
        final(body)@ == with_place(
            old(body)@,
            text::opt_text(*adapter),
            text::opt_text(*guild_id),
            text::opt_text(*workspace_id),
            text::opt_text(*chat_id),
            text::opt_text(*team_id),
        ),
{
    body.opt_text("adapter", adapter);
    body.opt_text("guild_id", guild_id);
    body.opt_text("workspace_id", workspace_id);
    body.opt_text("chat_id", chat_id);
    body.opt_text("team_id", team_id);
}

fn set_rules(
    body: &mut Body,
    channel_ids: &Vec<String>,
    require_mention: bool,
    dm_allowed_users: &Vec<String>,
    authority: &Vec<String>,
)
    ensures
        final(body)@ == with_rules(
            old(body)@,
            text::texts(channel_ids@),
            require_mention,
            text::texts(dm_allowed_users@),
            text::texts(authority@),
        ),
{
    body.texts("channel_ids", channel_ids);
    body.flag("require_mention", require_mention);
    body.texts("dm_allowed_users", dm_allowed_users);
    body.texts("authority", authority);
}

/// Plans the request of a command.
pub fn plan(command: &BindingCommand) -> (request: Request)
    ensures
        request@ == request_of(*command),
{
    match command {
        BindingCommand::List { agent } => {
            let mut query = Query::new();
            query.opt_text("agent_id", agent);
            Request::get(query.after_if_any("bindings"))
        },
        BindingCommand::Create {
            agent_id,
            channel,
            adapter,
            guild_id,
            workspace_id,
            chat_id,
            team_id,
            channel_ids,
            require_mention,
            dm_allowed_users,
            authority,
        } => {
            let mut body = Body::new();
            body.text("agent_id", agent_id.as_str());
            body.text("channel", channel.as_str());
            set_rules(&mut body, channel_ids, *require_mention, dm_allowed_users, authority);
            set_place(&mut body, adapter, guild_id, workspace_id, chat_id, team_id);
            Request::with(Method::Post, "bindings".to_owned(), body)
        },
        BindingCommand::Update {
            agent_id,
            channel,
            adapter,
            guild_id,
            workspace_id,
            chat_id,
            team_id,
            new_agent_id,
            new_channel,
            new_adapter,
            new_guild_id,
            new_workspace_id,
            new_chat_id,
            new_team_id,
            channel_ids,
            require_mention,
            dm_allowed_users,
            authority,
        } => {
            let mut body = Body::new();
            body.text("original_agent_id", agent_id.as_str());
            body.text("original_channel", channel.as_str());
            body.text("agent_id", text::or_default(new_agent_id, agent_id.as_str()).as_str());
            body.text("channel", text::or_default(new_channel, channel.as_str()).as_str());
            set_rules(&mut body, channel_ids, *require_mention, dm_allowed_users, authority);
            body.opt_text("original_adapter", adapter);
            body.opt_text("original_guild_id", guild_id);
            body.opt_text("original_workspace_id", workspace_id);
            body.opt_text("original_chat_id", chat_id);
            body.opt_text("original_team_id", team_id);
            set_place(&mut body, new_adapter, new_guild_id, new_workspace_id, new_chat_id, new_team_id);
            Request::with(Method::Put, "bindings".to_owned(), body)
        },
        BindingCommand::Delete { agent_id, channel, adapter, guild_id, workspace_id, chat_id, team_id } => {
            let mut body = Body::new();
            body.text("agent_id", agent_id.as_str());
            body.text("channel", channel.as_str());
            set_place(&mut body, adapter, guild_id, workspace_id, chat_id, team_id);
            Request::with(Method::Delete, "bindings".to_owned(), body)
        },
    }
}

/// A binding as the control API lists it.
#[derive(Debug)]
pub struct BindingEntry {
    pub agent_id: String,
    pub channel: String,
    pub adapter: Option<String>,
    pub guild_id: Option<String>,
    pub workspace_id: Option<String>,
    pub chat_id: Option<String>,
    pub team_id: Option<String>,
    pub channel_ids: Vec<String>,
    pub require_mention: bool,
}

impl Row for BindingEntry {
    open spec fn cells(&self) -> Seq<Seq<char>> {
        seq![
            self.agent_id@,
            self.channel@,
            text::or_text(text::opt_text(self.adapter), ""@),
            text::or_text(text::opt_text(self.guild_id), ""@),
            text::or_text(text::opt_text(self.workspace_id), ""@),
            text::or_text(text::opt_text(self.chat_id), ""@),
            text::or_text(text::opt_text(self.team_id), ""@),
            text::joined(text::texts(self.channel_ids@), ","@),
            if self.require_mention {
                "yes"@
            } else {
                ""@
            },
        ]
    }

    fn row(&self) -> (row: Vec<String>) {
        let mention = if self.require_mention {
            "yes".to_owned()
        } else {
            "".to_owned()
        };
        let row = vec![
            self.agent_id.clone(),
            self.channel.clone(),
            text::or_default(&self.adapter, ""),
            text::or_default(&self.guild_id, ""),
            text::or_default(&self.workspace_id, ""),
            text::or_default(&self.chat_id, ""),
            text::or_default(&self.team_id, ""),
            text::join(&self.channel_ids, ","),
            mention,
        ];
        assert(text::texts(row@) =~= self.cells());
        row
    }
}

/// The headings of a listing.
pub open spec fn list_headers() -> Seq<Seq<char>> {
    seq![
        "AGENT"@,
        "CHANNEL"@,
        "ADAPTER"@,
        "GUILD"@,
        "WORKSPACE"@,
        "CHAT"@,
        "TEAM"@,
        "CHANNELS"@,
        "MENTION"@,
    ]
}

/// Prints a listing.
pub fn print_list(bindings: &Vec<BindingEntry>) -> (report: Report)
    ensures
        report@ == output::listing("No bindings configured."@, list_headers(), bindings@),
{
    let names = vec![
        "AGENT",
        "CHANNEL",
        "ADAPTER",
        "GUILD",
        "WORKSPACE",
        "CHAT",
        "TEAM",
        "CHANNELS",
        "MENTION",
    ];
    assert(text::slices(names@) =~= list_headers());
    output::print_listing("No bindings configured.", &names, bindings)
}

/// What is printed of a new binding.
pub open spec fn created_lines(success: bool, message: Seq<char>, restart_required: bool) -> Result<
    Seq<LineModel>,
    Seq<char>,
> {
    if !success {
        Err(message)
    } else if restart_required {
        Ok(
            seq![
                LineModel::Note(message),
                LineModel::Note("Note: Restart for the new credentials to take effect."@),
            ],
        )
    } else {
        Ok(seq![LineModel::Note(message)])
    }
}

/// Prints the outcome of a creation.
pub fn print_created(success: bool, message: &str, restart_required: bool) -> (report: Result<Report, String>)
    ensures
        output::reported(report) == created_lines(success, message@, restart_required),
{
    if !success {
        return Err(message.to_owned());
    }
    let mut report = output::message(message);
    if restart_required {
        report.err("Note: Restart for the new credentials to take effect.");
        assert(report@ =~= created_lines(success, message@, restart_required)->Ok_0);
    }
    Ok(report)
}

// ---------------------------------------------------------------------------
// Laws
// ---------------------------------------------------------------------------

/// The names of fields differ in their length or in a letter.
proof fn field_names_differ()
    ensures
        "adapter"@.len() == 7,
        "channel"@.len() == 7,
        "chat_id"@.len() == 7,
        "team_id"@.len() == 7,
        "agent_id"@.len() == 8,
        "guild_id"@.len() == 8,
        "authority"@.len() == 9,
        "channel_ids"@.len() == 11,
        "workspace_id"@.len() == 12,
        "require_mention"@.len() == 15,
        "dm_allowed_users"@.len() == 16,
        "original_adapter"@.len() == 16,
        "original_channel"@.len() == 16,
        "original_chat_id"@.len() == 16,
        "original_team_id"@.len() == 16,
        "original_agent_id"@.len() == 17,
        "original_guild_id"@.len() == 17,
        "original_workspace_id"@.len() == 21,
        "adapter"@ != "channel"@ && "adapter"@ != "chat_id"@ && "adapter"@ != "team_id"@,
        "channel"@ != "chat_id"@ && "channel"@ != "team_id"@ && "chat_id"@ != "team_id"@,
        "agent_id"@ != "guild_id"@ && "original_agent_id"@ != "original_guild_id"@,
        "original_adapter"@ != "original_channel"@ && "original_adapter"@ != "original_chat_id"@,
        "original_adapter"@ != "original_team_id"@ && "original_channel"@ != "original_chat_id"@,
        "original_channel"@ != "original_team_id"@ && "original_chat_id"@ != "original_team_id"@,
        "dm_allowed_users"@ != "original_adapter"@ && "dm_allowed_users"@ != "original_channel"@,
        "dm_allowed_users"@ != "original_chat_id"@ && "dm_allowed_users"@ != "original_team_id"@,
{
    reveal_strlit("adapter");
    reveal_strlit("channel");
    reveal_strlit("chat_id");
    reveal_strlit("team_id");
    reveal_strlit("agent_id");
    reveal_strlit("guild_id");
    reveal_strlit("authority");
    reveal_strlit("channel_ids");
    reveal_strlit("workspace_id");
    reveal_strlit("require_mention");
    reveal_strlit("dm_allowed_users");
    reveal_strlit("original_adapter");
    reveal_strlit("original_channel");
    reveal_strlit("original_chat_id");
    reveal_strlit("original_team_id");
    reveal_strlit("original_agent_id");
    reveal_strlit("original_guild_id");
    reveal_strlit("original_workspace_id");
    assert("adapter"@[0] != "channel"@[0] && "adapter"@[0] != "chat_id"@[0] && "adapter"@[0] != "team_id"@[0]);
    assert("channel"@[3] != "chat_id"@[3] && "channel"@[0] != "team_id"@[0] && "chat_id"@[0] != "team_id"@[0]);
    assert("agent_id"@[0] != "guild_id"@[0] && "original_agent_id"@[9] != "original_guild_id"@[9]);
    assert("original_adapter"@[9] != "original_channel"@[9] && "original_adapter"@[9] != "original_chat_id"@[9]);
    assert("original_adapter"@[9] != "original_team_id"@[9] && "original_channel"@[12] != "original_chat_id"@[12]);
    assert("original_channel"@[9] != "original_team_id"@[9] && "original_chat_id"@[9] != "original_team_id"@[9]);
    assert("dm_allowed_users"@[0] != "original_adapter"@[0] && "dm_allowed_users"@[0] != "original_channel"@[0]);
    assert("dm_allowed_users"@[0] != "original_chat_id"@[0] && "dm_allowed_users"@[0] != "original_team_id"@[0]);
}

/// A binding is made with all that was said of it, each under its own name.
#[verifier::rlimit(60)]
pub proof fn law_a_new_binding_says_everything(command: BindingCommand)
    ensures
        command matches BindingCommand::Create {
            agent_id,
            channel,
            adapter,
            guild_id,
            workspace_id,
            chat_id,
            team_id,
            channel_ids,
            require_mention,
            dm_allowed_users,
            authority,
        } ==> {
            let asked = request_of(command);
            let sent = asked.body->0;
            &&& asked.method == Method::Post && asked.path == "bindings"@
            &&& sent.at("agent_id"@).as_text() == Some(agent_id@)
            &&& sent.at("channel"@).as_text() == Some(channel@)
            &&& sent.at("adapter"@).as_text() == text::opt_text(adapter)
            &&& sent.at("guild_id"@).as_text() == text::opt_text(guild_id)
            &&& sent.at("workspace_id"@).as_text() == text::opt_text(workspace_id)
            &&& sent.at("chat_id"@).as_text() == text::opt_text(chat_id)
            &&& sent.at("team_id"@).as_text() == text::opt_text(team_id)
            &&& sent.is_set("require_mention"@) == require_mention
            &&& sent.at("channel_ids"@) == json::text_items(text::texts(channel_ids@))
            &&& sent.at("dm_allowed_users"@) == json::text_items(text::texts(dm_allowed_users@))
            &&& sent.at("authority"@) == json::text_items(text::texts(authority@))
        },
{
    broadcast use json::member_after_set;

    field_names_differ();
}

/// A binding is removed by where it stands, and listed by its agent.
pub proof fn law_a_binding_is_removed_by_its_place(command: BindingCommand)
    ensures
        command matches BindingCommand::Delete { agent_id, channel, adapter, guild_id, workspace_id, chat_id, team_id } ==> {
            let asked = request_of(command);
            let sent = asked.body->0;
            &&& asked.method == Method::Delete && asked.path == "bindings"@
            &&& sent.at("agent_id"@).as_text() == Some(agent_id@)
            &&& sent.at("channel"@).as_text() == Some(channel@)
            &&& sent.at("adapter"@).as_text() == text::opt_text(adapter)
            &&& sent.at("guild_id"@).as_text() == text::opt_text(guild_id)
            &&& sent.at("workspace_id"@).as_text() == text::opt_text(workspace_id)
            &&& sent.at("chat_id"@).as_text() == text::opt_text(chat_id)
            &&& sent.at("team_id"@).as_text() == text::opt_text(team_id)
        },
        command matches BindingCommand::List { agent } ==> {
            &&& request_of(command).method == Method::Get && request_of(command).body is None
            &&& agent is None ==> request_of(command).path == "bindings"@
            &&& agent is Some ==> text::ends(
                request_of(command).path,
                "agent_id"@ + "="@ + request::in_query(agent->0@),
            )
        },
{
    broadcast use json::member_after_set;

    field_names_differ();
    if let BindingCommand::List { agent } = command {
        if let Some(agent) = agent {
            let part = "agent_id"@ + "="@ + request::in_query(agent@);
            let parts = request::with_text(request::no_params(), "agent_id"@, agent@);
            assert(parts =~= seq![part]);
            assert(text::joined(parts, "&"@) =~= part);
            text::law_parts_occur("bindings"@ + "?"@, part, Seq::empty());
        }
    }
}

/// The place of a binding changes its own five members and no other.
pub proof fn law_a_place_is_five_members(
    body: Seq<(Seq<char>, JsonModel)>,
    adapter: Option<Seq<char>>,
    guild_id: Option<Seq<char>>,
    workspace_id: Option<Seq<char>>,
    chat_id: Option<Seq<char>>,
    team_id: Option<Seq<char>>,
    name: Seq<char>,
)
    ensures
        ({
            let with = with_place(body, adapter, guild_id, workspace_id, chat_id, team_id);
            &&& adapter is Some ==> json::member_of(with, "adapter"@) == Some(JsonModel::Text(adapter->0))
            &&& adapter is None ==> json::member_of(with, "adapter"@) == json::member_of(body, "adapter"@)
            &&& team_id is Some ==> json::member_of(with, "team_id"@) == Some(JsonModel::Text(team_id->0))
            &&& team_id is None ==> json::member_of(with, "team_id"@) == json::member_of(body, "team_id"@)
            &&& name != "adapter"@ && name != "guild_id"@ && name != "workspace_id"@ && name != "chat_id"@ && name
                != "team_id"@ ==> json::member_of(with, name) == json::member_of(body, name)
        }),
{
    broadcast use json::member_after_set;

    field_names_differ();
}

/// Where a binding stood changes its own five members and no other.
pub proof fn law_an_original_place_is_five_members(
    body: Seq<(Seq<char>, JsonModel)>,
    adapter: Option<Seq<char>>,
    guild_id: Option<Seq<char>>,
    workspace_id: Option<Seq<char>>,
    chat_id: Option<Seq<char>>,
    team_id: Option<Seq<char>>,
    name: Seq<char>,
)
    ensures
        ({
            let with = with_original_place(body, adapter, guild_id, workspace_id, chat_id, team_id);
            &&& adapter is Some ==> json::member_of(with, "original_adapter"@) == Some(JsonModel::Text(adapter->0))
            &&& adapter is None ==> json::member_of(with, "original_adapter"@) == json::member_of(
                body,
                "original_adapter"@,
            )
            &&& guild_id is Some ==> json::member_of(with, "original_guild_id"@) == Some(JsonModel::Text(guild_id->0))
            &&& team_id is Some ==> json::member_of(with, "original_team_id"@) == Some(JsonModel::Text(team_id->0))
            &&& name != "original_adapter"@ && name != "original_guild_id"@ && name != "original_workspace_id"@ && name
                != "original_chat_id"@ && name != "original_team_id"@ ==> json::member_of(with, name)
                == json::member_of(body, name)
        }),
{
    broadcast use json::member_after_set;

    field_names_differ();
}

/// The rules of a binding change their own four members and no other.
pub proof fn law_rules_are_four_members(
    body: Seq<(Seq<char>, JsonModel)>,
    channel_ids: Seq<Seq<char>>,
    require_mention: bool,
    dm_allowed_users: Seq<Seq<char>>,
    authority: Seq<Seq<char>>,
    name: Seq<char>,
)
    ensures
        ({
            let with = with_rules(body, channel_ids, require_mention, dm_allowed_users, authority);
            &&& json::member_of(with, "channel_ids"@) == Some(json::text_items(channel_ids))
            &&& json::member_of(with, "require_mention"@) == Some(JsonModel::Bool(require_mention))
            &&& json::member_of(with, "dm_allowed_users"@) == Some(json::text_items(dm_allowed_users))
            &&& json::member_of(with, "authority"@) == Some(json::text_items(authority))
            &&& name != "channel_ids"@ && name != "require_mention"@ && name != "dm_allowed_users"@ && name
                != "authority"@ ==> json::member_of(with, name) == json::member_of(body, name)
        }),
{
    broadcast use json::member_after_set;

    field_names_differ();
}

/// A moved binding is found by where it stood and goes where it is told to, and
/// stays with its agent and channel where it is not.
pub proof fn law_a_moved_binding_is_found_where_it_stood(command: BindingCommand)
    requires
        command is Update,
    ensures
        command matches BindingCommand::Update { agent_id, channel, adapter, new_agent_id, new_channel, new_adapter, .. }
            ==> {
            let asked = request_of(command);
            let sent = asked.body->0;
            &&& asked.method == Method::Put && asked.path == "bindings"@
            &&& sent.at("original_agent_id"@).as_text() == Some(agent_id@)
            &&& sent.at("original_channel"@).as_text() == Some(channel@)
            &&& adapter is Some ==> sent.at("original_adapter"@).as_text() == Some(adapter->0@)
            &&& new_agent_id is None ==> sent.at("agent_id"@).as_text() == Some(agent_id@)
            &&& new_agent_id is Some ==> sent.at("agent_id"@).as_text() == Some(new_agent_id->0@)
            &&& new_channel is None ==> sent.at("channel"@).as_text() == Some(channel@)
            &&& new_channel is Some ==> sent.at("channel"@).as_text() == Some(new_channel->0@)
            &&& new_adapter is Some ==> sent.at("adapter"@).as_text() == Some(new_adapter->0@)
        },
{
    if let BindingCommand::Update {
        agent_id,
        channel,
        adapter,
        guild_id,
        workspace_id,
        chat_id,
        team_id,
        new_agent_id,
        new_channel,
        new_adapter,
        new_guild_id,
        new_workspace_id,
        new_chat_id,
        new_team_id,
        channel_ids,
        require_mention,
        dm_allowed_users,
        authority,
    } = command {
        let one = json::with_text(json::no_members(), "original_agent_id"@, agent_id@);
        let two = json::with_text(one, "original_channel"@, channel@);
        let three = with_ends(
            two,
            text::or_text(text::opt_text(new_agent_id), agent_id@),
            text::or_text(text::opt_text(new_channel), channel@),
        );
        let four = with_rules(
            three,
            text::texts(channel_ids@),
            require_mention,
            text::texts(dm_allowed_users@),
            text::texts(authority@),
        );
        let five = with_original_place(
            four,
            text::opt_text(adapter),
            text::opt_text(guild_id),
            text::opt_text(workspace_id),
            text::opt_text(chat_id),
            text::opt_text(team_id),
        );
        moved_members(two, three, agent_id@, channel@, new_agent_id, new_channel);
        field_names_differ();
        let names = seq!["original_agent_id"@, "original_channel"@, "agent_id"@, "channel"@, "original_adapter"@];
        assert forall|k: int| 0 <= k < names.len() implies {
            let name = #[trigger] names[k];
            let sent = request_of(command).body->0;
            let before = if name == "original_adapter"@ {
                five
            } else {
                three
            };
            sent is Object && json::member_of(sent->Object_0, name) == json::member_of(before, name)
        } by {
            let name = names[k];
            law_rules_are_four_members(
                three,
                text::texts(channel_ids@),
                require_mention,
                text::texts(dm_allowed_users@),
                text::texts(authority@),
                name,
            );
            law_an_original_place_is_five_members(
                four,
                text::opt_text(adapter),
                text::opt_text(guild_id),
                text::opt_text(workspace_id),
                text::opt_text(chat_id),
                text::opt_text(team_id),
                name,
            );
            law_a_place_is_five_members(
                five,
                text::opt_text(new_adapter),
                text::opt_text(new_guild_id),
                text::opt_text(new_workspace_id),
                text::opt_text(new_chat_id),
                text::opt_text(new_team_id),
                name,
            );
        }
        assert(names[0] == "original_agent_id"@ && names[1] == "original_channel"@ && names[2] == "agent_id"@);
        assert(names[3] == "channel"@ && names[4] == "original_adapter"@);
        law_an_original_place_is_five_members(
            four,
            text::opt_text(adapter),
            text::opt_text(guild_id),
            text::opt_text(workspace_id),
            text::opt_text(chat_id),
            text::opt_text(team_id),
            "original_adapter"@,
        );
        law_a_place_is_five_members(
            five,
            text::opt_text(new_adapter),
            text::opt_text(new_guild_id),
            text::opt_text(new_workspace_id),
            text::opt_text(new_chat_id),
            text::opt_text(new_team_id),
            "original_adapter"@,
        );
    }
}

proof fn moved_members(
    two: Seq<(Seq<char>, JsonModel)>,
    three: Seq<(Seq<char>, JsonModel)>,
    agent_id: Seq<char>,
    channel: Seq<char>,
    new_agent_id: Option<String>,
    new_channel: Option<String>,
)
    requires
        two == json::with_text(
            json::with_text(json::no_members(), "original_agent_id"@, agent_id),
            "original_channel"@,
            channel,
        ),
        three == with_ends(
            two,
            text::or_text(text::opt_text(new_agent_id), agent_id),
            text::or_text(text::opt_text(new_channel), channel),
        ),
    ensures
        json::member_of(three, "original_agent_id"@) == Some(JsonModel::Text(agent_id)),
        json::member_of(three, "original_channel"@) == Some(JsonModel::Text(channel)),
        json::member_of(three, "agent_id"@) == Some(
            JsonModel::Text(text::or_text(text::opt_text(new_agent_id), agent_id)),
        ),
        json::member_of(three, "channel"@) == Some(
            JsonModel::Text(text::or_text(text::opt_text(new_channel), channel)),
        ),
{
    broadcast use json::member_after_set;

    field_names_differ();
}

/// A row shows its binding, and a restart is asked for exactly where it is
/// needed.
pub proof fn law_a_listed_binding_shows_its_place(entry: BindingEntry, success: bool, message: Seq<char>, restart: bool)
    ensures
        entry.cells().len() == list_headers().len(),
        entry.cells()[0] == entry.agent_id@ && entry.cells()[1] == entry.channel@,
        entry.require_mention ==> entry.cells()[8] == "yes"@,
        !entry.require_mention ==> entry.cells()[8] == ""@,
        !success ==> created_lines(success, message, restart) == Err::<Seq<LineModel>, Seq<char>>(message),
        success ==> created_lines(success, message, restart) is Ok && created_lines(success, message, restart)->Ok_0[0]
            == LineModel::Note(message) && created_lines(success, message, restart)->Ok_0.len() == (if restart {
            2int
        } else {
            1
        }),
{
}

} // verus!
