//! Control plane for slash commands.
//!
//! Control commands execute deterministically against channel state (the
//! settings stores, process control, and runtime config) without creating an
//! inbound message or consuming an agent turn. The reply texts are shared by
//! every surface a command can arrive on, so all of them answer alike.
use vstd::prelude::*;
use crate::commands::registry::ControlAction;
use crate::conversation::settings::ResponseMode;
use crate::text;

verus! {

/// The reply that confirms a response mode.
pub open spec fn confirmation_text(mode: ResponseMode) -> Seq<char> {
    match mode {
        ResponseMode::Active => "active mode enabled. i'll respond normally in this chat."@,
        ResponseMode::Observe => "observe mode enabled. i'll learn from this conversation but won't respond."@,
        ResponseMode::MentionOnly => "mention-only mode enabled. i'll only respond when @mentioned or replied to."@,
    }
}

/// Confirmation reply for a response-mode change.
pub fn mode_confirmation(mode: ResponseMode) -> (reply: &'static str)
    ensures
        reply@ == confirmation_text(mode),
{
    match mode {
        ResponseMode::Active => "active mode enabled. i'll respond normally in this chat.",
        ResponseMode::Observe => "observe mode enabled. i'll learn from this conversation but won't respond.",
        ResponseMode::MentionOnly => "mention-only mode enabled. i'll only respond when @mentioned or replied to.",
    }
}

/// The short name of a response mode.
pub open spec fn short_name(mode: ResponseMode) -> Seq<char> {
    match mode {
        ResponseMode::Active => "active"@,
        ResponseMode::Observe => "observe"@,
        ResponseMode::MentionOnly => "mention-only"@,
    }
}

/// Short mode name for failure replies.
pub fn mode_name(mode: ResponseMode) -> (name: &'static str)
    ensures
        name@ == short_name(mode),
{
    match mode {
        ResponseMode::Active => "active",
        ResponseMode::Observe => "observe",
        ResponseMode::MentionOnly => "mention-only",
    }
}

/// What `/status` says of a response mode.
pub open spec fn long_label(mode: ResponseMode) -> Seq<char> {
    match mode {
        ResponseMode::Active => "active"@,
        ResponseMode::Observe => "observe (learning, never responds)"@,
        ResponseMode::MentionOnly => "mention-only (@mention/reply only)"@,
    }
}

/// Human-readable label for a response mode in `/status` output.
pub fn mode_label(mode: ResponseMode) -> (label: &'static str)
    ensures
        label@ == long_label(mode),
{
    match mode {
        ResponseMode::Active => "active",
        ResponseMode::Observe => "observe (learning, never responds)",
        ResponseMode::MentionOnly => "mention-only (@mention/reply only)",
    }
}

/// What `/status` replies.
pub open spec fn status_body(
    agent_id: Seq<char>,
    channel_id: Seq<char>,
    adapter: Seq<char>,
    mode: ResponseMode,
    channel_model: Seq<char>,
    branch_model: Seq<char>,
    now_line: Seq<char>,
) -> Seq<char> {
    "status\n- agent: "@ + agent_id + "\n- channel: "@ + channel_id + "\n- adapter: "@ + adapter + "\n- mode: "@
        + long_label(mode) + "\n- channel model: "@ + channel_model + "\n- branch model: "@ + branch_model
        + "\n- time: "@ + now_line
}

/// `/status` reply body.
pub fn status_text(
    agent_id: &str,
    channel_id: &str,
    adapter: &str,
    mode: ResponseMode,
    channel_model: &str,
    branch_model: &str,
    now_line: &str,
) -> (body: String)
    ensures
        body@ == status_body(agent_id@, channel_id@, adapter@, mode, channel_model@, branch_model@, now_line@),
{
    let mut body = "status\n- agent: ".to_owned();
    body.push_str(agent_id);
    body.push_str("\n- channel: ");
    body.push_str(channel_id);
    body.push_str("\n- adapter: ");
    body.push_str(adapter);
    body.push_str("\n- mode: ");
    body.push_str(mode_label(mode));
    body.push_str("\n- channel model: ");
    body.push_str(channel_model);
    body.push_str("\n- branch model: ");
    body.push_str(branch_model);
    body.push_str("\n- time: ");
    body.push_str(now_line);
    body
}

/// The mode a conversation is in. A live channel's own mode wins, because mode
/// changes persist asynchronously; behind it the conversation's stored
/// settings, the defaults of the binding, and the mode of an agent at rest.
pub open spec fn mode_of(
    live: Option<ResponseMode>,
    stored: Option<ResponseMode>,
    binding: Option<ResponseMode>,
) -> ResponseMode {
    match (live, stored, binding) {
        (Some(mode), _, _) => mode,
        (None, Some(mode), _) => mode,
        (None, None, Some(mode)) => mode,
        (None, None, None) => ResponseMode::Active,
    }
}

/// The mode a conversation is in.
pub fn effective_mode(
    live: Option<ResponseMode>,
    stored: Option<ResponseMode>,
    binding: Option<ResponseMode>,
) -> (mode: ResponseMode)
    ensures
        mode == mode_of(live, stored, binding),
{
    match (live, stored, binding) {
        (Some(mode), _, _) => mode,
        (None, Some(mode), _) => mode,
        (None, None, Some(mode)) => mode,
        (None, None, None) => ResponseMode::default(),
    }
}

/// What a control command asks for before it can reply.
pub enum ControlStep {
    /// Read the mode, the models and the time, and reply with `status_text`.
    ReportStatus,
    /// Persist a response mode and reply with `mode_change`.
    PersistMode(ResponseMode),
    /// Reply with a text.
    Reply(String),
}

/// Everything a control command needs to know of where it arrived.
#[derive(Debug)]
pub struct ControlPlane {
    pub agent_id: String,
    pub conversation_id: String,
    /// Runtime adapter key of the surface the command arrived on.
    pub adapter: String,
    /// The mode that the matched binding sets, if any.
    pub binding_mode: Option<ResponseMode>,
    pub is_authority: bool,
    pub is_portal: bool,
}

/// What a status report is made of besides the control plane.
#[derive(Debug)]
pub struct StatusFacts {
    /// The mode of the live channel, when one is running.
    pub live_mode: Option<ResponseMode>,
    /// The mode that the conversation's own settings store.
    pub stored_mode: Option<ResponseMode>,
    /// The models that the conversation's own settings choose.
    pub channel_choice: Option<String>,
    pub branch_choice: Option<String>,
    /// The models that the routing gives.
    pub channel_routed: String,
    pub branch_routed: String,
    pub now_line: String,
}

impl ControlPlane {
    /// What executing a control action takes. `help` is the help text of the
    /// surface.
    pub fn execute(&self, action: ControlAction, help: &str) -> (step: ControlStep)
        ensures
            match action {
                ControlAction::Status => step is ReportStatus,
                ControlAction::SetResponseMode(mode) => step == ControlStep::PersistMode(mode),
                ControlAction::Help => step matches ControlStep::Reply(reply) && reply@ == help@,
                ControlAction::AgentId => step matches ControlStep::Reply(reply) && reply@ == self.agent_id@,
            },
    {
        match action {
            ControlAction::Status => ControlStep::ReportStatus,
            ControlAction::SetResponseMode(mode) => ControlStep::PersistMode(mode),
            ControlAction::Help => ControlStep::Reply(help.to_owned()),
            ControlAction::AgentId => ControlStep::Reply(self.agent_id.clone()),
        }
    }

    /// The reply to `/status`. A process runs on the conversation's own choice
    /// of model, else on what the routing gives.
    pub fn status(&self, facts: &StatusFacts) -> (reply: String)
        ensures
            reply@ == status_body(
                self.agent_id@,
                self.conversation_id@,
                self.adapter@,
                mode_of(facts.live_mode, facts.stored_mode, self.binding_mode),
                text::or_text(text::opt_text(facts.channel_choice), facts.channel_routed@),
                text::or_text(text::opt_text(facts.branch_choice), facts.branch_routed@),
                facts.now_line@,
            ),
    {
        let mode = effective_mode(facts.live_mode, facts.stored_mode, self.binding_mode);
        let channel_model = text::or_default(&facts.channel_choice, facts.channel_routed.as_str());
        let branch_model = text::or_default(&facts.branch_choice, facts.branch_routed.as_str());
        status_text(
            self.agent_id.as_str(),
            self.conversation_id.as_str(),
            self.adapter.as_str(),
            mode,
            channel_model.as_str(),
            branch_model.as_str(),
            facts.now_line.as_str(),
        )
    }

    /// What follows the attempt to persist a response mode, from whether the
    /// store was reached and whether it held a record to update.
    pub fn set_response_mode(&self, mode: ResponseMode, reached: bool, updated: bool) -> (change: ModeChange)
        ensures
            change@ == changed(mode, reached && (!self.is_portal || updated)),
    {
        let stored = reached && persisted(self.is_portal, updated, self.conversation_id.as_str()).is_ok();
        mode_change(mode, stored)
    }
}

/// What follows the attempt to persist a response mode.
pub struct ModeChange {
    pub reply: String,
    /// The mode a live channel is to take on at once, so that the change
    /// applies mid-turn and not on the next channel restart.
    pub live_mode: Option<ResponseMode>,
}

impl View for ModeChange {
    type V = (Seq<char>, Option<ResponseMode>);

    open spec fn view(&self) -> (Seq<char>, Option<ResponseMode>) {
        (self.reply@, self.live_mode)
    }
}

/// The reply to a change of mode, and the mode that a live channel takes on.
pub open spec fn changed(mode: ResponseMode, persisted: bool) -> (Seq<char>, Option<ResponseMode>) {
    if persisted {
        (confirmation_text(mode), Some(mode))
    } else {
        (
            "couldn't switch to "@ + short_name(mode) + " mode — settings persistence failed, mode is unchanged"@,
            None,
        )
    }
}

/// Decides what follows the attempt to persist a response mode. Where that
/// failed the change is abandoned: no live update, and the reply reports the
/// failure instead of confirming a mode that never persisted.
pub fn mode_change(mode: ResponseMode, persisted: bool) -> (change: ModeChange)
    ensures
        change@ == changed(mode, persisted),
{
    if persisted {
        ModeChange { reply: mode_confirmation(mode).to_owned(), live_mode: Some(mode) }
    } else {
        let mut reply = "couldn't switch to ".to_owned();
        reply.push_str(mode_name(mode));
        reply.push_str(" mode — settings persistence failed, mode is unchanged");
        ModeChange { reply, live_mode: None }
    }
}

/// Whether the store's field update persisted a mode. A portal conversation
/// has to exist; a channel's record is made where there is none.
pub fn persisted(is_portal: bool, updated: bool, conversation_id: &str) -> (result: Result<(), String>)
    ensures
        result is Err <==> is_portal && !updated,
        result matches Err(error) ==> error@ == "portal conversation "@ + conversation_id@ + " not found"@,
{
    if is_portal && !updated {
        let mut error = "portal conversation ".to_owned();
        error.push_str(conversation_id);
        error.push_str(" not found");
        Err(error)
    } else {
        Ok(())
    }
}

// ---------------------------------------------------------------------------
// Laws
// ---------------------------------------------------------------------------

proof fn literals_differ()
    ensures
        "active"@ != "observe"@,
        "active"@ != "mention-only"@,
        "observe"@ != "mention-only"@,
{
    reveal_strlit("active");
    reveal_strlit("observe");
    reveal_strlit("mention-only");
    assert("active"@.len() == 6 && "observe"@.len() == 7 && "mention-only"@.len() == 12);
}

/// No two modes go by one name, and everything that is said of a mode begins
/// with its name.
pub proof fn law_modes_are_called_by_their_names(mode: ResponseMode, other: ResponseMode)
    ensures
        short_name(mode) == short_name(other) <==> mode == other,
        text::begins(confirmation_text(mode), short_name(mode) + " mode enabled"@),
        text::begins(long_label(mode), short_name(mode)),
        mode.setting() == other.setting() <==> mode == other,
{
    literals_differ();
    reveal_strlit("active");
    reveal_strlit("observe");
    reveal_strlit("mention-only");
    reveal_strlit("mention_only");
    reveal_strlit(" mode enabled");
    reveal_strlit("active mode enabled. i'll respond normally in this chat.");
    reveal_strlit("observe mode enabled. i'll learn from this conversation but won't respond.");
    reveal_strlit("mention-only mode enabled. i'll only respond when @mentioned or replied to.");
    reveal_strlit("observe (learning, never responds)");
    reveal_strlit("mention-only (@mention/reply only)");
    assert("mention_only"@.len() == 12);
    let lead = short_name(mode) + " mode enabled"@;
    assert(confirmation_text(mode).subrange(0, lead.len() as int) =~= lead);
    assert(long_label(mode).subrange(0, short_name(mode).len() as int) =~= short_name(mode));
}

/// A live channel's own mode wins over what is stored, that over what the
/// binding says, and that over the mode of an agent at rest, which answers.
pub proof fn law_the_nearest_mode_wins(
    live: Option<ResponseMode>,
    stored: Option<ResponseMode>,
    binding: Option<ResponseMode>,
)
    ensures
        live is Some ==> Some(mode_of(live, stored, binding)) == live,
        live is None && stored is Some ==> Some(mode_of(live, stored, binding)) == stored,
        live is None && stored is None && binding is Some ==> Some(mode_of(live, stored, binding)) == binding,
        live is None && stored is None && binding is None ==> mode_of(live, stored, binding) == ResponseMode::Active,
{
}

/// A mode that was stored is confirmed and taken on; one that was not is
/// neither, and the reply says that it failed.
pub proof fn law_only_a_stored_mode_is_confirmed(mode: ResponseMode)
    ensures
        changed(mode, true).1 == Some(mode),
        changed(mode, true).0 == confirmation_text(mode),
        changed(mode, false).1 is None,
        text::begins(changed(mode, false).0, "couldn't switch to "@ + short_name(mode)),
        text::ends(changed(mode, false).0, "mode is unchanged"@),
{
    reveal_strlit(" mode — settings persistence failed, mode is unchanged");
    reveal_strlit("mode is unchanged");
    let reply = changed(mode, false).0;
    let head = "couldn't switch to "@ + short_name(mode);
    let tail = "mode is unchanged"@;
    assert(reply.subrange(0, head.len() as int) =~= head);
    assert(reply.subrange(reply.len() - tail.len(), reply.len() as int) =~= tail);
}

/// `/status` reports every fact on a line of its own, and the mode by its
/// name.
pub proof fn law_status_reports_every_fact(
    agent_id: Seq<char>,
    channel_id: Seq<char>,
    adapter: Seq<char>,
    mode: ResponseMode,
    channel_model: Seq<char>,
    branch_model: Seq<char>,
    now_line: Seq<char>,
)
    ensures
        ({
            let body = status_body(agent_id, channel_id, adapter, mode, channel_model, branch_model, now_line);
            &&& text::occurs_in(body, "\n- agent: "@ + agent_id + "\n"@)
            &&& text::occurs_in(body, "\n- channel: "@ + channel_id + "\n"@)
            &&& text::occurs_in(body, "\n- adapter: "@ + adapter + "\n"@)
            &&& text::occurs_in(body, "\n- mode: "@ + long_label(mode) + "\n"@)
            &&& text::occurs_in(body, "\n- channel model: "@ + channel_model + "\n"@)
            &&& text::occurs_in(body, "\n- branch model: "@ + branch_model + "\n"@)
            &&& text::ends(body, "\n- time: "@ + now_line)
        }),
{
    reveal_strlit("\n");
    reveal_strlit("status\n- agent: ");
    reveal_strlit("\n- agent: ");
    reveal_strlit("\n- channel: ");
    reveal_strlit("\n- adapter: ");
    reveal_strlit("\n- mode: ");
    reveal_strlit("\n- channel model: ");
    reveal_strlit("\n- branch model: ");
    reveal_strlit("\n- time: ");
    let body = status_body(agent_id, channel_id, adapter, mode, channel_model, branch_model, now_line);
    let label = long_label(mode);
    let line = "\n- agent: "@ + agent_id + "\n"@;
    let at = 6int;
    assert(body.subrange(at, at + line.len()) =~= line);
    assert(text::occurs_at(body, line, at));
    let line = "\n- channel: "@ + channel_id + "\n"@;
    let at = ("status\n- agent: "@ + agent_id).len() as int;
    assert(body.subrange(at, at + line.len()) =~= line);
    assert(text::occurs_at(body, line, at));
    let line = "\n- adapter: "@ + adapter + "\n"@;
    let at = ("status\n- agent: "@ + agent_id + "\n- channel: "@ + channel_id).len() as int;
    assert(body.subrange(at, at + line.len()) =~= line);
    assert(text::occurs_at(body, line, at));
    let line = "\n- mode: "@ + label + "\n"@;
    let at = ("status\n- agent: "@ + agent_id + "\n- channel: "@ + channel_id + "\n- adapter: "@ + adapter).len() as int;
    assert(body.subrange(at, at + line.len()) =~= line);
    assert(text::occurs_at(body, line, at));
    let line = "\n- channel model: "@ + channel_model + "\n"@;
    let at = ("status\n- agent: "@ + agent_id + "\n- channel: "@ + channel_id + "\n- adapter: "@ + adapter
        + "\n- mode: "@ + label).len() as int;
    assert(body.subrange(at, at + line.len()) =~= line);
    assert(text::occurs_at(body, line, at));
    let line = "\n- branch model: "@ + branch_model + "\n"@;
    let at = ("status\n- agent: "@ + agent_id + "\n- channel: "@ + channel_id + "\n- adapter: "@ + adapter
        + "\n- mode: "@ + label + "\n- channel model: "@ + channel_model).len() as int;
    assert(body.subrange(at, at + line.len()) =~= line);
    assert(text::occurs_at(body, line, at));
    let line = "\n- time: "@ + now_line;
    assert(body.subrange(body.len() - line.len(), body.len() as int) =~= line);
}

} // verus!
