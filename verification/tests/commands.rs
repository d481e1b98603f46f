//! Slash commands and the control plane.
use spacebot::commands::control::{
    mode_confirmation, mode_label, mode_name, persisted, status_text, ControlPlane, ControlStep, StatusFacts,
};
use spacebot::commands::registry::{
    commands, normalize_smart_dashes, ArgSpec, CommandCategory, CommandDef, CommandHandler, CommandRegistry,
    ControlAction, ParseResult, ParsedCommand,
};
use spacebot::conversation::channel_settings::{pick_settings, ChannelSettingsStore};
use spacebot::conversation::settings::ResponseMode;
use spacebot::json::{Json, Member};

fn parsed<'a>(result: ParseResult<'a>) -> ParsedCommand<'a> {
    match result {
        ParseResult::Command(cmd) => cmd,
        other => panic!("expected Command, got {other:?}"),
    }
}

#[test]
fn parses_basic_command() {
    let defs = commands();
    let registry = CommandRegistry::new(&defs);
    let cmd = parsed(registry.parse("/status"));
    assert_eq!(cmd.def.name, "status");
    assert!(cmd.args.is_empty());
}

#[test]
fn parses_with_surrounding_whitespace() {
    let defs = commands();
    let registry = CommandRegistry::new(&defs);
    let cmd = parsed(registry.parse("  /help  "));
    assert_eq!(cmd.def.name, "help");
}

#[test]
fn resolves_aliases_to_canonical_def() {
    let defs = commands();
    let registry = CommandRegistry::new(&defs);
    assert_eq!(parsed(registry.parse("/observe")).def.name, "quiet");
    assert_eq!(parsed(registry.parse("/commands")).def.name, "help");
}

#[test]
fn lookup_is_case_insensitive() {
    let defs = commands();
    let registry = CommandRegistry::new(&defs);
    assert_eq!(parsed(registry.parse("/STATUS")).def.name, "status");
    assert_eq!(parsed(registry.parse("/Observe")).def.name, "quiet");
}

#[test]
fn strips_telegram_botname_suffix() {
    let defs = commands();
    let registry = CommandRegistry::new(&defs);
    let cmd = parsed(registry.parse("/status@spacebot_bot"));
    assert_eq!(cmd.def.name, "status");
}

#[test]
fn file_paths_are_not_commands() {
    let defs = commands();
    let registry = CommandRegistry::new(&defs);
    assert!(matches!(registry.parse("/usr/bin/env python"), ParseResult::NotACommand));
    assert!(matches!(registry.parse("/"), ParseResult::NotACommand));
}

#[test]
fn unknown_slash_words_are_not_commands() {
    let defs = commands();
    let registry = CommandRegistry::new(&defs);
    assert!(matches!(registry.parse("/shrug whatever"), ParseResult::NotACommand));
}

#[test]
fn trailing_text_on_no_arg_command_is_conversation() {
    let defs = commands();
    let registry = CommandRegistry::new(&defs);
    // "/status update: we shipped" is a sentence, not a command.
    assert!(matches!(registry.parse("/status update: we shipped"), ParseResult::NotACommand));
}

fn test_commands() -> Vec<CommandDef> {
    vec![
        CommandDef {
            name: "memory",
            description: "search memories",
            category: CommandCategory::Memory,
            aliases: vec![],
            args: ArgSpec::Optional("[query]"),
            handler: CommandHandler::Control(ControlAction::Help),
        },
        CommandDef {
            name: "background",
            description: "run in background",
            category: CommandCategory::Session,
            aliases: vec![],
            args: ArgSpec::Required("<prompt>"),
            handler: CommandHandler::Control(ControlAction::Help),
        },
        CommandDef {
            name: "voice",
            description: "toggle voice",
            category: CommandCategory::Config,
            aliases: vec![],
            args: ArgSpec::Choice(vec!["on", "off", "status"]),
            handler: CommandHandler::Control(ControlAction::Help),
        },
    ]
}

#[test]
fn optional_args_pass_through() {
    let defs = test_commands();
    let registry = CommandRegistry::new(&defs);
    let cmd = parsed(registry.parse("/memory launch plans"));
    assert_eq!(cmd.args, "launch plans");
    assert!(parsed(registry.parse("/memory")).args.is_empty());
}

#[test]
fn required_args_produce_usage_when_missing() {
    let defs = test_commands();
    let registry = CommandRegistry::new(&defs);
    match registry.parse("/background") {
        ParseResult::Usage(def, usage) => {
            assert_eq!(def.name, "background");
            assert_eq!(usage, "usage: /background <prompt>");
        }
        other => panic!("expected Usage, got {other:?}"),
    }
}

#[test]
fn choice_args_validate_against_the_set() {
    let defs = test_commands();
    let registry = CommandRegistry::new(&defs);
    assert_eq!(parsed(registry.parse("/voice ON")).args, "on");
    assert!(parsed(registry.parse("/voice")).args.is_empty());
    match registry.parse("/voice loud") {
        ParseResult::Usage(_, usage) => {
            assert_eq!(usage, "usage: /voice [on|off|status]");
        }
        other => panic!("expected Usage, got {other:?}"),
    }
}

#[test]
fn smart_dashes_are_normalized_in_args() {
    let defs = test_commands();
    let registry = CommandRegistry::new(&defs);
    // iOS turns "--preview" into "—preview" and "-n" into "–n".
    assert_eq!(
        parsed(registry.parse("/memory \u{2014}preview \u{2013}n")).args,
        "--preview -n"
    );
}

#[test]
fn help_lists_every_command_exactly_once() {
    let defs = commands();
    let help = CommandRegistry::new(&defs).help_text();
    for def in &defs {
        let needle = format!("- /{}", def.name);
        assert_eq!(help.matches(&needle).count(), 1, "help must list /{} exactly once", def.name);
    }
}

#[test]
fn help_annotates_aliases() {
    let defs = commands();
    let help = CommandRegistry::new(&defs).help_text();
    assert!(help.contains("- /quiet (or /observe):"));
    assert!(help.contains("- /help (or /commands):"));
}

#[test]
fn names_and_aliases_are_globally_unique() {
    let mut seen = std::collections::HashSet::new();
    for def in &commands() {
        assert!(seen.insert(def.name), "duplicate command name {}", def.name);
        for alias in &def.aliases {
            assert!(seen.insert(alias), "duplicate alias {alias}");
        }
    }
}

#[test]
fn help_begins_with_its_title() {
    let defs = commands();
    assert!(CommandRegistry::new(&defs).help_text().starts_with("commands:"));
}

#[test]
fn runs_of_dashes_are_plain() {
    assert_eq!(normalize_smart_dashes("a \u{2014} b"), "a -- b");
    assert_eq!(normalize_smart_dashes("\u{2013}x"), "-x");
    assert_eq!(normalize_smart_dashes("plain"), "plain");
}

#[test]
fn plain_text_is_no_command() {
    let defs = commands();
    let registry = CommandRegistry::new(&defs);
    assert!(matches!(registry.parse("status"), ParseResult::NotACommand));
    assert!(matches!(registry.parse(""), ParseResult::NotACommand));
}

fn plane(is_portal: bool) -> ControlPlane {
    ControlPlane {
        agent_id: "main".to_string(),
        conversation_id: "conv".to_string(),
        adapter: "discord".to_string(),
        binding_mode: None,
        is_authority: true,
        is_portal,
    }
}

fn text_member(members: &[Member], name: &str) -> Option<String> {
    members.iter().find(|member| member.name == name).and_then(|member| match &member.value {
        Json::Text(text) => Some(text.clone()),
        _ => None,
    })
}

#[test]
fn channel_mode_change_preserves_other_settings() {
    let mut store = ChannelSettingsStore::new();
    let existing = vec![Member { name: "model".to_string(), value: Json::Text("special-model".to_string()) }];
    store.upsert("agent", "conv", existing);

    store.set_response_mode("agent", "conv", ResponseMode::Observe);

    let loaded = store.get("agent", "conv").unwrap();
    assert_eq!(
        text_member(loaded, "response_mode").as_deref(),
        Some(ResponseMode::Observe.as_setting_str())
    );
    assert_eq!(
        text_member(loaded, "model").as_deref(),
        Some("special-model"),
        "a mode change must not clobber other persisted settings"
    );
}

#[test]
fn channel_store_failure_propagates_instead_of_writing_defaults() {
    let change = plane(false).set_response_mode(ResponseMode::Observe, false, false);
    assert_eq!(
        change.reply,
        "couldn't switch to observe mode — settings persistence failed, mode is unchanged"
    );
    assert!(change.live_mode.is_none());
}

#[test]
fn channel_mode_change_handles_empty_string_settings() {
    let mut store = ChannelSettingsStore::new();
    store.upsert("agent", "conv", vec![]);
    store.set_response_mode("agent", "conv", ResponseMode::MentionOnly);
    let loaded = store.get("agent", "conv").unwrap();
    assert_eq!(
        text_member(loaded, "response_mode").as_deref(),
        Some(ResponseMode::MentionOnly.as_setting_str())
    );
}

#[test]
fn stored_channel_settings_are_taken_in() {
    let mut store = ChannelSettingsStore::new();
    store.load("agent", "conv", "{\"model\": \"special-model\"}").unwrap();
    store.set_response_mode("agent", "conv", ResponseMode::Observe);
    let loaded = store.get("agent", "conv").unwrap();
    assert_eq!(text_member(loaded, "model").as_deref(), Some("special-model"));
    assert_eq!(loaded.len(), 2);
    store.load("agent", "conv", "").unwrap();
    assert!(store.get("agent", "conv").is_none());
    assert_eq!(store.load("agent", "conv", "[]").unwrap_err(), "channel settings must be a JSON object");
    assert_eq!(
        store.load("agent", "conv", "{").unwrap_err(),
        "failed to parse channel settings: EOF while parsing an object at line 1 column 1"
    );
    assert!(pick_settings(Ok(Json::Null)).is_err());
}

#[test]
fn portal_missing_conversation_fails_without_writing() {
    assert_eq!(
        persisted(true, false, "missing"),
        Err("portal conversation missing not found".to_string())
    );
    let change = plane(true).set_response_mode(ResponseMode::Observe, true, false);
    assert!(change.live_mode.is_none());
}

#[test]
fn a_persisted_mode_is_confirmed_and_applied_live() {
    let change = plane(true).set_response_mode(ResponseMode::Active, true, true);
    assert_eq!(change.reply, mode_confirmation(ResponseMode::Active));
    assert_eq!(change.live_mode, Some(ResponseMode::Active));
    assert!(persisted(false, false, "any").is_ok());
}

#[test]
fn control_actions_ask_for_what_they_need() {
    let plane = plane(false);
    assert!(matches!(plane.execute(ControlAction::Status, "help"), ControlStep::ReportStatus));
    assert!(matches!(
        plane.execute(ControlAction::SetResponseMode(ResponseMode::Observe), "help"),
        ControlStep::PersistMode(ResponseMode::Observe)
    ));
    match plane.execute(ControlAction::Help, "the help") {
        ControlStep::Reply(reply) => assert_eq!(reply, "the help"),
        _ => panic!("expected a reply"),
    }
    match plane.execute(ControlAction::AgentId, "help") {
        ControlStep::Reply(reply) => assert_eq!(reply, "main"),
        _ => panic!("expected a reply"),
    }
}

#[test]
fn status_prefers_the_live_mode_and_the_chosen_models() {
    let facts = StatusFacts {
        live_mode: Some(ResponseMode::Observe),
        stored_mode: Some(ResponseMode::Active),
        channel_choice: Some("chosen".to_string()),
        branch_choice: None,
        channel_routed: "routed".to_string(),
        branch_routed: "routed-branch".to_string(),
        now_line: "noon".to_string(),
    };
    assert_eq!(
        plane(false).status(&facts),
        status_text("main", "conv", "discord", ResponseMode::Observe, "chosen", "routed-branch", "noon")
    );
    assert_eq!(
        status_text("a", "c", "d", ResponseMode::Active, "m", "b", "t"),
        "status\n- agent: a\n- channel: c\n- adapter: d\n- mode: active\n- channel model: m\n- branch model: b\n- time: t"
    );
    assert_eq!(mode_name(ResponseMode::MentionOnly), "mention-only");
    assert_eq!(mode_label(ResponseMode::Observe), "observe (learning, never responds)");
}
