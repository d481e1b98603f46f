//! What the commands ask of the control API, and what they print.
use spacebot::cli::activity::{self, ActivityArgs, ActivityTotals, DayActivity, ProcessTokens};
use spacebot::cli::auth::{self, AuthMode, CredentialFacts};
use spacebot::cli::binding::{self, BindingCommand, BindingEntry};
use spacebot::cli::channel::{self, ChannelCommand, ChannelEntry};
use spacebot::cli::chat::{self, EventBuffer, Input};
use spacebot::cli::client::{settle, settle_body, stream_refusal, ApiClient, ApiConfig};
use spacebot::cli::config::{
    self, build_update, parse_scalar, set_path, value_from, Brought, ConfigCommand, GlobalSettings,
    OpenCodeSettings, RawConfigCommand,
};
use spacebot::cli::cron::{self, CronCommand, CronJob};
use spacebot::cli::dashboard::{after_attempt, dashboard_url, display_host, unreachable_api, ApiWait};
use spacebot::cli::ingest::{self, IngestCommand, IngestFile};
use spacebot::cli::memory::{self, MemoryCommand, MemoryEntry, MemoryMatch};
use spacebot::cli::messaging::{
    self, AdapterInstance, InstanceCommand, MessagingCommand, MessagingStatus, PlatformStatus, ToggleState,
};
use spacebot::cli::model::{self, ModelCommand, ModelEntry};
use spacebot::cli::notification::{self, NotificationCommand, NotificationEntry};
use spacebot::cli::output::{short_timestamp, table, truncate, Line, Report};
use spacebot::cli::project::{self, DiskEntry, ProjectCommand, ProjectDetail, ProjectEntry, RepoCommand, RepoEntry, WorktreeCommand, WorktreeEntry};
use spacebot::cli::prompt::{self, PromptCommand};
use spacebot::cli::provider::{self, ProviderCommand};
use spacebot::cli::request::{Method, Request};
use spacebot::cli::secrets::{self, Entered, MigratedKey, SecretEntry, SecretsCommand};
use spacebot::cli::skill::{self, KnownUsage};
use spacebot::cli::task::{
    self, FieldValue, TaskCommand, TaskComment, TaskCommentListResponse, TaskFieldChange, TaskHistoryResponse,
    TaskRevision, TaskRevisionDependency, TaskRevisionDiff, TaskRevisionSnapshot, TaskRevisionSummary,
};
use spacebot::cli::update::{self, UpdateCommand};
use spacebot::cli::usage::{self, UsageArgs, UsageGroup, UsageTotals};
use spacebot::cli::wiki::{self, ContentSource, Page, PageSummary, PageVersion, WikiCommand};
use spacebot::cli::{Cli, Command, Context};
use spacebot::json::{Body, Json, Member};
use spacebot::llm::record::{
    ModelRef, ProcessRef, PromptRecord, PromptRequestSummary, ResponseRef, SystemRef, ToolRef, Trigger, UsageRef,
};
use spacebot::prompts::blocks::{BlockLayer, BlockSource, BlockStability, PromptBlock};
use spacebot::skills::{Skill, SkillInfo, SkillSource};
use spacebot::skills::usage::SkillUsageRecord;
use spacebot::tasks::{Task, TaskPriority, TaskStatus, TaskSubtask};
use spacebot::time::Instant;

/// A report as text: stdout lines behind `>`, stderr lines behind `!`.
fn shown(report: &Report) -> Vec<String> {
    report
        .lines
        .iter()
        .map(|line| match line {
            Line::Out(text) => format!(">{text}"),
            Line::Note(text) => format!("!{text}"),
        })
        .collect()
}

/// A value as it goes over the wire.
fn wire(value: &Json) -> String {
    match value {
        Json::Null => "null".to_string(),
        Json::Bool(flag) => flag.to_string(),
        Json::Number(number) => number.to_string(),
        Json::Literal(text) => text.clone(),
        Json::Text(text) => format!("{text:?}"),
        Json::List(items) => format!("[{}]", items.iter().map(wire).collect::<Vec<_>>().join(",")),
        Json::Object(members) => format!(
            "{{{}}}",
            members
                .iter()
                .map(|member| format!("{:?}:{}", member.name, wire(&member.value)))
                .collect::<Vec<_>>()
                .join(",")
        ),
    }
}

/// A request as one line.
fn asked(request: &Request) -> String {
    let method = match request.method {
        Method::Get => "GET",
        Method::Post => "POST",
        Method::Put => "PUT",
        Method::Delete => "DELETE",
    };
    match &request.body {
        Some(body) => format!("{method} {} {}", request.path, wire(body)),
        None => format!("{method} {}", request.path),
    }
}

fn s(text: &str) -> String {
    text.to_string()
}

fn some(text: &str) -> Option<String> {
    Some(text.to_string())
}

fn text(value: &str) -> Json {
    Json::Text(value.to_string())
}

fn object(members: Vec<(&str, Json)>) -> Json {
    Json::Object(
        members.into_iter().map(|(name, value)| Member { name: name.to_string(), value }).collect(),
    )
}

// --- Output ---------------------------------------------------------------

#[test]
fn tables_are_fitted_to_their_cells() {
    let lines = table(
        &vec![s("ID"), s("NAME"), s("X")],
        &vec![vec![s("1"), s("a longer name"), s("")], vec![s("1000"), s("b"), s("end")]],
    );
    assert_eq!(lines, vec!["ID    NAME           X", "1     a longer name", "1000  b              end"]);
}

#[test]
fn table_widths_count_bytes_and_padding_counts_characters() {
    // The width of a column is the longest cell in bytes; a cell is padded to
    // it by characters.
    let lines = table(&vec![s("A"), s("B")], &vec![vec![s("äö"), s("x")]]);
    assert_eq!(lines, vec!["A     B", "äö    x"]);
}

#[test]
fn cells_beyond_the_headers_are_left_out() {
    let lines = table(&vec![s("A"), s("B")], &vec![vec![s("1"), s("2"), s("3")], vec![s("1")]]);
    assert_eq!(lines, vec!["A  B", "1  2", "1"]);
}

#[test]
fn long_texts_and_stamps_are_cut() {
    assert_eq!(truncate("abcdef", 6), "abcdef");
    assert_eq!(truncate("abcdefg", 6), "abc...");
    assert_eq!(short_timestamp("2026-08-01T10:11:12+00:00"), "2026-08-01 10:11");
    assert_eq!(short_timestamp("2026"), "2026");
}

// --- The command line -----------------------------------------------------

#[test]
fn no_command_starts_the_daemon_in_the_background() {
    let cli = Cli { command: None, config: some("c.toml"), debug: false, json: true, url: None, token: some("t") };
    let (command, ctx) = cli.split();
    assert!(matches!(command, Command::Start { foreground: false }));
    assert!(command.is_lifecycle());
    assert!(!Command::Secrets(SecretsCommand::List).is_lifecycle());
    assert_eq!(ctx.config_path, some("c.toml"));
    assert!(ctx.json);
    assert_eq!(ctx.token, some("t"));
}

// --- The client -----------------------------------------------------------

fn context(url: Option<&str>, token: Option<&str>) -> Context {
    Context { config_path: None, json: false, url: url.map(str::to_string), token: token.map(str::to_string) }
}

fn local(token: Option<&str>) -> Option<ApiConfig> {
    Some(ApiConfig {
        bind: s("127.0.0.1"),
        port: 19898,
        auth_token: token.map(str::to_string),
        instance_dir: s("/home/me/.spacebot"),
    })
}

#[test]
fn remote_targets_ignore_the_config() {
    let client = ApiClient::from_context(&context(Some("https://bot.example//"), None), &local(Some("secret")));
    assert_eq!(client.base, "https://bot.example");
    assert_eq!(client.token, None);
    assert_eq!(client.url_for("//tasks"), "https://bot.example/api/tasks");
    assert_eq!(client.connect_hint(true), "cannot reach the spacebot API at https://bot.example");
}

#[test]
fn local_targets_come_from_the_config() {
    let client = ApiClient::from_context(&context(None, None), &local(Some("secret")));
    assert_eq!(client.base, "http://127.0.0.1:19898");
    assert_eq!(client.token, some("secret"));
    assert_eq!(client.connect_hint(false), "spacebot is not running — start it with `spacebot start`");
    assert_eq!(
        client.connect_hint(true),
        "the daemon is running but the API at http://127.0.0.1:19898 is unreachable — check [api] bind/port in config.toml"
    );
    let passed = ApiClient::from_context(&context(None, Some("mine")), &local(Some("secret")));
    assert_eq!(passed.token, some("mine"));
}

#[test]
fn answers_are_settled_by_status() {
    assert!(matches!(settle("200 OK", true, &vec![]), Ok(Json::Null)));
    assert_eq!(wire(&settle("200 OK", true, &b"{\"a\":[2.5,null],\"b\":1}".to_vec()).unwrap()), "{\"a\":[2.5,null],\"b\":1}");
    assert_eq!(
        settle("404 Not Found", false, &b"{\"error\":\"no such task\"}".to_vec()).unwrap_err(),
        "no such task"
    );
    assert_eq!(
        settle("500 Internal Server Error", false, &vec![]).unwrap_err(),
        "API request failed (500 Internal Server Error)"
    );
    assert_eq!(
        settle("502 Bad Gateway", false, &b"<html>".to_vec()).unwrap_err(),
        "API returned a non-JSON response (502 Bad Gateway)"
    );
    assert_eq!(
        settle_body("200 OK", true, None).unwrap_err(),
        "API returned a non-JSON response (200 OK)"
    );
    assert_eq!(settle_body("409 Conflict", false, Some(Json::Bool(true))).unwrap_err(), "API request failed (409 Conflict)");
}

// --- Requests -------------------------------------------------------------

#[test]
fn values_stay_one_parameter() {
    let request = activity::plan(&ActivityArgs { since: some("a b/ü"), until: some("x&y=z") });
    assert_eq!(asked(&request), "GET activity?since=a%20b%2F%C3%BC&until=x%26y%3Dz");
    assert_eq!(asked(&activity::plan(&ActivityArgs { since: None, until: None })), "GET activity");
}

// --- Activity and usage ---------------------------------------------------

#[test]
fn activity_is_shown_by_day_and_process() {
    let totals = ActivityTotals {
        messages: 1,
        branches: 2,
        workers: 3,
        cortex: 4,
        cron: 5,
        active_channels: 6,
        input_tokens: 7,
        output_tokens: 8,
        cache_read_tokens: 9,
        reasoning_tokens: 10,
        cost: s("$0.5000"),
    };
    assert_eq!(
        shown(&activity::print_activity(&vec![], &totals, vec![])),
        vec!["!No activity in the selected range."]
    );
    let day = DayActivity {
        date: s("2026-08-01"),
        messages: 1,
        branches: 2,
        workers: 3,
        cortex: 4,
        cron: 5,
        active_channels: 6,
        input_tokens: 7,
        output_tokens: 8,
        cost: s("$0.2500"),
    };
    let process = |name: &str| ProcessTokens { process: s(name), input: 1, output: 2, cost: s("$0.1000") };
    let lines = shown(&activity::print_activity(&vec![day], &totals, vec![process("worker"), process("channel")]));
    assert_eq!(lines[1], ">2026-08-01  1         2         3        4       5     6         7      8       $0.2500");
    assert_eq!(lines[2], ">");
    assert_eq!(lines[3], ">Messages:        1");
    assert_eq!(
        &lines[lines.len() - 4..],
        &[
            ">Token cost:      $0.5000",
            ">By process:",
            ">  channel: in 1 / out 2 ($0.1000)",
            ">  worker: in 1 / out 2 ($0.1000)",
        ]
    );
}

#[test]
fn usage_is_asked_for_one_conversation_or_all() {
    let args = |conversation: Option<&str>, agent: Option<&str>| UsageArgs {
        conversation: conversation.map(str::to_string),
        agent: agent.map(str::to_string),
        since: None,
        until: None,
        group_by: some("day,agent"),
    };
    assert_eq!(asked(&usage::plan(&args(Some("c 1"), Some("a b")))), "GET usage/conversation/c 1?agent_id=a%20b");
    assert_eq!(asked(&usage::plan(&args(None, Some("a")))), "GET usage?agent_id=a&group_by=day%2Cagent");
    let totals = UsageTotals {
        input_tokens: 1,
        output_tokens: 2,
        cache_read_tokens: 3,
        cache_write_tokens: 4,
        reasoning_tokens: 5,
        request_count: 6,
        cost: None,
        cost_status: s("estimated"),
    };
    assert_eq!(shown(&usage::print_totals(&totals))[6], ">Estimated cost:     unknown");
    let priced = UsageTotals { cost: some("$1.2345"), ..totals };
    assert_eq!(shown(&usage::print_totals(&priced))[6], ">Estimated cost:     $1.2345 (estimated)");
    let group = UsageGroup { label: s("main"), input_tokens: 1, output_tokens: 2, request_count: 3, cost: None };
    let lines = shown(&usage::print_usage(&priced, &vec![], &vec![group], &vec![]));
    assert_eq!(&lines[7..], &[">", ">AGENT  INPUT  OUTPUT  REQUESTS  COST", ">main   1      2       3         -"]);
}

// --- Authentication -------------------------------------------------------

#[test]
fn credentials_are_shown_without_their_tokens() {
    assert!(matches!(auth::login_mode(true), AuthMode::Console));
    assert!(matches!(auth::login_mode(false), AuthMode::Max));
    assert_eq!(auth::minutes_until(0, 119_999), -1);
    assert_eq!(auth::minutes_until(180_000, 0), 3);
    let facts = |expires_at: i64, expired: bool| {
        Some(CredentialFacts { expires_at, expired, access_token_bytes: 10, refresh_token_bytes: 20 })
    };
    assert_eq!(
        shown(&auth::print_status(&facts(0, true), 600_000, "/i/auth.json")),
        vec![
            "!Anthropic OAuth: expired (10m ago)",
            "!  access token: <redacted> (10 bytes)",
            "!  refresh token: <redacted> (20 bytes)",
            "!  credentials file: /i/auth.json",
        ]
    );
    assert_eq!(
        shown(&auth::print_status(&facts(600_000, false), 0, "p"))[0],
        "!Anthropic OAuth: valid (expires in 10m)"
    );
    assert_eq!(shown(&auth::print_status(&None, 0, "p")).len(), 2);
    assert_eq!(shown(&auth::print_logout(true)), vec!["!Credentials removed."]);
    assert_eq!(shown(&auth::print_refreshed(60_000, 0)), vec!["!Token refreshed (expires in 1m)"]);
}

// --- Bindings -------------------------------------------------------------

#[test]
fn bindings_are_matched_by_what_was_passed() {
    let delete = BindingCommand::Delete {
        agent_id: s("main"),
        channel: s("discord"),
        adapter: None,
        guild_id: some("g"),
        workspace_id: None,
        chat_id: None,
        team_id: None,
    };
    assert_eq!(
        asked(&binding::plan(&delete)),
        r#"DELETE bindings {"agent_id":"main","channel":"discord","guild_id":"g"}"#
    );
    let update = BindingCommand::Update {
        agent_id: s("main"),
        channel: s("discord"),
        adapter: some("one"),
        guild_id: None,
        workspace_id: None,
        chat_id: None,
        team_id: None,
        new_agent_id: None,
        new_channel: some("slack"),
        new_adapter: None,
        new_guild_id: None,
        new_workspace_id: some("w"),
        new_chat_id: None,
        new_team_id: None,
        channel_ids: vec![s("1")],
        require_mention: true,
        dm_allowed_users: vec![],
        authority: vec![],
    };
    assert_eq!(
        asked(&binding::plan(&update)),
        r#"PUT bindings {"original_agent_id":"main","original_channel":"discord","agent_id":"main","channel":"slack","channel_ids":["1"],"require_mention":true,"dm_allowed_users":[],"authority":[],"original_adapter":"one","workspace_id":"w"}"#
    );
    assert_eq!(asked(&binding::plan(&BindingCommand::List { agent: some("a b") })), "GET bindings?agent_id=a%20b");
    let entry = BindingEntry {
        agent_id: s("main"),
        channel: s("discord"),
        adapter: None,
        guild_id: some("g"),
        workspace_id: None,
        chat_id: None,
        team_id: None,
        channel_ids: vec![s("1"), s("2")],
        require_mention: true,
    };
    let lines = shown(&binding::print_list(&vec![entry]));
    assert!(lines[1].contains("1,2") && lines[1].ends_with("yes"));
    assert_eq!(shown(&binding::print_list(&vec![])), vec!["!No bindings configured."]);
    assert_eq!(binding::print_created(false, "no such agent", false).unwrap_err(), "no such agent");
    assert_eq!(
        shown(&binding::print_created(true, "Bound.", true).unwrap()),
        vec!["!Bound.", "!Note: Restart for the new credentials to take effect."]
    );
}

// --- Channels -------------------------------------------------------------

#[test]
fn channel_statuses_are_listed_by_id() {
    let status = object(vec![
        ("b", object(vec![("active_branches", Json::List(vec![object(vec![("id", text("x")), ("description", text("digging"))])]))])),
        ("a", object(vec![])),
    ]);
    assert_eq!(
        shown(&channel::print_status(status, &None)),
        vec![">a", ">  idle", ">b", ">  branch x  digging"]
    );
    let worker = object(vec![(
        "c",
        object(vec![(
            "active_workers",
            Json::List(vec![object(vec![("id", text("w")), ("status", text("running")), ("task", text("build"))])]),
        )]),
    )]);
    assert_eq!(shown(&channel::print_status(worker, &some("c"))), vec![">c", ">  worker w  [running] build"]);
    assert_eq!(shown(&channel::print_status(object(vec![]), &some("q"))), vec!["!No status for channel q."]);
    assert_eq!(shown(&channel::print_status(Json::Null, &None)), vec!["!No channel status available."]);
}

#[test]
fn channel_timelines_show_what_ran() {
    let item = |kind: &str, more: Vec<(&str, Json)>| {
        let mut members = vec![("type", text(kind)), ("created_at", text("2026-08-01T10:00:00Z"))];
        members.extend(more);
        object(members)
    };
    let response = object(vec![
        (
            "items",
            Json::List(vec![
                item("message", vec![("role", text("user")), ("content", text("hi"))]),
                item("message", vec![("role", text("user")), ("sender_name", text("Ann")), ("content", text("yo"))]),
                item("branch_run", vec![("id", text("b")), ("description", text("think"))]),
                item("worker_run", vec![("id", text("w")), ("status", text("done")), ("task", text("build"))]),
                item("tool_call_run", vec![("tool_name", text("shell")), ("status", text("ok"))]),
                item("surprise", vec![]),
            ]),
        ),
        ("has_more", Json::Bool(true)),
    ]);
    assert_eq!(
        shown(&channel::print_messages("c", &response)),
        vec![
            ">[2026-08-01 10:00] user: hi",
            ">[2026-08-01 10:00] Ann: yo",
            ">[2026-08-01 10:00] branch b: think",
            ">[2026-08-01 10:00] worker w [done]: build",
            ">[2026-08-01 10:00] tool shell [ok]",
            ">[2026-08-01 10:00] surprise",
            "!Older messages available — pass --before with a pagination cursor.",
        ]
    );
    assert_eq!(shown(&channel::print_messages("c", &Json::Null)), vec!["!No messages found for channel c."]);
}

#[test]
fn channels_are_archived_and_restored_by_one_call() {
    let archive = ChannelCommand::Archive { agent_id: s("a"), channel_id: s("c") };
    assert_eq!(
        asked(&channel::plan(&archive)),
        r#"POST channels/archive {"agent_id":"a","channel_id":"c","archived":true}"#
    );
    let unarchive = ChannelCommand::Unarchive { agent_id: s("a"), channel_id: s("c") };
    assert_eq!(
        asked(&channel::plan(&unarchive)),
        r#"POST channels/archive {"agent_id":"a","channel_id":"c","archived":false}"#
    );
    assert_eq!(
        asked(&channel::plan(&ChannelCommand::List { all: true, agent: some("a") })),
        "GET channels?include_inactive=true&agent_id=a"
    );
    assert_eq!(
        asked(&channel::plan(&ChannelCommand::Messages { channel_id: s("c:1"), limit: 20, before: some("x y") })),
        "GET channels/messages?channel_id=c%3A1&limit=20&before=x%20y"
    );
    assert_eq!(shown(&channel::print_archived("c", false)), vec!["!Channel c restored."]);
    assert_eq!(shown(&channel::print_deleted("c")), vec!["!Channel c deleted."]);
    let entry = ChannelEntry {
        id: s("c"),
        agent_id: s("a"),
        platform: s("discord"),
        display_name: None,
        is_active: false,
        last_activity_at: s("2026-08-01T10:00:00Z"),
    };
    assert_eq!(
        shown(&channel::print_list(&vec![entry]))[1],
        ">c   a      discord         no      2026-08-01 10:00"
    );
}

// --- Chat -----------------------------------------------------------------

#[test]
fn event_cuts_do_not_matter() {
    let whole = "event: x\ndata: {\"a\":1}\r\n\ndata: second\nda";
    let mut all = EventBuffer::new();
    let at_once = all.feed(whole);
    assert_eq!(at_once, vec!["{\"a\":1}", "second"]);
    let mut bit_by_bit = EventBuffer::new();
    let mut events: Vec<String> = Vec::new();
    for c in whole.chars() {
        events.extend(bit_by_bit.feed(&c.to_string()));
    }
    assert_eq!(events, at_once);
    assert_eq!(bit_by_bit.feed("ta: third\n"), vec!["third"]);
}

#[test]
fn replies_are_heard_from_the_agent_in_the_session() {
    let event = |agent: &str, channel: &str| {
        object(vec![
            ("type", text("outbound_message")),
            ("agent_id", text(agent)),
            ("channel_id", text(channel)),
            ("text", text("hello")),
        ])
    };
    assert_eq!(chat::reply_of(&event("main", "s1"), "main", "s1"), some("hello"));
    assert_eq!(chat::reply_of(&event("main", "portal:chat:s1"), "main", "s1"), some("hello"));
    assert_eq!(chat::reply_of(&event("main", "s2"), "main", "s1"), None);
    assert_eq!(chat::reply_of(&event("other", "s1"), "main", "s1"), None);
    assert_eq!(chat::reply_of(&object(vec![("type", text("delta"))]), "main", "s1"), None);
    let data = "{\"type\":\"outbound_message\",\"agent_id\":\"main\",\"channel_id\":\"x:s1\",\"text\":\"hi\"}";
    assert_eq!(chat::reply_from(data, "main", "s1"), some("hi"));
    assert_eq!(chat::reply_from(data, "main", "s2"), None);
    assert_eq!(chat::reply_from("{\"type\":", "main", "s1"), None);
}

#[test]
fn chat_lines_are_sent_or_end_the_session() {
    assert!(matches!(chat::read_line("a", "s", "user", "  /quit "), Input::Quit));
    assert!(matches!(chat::read_line("a", "s", "user", "   "), Input::Blank));
    match chat::read_line("a", "s", "user", " hi there ") {
        Input::Send(request) => assert_eq!(
            asked(&request),
            r#"POST portal/send {"agent_id":"a","session_id":"s","sender_name":"user","message":"hi there"}"#
        ),
        _ => panic!("a message is sent"),
    }
    let agents = object(vec![("agents", Json::List(vec![object(vec![("id", text("main"))])]))]);
    assert_eq!(chat::pick_agent(&agents).unwrap(), "main");
    assert_eq!(chat::pick_agent(&Json::Null).unwrap_err(), "no agents available — is one configured?");
    assert_eq!(
        asked(&chat::ask_history("a b", "s")),
        "GET portal/history?agent_id=a%20b&session_id=s&limit=20"
    );
    let history = Json::List(vec![object(vec![("role", text("user")), ("content", text("hi"))]), Json::Null]);
    assert_eq!(shown(&chat::print_history(&history)), vec![">user: hi", ">: "]);
    assert_eq!(
        shown(&chat::print_opening("a", "s")),
        vec!["!Chatting with a (session: s)", "!Ctrl-D or /quit to exit."]
    );
    assert_eq!(
        shown(&chat::print_closing("s")),
        vec!["!Session: s (resume with `spacebot chat --session s`)"]
    );
}

// --- Configuration --------------------------------------------------------

#[test]
fn scalars_are_read_as_json_where_they_are_json() {
    assert!(matches!(parse_scalar("true"), Json::Bool(true)));
    assert!(matches!(parse_scalar("null"), Json::Null));
    assert!(matches!(parse_scalar("-7"), Json::Number(-7)));
    assert_eq!(wire(&parse_scalar("18446744073709551615")), "18446744073709551615");
    assert_eq!(wire(&parse_scalar("1.5")), "1.5");
    assert_eq!(wire(&parse_scalar("hello")), "\"hello\"");
    assert_eq!(wire(&parse_scalar("\"quoted\"")), "\"\\\"quoted\\\"\"");
    assert_eq!(wire(&parse_scalar("[1]")), "\"[1]\"");
    assert_eq!(wire(&parse_scalar("")), "\"\"");
    assert_eq!(wire(&value_from("x", Err(s("no JSON")))), "\"x\"");
    assert_eq!(wire(&value_from("{}", Ok(object(vec![])))), "\"{}\"");
    assert!(matches!(value_from("7", Ok(Json::Number(7))), Json::Number(7)));
}

#[test]
fn dotted_keys_reach_nested_settings() {
    let mut body = Body::new();
    set_path(&mut body, "opencode.enabled", Json::Bool(true)).unwrap();
    set_path(&mut body, "opencode.permissions.edit", text("allow")).unwrap();
    set_path(&mut body, "api_port", Json::Number(1)).unwrap();
    assert_eq!(
        wire(&body.object()),
        r#"{"opencode":{"enabled":true,"permissions":{"edit":"allow"}},"api_port":1}"#
    );
    let mut body = Body::new();
    set_path(&mut body, "a", Json::Number(1)).unwrap();
    set_path(&mut body, "a.b", Json::Number(2)).unwrap();
    assert_eq!(wire(&body.object()), r#"{"a":{"b":2}}"#);
    let mut body = Body::new();
    assert_eq!(set_path(&mut body, "a..b", Json::Null).unwrap_err(), "invalid settings key 'a..b'");
    assert!(body.members.is_empty());
}

#[test]
fn updates_are_built_from_pairs() {
    assert_eq!(
        wire(&build_update(&vec![s("api_port=19898"), s("company_name=a=b")]).unwrap().object()),
        r#"{"api_port":19898,"company_name":"a=b"}"#
    );
    assert_eq!(build_update(&vec![s("oops")]).unwrap_err(), "expected key=value, got 'oops'");
    let set = ConfigCommand::Put { pairs: vec![s("api_enabled=false")], file: None };
    assert_eq!(
        asked(&config::plan(&set, Brought::Nothing).unwrap()),
        r#"PUT settings {"api_enabled":false}"#
    );
    let raw = ConfigCommand::Raw(RawConfigCommand::Put { file: None });
    assert_eq!(
        asked(&config::plan(&raw, Brought::Content(s("a = 1\n"))).unwrap()),
        r#"PUT settings/raw {"content":"a = 1\n"}"#
    );
    let file = ConfigCommand::Put { pairs: vec![], file: some("u.json") };
    assert_eq!(
        asked(&config::plan(&file, Brought::Update(s("{\"a\": true, \"b\": 2}"))).unwrap()),
        "PUT settings {\"a\":true,\"b\":2}"
    );
    assert_eq!(asked(&config::plan(&file, Brought::Update(s("7"))).unwrap()), "PUT settings 7");
    assert_eq!(
        config::plan(&file, Brought::Update(s("{"))).unwrap_err(),
        "failed to parse update file as JSON: EOF while parsing an object at line 1 column 1"
    );
    assert_eq!(asked(&config::plan(&ConfigCommand::Get, Brought::Nothing).unwrap()), "GET settings");
}

#[test]
fn settings_hide_the_search_key() {
    let settings = GlobalSettings {
        company_name: s("ACME"),
        brave_search_key_set: true,
        api_enabled: true,
        api_bind: s("127.0.0.1"),
        api_port: 19898,
        worker_log_mode: s("errors_only"),
        ssh_enabled: false,
        opencode: OpenCodeSettings {
            enabled: true,
            path: s("opencode"),
            max_servers: 5,
            server_startup_timeout_secs: 30,
            max_restart_retries: 3,
            edit: s("allow"),
            bash: s("ask"),
            webfetch: s("deny"),
        },
    };
    let lines = shown(&config::print_settings(&settings));
    assert_eq!(lines[1], ">Brave search key: (set)");
    assert_eq!(lines[4], ">API port:         19898");
    assert_eq!(lines.last().unwrap(), ">  Permissions:         edit=allow bash=ask webfetch=deny");
}

// --- Cron -----------------------------------------------------------------

#[test]
fn cron_jobs_are_toggled_one_way() {
    let toggle = |on: bool, off: bool| CronCommand::Toggle { agent: s("a"), id: s("j"), on, off };
    assert_eq!(
        asked(&cron::plan(&toggle(true, false)).unwrap()),
        r#"PUT agents/cron/toggle {"agent_id":"a","cron_id":"j","enabled":true}"#
    );
    assert_eq!(cron::plan(&toggle(false, false)).unwrap_err(), "pass exactly one of --on or --off");
    assert_eq!(cron::plan(&toggle(true, true)).unwrap_err(), "pass exactly one of --on or --off");
    let put = CronCommand::Put {
        agent: s("a"),
        id: s("j"),
        prompt: s("p"),
        target: s("discord:1"),
        cron: some("0 9 * * *"),
        interval: None,
        start_hour: Some(9),
        end_hour: None,
        disabled: true,
        run_once: false,
        timeout: Some(u64::MAX),
    };
    assert_eq!(
        asked(&cron::plan(&put).unwrap()),
        r#"POST agents/cron {"agent_id":"a","id":"j","prompt":"p","delivery_target":"discord:1","enabled":false,"run_once":false,"cron_expr":"0 9 * * *","active_start_hour":9,"timeout_secs":18446744073709551615}"#
    );
    assert_eq!(
        asked(&cron::plan(&CronCommand::Executions { agent: s("a"), cron_id: some("j"), limit: 50 }).unwrap()),
        "GET agents/cron/executions?agent_id=a&limit=50&cron_id=j"
    );
}

#[test]
fn cron_listings_show_how_jobs_went() {
    let job = CronJob {
        id: s("j"),
        cron_expr: None,
        interval_secs: 3600,
        enabled: true,
        delivery_target: s("t"),
        execution_success_count: 2,
        execution_failure_count: 1,
        last_executed_at: None,
    };
    assert_eq!(
        shown(&cron::print_list("a", "UTC", &vec![job])),
        vec![
            "!Timezone: UTC",
            ">ID  SCHEDULE     ENABLED  TARGET  OK  FAIL  LAST RUN",
            ">j   every 3600s  yes      t       2   1     -",
        ]
    );
    assert_eq!(shown(&cron::print_list("a", "UTC", &vec![])), vec!["!No cron jobs for a."]);
    let run = |members: Vec<(&str, Json)>| object(members);
    let response = object(vec![(
        "executions",
        Json::List(vec![
            run(vec![
                ("executed_at", text("2026-08-01T10:00:00Z")),
                ("cron_id", text("j")),
                ("execution_succeeded", Json::Bool(true)),
                ("delivery_attempted", Json::Bool(true)),
                ("delivery_succeeded", Json::Bool(false)),
                ("delivery_error", text("down")),
                ("result_summary", text("fine")),
            ]),
            run(vec![("execution_error", text("boom"))]),
        ]),
    )]);
    assert_eq!(
        shown(&cron::print_executions(&response)),
        vec![
            ">EXECUTED          CRON  EXECUTION  DELIVERY  DETAIL",
            ">2026-08-01 10:00  j     ok         failed    down",
            ">                  -     failed     skipped   boom",
        ]
    );
    assert_eq!(shown(&cron::print_executions(&Json::Null)), vec!["!No executions recorded."]);
}

// --- Dashboard ------------------------------------------------------------

#[test]
fn wildcard_binds_are_shown_as_localhost() {
    assert_eq!(display_host("0.0.0.0"), "localhost");
    assert_eq!(display_host("::"), "localhost");
    assert_eq!(display_host("[::]"), "localhost");
    assert_eq!(display_host("10.0.0.1"), "10.0.0.1");
    assert_eq!(dashboard_url("0.0.0.0", 80), "http://localhost:80");
    assert!(matches!(after_attempt(true, 99_999), ApiWait::Up));
    assert!(matches!(after_attempt(false, 14_999), ApiWait::TryAgain));
    assert!(matches!(after_attempt(false, 15_000), ApiWait::GiveUp));
    assert_eq!(
        unreachable_api("http://localhost:80"),
        "the daemon started but the API at http://localhost:80 did not come up within 15s"
    );
}

// --- Ingestion ------------------------------------------------------------

#[test]
fn ingested_files_are_listed_with_their_progress() {
    let upload = IngestCommand::Upload { agent_id: s("a b"), file: s("notes.txt") };
    assert_eq!(asked(&ingest::plan(&upload)), "POST agents/ingest/files?agent_id=a%20b");
    let delete = IngestCommand::Delete { agent_id: s("a"), content_hash: s("h") };
    assert_eq!(asked(&ingest::plan(&delete)), "DELETE agents/ingest/files?agent_id=a&content_hash=h");
    assert_eq!(ingest::upload_name(&None), "upload.txt");
    assert_eq!(ingest::upload_name(&some("n.md")), "n.md");
    let file = IngestFile {
        filename: s("n.md"),
        size: s("1.0 KB"),
        status: s("done"),
        chunks_completed: 2,
        total_chunks: 3,
        started_at: s("2026-08-01T10:00:00Z"),
        content_hash: s("h"),
    };
    assert_eq!(
        shown(&ingest::print_list(&vec![file]))[1],
        ">n.md      1.0 KB  done    2/3     2026-08-01 10:00  h"
    );
    assert_eq!(
        ingest::print_uploaded(&vec![]).unwrap_err(),
        "nothing was uploaded — the file may be empty"
    );
    assert_eq!(shown(&ingest::print_uploaded(&vec![s("n.md")]).unwrap()), vec!["!Uploaded n.md."]);
    assert!(shown(&ingest::print_deleted(false, "h")).is_empty());
    assert_eq!(shown(&ingest::print_deleted(true, "h")), vec!["!Deleted ingestion record h."]);
}

// --- Memories -------------------------------------------------------------

#[test]
fn memory_summaries_stay_short() {
    assert_eq!(memory::summary("one line"), "one line");
    assert_eq!(memory::summary("one\ntwo"), "one...");
    assert_eq!(memory::summary("one\n"), "one");
    assert_eq!(memory::summary(""), "");
    let long = "ä".repeat(81);
    assert_eq!(memory::summary(&long), format!("{}...", "ä".repeat(80)));
    assert_eq!(memory::summary(&"ä".repeat(80)), "ä".repeat(80));
}

#[test]
fn memories_are_listed_with_their_count() {
    let entry = MemoryEntry {
        id: s("m"),
        memory_type: s("fact"),
        importance: s("0.50"),
        updated_at: 1_785_578_400,
        content: s("a\nb"),
    };
    assert_eq!(
        shown(&memory::print_list(&vec![entry], 9)),
        vec![
            ">ID  TYPE  IMPORTANCE  UPDATED           CONTENT",
            ">m   fact  0.50        2026-08-01 10:00  a...",
            "!1 of 9 memories.",
        ]
    );
    assert_eq!(shown(&memory::print_list(&vec![], 0)), vec!["!No memories found."]);
    assert_eq!(shown(&memory::print_matches(&vec![])), vec!["!No matching memories."]);
    let found = MemoryMatch { score: s("0.123"), id: s("m"), memory_type: s("fact"), content: s("x") };
    assert_eq!(shown(&memory::print_matches(&vec![found]))[1], ">0.123  m   fact  x");
    let search = MemoryCommand::Search { query: s("a b"), agent: s("m"), limit: Some(5), memory_type: None };
    assert_eq!(asked(&memory::plan(&search)), "GET agents/memories/search?agent_id=m&q=a%20b&limit=5");
    let list = MemoryCommand::List { agent: s("m"), limit: Some(1), offset: Some(2), memory_type: some("fact"), sort: None };
    assert_eq!(
        asked(&memory::plan(&list)),
        "GET agents/memories?agent_id=m&limit=1&offset=2&memory_type=fact"
    );
}

// --- Messaging ------------------------------------------------------------

#[test]
fn messaging_instances_take_credentials_as_an_object() {
    let create = |stdin: bool| {
        MessagingCommand::Instance(InstanceCommand::Create { platform: s("discord"), name: None, disabled: true, stdin })
    };
    assert_eq!(
        asked(&messaging::plan(&create(false), &None).unwrap()),
        r#"POST messaging/instances {"platform":"discord","enabled":false}"#
    );
    assert_eq!(
        asked(&messaging::plan(&create(true), &some("{\"discord_token\": \"t\"}")).unwrap()),
        r#"POST messaging/instances {"platform":"discord","enabled":false,"credentials":{"discord_token":"t"}}"#
    );
    assert_eq!(
        messaging::plan(&create(true), &some("[]")).unwrap_err(),
        "credentials must be a JSON object"
    );
    assert_eq!(
        messaging::plan(&create(true), &some("")).unwrap_err(),
        "failed to parse credentials as JSON: EOF while parsing a value at line 1 column 0"
    );
    assert_eq!(
        messaging::describe_instance("discord", &some("n"), false, Some(Json::Null)).unwrap_err(),
        "credentials must be a JSON object"
    );
    let toggle = MessagingCommand::Toggle { platform: s("slack"), state: ToggleState::Off, adapter: some("x") };
    assert_eq!(
        asked(&messaging::plan(&toggle, &None).unwrap()),
        r#"POST messaging/toggle {"platform":"slack","enabled":false,"adapter":"x"}"#
    );
    let done = |success: bool| object(vec![("success", Json::Bool(success)), ("message", text("m"))]);
    assert_eq!(shown(&messaging::report_action(&done(true), "Toggled.").unwrap()), vec!["!m"]);
    assert_eq!(messaging::report_action(&done(false), "Toggled.").unwrap_err(), "m");
    assert_eq!(messaging::report_action(&Json::Null, "Toggled.").unwrap_err(), "Toggled.");
}

#[test]
fn messaging_status_lists_every_platform() {
    let off = || PlatformStatus { configured: false, enabled: false };
    let status = MessagingStatus {
        discord: PlatformStatus { configured: true, enabled: false },
        slack: off(),
        telegram: off(),
        email: off(),
        webhook: off(),
        twitch: off(),
        mattermost: off(),
        signal: off(),
        instances: vec![AdapterInstance {
            platform: s("discord"),
            name: None,
            runtime_key: s("discord"),
            enabled: true,
            binding_count: 2,
        }],
    };
    let lines = shown(&messaging::print_status(&status));
    assert_eq!(lines.len(), 12);
    assert_eq!(lines[1], ">discord     yes         no");
    assert_eq!(lines[9], ">");
    assert_eq!(lines[11], ">discord   default   discord  yes      2");
}

// --- Models ---------------------------------------------------------------

#[test]
fn models_are_listed_and_refreshed() {
    let list = ModelCommand::List { provider: some("openrouter"), capability: None };
    assert_eq!(asked(&model::plan(&list)), "GET models?provider=openrouter");
    assert_eq!(asked(&model::plan(&ModelCommand::Refresh)), "POST models/refresh {}");
    let entry = ModelEntry {
        id: s("m"),
        name: s("M"),
        context_window: Some(1000),
        tool_call: true,
        reasoning: false,
        input_audio: false,
    };
    assert_eq!(shown(&model::print_list(&vec![entry]))[1], ">m   M     1000     yes    no         no");
    assert_eq!(
        shown(&model::print_list(&vec![])),
        vec!["!No models available — configure a provider first."]
    );
    assert_eq!(shown(&model::print_refreshed(3)), vec!["!Model catalog refreshed (3 models)."]);
}

// --- Notifications --------------------------------------------------------

#[test]
fn notifications_are_read_one_or_all() {
    let read = |id: Option<&str>, all: bool| NotificationCommand::Read { id: id.map(str::to_string), all };
    assert_eq!(asked(&notification::plan(&read(Some("n"), false))), "POST notifications/n/read {}");
    assert_eq!(asked(&notification::plan(&read(None, true))), "POST notifications/read_all {}");
    let dismiss = NotificationCommand::Dismiss { id: some("n"), read: false };
    assert_eq!(asked(&notification::plan(&dismiss)), "POST notifications/n/dismiss {}");
    let list = NotificationCommand::List { unread: true, agent: None, kind: some("k"), limit: Some(3), offset: None };
    assert_eq!(asked(&notification::plan(&list)), "GET notifications?filter=unread&kind=k&limit=3");
    assert_eq!(asked(&notification::plan(&NotificationCommand::Count)), "GET notifications/unread_count");
    let entry = NotificationEntry {
        id: s("n"),
        kind: s("k"),
        severity: s("info"),
        agent_id: None,
        title: s("T"),
        read_at: None,
        created_at: s("2026-08-01T10:00:00Z"),
    };
    assert_eq!(
        shown(&notification::print_list(&vec![entry]))[1],
        ">n   k     info      -      T      unread  2026-08-01 10:00"
    );
    assert_eq!(shown(&notification::print_count(4)), vec![">4"]);
    assert_eq!(shown(&notification::print_read(true)), vec!["!All notifications marked as read."]);
    assert_eq!(shown(&notification::print_dismissed(false)), vec!["!Dismissed."]);
}

// --- Projects -------------------------------------------------------------

fn project_entry() -> ProjectEntry {
    ProjectEntry {
        id: s("p"),
        name: s("Proj"),
        status: s("active"),
        root_path: s("/w"),
        description: s("about it"),
        tags: vec![s("a"), s("b")],
        created_at: s("c"),
        updated_at: s("2026-08-01T10:00:00Z"),
    }
}

#[test]
fn projects_need_something_to_update() {
    let update = |name: Option<&str>, tags: Option<Vec<String>>| ProjectCommand::Update {
        id: s("p/1"),
        name: name.map(str::to_string),
        description: None,
        icon: None,
        tags,
        status: None,
    };
    assert_eq!(
        project::plan(&update(None, None)).unwrap_err(),
        "nothing to update — pass at least one field flag"
    );
    assert_eq!(
        asked(&project::plan(&update(Some("N"), Some(vec![]))).unwrap()),
        r#"PUT agents/projects/p%2F1 {"name":"N","tags":[]}"#
    );
    let worktree = ProjectCommand::Worktree(WorktreeCommand::Create {
        project_id: s("p"),
        repo_id: s("r"),
        branch: s("b"),
        name: some("n"),
        start_point: None,
    });
    assert_eq!(
        asked(&project::plan(&worktree).unwrap()),
        r#"POST agents/projects/p/worktrees {"repo_id":"r","branch":"b","worktree_name":"n"}"#
    );
    let repo = ProjectCommand::Repo(RepoCommand::Delete { project_id: s("p"), repo_id: s("r 1") });
    assert_eq!(asked(&project::plan(&repo).unwrap()), "DELETE agents/projects/p/repos/r%201");
    let create = ProjectCommand::Create {
        name: s("N"),
        root_path: s("/w"),
        description: None,
        icon: None,
        tags: vec![],
        no_discover: false,
    };
    assert_eq!(
        asked(&project::plan(&create).unwrap()),
        r#"POST agents/projects {"name":"N","root_path":"/w","auto_discover":true}"#
    );
}

#[test]
fn projects_show_their_repos_and_worktrees() {
    let detail = ProjectDetail {
        project: project_entry(),
        repos: vec![RepoEntry {
            id: s("r"),
            name: s("repo"),
            path: s("."),
            current_branch: None,
            default_branch: s("main"),
            remote_url: s("git"),
        }],
        worktrees: vec![WorktreeEntry {
            id: s("w"),
            name: s("tree"),
            repo_name: s("repo"),
            branch: s("b"),
            path: s("wt"),
        }],
    };
    assert_eq!(
        shown(&project::print_project(&detail)),
        vec![
            ">Name:     Proj",
            ">ID:       p",
            ">Status:   active",
            ">Root:     /w",
            ">About:    about it",
            ">Tags:     a, b",
            ">Created:  c",
            ">Updated:  2026-08-01T10:00:00Z",
            ">",
            ">REPO  PATH  BRANCH  REMOTE  ID",
            ">repo  .     main    git     r",
            ">",
            ">WORKTREE  REPO  BRANCH  PATH  ID",
            ">tree      repo  b       wt    w",
        ]
    );
    assert_eq!(shown(&project::print_list(&vec![project_entry()]))[1], ">Proj  active  /w    2026-08-01 10:00  p");
    assert_eq!(
        shown(&project::print_created("N", "p", false)),
        vec!["!Created project N (p).", "!Scanning root for repos and worktrees in the background."]
    );
    assert_eq!(shown(&project::print_scanned(1, 2)), vec!["!Scan complete: 1 repos, 2 worktrees."]);
    let entry = DiskEntry { name: s("src"), size: s("1.0 KB"), is_dir: true };
    assert_eq!(
        shown(&project::print_disk_usage(&vec![entry], "1.0 KB")),
        vec![">NAME  SIZE    TYPE", ">src   1.0 KB  dir", ">", ">Total: 1.0 KB"]
    );
    assert_eq!(shown(&project::print_repo_added("n", "r")), vec!["!Added repo n (r)."]);
    assert_eq!(shown(&project::print_worktree_created("n", "b", "w")), vec!["!Created worktree n on b (w)."]);
    assert_eq!(shown(&project::print_updated("n")), vec!["!Updated project n."]);
}

// --- Prompts --------------------------------------------------------------

fn block(id: &str, start: usize, end: usize) -> PromptBlock {
    PromptBlock {
        id: s(id),
        layer: BlockLayer::Identity,
        stability: BlockStability::Static,
        source: BlockSource::File,
        start,
        end,
        chars: end - start,
        tokens: 1,
    }
}

fn record(system: &str, blocks: Vec<PromptBlock>) -> PromptRecord {
    PromptRecord {
        request_id: s("r"),
        agent_id: s("main"),
        process: ProcessRef { kind: s("worker"), id: some("w"), process_type: some("coder"), channel_id: None },
        trigger: Trigger { kind: s("task"), message_id: None, input: None, parent: some("p") },
        model: ModelRef { name: s("m"), provider: s("v"), max_tokens: None },
        started_at: Instant { at: 0, nanos: 0 },
        duration_ms: 0,
        system: SystemRef { text: s(system), blocks },
        tools: vec![ToolRef { name: s("shell"), description: s(""), schema: s("{}"), chars: 12 }],
        history_length: 2,
        response: ResponseRef { text: some("done"), tool_calls: vec![s("a"), s("b")], error: None },
        usage: UsageRef { input_tokens: 3, output_tokens: 4, cached_read_tokens: 0, cached_write_tokens: 0 },
    }
}

#[test]
fn prompt_diffs_name_the_changed_blocks() {
    let left = record("aabb", vec![block("soul", 0, 2), block("role", 2, 4)]);
    let right = record("aaccd", vec![block("soul", 0, 2), block("role", 2, 4), block("time", 4, 5)]);
    assert_eq!(
        prompt::diff(&left, &right),
        vec![vec![s("role"), s("changed"), s("2 → 2")], vec![s("time"), s("added"), s("-")]]
    );
    assert_eq!(prompt::diff(&right, &left)[1], vec![s("time"), s("removed"), s("-")]);
    assert!(prompt::diff(&left, &left).is_empty(), "a record equals itself");
    let swapped = record("bbaa", vec![block("role", 0, 2), block("soul", 2, 4)]);
    assert_eq!(prompt::diff(&left, &swapped)[0], vec![s("soul / role"), s("reordered"), s("2 → 2")]);
    let beyond = record("bb", vec![block("role", 7, 9)]);
    assert_eq!(
        prompt::diff(&left, &beyond),
        vec![vec![s("soul / role"), s("reordered"), s("2 → 2")], vec![s("role"), s("removed"), s("-")]],
        "a block that is not compared need not lie in its prompt"
    );
    assert_eq!(shown(&prompt::print_diff(&vec![])), vec![">Block maps are identical."]);
    assert_eq!(
        shown(&prompt::print_diff(&vec![vec![s("time"), s("added"), s("-")]])),
        vec![">BLOCK  CHANGE  CHARS", ">time   added   -"]
    );
}

#[test]
fn prompt_records_are_shown_by_block() {
    let record = record("aabb", vec![block("soul", 0, 1), block("role", 1, 4)]);
    assert_eq!(
        shown(&prompt::print_record(&record, &vec![s("25.0"), s("75.0")], &some("$0.0100"), "[]")),
        vec![
            ">request  r",
            ">process  worker w (coder)",
            ">model    m",
            ">trigger  task",
            ">parent   p",
            ">usage    3 in / 4 out · $0.0100",
            ">",
            ">--- soul [identity·static] 1 ch · ~1 tok · 25.0% ---",
            ">a",
            ">--- role [identity·static] 3 ch · ~1 tok · 75.0% ---",
            ">abb",
            ">\n--- TOOLS (1) ---",
            ">shell                        12 ch",
            ">\n--- MESSAGES (2) ---",
            ">[]",
            ">\n--- RESPONSE ---",
            ">done",
            ">\ntool calls: a, b",
        ]
    );
    assert_eq!(shown(&prompt::print_raw(&record)), vec![">aabb"]);
}

#[test]
fn prompt_capture_is_switched_by_words() {
    assert_eq!(prompt::read_state("enable"), Some(true));
    assert_eq!(prompt::read_state("off"), Some(false));
    assert_eq!(prompt::read_state("maybe"), None);
    let capture = |state: &str| PromptCommand::Capture { state: s(state), retain: Some(7) };
    assert_eq!(
        asked(&prompt::plan(&capture("on")).unwrap()[0]),
        r#"POST prompts/capture {"enabled":true,"retention_days":7}"#
    );
    assert_eq!(prompt::plan(&capture("maybe")).unwrap_err(), "expected `on` or `off`, got `maybe`");
    let diff = prompt::plan(&PromptCommand::Diff { first: s("a b"), second: s("c") }).unwrap();
    assert_eq!(asked(&diff[0]), "GET prompts/get?request_id=a%20b");
    assert_eq!(asked(&diff[1]), "GET prompts/get?request_id=c");
    let kept = object(vec![("retention_days", Json::Number(7))]);
    assert_eq!(shown(&prompt::print_capture(true, &kept)), vec![">Prompt capture on, keeping 7 days"]);
    assert_eq!(shown(&prompt::print_capture(false, &Json::Null)), vec![">Prompt capture off"]);
}

#[test]
fn prompt_listings_show_short_ids() {
    let summary = PromptRequestSummary {
        request_id: s("0123456789"),
        process_kind: s("channel"),
        process_id: None,
        process_type: None,
        channel_id: None,
        message_id: None,
        trigger: None,
        model: s("m"),
        provider: s("v"),
        started_at: Instant { at: 1_785_578_400, nanos: 0 },
        duration_ms: None,
        system_chars: 43,
        history_length: 2,
        tool_count: 3,
        input_tokens: None,
        output_tokens: None,
        cached_tokens: None,
        status: s("ok"),
    };
    assert_eq!(
        shown(&prompt::print_list(&vec![summary], true)),
        vec![
            ">ID        WHEN              PROCESS  TRIGGER  ~SYSTOK  MSGS  TOOLS  MODEL",
            ">01234567  2026-08-01 10:00  channel           10       2     3      m",
        ]
    );
    assert_eq!(shown(&prompt::print_list(&vec![], true)), vec!["!No captured requests match."]);
    assert_eq!(
        shown(&prompt::print_list(&vec![], false)),
        vec!["!Prompt capture is off. Turn it on with `spacebot prompt capture on`."]
    );
}

// --- Providers ------------------------------------------------------------

#[test]
fn providers_are_listed_by_their_ids() {
    let response = object(vec![
        ("providers", object(vec![("open_router", Json::Bool(true)), ("azure", Json::Null)])),
        ("has_any", Json::Bool(false)),
    ]);
    assert_eq!(
        shown(&provider::print_list(&response).unwrap()),
        vec![
            ">PROVIDER     CONFIGURED",
            ">open-router  yes",
            ">azure        no",
            "!",
            "!No providers configured.",
        ]
    );
    assert_eq!(provider::print_list(&Json::Null).unwrap_err(), "unexpected API response shape");
    let put = ProviderCommand::Put {
        provider: s("azure"),
        model: s("azure/x"),
        stdin: true,
        base_url: some("u"),
        api_version: None,
        deployment: None,
    };
    assert_eq!(
        asked(&provider::plan(&put, "key\n")),
        r#"POST providers {"provider":"azure","api_key":"key","model":"azure/x","base_url":"u"}"#
    );
    assert_eq!(asked(&provider::plan(&ProviderCommand::Get { provider: s(" a/b ") }, "")), "GET providers/a%2Fb/config");
    assert_eq!(asked(&provider::plan(&ProviderCommand::Delete { provider: s("x") }, "")), "DELETE providers/x");
    assert_eq!(
        shown(&provider::print_config(true, "Nothing stored.", &None, &None, &None).unwrap()),
        vec![">Nothing stored."]
    );
    assert_eq!(
        shown(&provider::print_config(true, "m", &some("u"), &None, &some("d")).unwrap()),
        vec![">Base URL:     u", ">Deployment:   d"]
    );
    assert_eq!(provider::print_config(false, "m", &None, &None, &None).unwrap_err(), "m");
    assert_eq!(shown(&provider::announce_test("m")), vec!["!Testing m..."]);
    assert_eq!(shown(&provider::print_test(true, "ok", &some("Hi")).unwrap()), vec!["!ok", ">Hi"]);
}

// --- Secrets --------------------------------------------------------------

#[test]
fn secrets_are_saved_with_a_value() {
    let put = || SecretsCommand::Put { name: s("GH/TOKEN"), category: some("tool"), stdin: true };
    assert_eq!(
        asked(&secrets::plan(&put(), Entered::Text(s("v\n"))).unwrap().unwrap()),
        r#"PUT secrets/GH%2FTOKEN {"value":"v","category":"tool"}"#
    );
    assert_eq!(
        secrets::plan(&put(), Entered::Text(s(" \n"))).unwrap_err(),
        "secret value cannot be empty"
    );
    let unlock = SecretsCommand::Unlock { stdin: true };
    assert_eq!(
        asked(&secrets::plan(&unlock, Entered::Text(s(" k \n"))).unwrap().unwrap()),
        r#"POST secrets/unlock {"master_key":"k"}"#
    );
    let typed = SecretsCommand::Unlock { stdin: false };
    assert_eq!(
        asked(&secrets::plan(&typed, Entered::Text(s(" k "))).unwrap().unwrap()),
        r#"POST secrets/unlock {"master_key":" k "}"#
    );
    let backup = |raw: &str| Entered::Backup(s(raw));
    let import = SecretsCommand::Import { input: s("b.json"), overwrite: true };
    assert_eq!(
        asked(&secrets::plan(&import, backup("{\"overwrite\":null,\"secrets\":[]}")).unwrap().unwrap()),
        r#"POST secrets/import {"overwrite":true,"secrets":[]}"#
    );
    assert_eq!(
        asked(&secrets::plan(&import, backup("null")).unwrap().unwrap()),
        r#"POST secrets/import {"overwrite":true}"#
    );
    assert!(secrets::plan(&import, backup("[]")).unwrap().is_none());
    assert_eq!(
        secrets::plan(&import, backup("nul")).unwrap_err(),
        "failed to parse backup file as JSON: EOF while parsing a value at line 1 column 3"
    );
    assert_eq!(
        asked(&secrets::plan_import(object(vec![("v", Json::Number(1))]), false)),
        r#"POST secrets/import {"v":1,"overwrite":false}"#
    );
    assert!(secrets::confirmed(" Y\n"));
    assert!(!secrets::confirmed("yes"));
}

#[test]
fn secrets_are_shown_without_values() {
    assert_eq!(
        shown(&secrets::print_status(&object(vec![
            ("state", text("unlocked")),
            ("encrypted", Json::Bool(true)),
            ("secret_count", Json::Number(3)),
            ("platform_managed", Json::Bool(true)),
        ]))),
        vec![
            ">State:          unlocked",
            ">Encrypted:      true",
            ">Total secrets:  3",
            ">  System:       0",
            ">  Tool:         0",
            ">  Managed by:   platform",
        ]
    );
    let entry = SecretEntry { name: s("A"), category: s("tool"), updated_at: 1_785_578_400 };
    assert_eq!(
        shown(&secrets::print_list(&vec![entry])),
        vec![">NAME  CATEGORY  UPDATED", ">A     tool      2026-08-01 10:00"]
    );
    assert_eq!(
        shown(&secrets::print_info("A", "tool", 1_785_578_400, 1_785_578_461)),
        vec![
            ">Name:     A",
            ">Category: tool",
            ">Created:  2026-08-01 10:00:00",
            ">Updated:  2026-08-01 10:01:01",
        ]
    );
    assert_eq!(
        shown(&secrets::print_saved("A", "tool", true)),
        vec!["!Secret A saved (tool).", "!Note: Reload config or restart for the new value to take effect."]
    );
    assert_eq!(
        shown(&secrets::print_deleted("A", &some("still used"))),
        vec!["!Deleted A.", "!Warning: still used"]
    );
    let moved = MigratedKey { config_key: s("llm.key"), secret_name: s("KEY"), category: s("system") };
    assert_eq!(
        shown(&secrets::print_migrated("Migrated 1.", &vec![moved])),
        vec!["!Migrated 1.", "!  llm.key -> KEY (system)"]
    );
    assert_eq!(shown(&secrets::print_encrypted("k"))[3], "!Master key: k");
    assert_eq!(shown(&secrets::print_message(&Json::Null, "Locked.")), vec!["!Locked."]);
    assert_eq!(
        shown(&secrets::print_imported(&object(vec![("skipped", Json::List(vec![text("A"), Json::Null]))]))),
        vec![
            "!Import complete.",
            "!  A -- kept existing (use --overwrite to replace)",
            "!   -- kept existing (use --overwrite to replace)",
        ]
    );
    assert_eq!(
        shown(&secrets::print_exported(
            &object(vec![("count", Json::Number(2)), ("warning", text("keep it safe"))]),
            "b.json"
        )),
        vec!["!Exported 2 secrets to b.json", "!", "!WARNING: keep it safe"]
    );
    assert_eq!(
        shown(&secrets::print_rotated(&object(vec![("master_key", text("k"))])))[1],
        "!New master key: k"
    );
    assert_eq!(shown(&secrets::warn_rotation()).len(), 2);
}

// --- Skills ---------------------------------------------------------------

fn a_skill(content: &str, source: SkillSource) -> Skill {
    Skill {
        name: s("deploy"),
        description: s("Deploys."),
        file_path: s("/w/deploy/SKILL.md"),
        base_dir: s("/w/deploy"),
        content: s(content),
        source,
        source_repo: None,
        tags: vec![],
        related_skills: vec![],
        linked_files: vec![],
        category: s("general"),
    }
}

fn usage_row(pinned: bool) -> SkillUsageRecord {
    SkillUsageRecord {
        skill_name: s("deploy"),
        created_by: s("user"),
        origin_conversation_id: None,
        state: s("active"),
        pinned,
        read_count: 2,
        patch_count: 0,
        last_read_at: some("t"),
        last_patched_at: None,
        created_at: s("c"),
        archived_at: None,
    }
}

#[test]
fn skills_are_archived_only_where_they_may_be() {
    let workspace = a_skill("c", SkillSource::Workspace);
    let builtin = a_skill("c", SkillSource::Builtin);
    assert_eq!(skill::check_archive(None, &None, "deploy"), some("Skill not found: deploy"));
    assert_eq!(
        skill::check_archive(Some(&builtin), &None, "deploy"),
        some("Only workspace skills can be archived: deploy")
    );
    assert_eq!(
        skill::check_archive(Some(&workspace), &Some(usage_row(true)), "deploy"),
        some("Skill is pinned; unpin it before archiving: deploy")
    );
    assert_eq!(skill::check_archive(Some(&workspace), &Some(usage_row(false)), "deploy"), None);
    assert_eq!(skill::get_agent_config(&vec![s("a"), s("b")], &None).unwrap(), 0);
    assert_eq!(skill::get_agent_config(&vec![s("a"), s("b")], &some("b")).unwrap(), 1);
    assert_eq!(skill::get_agent_config(&vec![s("a")], &some("x")).unwrap_err(), "agent not found: x");
    assert_eq!(skill::get_agent_config(&vec![], &None).unwrap_err(), "no agents configured");
}

#[test]
fn skills_are_shown_with_a_preview() {
    let lines = shown(&skill::print_skill(&a_skill("body", SkillSource::Workspace), &KnownUsage::Record(usage_row(false))));
    assert_eq!(
        lines,
        vec![
            ">Skill: deploy",
            ">Description: Deploys.",
            ">Source: workspace",
            ">Path: /w/deploy/SKILL.md",
            ">Base directory: /w/deploy",
            ">Created by: user",
            ">State: active",
            ">Pinned: false",
            ">Reads: 2 (last: t)",
            ">Patches: 0 (last: never)",
            ">\nContent:\n",
            ">body",
        ]
    );
    let long = a_skill(&"ü".repeat(503), SkillSource::Builtin);
    let lines = shown(&skill::print_skill(&long, &KnownUsage::Unavailable(s("no database"))));
    assert_eq!(lines[5], "!(usage data unavailable: no database)");
    assert_eq!(lines[6], ">\nContent preview (first 500 chars):\n");
    assert_eq!(lines[7], format!(">{}", "ü".repeat(500)));
    assert_eq!(lines[8], ">\n... (3 more characters)");
    let info = SkillInfo {
        name: s("deploy"),
        description: s("Deploys."),
        file_path: s("f"),
        base_dir: s("b"),
        source: SkillSource::Builtin,
        source_repo: None,
        category: s("general"),
    };
    assert_eq!(
        shown(&skill::print_list(&vec![info])),
        vec![">Installed skills (1):\n", ">  deploy (builtin)", ">    Deploys.", ">"]
    );
    assert_eq!(shown(&skill::print_list(&vec![])), vec![">No skills installed"]);
    assert_eq!(
        shown(&skill::print_installed(&vec![s("a")])),
        vec![">\nSuccessfully installed 1 skill(s):", ">  - a"]
    );
    assert_eq!(shown(&skill::print_removed("a", &some("/p"))), vec![">Removed skill: a", ">Path: /p"]);
    assert_eq!(shown(&skill::print_removed("a", &None)), vec!["!Skill not found: a"]);
}

// --- Tasks ----------------------------------------------------------------

fn a_task() -> Task {
    Task {
        task_number: 7,
        title: s("Do it"),
        description: some("All of it"),
        status: TaskStatus::InProgress,
        priority: TaskPriority::High,
        owner_agent_id: s("main"),
        assigned_agent_id: None,
        subtasks: vec![
            TaskSubtask { title: s("one"), completed: true },
            TaskSubtask { title: s("two"), completed: false },
        ],
        created_by: s("human"),
        worker_id: some("w"),
        approved_by: None,
        approved_at: some("2026-08-01T10:00:00Z"),
        completed_at: None,
        created_at: s("2026-08-01T09:00:00Z"),
        updated_at: s("2026-08-01T11:00:00Z"),
        revision: 4,
    }
}

#[test]
fn task_writes_are_marked() {
    let update = |title: Option<&str>, complete_subtask: Option<usize>| TaskCommand::Update {
        number: 7,
        title: title.map(str::to_string),
        description: None,
        status: None,
        priority: None,
        assigned: None,
        complete_subtask,
        summary: some("why"),
        expect: Some(3),
    };
    assert_eq!(
        asked(&task::plan(&update(Some("T"), Some(0))).unwrap()),
        r#"PUT tasks/7 {"source":"cli","title":"T","complete_subtask":0,"edit_summary":"why","expected_revision":3}"#
    );
    assert_eq!(
        task::plan(&update(None, None)).unwrap_err(),
        "nothing to update — pass at least one field flag"
    );
    let create = TaskCommand::Create {
        title: s("T"),
        owner: s("main"),
        assigned: None,
        description: None,
        priority: some("high"),
        subtasks: vec![s("one")],
        created_by: None,
    };
    assert_eq!(
        asked(&task::plan(&create).unwrap()),
        r#"POST tasks {"owner_agent_id":"main","title":"T","source":"cli","priority":"high","subtasks":[{"title":"one","completed":false}]}"#
    );
    let approve = TaskCommand::Approve { number: 7, approved_by: some("me") };
    assert_eq!(
        asked(&task::plan(&approve).unwrap()),
        r#"POST tasks/7/approve {"source":"cli","approved_by":"me"}"#
    );
    let diff = TaskCommand::Diff { number: 7, from: 1, to: Some(2) };
    assert_eq!(asked(&task::plan(&diff).unwrap()), "GET tasks/7/revisions/diff?from=1&to=2");
    let restore = TaskCommand::Restore { number: 7, revision: 2, summary: None, expect: None };
    assert_eq!(
        asked(&task::plan(&task::expecting(restore, 5)).unwrap()),
        r#"POST tasks/7/revisions/2/restore {"expected_revision":5,"source":"cli"}"#
    );
    let pinned = TaskCommand::Restore { number: 7, revision: 2, summary: some("why"), expect: Some(4) };
    assert_eq!(
        asked(&task::plan(&task::expecting(pinned, 5)).unwrap()),
        r#"POST tasks/7/revisions/2/restore {"expected_revision":4,"source":"cli","edit_summary":"why"}"#
    );
}

#[test]
fn tasks_are_shown_in_full() {
    assert_eq!(
        shown(&task::print_task(&a_task())),
        vec![
            ">Number:      #7",
            ">Title:       Do it",
            ">Status:      in_progress",
            ">Priority:    high",
            ">Owner:       main",
            ">Assigned:    -",
            ">Created by:  human",
            ">Revision:    4",
            ">Created:     2026-08-01 09:00",
            ">Updated:     2026-08-01 11:00",
            ">Worker:      w",
            ">Approved:    2026-08-01 10:00 by unknown",
            ">Description: All of it",
            ">Subtasks:",
            ">  [x] one",
            ">  [ ] two",
        ]
    );
    assert_eq!(
        shown(&task::print_list(&vec![a_task()])),
        vec![
            ">#  TITLE  STATUS       PRIORITY  ASSIGNED  UPDATED",
            ">7  Do it  in_progress  high      -         2026-08-01 11:00",
        ]
    );
    assert_eq!(shown(&task::print_list(&vec![])), vec!["!No tasks found."]);
    assert_eq!(shown(&task::print_created(&a_task())), vec!["!Task #7 created (in_progress)."]);
    assert_eq!(shown(&task::print_updated(&a_task())), vec!["!Task #7 updated (in_progress, revision 4)."]);
    assert_eq!(shown(&task::print_assigned(&a_task())), vec!["!Task #7 assigned to -."]);
    assert_eq!(shown(&task::print_executed(&a_task())), vec!["!Task #7 is in_progress."]);
    assert_eq!(shown(&task::print_approved(&a_task())), vec!["!Task #7 approved (in_progress)."]);
    assert_eq!(
        shown(&task::print_restored(7, 2, &a_task())),
        vec!["!Task #7 restored to revision 2, now at revision 4."]
    );
    assert_eq!(shown(&task::print_commented(7, 1)), vec!["!Commented on task #7 (#1)."]);
}

fn revision_summary(restored_from: Option<i64>) -> TaskRevisionSummary {
    TaskRevisionSummary {
        revision: 3,
        author_type: s("human"),
        author_id: None,
        source: s("cli"),
        restored_from,
        edit_summary: some("tidied"),
        created_at: s("2026-08-01T10:00:00Z"),
    }
}

#[test]
fn task_histories_say_what_was_done() {
    let response =
        TaskHistoryResponse { revisions: vec![revision_summary(None), revision_summary(Some(1))], current: 3 };
    assert_eq!(
        shown(&task::print_history(7, &response)),
        vec![
            ">REV  AUTHOR  ID  SOURCE  SUMMARY       WHEN",
            ">3    human   -   cli     tidied        2026-08-01 10:00",
            ">3    human   -   cli     restore of 1  2026-08-01 10:00",
            "!Task #7 is at revision 3.",
        ]
    );
    let comments = TaskCommentListResponse {
        comments: vec![TaskComment {
            seq: 1,
            author_type: s("human"),
            author_id: some("me"),
            created_at: s("2026-08-01T10:00:00Z"),
            body: s("one\ntwo"),
        }],
        total: 4,
    };
    assert_eq!(
        shown(&task::print_comments(7, &comments)),
        vec![
            ">#1 human me · 2026-08-01 10:00",
            ">    one",
            ">    two",
            ">",
            "!1 of 4 comment(s) shown.",
        ]
    );
    let revision = TaskRevision {
        summary: revision_summary(Some(1)),
        snapshot: TaskRevisionSnapshot {
            title: s("T"),
            status: TaskStatus::Ready,
            priority: TaskPriority::Low,
            assigned_agent_id: None,
            description: None,
            subtasks: vec![],
            depends_on: vec![
                TaskRevisionDependency { task: 1, kind: s("gate") },
                TaskRevisionDependency { task: 2, kind: s("soft") },
            ],
        },
    };
    assert_eq!(
        shown(&task::print_revision(&revision)),
        vec![
            ">Revision:    3",
            ">Author:      human -",
            ">Source:      cli",
            ">Restored:    revision 1",
            ">Summary:     tidied",
            ">When:        2026-08-01 10:00",
            ">",
            ">Title:       T",
            ">Status:      ready",
            ">Priority:    low",
            ">Assigned:    -",
            ">Depends on:  #1 (gate), #2 (soft)",
        ]
    );
}

#[test]
fn task_diffs_show_blocks() {
    let diff = TaskRevisionDiff {
        from: 1,
        to: 2,
        changes: vec![TaskFieldChange {
            field: s("description"),
            before: FieldValue::Absent,
            after: FieldValue::Text(s("one\ntwo")),
        }],
    };
    assert_eq!(
        shown(&task::print_diff(7, &diff)),
        vec![
            "!Task #7: revision 1 → 2",
            ">",
            ">description",
            ">  before: -",
            ">  after:",
            ">    one",
            ">    two",
        ]
    );
    let same = TaskRevisionDiff { from: 1, to: 2, changes: vec![] };
    assert_eq!(
        shown(&task::print_diff(7, &same)),
        vec!["!Revisions 1 and 2 of task #7 are materially identical."]
    );
    assert_eq!(task::render_value(&FieldValue::Other(s("[1]"))), "[1]");
}

// --- Updates --------------------------------------------------------------

#[test]
fn updates_are_checked_and_applied() {
    assert_eq!(asked(&update::plan(&UpdateCommand::Check { now: true })), "POST update-check {}");
    assert_eq!(asked(&update::plan(&UpdateCommand::Check { now: false })), "GET update-check");
    let lines = shown(&update::print_check(&object(vec![
        ("current_version", text("1.0.0")),
        ("update_available", Json::Bool(true)),
        ("cannot_apply_reason", text("no socket")),
        ("checked_at", text("2026-08-01T10:00:00Z")),
    ])));
    assert_eq!(
        lines,
        vec![
            ">Current version:  1.0.0",
            ">Latest version:   unknown",
            ">Update available: true",
            ">Deployment:       unknown",
            ">Can apply:        false",
            ">  Reason:         no socket",
            ">Checked at:       2026-08-01 10:00",
        ]
    );
    let failed = object(vec![("status", text("error"))]);
    assert_eq!(update::print_apply(&failed).unwrap_err(), "update failed");
    assert!(update::print_apply(&Json::Null).is_ok());
    let log = object(vec![("content", text("# 1.0\n"))]);
    assert_eq!(shown(&update::print_changelog(&log)), vec!["># 1.0"]);
}

// --- The wiki -------------------------------------------------------------

#[test]
fn wiki_edits_swap_the_whole_content() {
    match wiki::plan_edit("page", "before", "after", &some("why")) {
        Some(request) => assert_eq!(
            asked(&request),
            r#"POST wiki/page/edit {"old_string":"before","new_string":"after","edit_summary":"why"}"#
        ),
        None => panic!("the content changed"),
    }
    assert!(wiki::plan_edit("page", "same", "same", &None).is_none());
    assert_eq!(shown(&wiki::print_unchanged("page")), vec!["!No changes to 'page'."]);
    assert!(matches!(wiki::resolve_content(&some("f"), &some("c")), Ok(ContentSource::File(_))));
    assert!(matches!(wiki::resolve_content(&None, &some("c")), Ok(ContentSource::Given(_))));
    assert_eq!(
        wiki::resolve_content(&None, &None).unwrap_err(),
        "provide page content with --file or --content"
    );
}

#[test]
fn wiki_pages_are_asked_for_and_shown() {
    let get = WikiCommand::Get { slug: s("page"), version: Some(2) };
    assert_eq!(asked(&wiki::plan(&get, "")), "GET wiki/page?version=2");
    let search = WikiCommand::Search { query: s("a b"), page_type: some("entity") };
    assert_eq!(asked(&wiki::plan(&search, "")), "GET wiki/search?query=a%20b&page_type=entity");
    let create = WikiCommand::Create {
        title: s("T"),
        page_type: s("entity"),
        file: None,
        content: None,
        related: vec![s("x")],
        summary: None,
    };
    assert_eq!(
        asked(&wiki::plan(&create, "body")),
        r#"POST wiki {"title":"T","page_type":"entity","content":"body","related":["x"]}"#
    );
    let page = Page {
        slug: s("page"),
        title: s("T"),
        page_type: s("entity"),
        version: 2,
        updated_at: s("2026-08-01T10:00:00Z"),
        updated_by: s("me"),
        content: s("body\n"),
    };
    assert_eq!(
        shown(&wiki::print_page(&page)),
        vec!["!T (entity, v2, updated 2026-08-01 10:00 by me)", ">body"]
    );
    let summary = PageSummary {
        slug: s("page"),
        page_type: s("entity"),
        version: 2,
        updated_at: s("2026-08-01T10:00:00Z"),
        updated_by: s("me"),
    };
    assert_eq!(
        shown(&wiki::print_page_list(&vec![summary]))[1],
        ">page  entity  2        2026-08-01 10:00  me"
    );
    assert_eq!(shown(&wiki::print_changed("Created", "page", 1)), vec!["!Created 'page' (version 1)."]);
    assert_eq!(
        shown(&wiki::print_restored("page", 1, 3)),
        vec!["!Restored 'page' to version 1 (now version 3)."]
    );
    let version = PageVersion { version: 1, created_at: s("2026-08-01T10:00:00Z"), author_id: s("me"), edit_summary: None };
    assert_eq!(
        shown(&wiki::print_history("page", &vec![version])),
        vec![">VERSION  DATE              AUTHOR  SUMMARY", ">1        2026-08-01 10:00  me"]
    );
    assert_eq!(shown(&wiki::print_history("page", &vec![])), vec!["!No history for 'page'."]);
}
