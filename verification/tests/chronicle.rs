//! Session chronicles: the store, the cuts and the view.
use spacebot::agent::chronicle::{
    build_cut_prompt, check_and_chronicle, checkpoint_event, covered_by_emergency, cut_checkpoint, drop_oldest_half, due_action, emergency_cut,
    inherits_summary, kind_of, parse_checkpoint_response, plan_cut, range_title, render_log_transcript, rolling_summary_head, span_title, story_line, summarize,
    transcript_line, trim_live_history, unsummarized_notice, Attempt, ChronicleAction, ContextPressure, CutDecision,
    WriteUp, MAX_TITLE_CHARS,
};
use spacebot::agent::chronicle_view::{
    compose_entries, compose_view, render_age, render_chronicle_view, render_entry, ChronicleConfig, ViewEntry,
};
use spacebot::conversation::chronicle::{
    sql_timestamp, CheckpointKind, ChronicleBoundary, ChronicleCheckpoint, ChronicleStats, ChronicleStore,
    CommitOutcome, NewCheckpoint,
};
use spacebot::conversation::history::ConversationMessage;
use spacebot::llm::history::{AssistantContent, Message, UserContent};

fn at(value: &str) -> i64 {
    chrono::DateTime::parse_from_rfc3339(value).unwrap().timestamp()
}

fn config() -> ChronicleConfig {
    ChronicleConfig {
        interval_messages: 40,
        max_messages_per_checkpoint: 200,
        recent_window_hours: 24,
        max_recent: 12,
        max_older: 12,
        context_token_budget: 4000,
    }
}

fn checkpoint(seq: i64, title: &str, summary: &str) -> ChronicleCheckpoint {
    let at = at("2026-08-01T00:00:00Z");
    ChronicleCheckpoint {
        id: format!("cp-{seq}"),
        channel_id: "ch".to_string(),
        seq,
        level: 0,
        kind: CheckpointKind::Interval,
        title: title.to_string(),
        summary: summary.to_string(),
        covers_from_at: at,
        covers_to_at: at,
        covers_from_message_id: None,
        covers_to_message_id: Some(format!("m{seq}")),
        message_count: 10,
        token_estimate: 20,
        rolled_up_into: None,
        rolls_up_from_seq: None,
        rolls_up_to_seq: None,
        model: None,
        created_at: at,
    }
}

fn stats() -> ChronicleStats {
    ChronicleStats {
        checkpoint_count: 3,
        interval_count: 3,
        rollup_count: 0,
        total_messages: 120,
        first_message_at: Some(at("2026-07-01T00:00:00Z")),
        last_message_at: Some(at("2026-08-01T00:00:00Z")),
        unsummarized_messages: 7,
    }
}

#[test]
fn view_header_reports_session_shape() {
    let view = compose_view(&stats(), &vec![], &vec![checkpoint(1, "First", "stuff")], 4000);
    assert!(view.contains("120 messages logged"));
    assert!(view.contains("3 checkpoints"));
    assert!(view.contains("7 messages since the last checkpoint"));
    assert!(view.contains("#1 First"));
}

#[test]
fn view_collapses_oldest_first_under_budget() {
    let body = "x".repeat(2000);
    let entries: Vec<ChronicleCheckpoint> =
        (1..=4).map(|seq| checkpoint(seq, &format!("Span {seq}"), &body)).collect();

    let full = compose_view(&stats(), &vec![], &entries, 100_000);
    assert!(full.contains(&body), "an ample budget keeps every body");

    let squeezed = compose_view(&stats(), &vec![], &entries, 400);
    assert!(
        squeezed.contains("#1 Span 1") && squeezed.contains("collapsed"),
        "the oldest entry collapses first"
    );
    assert!(
        squeezed.contains("#4 Span 4"),
        "every checkpoint stays listed even when collapsed"
    );
    assert!(squeezed.contains("messages logged"), "the header never collapses");
    assert_eq!(entries.len(), 4);
}

#[test]
fn view_budget_is_monotone() {
    let body = "y".repeat(1200);
    let entries: Vec<ChronicleCheckpoint> =
        (1..=5).map(|seq| checkpoint(seq, &format!("Span {seq}"), &body)).collect();

    let mut previous = usize::MAX;
    for budget in [200usize, 800, 2000, 8000, 40_000] {
        let rendered = compose_view(&stats(), &vec![], &entries, budget);
        let collapsed = rendered.matches("collapsed").count();
        assert!(collapsed <= previous, "a larger budget must not collapse more entries");
        previous = collapsed;
    }
}

#[test]
fn parse_response_splits_title_from_body() {
    let (title, summary) = parse_checkpoint_response("TITLE: Shipping the parser\n\nThey fixed the lexer.");
    assert_eq!(title.as_deref(), Some("Shipping the parser"));
    assert_eq!(summary, "They fixed the lexer.");
}

#[test]
fn parse_response_without_title_keeps_whole_body() {
    let (title, summary) = parse_checkpoint_response("They fixed the lexer.\nThen shipped.");
    assert!(title.is_none());
    assert_eq!(summary, "They fixed the lexer.\nThen shipped.");
}

#[test]
fn parse_response_rejects_title_without_body() {
    let (title, summary) = parse_checkpoint_response("TITLE: Just a title");
    assert!(title.is_none(), "a title with no body is not a valid split");
    assert_eq!(summary, "TITLE: Just a title");
}

#[test]
fn long_titles_are_truncated() {
    let long = "word ".repeat(40);
    let (title, _) = parse_checkpoint_response(&format!("TITLE: {long}\n\nbody"));
    let title = title.expect("title parsed");
    assert!(title.chars().count() <= MAX_TITLE_CHARS);
    assert!(title.ends_with('…'));
}

fn said(id: &str, content: &str, when: &str) -> ConversationMessage {
    ConversationMessage {
        id: id.to_string(),
        channel_id: "ch".to_string(),
        role: "user".to_string(),
        sender_name: Some("jamie".to_string()),
        sender_id: Some("u1".to_string()),
        content: content.to_string(),
        metadata: None,
        created_at: at(when),
    }
}

#[test]
fn transcript_render_includes_sender_and_time() {
    let rendered = render_log_transcript(&vec![said("m1", "ship it", "2026-08-01T10:11:12Z")]);
    assert!(rendered.contains("2026-08-01 10:11:12"));
    assert!(rendered.contains("jamie"));
    assert!(rendered.contains("ship it"));
}

#[test]
fn cut_prompt_marks_prior_checkpoints_as_context_only() {
    let narrative = vec![checkpoint(1, "Earlier", "earlier things")];
    let prompt = build_cut_prompt(CheckpointKind::Interval, &vec![], &narrative);
    assert!(prompt.contains("Story so far"));
    assert!(prompt.contains("Do not restate them"));
    assert!(prompt.contains("New span to summarize"));
}

#[test]
fn bootstrap_prompt_warns_about_truncated_past() {
    let prompt = build_cut_prompt(CheckpointKind::Bootstrap, &vec![], &vec![]);
    assert!(prompt.contains("entering chronicle mode with existing history"));
}

fn log_message(store: &mut ChronicleStore, channel: &str, id: &str, when: &str) {
    let mut message = said(id, "hello", when);
    message.channel_id = channel.to_string();
    assert!(store.log(message));
}

fn store_with_two_checkpoints() -> ChronicleStore {
    let mut store = ChronicleStore::new();
    for index in 0..6 {
        log_message(&mut store, "ch", &format!("m{index}"), &format!("2026-08-01T00:00:0{index}Z"));
    }
    let mut from = ChronicleBoundary::origin(at("2026-08-01T00:00:00Z"));
    for (seq, (to_at, to_id)) in
        [("2026-08-01T00:00:02Z", "m2"), ("2026-08-01T00:00:05Z", "m5")].iter().enumerate()
    {
        let to = ChronicleBoundary::new(at(to_at), Some((*to_id).to_string()));
        let outcome = store.commit(
            NewCheckpoint {
                channel_id: "ch".to_string(),
                level: 0,
                kind: CheckpointKind::Interval,
                title: format!("Span {}", seq + 1),
                summary: format!("Summary of span {}", seq + 1),
                covers_from: from.clone(),
                covers_to: to.clone(),
                message_count: 3,
                token_estimate: 5,
                rolls_up_from_seq: None,
                rolls_up_to_seq: None,
                model: None,
            },
            format!("cp-{}", seq + 1),
            at("2026-08-01T00:10:00Z"),
        );
        assert!(matches!(outcome, CommitOutcome::Committed(_)));
        from = to;
    }
    store
}

/// The view is a pure function of durable state, so a process that lost every
/// in-memory structure renders exactly what the running one did.
#[test]
fn view_is_reproducible_from_durable_state_alone() {
    let store = store_with_two_checkpoints();
    let now = at("2026-08-01T01:00:00Z");
    let before_restart = render_chronicle_view(&store, "ch", now, &config()).expect("a chronicle exists");

    // Restart: nothing survives but the rows.
    let reopened = ChronicleStore {
        checkpoints: store.checkpoints.iter().map(|row| row.clone()).collect(),
        messages: store.messages.iter().map(|row| row.clone()).collect(),
    };
    let after_restart = render_chronicle_view(&reopened, "ch", now, &config()).expect("a chronicle exists");

    assert_eq!(before_restart, after_restart);
    assert!(before_restart.contains("#1 Span 1"));
    assert!(before_restart.contains("#2 Span 2"));
}

#[test]
fn view_is_absent_before_the_first_checkpoint() {
    let store = store_with_two_checkpoints();
    let now = at("2026-08-01T01:00:00Z");
    assert!(render_chronicle_view(&store, "empty-channel", now, &config()).is_none());
}

/// Emergency truncation must not stamp "not summarized" on messages that are
/// still in live context: doing so would advance the boundary past them and
/// rob the next interval cut of the chance to summarize them.
#[test]
fn emergency_coverage_excludes_messages_still_in_live_context() {
    // 20 logged messages uncovered, 12 still live after the drain.
    let logged = 20usize;
    let retained_live = 12usize;
    let covered = covered_by_emergency(logged, retained_live);
    assert_eq!(covered, 8, "only the discarded span is covered");

    // When the log has not caught up with the live history, nothing is safely
    // coverable and the cut is skipped rather than over-reaching.
    let lagging_log = 9usize;
    assert_eq!(covered_by_emergency(lagging_log, retained_live), 0);
}

/// Checkpoints outside the recent window still appear, so a session that went
/// quiet for a week does not lose its older entries from the index.
#[test]
fn view_includes_older_checkpoints_outside_the_recent_window() {
    let store = store_with_two_checkpoints();
    let now = at("2026-09-01T00:00:00Z");
    let view = render_chronicle_view(&store, "ch", now, &config()).expect("a chronicle exists");
    assert!(view.contains("#1 Span 1"));
    assert!(view.contains("#2 Span 2"));
}

// The store.

fn boundary(when: &str, id: Option<&str>) -> ChronicleBoundary {
    ChronicleBoundary::new(at(when), id.map(String::from))
}

fn new_checkpoint(channel: &str, from: ChronicleBoundary, to: ChronicleBoundary, count: i64) -> NewCheckpoint {
    NewCheckpoint {
        channel_id: channel.to_string(),
        level: 0,
        kind: CheckpointKind::Interval,
        title: "a span".to_string(),
        summary: "things happened".to_string(),
        covers_from: from,
        covers_to: to,
        message_count: count,
        token_estimate: 10,
        rolls_up_from_seq: None,
        rolls_up_to_seq: None,
        model: Some("test-model".to_string()),
    }
}

fn committed(outcome: CommitOutcome) -> ChronicleCheckpoint {
    match outcome {
        CommitOutcome::Committed(row) => *row,
        other => panic!("expected commit, got {other:?}"),
    }
}

#[test]
fn commits_allocate_sequential_boundaries_with_no_gap() {
    let mut store = ChronicleStore::new();
    let first = committed(store.commit(
        new_checkpoint(
            "ch",
            boundary("2026-08-01T00:00:00Z", None),
            boundary("2026-08-01T01:00:00Z", Some("m10")),
            10,
        ),
        "a".to_string(),
        0,
    ));
    assert_eq!(first.seq, 1);

    let second = committed(store.commit(
        new_checkpoint("ch", first.end_boundary(), boundary("2026-08-01T02:00:00Z", Some("m20")), 10),
        "b".to_string(),
        0,
    ));
    assert_eq!(second.seq, 2);
    assert_eq!(
        second.covers_from_message_id, first.covers_to_message_id,
        "checkpoint N starts exactly where N-1 ended"
    );
}

#[test]
fn stale_cut_is_superseded_and_writes_nothing() {
    let mut store = ChronicleStore::new();
    let first = committed(store.commit(
        new_checkpoint(
            "ch",
            boundary("2026-08-01T00:00:00Z", None),
            boundary("2026-08-01T01:00:00Z", Some("m10")),
            10,
        ),
        "a".to_string(),
        0,
    ));

    // A cut that started before `first` landed still carries the old start.
    let outcome = store.commit(
        new_checkpoint(
            "ch",
            boundary("2026-08-01T00:00:00Z", None),
            boundary("2026-08-01T00:30:00Z", Some("m5")),
            5,
        ),
        "b".to_string(),
        0,
    );

    assert!(matches!(outcome, CommitOutcome::Superseded { .. }));
    let all = store.list("ch", 0, 10);
    assert_eq!(all.len(), 1);
    assert_eq!(all[0].id, first.id);
}

#[test]
fn duplicate_commit_yields_one_row() {
    let mut store = ChronicleStore::new();
    let cut = || {
        new_checkpoint(
            "ch",
            boundary("2026-08-01T00:00:00Z", None),
            boundary("2026-08-01T01:00:00Z", Some("m10")),
            10,
        )
    };
    let first = store.commit(cut(), "a".to_string(), 0);
    assert!(matches!(first, CommitOutcome::Committed(_)));

    // A retry of the same cut no longer joins the tail it did before.
    let second = store.commit(cut(), "b".to_string(), 0);
    assert!(matches!(second, CommitOutcome::Superseded { .. }));
    assert_eq!(store.list("ch", 0, 10).len(), 1);
}

#[test]
fn boundary_selection_orders_same_second_messages_by_id() {
    let mut store = ChronicleStore::new();
    // Three messages sharing a second: the ordering key has to break the tie
    // the same way for counting and for expansion.
    log_message(&mut store, "ch", "m-a", "2026-08-01T00:00:00Z");
    log_message(&mut store, "ch", "m-b", "2026-08-01T00:00:00Z");
    log_message(&mut store, "ch", "m-c", "2026-08-01T00:00:00Z");
    log_message(&mut store, "ch", "m-d", "2026-08-01T00:00:05Z");

    let after_b = boundary("2026-08-01T00:00:00Z", Some("m-b"));
    assert_eq!(store.count_messages_after("ch", &after_b), 2, "m-c and m-d follow m-b");

    let messages = store.messages_after("ch", &after_b, 10);
    let ids: Vec<&str> = messages.iter().map(|m| m.id.as_str()).collect();
    assert_eq!(ids, vec!["m-c", "m-d"]);
}

#[test]
fn open_start_boundary_selects_everything() {
    let mut store = ChronicleStore::new();
    log_message(&mut store, "ch", "m-a", "2026-08-01T00:00:00Z");
    log_message(&mut store, "ch", "m-b", "2026-08-01T00:00:01Z");

    let origin = ChronicleBoundary::origin(at("2026-08-01T00:00:00Z"));
    assert_eq!(store.count_messages_after("ch", &origin), 2);
}

#[test]
fn range_selection_is_half_open_and_contiguous() {
    let mut store = ChronicleStore::new();
    for (index, id) in ["m1", "m2", "m3", "m4", "m5"].iter().enumerate() {
        log_message(&mut store, "ch", id, &format!("2026-08-01T00:00:0{index}Z"));
    }

    let first_range = (
        ChronicleBoundary::origin(at("2026-08-01T00:00:00Z")),
        boundary("2026-08-01T00:00:02Z", Some("m3")),
    );
    let second_range = (first_range.1.clone(), boundary("2026-08-01T00:00:04Z", Some("m5")));

    let first = store.messages_in_range("ch", &first_range.0, &first_range.1, 100);
    let second = store.messages_in_range("ch", &second_range.0, &second_range.1, 100);

    let first_ids: Vec<&str> = first.iter().map(|m| m.id.as_str()).collect();
    let second_ids: Vec<&str> = second.iter().map(|m| m.id.as_str()).collect();
    assert_eq!(first_ids, vec!["m1", "m2", "m3"]);
    assert_eq!(second_ids, vec!["m4", "m5"]);
    assert!(first_ids.iter().all(|id| !second_ids.contains(id)), "ranges must not overlap");
}

#[test]
fn adjoining_ranges_join_to_the_range_of_both() {
    let mut store = ChronicleStore::new();
    for (index, id) in ["m1", "m2", "m3", "m4", "m5"].iter().enumerate() {
        log_message(&mut store, "ch", id, &format!("2026-08-01T00:00:0{}Z", index / 2));
    }
    let from = ChronicleBoundary::origin(at("2026-08-01T00:00:00Z"));
    let middle = boundary("2026-08-01T00:00:01Z", Some("m3"));
    let to = boundary("2026-08-01T00:00:02Z", Some("m5"));
    let ids = |from: &ChronicleBoundary, to: &ChronicleBoundary| -> Vec<String> {
        store.messages_in_range("ch", from, to, -1).into_iter().map(|m| m.id).collect()
    };
    assert_eq!([ids(&from, &middle), ids(&middle, &to)].concat(), ids(&from, &to));
    assert_eq!(ids(&from, &middle), vec!["m1", "m2", "m3"]);
}

#[test]
fn numbers_count_the_checkpoints_of_the_channel() {
    let mut store = store_with_two_checkpoints();
    let other = committed(store.commit(
        new_checkpoint("else", boundary("2026-08-01T00:00:00Z", None), boundary("2026-08-01T01:00:00Z", Some("x")), 1),
        "e".to_string(),
        0,
    ));
    assert_eq!(other.seq, 1);
    let third = committed(store.commit(
        new_checkpoint("ch", boundary("2026-08-01T00:00:05Z", Some("m5")), boundary("2026-08-01T01:00:00Z", Some("m9")), 1),
        "c".to_string(),
        0,
    ));
    assert_eq!(third.seq, 3);
}

#[test]
fn stats_report_unsummarized_tail() {
    let mut store = ChronicleStore::new();
    for (index, id) in ["m1", "m2", "m3", "m4"].iter().enumerate() {
        log_message(&mut store, "ch", id, &format!("2026-08-01T00:00:0{index}Z"));
    }

    let empty = store.stats("ch");
    assert_eq!(empty.checkpoint_count, 0);
    assert_eq!(empty.unsummarized_messages, 4);

    let outcome = store.commit(
        new_checkpoint(
            "ch",
            ChronicleBoundary::origin(at("2026-08-01T00:00:00Z")),
            boundary("2026-08-01T00:00:02Z", Some("m3")),
            3,
        ),
        "a".to_string(),
        0,
    );
    assert!(matches!(outcome, CommitOutcome::Committed(_)));

    let stats = store.stats("ch");
    assert_eq!(stats.checkpoint_count, 1);
    assert_eq!(stats.interval_count, 1);
    assert_eq!(stats.total_messages, 4);
    assert_eq!(stats.unsummarized_messages, 1);
}

// Decisions.

fn calm() -> ContextPressure {
    ContextPressure { emergency: false, background: false, interval: false }
}

#[test]
fn a_first_cut_over_a_large_backlog_is_a_bootstrap() {
    assert_eq!(due_action(true, 201, calm(), &config()), Some(ChronicleAction::Bootstrap));
    assert_eq!(due_action(true, 45, calm(), &config()), Some(ChronicleAction::Interval));
    assert_eq!(due_action(false, 5, calm(), &config()), None);
}

#[test]
fn an_emergency_truncates() {
    let store = store_with_two_checkpoints();
    let pressure = ContextPressure { emergency: true, background: false, interval: false };
    assert!(matches!(
        check_and_chronicle(&store, "ch", &config(), pressure, false),
        CutDecision::Truncate
    ));
    assert!(matches!(check_and_chronicle(&store, "ch", &config(), calm(), false), CutDecision::Idle));
}

#[test]
fn an_emergency_drops_the_oldest_half() {
    let mut history: Vec<u32> = (0..10).collect();
    let mut generation = 3u64;
    let removed = drop_oldest_half(&mut history, &mut generation);
    assert_eq!(removed + history.len(), 10);
    assert_eq!(history.last(), Some(&9));
    assert_eq!(generation, 4);
}

#[test]
fn an_emergency_cut_covers_what_left_the_context() {
    let mut store = ChronicleStore::new();
    for index in 0..6 {
        log_message(&mut store, "ch", &format!("m{index}"), &format!("2026-08-01T00:00:0{index}Z"));
    }
    let cut = emergency_cut(&store, "ch", 200, 4, 2).expect("something left the context");
    assert_eq!(cut.kind, CheckpointKind::Emergency);
    assert_eq!(cut.message_count, 4);
    assert_eq!(cut.covers_to.message_id.as_deref(), Some("m3"));
    assert!(emergency_cut(&store, "ch", 200, 4, 6).is_none());
}

#[test]
fn a_trim_keeps_what_is_uncovered() {
    let mut live: Vec<u32> = (0..30).collect();
    let mut generation = 1u64;
    let removed = trim_live_history(&mut live, &mut generation, 1, 20);
    assert_eq!(removed + live.len(), 30);
    assert!(live.len() >= 20);
    assert_eq!(live.last(), Some(&29));

    let mut other: Vec<u32> = (0..30).collect();
    let mut later = 2u64;
    assert_eq!(trim_live_history(&mut other, &mut later, 1, 20), 0, "the history was cut meanwhile");
}

#[test]
fn failed_cuts_say_that_nothing_was_summarized() {
    let up = summarize(CheckpointKind::Interval, None, "a title".to_string(), 3, Attempt::Failed);
    assert_eq!(up.title, "a title");
    assert_eq!(up.summary, unsummarized_notice(3));
    assert!(up.model.is_none());
    let good = summarize(
        CheckpointKind::Interval,
        None,
        "a title".to_string(),
        3,
        Attempt::Answered("a-model".to_string(), "TITLE: Better\n\nBody.".to_string()),
    );
    assert_eq!(good.title, "Better");
    assert_eq!(good.summary, "Body.");
    assert_eq!(good.model.as_deref(), Some("a-model"));
}

#[test]
fn instants_are_written_in_utc() {
    assert_eq!(sql_timestamp(at("2026-08-01T10:11:12Z")), "2026-08-01 10:11:12");
    let messages = vec![said("a", "x", "2026-08-01T10:11:12Z"), said("b", "y", "2026-08-01T11:00:00Z")];
    let title = range_title(&messages);
    assert!(title.contains("2026-08-01"));
    assert!(!span_title("from", "to").is_empty());
    assert!(transcript_line("stamp", &messages[0]).contains("jamie"));
    assert!(story_line("t", "a", "b", "s").contains('t'));
}

#[test]
fn entries_collapse_to_a_line() {
    let entry = ViewEntry {
        seq: 1,
        title: "Span".to_string(),
        from: "a".to_string(),
        to: "b".to_string(),
        message_count: 3,
        kind: CheckpointKind::Interval,
        summary: "the body".to_string(),
    };
    assert!(render_entry(&entry, false).contains("the body"));
    assert!(!render_entry(&entry, true).contains("the body"));
    assert!(compose_entries("head", &vec![entry], 1).starts_with("head"));
    assert!(!render_age("a", "b", 31).is_empty());
}

#[test]
fn kinds_read_back_from_their_names() {
    for kind in [
        CheckpointKind::Interval,
        CheckpointKind::Bootstrap,
        CheckpointKind::Pressure,
        CheckpointKind::Emergency,
        CheckpointKind::Rollup,
    ] {
        assert_eq!(CheckpointKind::from_db(kind.as_str()), kind);
    }
    assert_eq!(CheckpointKind::from_db("anything"), CheckpointKind::Interval);
}

#[test]
fn a_cut_covers_what_follows_the_boundary() {
    let store = store_with_two_checkpoints();
    let from = boundary("2026-08-01T00:00:01Z", Some("m1"));
    let plan = plan_cut(&store, "ch", &from, 3).expect("messages follow");
    let ids: Vec<&str> = plan.messages.iter().map(|message| message.id.as_str()).collect();
    assert_eq!(ids, vec!["m2", "m3", "m4"]);
    assert_eq!(plan.to.message_id.as_deref(), Some("m4"));
    let told: Vec<i64> = plan.narrative.iter().map(|row| row.seq).collect();
    assert_eq!(told, vec![2, 1], "the newest checkpoints come first");

    let up = WriteUp { title: "T".to_string(), summary: "12345678".to_string(), model: Some("m".to_string()) };
    let new = cut_checkpoint("ch", CheckpointKind::Interval, from, &plan, up);
    assert_eq!((new.message_count, new.token_estimate, new.level), (3, 2, 0));
    assert_eq!(new.covers_from.message_id.as_deref(), Some("m1"));
    assert_eq!(new.covers_to.message_id.as_deref(), Some("m4"));

    let end = boundary("2026-08-01T00:00:05Z", Some("m5"));
    assert!(plan_cut(&store, "ch", &end, 3).is_none());
}

#[test]
fn actions_name_the_kind_of_their_checkpoint() {
    assert_eq!(kind_of(ChronicleAction::Bootstrap), CheckpointKind::Bootstrap);
    assert_eq!(kind_of(ChronicleAction::Interval), CheckpointKind::Interval);
    assert_eq!(kind_of(ChronicleAction::Pressure), CheckpointKind::Pressure);
    assert_eq!(kind_of(ChronicleAction::Emergency), CheckpointKind::Emergency);
}

fn user(text: &str) -> Message {
    Message::User { content: vec![UserContent::Text(text.to_string())] }
}

#[test]
fn only_a_bootstrap_inherits_the_rolling_summary() {
    let head = rolling_summary_head(&vec![user("[Compaction Summary]:   earlier talk \n")]);
    assert_eq!(head.as_deref(), Some("earlier talk"));
    assert!(rolling_summary_head(&vec![user("hello"), user("[Compaction Summary]: late")]).is_none());
    let assistant = Message::Assistant {
        id: None,
        content: vec![AssistantContent::Text("[Compaction Summary]: x".to_string())],
    };
    assert!(rolling_summary_head(&vec![assistant]).is_none());
    assert!(rolling_summary_head(&vec![]).is_none());

    assert!(inherits_summary(CheckpointKind::Bootstrap, &head));
    assert!(!inherits_summary(CheckpointKind::Interval, &head));
    assert!(!inherits_summary(CheckpointKind::Bootstrap, &None));
}

#[test]
fn a_checkpoint_is_announced_as_it_was_committed() {
    let event = checkpoint_event(&checkpoint(3, "Third", "body"));
    assert_eq!((event.checkpoint_id.as_str(), event.seq, event.kind.as_str()), ("cp-3", 3, "interval"));
    assert_eq!(event.covers_from, "2026-08-01T00:00:00+00:00");
    assert_eq!(event.created_at, "2026-08-01T00:00:00+00:00");
    assert_eq!(event.message_count, 10);
}

#[test]
fn checkpoints_are_found_in_their_channel() {
    let store = store_with_two_checkpoints();
    assert_eq!(store.get_by_seq("ch", 2).map(|row| row.title).as_deref(), Some("Span 2"));
    assert!(store.get_by_seq("ch", 3).is_none());
    assert!(store.get_by_seq("other", 2).is_none());
    assert_eq!(store.get_by_id("ch", "cp-1").map(|row| row.seq), Some(1));
    assert!(store.get_by_id("other", "cp-1").is_none());
}

#[test]
fn the_timeline_lists_the_newest_checkpoints() {
    let store = store_with_two_checkpoints();
    let all: Vec<i64> = store.list_for_timeline("ch", 10, None).iter().map(|row| row.seq).collect();
    assert_eq!(all.len(), 2);
    assert_eq!(store.list_for_timeline("ch", 1, None).len(), 1);
    assert!(store.list_for_timeline("ch", 10, Some(at("2026-08-01T00:10:00Z"))).is_empty());
    assert_eq!(store.list_for_timeline("ch", 10, Some(at("2026-08-01T00:10:01Z"))).len(), 2);
}
