//! Repair of tool histories.
use spacebot::llm::history::{AssistantContent, Message, ToolCall, ToolResult, ToolResultContent, UserContent};
use spacebot::llm::history_repair::{
    call_key, drop_unanswered_tool_calls, repair_orphaned_tool_results, validate_tool_history, MAX_UNTRUSTED_RESULT_CHARS,
};

fn tool_call(id: &str, call_id: Option<&str>) -> Message {
    Message::Assistant {
        id: None,
        content: vec![AssistantContent::ToolCall(ToolCall {
            id: id.to_string(),
            call_id: call_id.map(str::to_string),
            function: 0,
        })],
    }
}

fn tool_result(id: &str, call_id: Option<&str>) -> UserContent {
    tool_result_with(id, call_id, "ok")
}

fn tool_result_with(id: &str, call_id: Option<&str>, body: &str) -> UserContent {
    UserContent::ToolResult(ToolResult {
        id: id.to_string(),
        call_id: call_id.map(str::to_string),
        content: vec![ToolResultContent::Text(body.to_string())],
    })
}

fn results(items: Vec<UserContent>) -> Message {
    Message::User { content: items }
}

fn user(text: &str) -> Message {
    results(vec![UserContent::Text(text.to_string())])
}

fn text_of(message: &Message) -> String {
    let Message::User { content } = message else {
        return String::new();
    };
    content
        .iter()
        .filter_map(|item| match item {
            UserContent::Text(text) => Some(text.clone()),
            _ => None,
        })
        .collect::<Vec<_>>()
        .join("\n")
}

#[test]
fn paired_history_is_left_alone() {
    let history = vec![tool_call("fc_1", Some("call_1")), results(vec![tool_result("call_1", None)])];
    assert!(repair_orphaned_tool_results(&history).is_none());
    assert!(validate_tool_history(&history).is_ok());
}

/// A cut that lands between a call and its result leaves the result at the
/// front of the history with nothing to pair against. The output it carried is
/// preserved as prose rather than thrown away.
#[test]
fn stranded_result_becomes_untrusted_text() {
    let history = vec![
        results(vec![tool_result_with("call_gone", None, "total 48\ndrwxr-xr-x")]),
        user("carry on"),
    ];

    let (repaired, report) = repair_orphaned_tool_results(&history).expect("repair");
    assert_eq!(report.orphan_results, 1);
    assert_eq!(repaired.len(), 2);

    let note = text_of(&repaired[0]);
    assert!(note.contains("UNTRUSTED HISTORICAL TOOL OUTPUT"));
    assert!(note.contains("no matching tool call"));
    assert!(note.contains("call_gone"));
    assert!(note.contains("drwxr-xr-x"), "the output itself survives");

    // Nothing pairs any more, so the request is now valid.
    assert!(validate_tool_history(&repaired).is_ok());
}

/// The shape that took down a live worker: a fork's compaction cut removed the
/// assistant turn holding the first `read_skill` call while its result stayed
/// at the head of the retained history.
#[test]
fn a_forked_worker_history_cut_mid_turn_is_repaired() {
    let history = vec![
        results(vec![tool_result_with(
            "call_HPJ4d0Mb42LJt6JzCqYcwRsq",
            None,
            "# Skill: instance-debugging",
        )]),
        tool_call("fc_next", Some("call_next")),
        results(vec![tool_result("call_next", None)]),
    ];

    assert!(
        validate_tool_history(&history).is_err(),
        "the history a provider rejected must fail validation"
    );

    let (repaired, report) = repair_orphaned_tool_results(&history).expect("repair");
    assert_eq!(report.orphan_results, 1);
    assert_eq!(report.total(), 1, "the intact pair is untouched");
    assert!(validate_tool_history(&repaired).is_ok());
    assert!(text_of(&repaired[0]).contains("instance-debugging"));
}

/// Providers pair on `call_id` when the call carries one, so a result holding
/// that value is claimed even though no `id` matches.
#[test]
fn result_matching_only_the_call_id_survives() {
    let history = vec![tool_call("fc_abc", Some("call_abc")), results(vec![tool_result("call_abc", None)])];
    assert!(repair_orphaned_tool_results(&history).is_none());
}

/// The reverse pairing: the call carries only an `id` and the result carries
/// it as `call_id`.
#[test]
fn result_carrying_the_call_id_field_survives() {
    let history = vec![tool_call("fc_only", None), results(vec![tool_result("unrelated", Some("fc_only"))])];
    assert!(repair_orphaned_tool_results(&history).is_none());
}

/// One parallel call batch, one result of which lost its call: the batch's
/// surviving results stay protocol messages and only the stranded one is
/// rewritten.
#[test]
fn only_the_unclaimed_result_of_a_batch_is_rewritten() {
    let history = vec![
        tool_call("fc_kept", Some("call_kept")),
        results(vec![tool_result("call_kept", None), tool_result("call_gone", None)]),
    ];

    let (repaired, report) = repair_orphaned_tool_results(&history).expect("repair");
    assert_eq!(report.orphan_results, 1);

    let Message::User { content } = &repaired[1] else {
        panic!("expected the result message to survive");
    };
    let kinds: Vec<bool> = content.iter().map(|item| matches!(item, UserContent::ToolResult(_))).collect();
    assert_eq!(kinds, vec![true, false], "one stays a result, one is prose");
}

/// A second result for a call already answered is rejected by providers as
/// firmly as an orphan.
#[test]
fn a_duplicate_result_is_rewritten() {
    let history = vec![
        tool_call("fc_1", Some("call_1")),
        results(vec![tool_result("call_1", None)]),
        results(vec![tool_result("call_1", None)]),
    ];

    let (repaired, report) = repair_orphaned_tool_results(&history).expect("repair");
    assert_eq!(report.duplicate_results, 1);
    assert_eq!(report.orphan_results, 0);
    assert!(validate_tool_history(&repaired).is_ok());
}

/// A result placed at or before its call cannot be paired in order.
#[test]
fn a_stale_result_is_rewritten() {
    let history = vec![results(vec![tool_result("call_1", None)]), tool_call("fc_1", Some("call_1"))];
    let (_, report) = repair_orphaned_tool_results(&history).expect("repair");
    assert_eq!(report.stale_results, 1);
}

/// A turn that mixes a stranded result with real prompt text keeps the text.
#[test]
fn text_in_a_repaired_message_survives() {
    let history = vec![results(vec![
        tool_result("call_gone", None),
        UserContent::Text("what did you find?".to_string()),
    ])];
    let (repaired, report) = repair_orphaned_tool_results(&history).expect("repair");
    assert_eq!(report.orphan_results, 1);
    assert!(text_of(&repaired[0]).contains("what did you find?"));
}

/// Every message is preserved, so a history of nothing but orphans still
/// produces a sendable request instead of an empty one.
#[test]
fn an_orphan_only_history_still_produces_messages() {
    let history = vec![
        results(vec![tool_result("call_gone", None)]),
        results(vec![tool_result("call_also_gone", None)]),
    ];
    let (repaired, report) = repair_orphaned_tool_results(&history).expect("repair");
    assert_eq!(report.orphan_results, 2);
    assert_eq!(repaired.len(), 2);
}

/// Long output is bounded so a repair cannot blow the context it was trimmed
/// to fit.
#[test]
fn a_long_result_is_truncated_in_the_note() {
    let body = "x".repeat(MAX_UNTRUSTED_RESULT_CHARS * 3);
    let history = vec![results(vec![tool_result_with("gone", None, &body)])];
    let (repaired, _) = repair_orphaned_tool_results(&history).expect("repair");
    let note = text_of(&repaired[0]);
    assert!(note.contains("…[truncated]"));
    assert!(note.chars().count() < MAX_UNTRUSTED_RESULT_CHARS + 300);
}

/// An unanswered call mid-history is what Anthropic rejects; the trailing one
/// is a loop still in flight and must survive.
#[test]
fn only_a_non_trailing_unanswered_call_is_dropped() {
    let mut history = vec![
        tool_call("fc_dead", Some("call_dead")),
        user("unrelated turn"),
        tool_call("fc_live", Some("call_live")),
    ];

    let report = drop_unanswered_tool_calls(&mut history);

    assert_eq!(report.unanswered_calls, 1);
    assert_eq!(history.len(), 2, "the emptied assistant message goes too");
    assert!(matches!(history[1], Message::Assistant { .. }));
}

#[test]
fn answered_calls_are_never_dropped() {
    let mut history = vec![
        tool_call("fc_1", Some("call_1")),
        results(vec![tool_result("call_1", None)]),
        user("later"),
    ];

    let report = drop_unanswered_tool_calls(&mut history);

    assert_eq!(report.unanswered_calls, 0);
    assert_eq!(history.len(), 3);
}

#[test]
fn a_repaired_history_needs_no_second_repair() {
    let history = vec![
        results(vec![tool_result("call_gone", None)]),
        tool_call("fc_1", Some("call_1")),
        results(vec![tool_result("call_1", None), tool_result("call_1", None)]),
    ];
    let (repaired, report) = repair_orphaned_tool_results(&history).expect("repair");
    assert!(report.changed());
    assert_eq!(report.total(), 2);
    assert!(repair_orphaned_tool_results(&repaired).is_none());
}

/// One call answered twice, under its `id` and under its `call_id`: the second
/// answer is one too many whichever identifier it comes under.
#[test]
fn a_second_answer_under_the_other_identifier_is_rewritten() {
    for (first, second) in [("fc_1", "call_1"), ("call_1", "fc_1")] {
        let history = vec![
            tool_call("fc_1", Some("call_1")),
            results(vec![tool_result(first, None)]),
            results(vec![tool_result(second, None)]),
        ];
        assert_eq!(
            validate_tool_history(&history).unwrap_err(),
            format!("{second}: call already answered by an earlier result")
        );
        let (repaired, report) = repair_orphaned_tool_results(&history).expect("repair");
        assert_eq!(report.duplicate_results, 1);
        assert_eq!(report.total(), 1);
        assert!(matches!(&repaired[1], Message::User { content } if matches!(content[0], UserContent::ToolResult(_))));
        assert!(text_of(&repaired[2]).contains("call already answered"));
        assert!(validate_tool_history(&repaired).is_ok());
    }
}

/// Two calls of one message that share an `id` are told apart by what
/// providers pair on.
#[test]
fn calls_that_share_an_id_are_told_apart_by_their_call_ids() {
    let call = |call_id: &str| {
        AssistantContent::ToolCall(ToolCall {
            id: "shell".to_string(),
            call_id: Some(call_id.to_string()),
            function: 0,
        })
    };
    let history = vec![
        Message::Assistant { id: None, content: vec![call("call_1"), call("call_2")] },
        results(vec![tool_result("shell", Some("call_1")), tool_result("shell", Some("call_2"))]),
    ];
    assert!(validate_tool_history(&history).is_ok());
    assert!(repair_orphaned_tool_results(&history).is_none());
}

#[test]
fn dropping_a_second_time_drops_nothing() {
    let mut history = vec![
        tool_call("fc_1", Some("call_1")),
        tool_call("fc_2", Some("call_2")),
        results(vec![tool_result("call_2", None)]),
        tool_call("fc_3", None),
        user("go on"),
    ];
    assert_eq!(drop_unanswered_tool_calls(&mut history).unanswered_calls, 1);
    let left = history.len();
    assert_eq!(left, 4);
    assert_eq!(drop_unanswered_tool_calls(&mut history).unanswered_calls, 0);
    assert_eq!(history.len(), left);
}

#[test]
fn a_call_is_known_by_its_call_id_where_it_has_one() {
    let call = |call_id: Option<&str>| ToolCall {
        id: "id".to_string(),
        call_id: call_id.map(String::from),
        function: 0,
    };
    assert_eq!(call_key(&call(Some("call"))), "call");
    assert_eq!(call_key(&call(Some(""))), "id");
    assert_eq!(call_key(&call(None)), "id");
}
