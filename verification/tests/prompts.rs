//! Block maps of prompts, and records of what was sent.
use spacebot::llm::record::{
    days_to_sweep, relative_path, Lookup, ModelRef, ProcessRef, PromptRecord, PromptRecordStore, ResponseRef,
    SystemRef, Trigger, UsageRef,
};
use spacebot::time::Instant;
use spacebot::prompts::blocks::{
    collides_with_sentinels, estimate_tokens, mark, segment, SegmentedPrompt, OPEN,
};

#[test]
fn segments_marked_values_and_template_prose() {
    let instrumented = format!(
        "# Header\n\n{}\n\nMiddle prose\n\n{}\n",
        mark("identity_context", "I am Orion."),
        mark("status_text", "Nothing running."),
    );

    let segmented = segment(&instrumented, "channel");

    assert_eq!(
        segmented.text,
        "# Header\n\nI am Orion.\n\nMiddle prose\n\nNothing running.\n"
    );

    let ids: Vec<&str> = segmented.blocks.iter().map(|b| b.id.as_str()).collect();
    assert_eq!(
        ids,
        [
            "template:channel",
            "identity_context",
            "template:channel",
            "status_text",
            "template:channel",
        ]
    );

    // Every block's range must address its own bytes in the final text.
    for block in &segmented.blocks {
        assert_eq!(block.bytes(), block.end - block.start);
        assert!(block.end <= segmented.text.len());
    }
    let identity = &segmented.blocks[1];
    assert_eq!(&segmented.text[identity.start..identity.end], "I am Orion.");
}

#[test]
fn empty_injection_contributes_no_block() {
    let instrumented = format!("A{}B", mark("status_text", ""));
    let segmented = segment(&instrumented, "channel");

    assert_eq!(segmented.text, "AB");
    assert_eq!(segmented.blocks.len(), 1);
    assert_eq!(segmented.blocks[0].id, "template:channel");
}

#[test]
fn no_block_is_empty() {
    let empty = mark("status_text", "");
    let full = mark("identity_context", "é");
    for instrumented in [String::new(), empty.clone(), format!("{full}{empty}{full}"), format!("a{empty}{full}b")] {
        let mut prompt = segment(&instrumented, "channel");
        prompt.append_section("skills_prompt", "");
        prompt.append_section("skills_prompt", "s");
        prompt.adopt_appended(prompt.text.clone(), "worker_capabilities");
        assert!(prompt.blocks.iter().all(|block| block.start < block.end), "{instrumented:?}");
        assert_eq!(prompt.blocks.last().unwrap().id, "skills_prompt");
    }
}

#[test]
fn ranges_are_byte_exact_for_multibyte_content() {
    let instrumented = format!("→ {} ←", mark("identity_context", "héllo 🌍"));
    let segmented = segment(&instrumented, "channel");

    assert_eq!(segmented.text, "→ héllo 🌍 ←");
    let block = segmented.blocks.iter().find(|b| b.id == "identity_context").expect("identity block");
    assert_eq!(&segmented.text[block.start..block.end], "héllo 🌍");
    assert_eq!(block.chars, "héllo 🌍".chars().count());
}

#[test]
fn blocks_tile_the_prompt_without_gaps() {
    let instrumented = format!("{}\n\n{}", mark("identity_context", "a"), mark("status_text", "b"));
    let segmented = segment(&instrumented, "channel");

    assert_eq!(segmented.text, "a\n\nb");
    let ids: Vec<&str> = segmented.blocks.iter().map(|b| b.id.as_str()).collect();
    assert_eq!(ids, ["identity_context", "template:channel", "status_text"]);

    let mut cursor = 0usize;
    for block in &segmented.blocks {
        assert_eq!(block.start, cursor);
        cursor = block.end;
    }
    assert_eq!(cursor, segmented.text.len());
}

#[test]
fn repeated_variable_yields_one_block_per_occurrence() {
    let instrumented = format!("{} x {}", mark("authority", "A"), mark("authority", "A"));
    let segmented = segment(&instrumented, "channel");

    assert_eq!(segmented.text, "A x A");
    assert_eq!(segmented.blocks.iter().filter(|b| b.id == "authority").count(), 2);
}

/// A prompt with no map must stay unmapped rather than gain a map that starts
/// partway through it: blocks that do not tile the text make every range and
/// proportion downstream describe the wrong bytes.
#[test]
fn appending_to_an_unmapped_prompt_records_no_block() {
    let mut prompt = SegmentedPrompt::from("assembled elsewhere".to_string());
    prompt.append_section("skills_prompt", "## Available Skills");

    assert_eq!(prompt.text, "assembled elsewhere\n\n## Available Skills");
    assert!(prompt.blocks.is_empty(), "a partial map is worse than no map");
}

#[test]
fn appending_after_a_dropped_map_records_no_block() {
    let mut prompt = segment(&mark("identity_context", "a"), "channel");
    assert_eq!(prompt.blocks.len(), 1);

    // A replacement that rewrites mapped bytes drops the map.
    prompt.adopt_appended("rewritten".to_string(), "tool_use_enforcement");
    assert!(prompt.blocks.is_empty());

    prompt.append_section("skills_prompt", "## Available Skills");
    assert!(prompt.blocks.is_empty(), "the map must stay dropped");
}

#[test]
fn detects_sentinel_collision() {
    assert!(collides_with_sentinels(&format!("text{OPEN}")));
    assert!(!collides_with_sentinels("ordinary prompt text"));
}

#[test]
fn appending_to_a_mapped_prompt_extends_the_map() {
    let mut prompt = segment(&mark("identity_context", "a"), "channel");
    prompt.append_section("skills_prompt", "## Available Skills");
    assert_eq!(prompt.text, "a\n\n## Available Skills");
    let last = prompt.blocks.last().expect("a block");
    assert_eq!(last.id, "skills_prompt");
    assert_eq!(last.end, prompt.text.len());
}

#[test]
fn tokens_are_estimated_by_size() {
    assert_eq!(estimate_tokens("abcdefgh"), 2);
}

// Records.

fn record(request_id: &str, channel: &str, message_id: Option<&str>) -> PromptRecord {
    PromptRecord {
        request_id: request_id.to_string(),
        agent_id: "main".to_string(),
        process: ProcessRef {
            kind: "channel".to_string(),
            id: Some(channel.to_string()),
            process_type: None,
            channel_id: Some(channel.to_string()),
        },
        trigger: Trigger {
            kind: "user_message".to_string(),
            message_id: message_id.map(str::to_string),
            input: Some("hello".to_string()),
            parent: None,
        },
        model: ModelRef {
            name: "anthropic/opus".to_string(),
            provider: "anthropic".to_string(),
            max_tokens: None,
        },
        started_at: Instant { at: 1_786_000_000, nanos: 0 },
        duration_ms: 1200,
        system: SystemRef { text: "# Orion\n\nBe useful.".to_string(), blocks: Vec::new() },
        tools: Vec::new(),
        history_length: 2,
        response: ResponseRef { text: None, tool_calls: Vec::new(), error: None },
        usage: UsageRef { input_tokens: 0, output_tokens: 0, cached_read_tokens: 0, cached_write_tokens: 0 },
    }
}

#[test]
fn round_trips_a_record_through_disk_and_index() {
    let mut store = PromptRecordStore::new("/data", true);
    let saved = record("aaaa1111", "telegram:1", Some("m7"));
    let path = store.write(&saved);
    assert_eq!(path, relative_path(saved.started_at.at, "aaaa1111"));

    match store.get("aaaa1111") {
        Lookup::Path(found) => assert_eq!(found, path),
        other => panic!("expected a path, got {other:?}"),
    }

    let listed = store.list(&Some("telegram:1".to_string()), &None, 10);
    assert_eq!(listed.len(), 1);
    assert_eq!(listed[0].summary.system_chars, 19);
}

#[test]
fn resolves_a_unique_id_prefix_and_rejects_an_ambiguous_one() {
    let mut store = PromptRecordStore::new("/data", true);
    store.write(&record("abc123", "telegram:1", None));
    store.write(&record("abc456", "telegram:1", None));
    store.write(&record("zzz999", "telegram:1", None));

    match store.get("zzz") {
        Lookup::Path(path) => assert!(path.ends_with("/zzz999.json")),
        other => panic!("expected a path, got {other:?}"),
    }
    match store.get("abc") {
        Lookup::Ambiguous(reason) => {
            assert_eq!(reason, "request id 'abc' is ambiguous; use more characters");
        }
        other => panic!("an ambiguous prefix must be reported, got {other:?}"),
    }
}

#[test]
fn an_exact_id_is_found_whatever_begins_with_it() {
    let mut store = PromptRecordStore::new("/data", true);
    store.write(&record("abc123", "telegram:1", None));
    store.write(&record("abc", "telegram:1", None));
    for (asked, found) in [("abc", "/abc.json"), ("abc1", "/abc123.json"), ("abc123", "/abc123.json")] {
        match store.get(asked) {
            Lookup::Path(path) => assert!(path.ends_with(found), "{asked}: {path}"),
            other => panic!("{asked}: {other:?}"),
        }
    }
    assert!(matches!(store.get("ab"), Lookup::Ambiguous(_)));
    assert!(matches!(store.get("abd"), Lookup::Missing));
    assert!(matches!(store.get("ab_1"), Lookup::Missing), "a prefix is no pattern");
}

#[test]
fn lists_every_request_for_a_message() {
    let mut store = PromptRecordStore::new("/data", true);
    store.write(&record("r1", "telegram:1", Some("m42")));
    store.write(&record("r2", "telegram:1", Some("m42")));
    store.write(&record("r3", "telegram:1", Some("m43")));

    let found = store.for_message("m42");
    assert_eq!(found.len(), 2);
    assert!(found.iter().all(|row| row.summary.message_id.as_deref() == Some("m42")));
}

#[test]
fn missing_record_is_a_miss_not_an_error() {
    let store = PromptRecordStore::new("/data", true);
    assert!(matches!(store.get("nothing"), Lookup::Missing));
}

#[test]
fn a_record_with_an_error_is_one() {
    let mut failed = record("e1", "telegram:1", None);
    assert_eq!(failed.status(), "ok");
    failed.response.error = Some("boom".to_string());
    assert_eq!(failed.status(), "error");
}

#[test]
fn swept_days_are_those_before_the_cutoff() {
    let cutoff = chrono::DateTime::parse_from_rfc3339("2026-08-10T12:00:00Z").unwrap().timestamp();
    let names: Vec<String> =
        ["2026-08-01", "2026-08-10", "2026-08-11"].iter().map(|name| name.to_string()).collect();
    assert_eq!(days_to_sweep(&names, cutoff), vec!["2026-08-01".to_string()]);
    assert_eq!(relative_path(cutoff, "id"), "prompts/2026-08-10/id.json");
}

#[test]
fn a_sweep_drops_old_rows() {
    let mut store = PromptRecordStore::new("/data", false);
    assert!(!store.is_enabled());
    store.set_enabled(true);
    assert!(store.is_enabled());
    store.write(&record("old", "telegram:1", None));
    let cutoff = Instant { at: 1_786_000_000, nanos: 1 };
    let mut recent = record("recent", "telegram:1", None);
    recent.started_at = cutoff;
    store.write(&recent);
    assert_eq!(store.sweep(cutoff), 1);
    assert!(matches!(store.get("old"), Lookup::Missing));
    assert!(matches!(store.get("recent"), Lookup::Path(_)));
    assert_eq!(store.sweep(Instant { at: i64::MAX, nanos: 0 }), 1);
    assert!(matches!(store.get("recent"), Lookup::Missing));
}

#[test]
fn requests_of_one_second_keep_their_order() {
    let mut store = PromptRecordStore::new("/data", true);
    for (id, nanos) in [("b", 500), ("a", 100), ("c", 900)] {
        let mut saved = record(id, "telegram:1", Some("m"));
        saved.started_at.nanos = nanos;
        store.write(&saved);
    }
    let newest: Vec<String> =
        store.list(&None, &None, 2).into_iter().map(|row| row.summary.request_id).collect();
    assert_eq!(newest, vec!["c".to_string(), "b".to_string()]);
    let oldest: Vec<String> = store.for_message("m").into_iter().map(|row| row.summary.request_id).collect();
    assert_eq!(oldest, vec!["a".to_string(), "b".to_string(), "c".to_string()]);
}

#[test]
fn blocks_that_are_not_prose_are_the_injected_values() {
    let values = [("identity_context", "Orion"), ("skills_prompt", ""), ("active_goals", "é →"), ("x", "Orion")];
    let mut instrumented = "# Head\n".to_string();
    for (name, value) in values {
        instrumented.push_str(&mark(name, value));
        instrumented.push_str(" and ");
    }
    let prompt = segment(&instrumented, "channel");
    let found: Vec<(&str, &str)> = prompt
        .blocks
        .iter()
        .filter(|block| block.id != "template:channel")
        .map(|block| (block.id.as_str(), &prompt.text[block.start..block.end]))
        .collect();
    assert_eq!(found, vec![("identity_context", "Orion"), ("active_goals", "é →"), ("x", "Orion")]);
    assert_eq!(prompt.text, "# Head\nOrion and  and é → and Orion and ");
}
