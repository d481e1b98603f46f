//! The memory store's view, and consolidation.
use spacebot::memory::consolidation::{
    check_save, execute_batch, merge_rows, BatchError, ConsolidateOp, ConsolidationState, MemoryRow, OpOutcome, SimilarMemory,
};
use spacebot::memory::render::{first_line, render_active_tasks, render_memory_store, Section, StoredMemory, StoredSection};
use spacebot::memory::MemoryType;
use spacebot::table::Table;
use spacebot::tasks::{Task, TaskPriority, TaskStatus};

#[test]
fn first_line_skips_blank_lines() {
    assert_eq!(first_line("\n\nFirst line\nSecond"), "First line");
    assert_eq!(first_line("single"), "single");
    assert_eq!(first_line("   \n  \n"), "");
}

fn memory(id: &str, content: &str, importance: u32) -> StoredMemory {
    StoredMemory { id: id.to_string(), content: content.to_string(), importance, updated_at: 1_786_000_000 }
}

fn sections(facts: Vec<StoredMemory>, decisions: Vec<StoredMemory>) -> Vec<StoredSection> {
    [facts, decisions, vec![], vec![], vec![]]
        .into_iter()
        .map(|entries| StoredSection { total: entries.len() as i64, entries })
        .collect()
}

/// Content whose first line renders as a 60-word bullet: a dash, two prefix
/// words, 56 filler words and the date.
fn sixty_word_content(prefix: &str) -> String {
    format!("{prefix} {}", "lorem ".repeat(56).trim_end())
}

#[test]
fn exhausted_budget_stops_render_without_empty_headers() {
    let facts = vec![
        memory("1", &sixty_word_content("alpha fact"), 90),
        memory("2", &sixty_word_content("bravo fact"), 80),
        memory("3", &sixty_word_content("charlie fact"), 70),
    ];
    let decisions = vec![memory("4", "delta decision one", 90)];

    // A 150-word budget keeps the Facts entry cap at 3 but only fits two
    // 60-word bullets; the third fact and the whole Decisions section do not
    // render.
    let rendered = render_memory_store(sections(facts, decisions), &vec![], "agent", 150);

    assert!(rendered.contains("### Facts — 2 of 3"));
    assert!(rendered.contains("alpha fact"));
    assert!(rendered.contains("bravo fact"));
    assert!(!rendered.contains("charlie fact"));
    assert!(
        !rendered.contains("### Decisions"),
        "an exhausted budget must not emit further section headers"
    );
    assert!(rendered.contains("### Active Tasks"));
}

#[test]
fn all_sections_share_one_budget() {
    for max_words in [1, 59, 60, 119, 120, 150, 185, 240, 500] {
        let facts = vec![memory("1", &sixty_word_content("alpha fact"), 90), memory("2", &sixty_word_content("bravo fact"), 80)];
        let decisions = vec![memory("3", &sixty_word_content("charlie decision"), 90), memory("4", "delta", 80)];
        let rendered = render_memory_store(sections(facts, decisions), &vec![], "agent", max_words);
        let shown = rendered.split("### Active Tasks").next().unwrap();
        let bullets = shown.lines().filter(|line| line.starts_with("- "));
        let words: usize = bullets.map(|line| line.split_whitespace().count()).sum();
        assert!(words <= max_words, "{words} of {max_words}");
        assert_eq!(words >= 60, max_words >= 60);
    }
}

#[test]
fn count_is_omitted_when_every_entry_renders() {
    let facts = vec![memory("1", "alpha fact one", 90), memory("2", "bravo fact two", 80)];
    let rendered = render_memory_store(sections(facts, vec![]), &vec![], "agent", 500);
    assert!(rendered.contains("### Facts\n"));
    assert!(!rendered.contains("### Facts —"));
}

#[test]
fn per_type_caps_scale_with_the_configured_budget() {
    let facts = || -> Vec<StoredMemory> {
        (0..12).map(|index| memory(&index.to_string(), &format!("fact number {index:02}"), 90)).collect()
    };
    // At the baseline budget the Facts cap is 10 of the 12 stored.
    let baseline = render_memory_store(sections(facts(), vec![]), &vec![], "agent", 500);
    assert!(baseline.contains("### Facts — 10 of 12"));

    // Doubling the budget doubles the cap, so every entry renders.
    let doubled = render_memory_store(sections(facts(), vec![]), &vec![], "agent", 1000);
    assert!(doubled.contains("### Facts\n"));
    assert!(!doubled.contains("### Facts —"));
}

#[test]
fn a_capped_section_keeps_its_most_important_entries() {
    let facts: Vec<StoredMemory> =
        (0..12).map(|index| memory(&index.to_string(), &format!("fact number {index:02}"), 10 + index)).collect();
    let rendered = render_memory_store(sections(facts, vec![]), &vec![], "agent", 500);
    assert!(rendered.contains("fact number 11"));
    assert!(rendered.contains("fact number 02"));
    assert!(!rendered.contains("fact number 01"));
    assert_eq!(Section::Facts.entry_cap(500), 10);
    assert_eq!(Section::Observations.entry_cap(1000), 16);
    assert_eq!(Section::Observations.entry_cap(0), 1, "at least one");
    assert_eq!(Section::Facts.entry_cap(usize::MAX), usize::MAX / 50);
}

#[test]
fn human_anchors_are_excluded_from_the_global_render() {
    for k in 0..5 {
        assert_ne!(Section::nth(k).memory_type(), MemoryType::Human);
    }
    let rendered = render_memory_store(sections(vec![], vec![]), &vec![], "agent", 500);
    assert!(!rendered.contains("People"));
    assert!(!rendered.contains("Victor prefers direct answers"));
}

#[test]
fn entries_are_listed_by_importance() {
    let facts = vec![memory("a", "low one here", 10), memory("b", "high one here", 90)];
    let rendered = render_memory_store(sections(facts, vec![]), &vec![], "agent", 500);
    assert!(rendered.find("high one here").unwrap() < rendered.find("low one here").unwrap());
}

fn task(number: i64, status: TaskStatus, owner: &str) -> Task {
    Task {
        task_number: number,
        title: format!("task {number}"),
        description: None,
        status,
        priority: TaskPriority::Medium,
        owner_agent_id: owner.to_string(),
        assigned_agent_id: Some(owner.to_string()),
        subtasks: vec![],
        created_by: "user".to_string(),
        worker_id: None,
        approved_by: None,
        approved_at: None,
        completed_at: None,
        created_at: String::new(),
        updated_at: String::new(),
        revision: 1,
    }
}

#[test]
fn active_tasks_name_what_is_open() {
    let tasks = vec![task(1, TaskStatus::Ready, "agent"), task(2, TaskStatus::Done, "agent")];
    let rendered = render_active_tasks(&tasks, "agent");
    assert!(rendered.contains("task 1"));
    assert!(!rendered.contains("task 2"));
}

#[test]
fn memory_types_read_back_from_their_labels() {
    for kind in [MemoryType::Fact, MemoryType::Human, MemoryType::Todo] {
        assert_eq!(MemoryType::from_label(kind.label()), Some(kind));
    }
    assert_eq!(MemoryType::from_label("nonsense"), None);
}

// Consolidation.

fn row(id: &str, content: &str) -> MemoryRow {
    MemoryRow {
        id: id.to_string(),
        content: content.to_string(),
        importance: 5,
        channel_id: None,
        updated_at: 0,
        supersedes_checkpoint_id: None,
    }
}

fn good(now: i64) -> OpOutcome {
    OpOutcome { now, covering_checkpoint: None, merged: true, embedded: true, stored: true, deleted: true }
}

fn op(survivor: &str, absorbed: &str, merged: &str) -> ConsolidateOp {
    ConsolidateOp {
        survivor_id: survivor.to_string(),
        absorbed_id: absorbed.to_string(),
        merged_content: merged.to_string(),
    }
}

#[test]
fn a_batch_merges_one_memory_into_another() {
    let mut state = ConsolidationState::new();
    state.record_debt("fact");
    let mut rows: Table<MemoryRow> = Table::new();
    rows.put(row("a", "old"));
    rows.put(row("b", "gone"));
    let report = execute_batch(&mut state, &mut rows, "fact", &vec![op("a", "b", "both")], &vec![good(9)], 1).unwrap();
    assert_eq!(report.consolidated, 1);
    assert_eq!(report.remaining_count, 1);
    assert_eq!(rows.get("a").unwrap().content, "both");
    assert!(rows.get("b").is_none());
    assert_eq!(state.debt("fact"), 0);
}

#[test]
fn a_batch_names_what_it_misses() {
    let mut state = ConsolidationState::new();
    let mut rows: Table<MemoryRow> = Table::new();
    rows.put(row("a", "old"));
    let missing = execute_batch(&mut state, &mut rows, "fact", &vec![op("a", "x", "m")], &vec![good(1)], 1);
    assert!(matches!(missing, Err(BatchError::NoTarget(_))));
    let missing = execute_batch(&mut state, &mut rows, "fact", &vec![op("x", "a", "m")], &vec![good(1)], 1);
    match missing {
        Err(error) => assert!(error.message().contains('x')),
        Ok(_) => panic!("there is no survivor"),
    }
    rows.put(row("b", "other"));
    let empty = execute_batch(&mut state, &mut rows, "fact", &vec![op("a", "b", "  ")], &vec![good(1)], 1);
    assert!(matches!(empty, Err(BatchError::EmptyContent(_))));
}

#[test]
fn a_save_over_the_cap_is_advised_against() {
    let mut state = ConsolidationState::new();
    let similar = vec![SimilarMemory {
        memory_id: "m".to_string(),
        similarity: u32::MAX,
        content: Some("first\nsecond".to_string()),
    }];
    let advice = check_save(&mut state, MemoryType::Fact, 100, 10, similar).expect("advice");
    assert!(advice.over_cap);
    assert_eq!(advice.partition_count, 100);
    assert_eq!(advice.partition_cap, 10);
    assert!(check_save(&mut state, MemoryType::Fact, 1, 10, vec![]).is_none());
}

#[test]
fn a_merge_keeps_the_survivor_and_takes_the_new_text() {
    let mut survivor = row("a", "old");
    survivor.channel_id = Some("c".to_string());
    let absorbed = row("b", "gone");
    let merged = merge_rows(Some(&survivor), Some(&absorbed), &op("a", "b", "  both "), &None, 9).unwrap();
    assert_eq!((merged.id.as_str(), merged.content.as_str(), merged.updated_at), ("a", "both", 9));
    assert!(merge_rows(None, Some(&absorbed), &op("a", "b", "both"), &None, 9).is_err());
    assert!(merge_rows(Some(&survivor), None, &op("a", "b", "both"), &None, 9).is_err());
    assert!(merge_rows(Some(&survivor), Some(&absorbed), &op("a", "b", " "), &None, 9).is_err());
}
