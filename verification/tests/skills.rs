//! Skills: frontmatter, the set, the archive, the built-in ones and usage.
use spacebot::skills::archive::{
    archive_name, archive_parent, archive_skill_dir, find_archived, latest_archived_copy, restore_skill_dir,
    ArchivedCategory, RestoreError, ARCHIVE_DIR,
};
use serde::de::{Error as _, IgnoredAny, MapAccess, Visitor};
use serde::{Deserialize, Deserializer};
use spacebot::skills::builtin::{load, parse_builtin, WIKI_WRITING};
use spacebot::skills::frontmatter::{
    parse_skill_markdown, read_platforms, yaml_in, Platform, SkillFrontmatter, SkillParseError, SkillText,
};
use spacebot::skills::usage::{SkillUsageStore, WriteOrigin};
use spacebot::skills::{
    collect_linked_files, index_description, load_skills_from_dir, support_dirs, DirEntry, RemoveError, Skill, SkillFile, SkillSet,
    SkillSource, TopEntry, DESCRIPTION_BUDGET,
};

fn host() -> Platform {
    Platform::host("linux")
}

/// Frontmatter read out of YAML, field by field.
struct Head(SkillFrontmatter);

struct HeadVisitor;

impl<'de> Visitor<'de> for HeadVisitor {
    type Value = Head;

    fn expecting(&self, f: &mut std::fmt::Formatter<'_>) -> std::fmt::Result {
        f.write_str("frontmatter")
    }

    fn visit_map<A: MapAccess<'de>>(self, mut map: A) -> Result<Head, A::Error> {
        let mut head = SkillFrontmatter::default();
        let mut seen: Vec<String> = Vec::new();
        while let Some(key) = map.next_key::<String>()? {
            match key.as_str() {
                "name" => head.name = map.next_value()?,
                "description" => head.description = map.next_value()?,
                "platforms" => {
                    let names: Option<Vec<String>> = map.next_value()?;
                    head.platforms = names.map(|names| read_platforms(&names));
                }
                "tags" => head.tags = map.next_value()?,
                "related_skills" => head.related_skills = map.next_value()?,
                "source_repo" => head.source_repo = map.next_value()?,
                _ => {
                    map.next_value::<IgnoredAny>()?;
                    continue;
                }
            }
            if seen.contains(&key) {
                return Err(A::Error::custom(format!("duplicate field `{key}`")));
            }
            seen.push(key);
        }
        Ok(Head(head))
    }
}

impl<'de> Deserialize<'de> for Head {
    fn deserialize<D: Deserializer<'de>>(deserializer: D) -> Result<Self, D::Error> {
        let fields = &["name", "description", "platforms", "tags", "related_skills", "source_repo"];
        deserializer.deserialize_struct("SkillFrontmatter", fields, HeadVisitor)
    }
}

fn said(content: &str) -> Result<SkillFrontmatter, String> {
    match yaml_in(content) {
        None => Ok(SkillFrontmatter::default()),
        Some(yaml) => serde_yaml::from_str::<Head>(&yaml).map(|head| head.0).map_err(|error| error.to_string()),
    }
}

fn parse(content: &str) -> Result<(SkillFrontmatter, String), SkillParseError> {
    parse_skill_markdown(content, said(content))
}

fn text(content: &str) -> SkillText {
    SkillText { content: content.to_string(), said: said(content) }
}

#[test]
fn test_parse_frontmatter_basic() {
    let content = "---\nname: weather\ndescription: Get current weather and forecasts (no API key required).\nhomepage: https://wttr.in/:help\n---\n\n# Weather\n\nTwo free services, no API keys needed.\n";
    let (fm, body) = parse(content).unwrap();
    assert_eq!(fm.name.as_deref(), Some("weather"));
    assert_eq!(
        fm.description.as_deref(),
        Some("Get current weather and forecasts (no API key required).")
    );
    assert!(body.starts_with("# Weather"));
}

#[test]
fn test_parse_frontmatter_with_metadata_json() {
    let content = "---\nname: github\ndescription: \"Interact with GitHub using the gh CLI.\"\nmetadata: { \"openclaw\": { \"emoji\": \"octopus\", \"requires\": { \"bins\": [\"gh\"] } } }\n---\n\n# GitHub Skill\n";
    let (fm, body) = parse(content).unwrap();
    assert_eq!(fm.name.as_deref(), Some("github"));
    assert_eq!(fm.description.as_deref(), Some("Interact with GitHub using the gh CLI."));
    assert!(body.starts_with("# GitHub Skill"));
}

#[test]
fn test_parse_frontmatter_no_frontmatter() {
    let content = "# Just a markdown file\n\nNo frontmatter here.";
    let (fm, body) = parse(content).unwrap();
    assert!(fm.name.is_none());
    assert!(fm.description.is_none());
    assert_eq!(body, content);
}

#[test]
fn test_parse_frontmatter_quoted_description() {
    let content = "---\nname: test\ndescription: \"A skill with 'quotes' inside\"\n---\n\nBody here.\n";
    let (fm, _body) = parse(content).unwrap();
    assert_eq!(fm.description.as_deref(), Some("A skill with 'quotes' inside"));
}

#[test]
fn test_parse_frontmatter_lists_and_multiline() {
    let content = "---\nname: deploy\ndescription: >-\n  Deploy the app to production\n  with the standard checklist.\ntags:\n  - ops\n  - release\nrelated_skills: [rollback, incident-response]\nplatforms:\n  - linux\n  - darwin\n---\n\nBody.\n";
    let (fm, _body) = parse(content).unwrap();
    assert_eq!(
        fm.description.as_deref(),
        Some("Deploy the app to production with the standard checklist.")
    );
    assert_eq!(fm.tags.as_deref(), Some(&["ops".to_string(), "release".to_string()][..]));
    assert_eq!(
        fm.related_skills.as_deref(),
        Some(&["rollback".to_string(), "incident-response".to_string()][..])
    );
    assert_eq!(fm.platforms.as_deref(), Some(&[Platform::Linux, Platform::Macos][..]));
}

#[test]
fn test_parse_frontmatter_unknown_platform_tolerated() {
    let content = "---\nname: mobile\nplatforms: [android]\n---\n\nBody.";
    let (fm, _body) = parse(content).unwrap();
    assert_eq!(fm.platforms.as_deref(), Some(&[Platform::Other][..]));
}

#[test]
fn frontmatter_that_is_broken_is_refused() {
    assert!(matches!(parse("---\nname: x\n\nBody"), Err(SkillParseError::Unclosed)));
    assert!(matches!(
        parse("---\n: [\n---\n\nBody"),
        Err(SkillParseError::Frontmatter(_))
    ));
    assert!(matches!(
        parse("---\nname: [a, b]\n---\n\nBody"),
        Err(SkillParseError::Frontmatter(_))
    ));
    assert!(!SkillParseError::Unclosed.message().is_empty());
}

#[test]
fn bare_values_keep_the_text_they_were_written_with() {
    let content = "---\nname: 1.10\ndescription: True\ntags: [0x1F, 007, ~]\nversion: 1\nversion: 2\n---\nBody";
    let (fm, body) = parse(content).unwrap();
    assert_eq!(fm.name.as_deref(), Some("1.10"));
    assert_eq!(fm.description.as_deref(), Some("True"));
    assert_eq!(fm.tags.unwrap(), names(&["0x1F", "007", "~"]));
    assert_eq!(body, "Body");
}

#[test]
fn only_yaml_is_read() {
    for content in ["no head", "---\n---\nBody", "---\nname: x", ""] {
        assert_eq!(yaml_in(content), None, "{content:?}");
        let one = parse_skill_markdown(content, Err("unread".to_string()));
        let other = parse(content);
        assert_eq!(one.is_ok(), other.is_ok(), "{content:?}");
        if let (Ok((fm, body)), Ok((_, expected))) = (one, other) {
            assert!(fm.name.is_none());
            assert_eq!(body, expected);
        }
    }
    assert_eq!(yaml_in("  ---\nname: x\n---\n\nBody").as_deref(), Some("name: x"));
    let (fm, body) = parse_skill_markdown("---\nname: x\n---\nBody", Ok(SkillFrontmatter::default())).unwrap();
    assert!(fm.name.is_none(), "what was read decides");
    assert_eq!(body, "Body");
}

#[test]
fn test_index_description_truncated() {
    let long = "x".repeat(DESCRIPTION_BUDGET + 40);
    let rendered = index_description(&long);
    assert!(rendered.chars().count() <= DESCRIPTION_BUDGET);
    assert!(rendered.ends_with("..."));

    let short = "fits fine";
    assert_eq!(index_description(short), short);
}

#[test]
fn test_index_description_budget_is_chars_not_bytes() {
    // 79 two-byte chars: 158 bytes, but within the 80-char budget.
    let multibyte = "é".repeat(DESCRIPTION_BUDGET - 1);
    assert_eq!(index_description(&multibyte), multibyte);

    let over = "é".repeat(DESCRIPTION_BUDGET + 10);
    let rendered = index_description(&over);
    assert_eq!(rendered.chars().count(), DESCRIPTION_BUDGET);
    assert!(rendered.ends_with("..."));
}

fn names(list: &[&str]) -> Vec<String> {
    list.iter().map(|name| name.to_string()).collect()
}

#[test]
fn archive_and_restore_preserve_category() {
    let root = "/work/skills";
    let skill_dir = "/work/skills/ops/deploy";
    let archived = archive_skill_dir(root, skill_dir, "deploy", &vec![]);
    assert_eq!(archived, format!("{root}/{ARCHIVE_DIR}/ops/deploy"));

    let categories = vec![ArchivedCategory { name: "ops".to_string(), dirs: names(&["deploy"]) }];
    let found = find_archived(root, &names(&["ops"]), &categories, "deploy");
    let restored = restore_skill_dir(found, false).unwrap();
    assert_eq!(restored.source, archived);
    assert_eq!(restored.destination, skill_dir);
}

#[test]
fn repeated_archive_keeps_prior_copies() {
    let root = "/work/skills";
    let skill_dir = "/work/skills/deploy";
    let first = archive_skill_dir(root, skill_dir, "deploy", &vec![]);
    assert_eq!(first, format!("{root}/{ARCHIVE_DIR}/deploy"));
    let second = archive_skill_dir(root, skill_dir, "deploy", &names(&["deploy"]));
    assert_eq!(second, format!("{root}/{ARCHIVE_DIR}/deploy-1"));

    // Restore takes the most recent copy.
    let found = find_archived(root, &names(&["deploy", "deploy-1"]), &vec![], "deploy");
    let restored = restore_skill_dir(found, false).unwrap();
    assert_eq!(restored.source, second);
    assert_eq!(restored.destination, skill_dir);
}

#[test]
fn repeated_archive_keeps_prior_copies_of_a_category() {
    let root = "/work/skills";
    let skill_dir = "/work/skills/ops/deploy";
    let first = archive_skill_dir(root, skill_dir, "deploy", &vec![]);
    let second = archive_skill_dir(root, skill_dir, "deploy", &names(&["deploy"]));
    assert_eq!(first, format!("{root}/{ARCHIVE_DIR}/ops/deploy"));
    assert_eq!(second, format!("{root}/{ARCHIVE_DIR}/ops/deploy-1"));
    let categories = vec![ArchivedCategory { name: "ops".to_string(), dirs: names(&["deploy", "deploy-1"]) }];
    let restored = restore_skill_dir(find_archived(root, &names(&["ops"]), &categories, "deploy"), false).unwrap();
    assert_eq!(restored.source, second);
    assert_eq!(restored.destination, skill_dir);
}

#[test]
fn restores_say_why_they_fail() {
    let root = "/work/skills";
    assert!(matches!(restore_skill_dir(None, false), Err(RestoreError::NoCopy)));
    let found = find_archived(root, &names(&["deploy"]), &vec![], "deploy");
    match restore_skill_dir(found, true) {
        Err(error) => assert_eq!(
            error.message(root, "deploy"),
            "cannot restore 'deploy': an active skill directory already exists at /work/skills/deploy"
        ),
        Ok(_) => panic!("the place is taken"),
    }
    assert_eq!(
        RestoreError::NoCopy.message(root, "deploy"),
        "no archived copy of 'deploy' found under /work/skills/.archive"
    );
}

#[test]
fn archived_copies_are_numbered_without_gaps() {
    assert_eq!(archive_name(&names(&["a", "a-1", "a-3"]), "a"), "a-2");
    assert_eq!(latest_archived_copy(&names(&["a", "a-1", "a-3"]), "a").as_deref(), Some("a-1"));
    assert_eq!(latest_archived_copy(&names(&["b"]), "a"), None);
    assert_eq!(archive_parent("/r", "/r/cat/x"), "/r/.archive/cat");
}

#[test]
fn test_platform_other_never_matches_host() {
    assert!(!Platform::list_matches_host(&vec![Platform::Other], host()));
    assert!(!Platform::list_matches_host(&vec![], host()));
    // The full list contains the host on any supported platform.
    assert_eq!(
        Platform::list_matches_host(&vec![Platform::Linux, Platform::Macos, Platform::Windows], host()),
        host() != Platform::Other
    );
}

#[test]
fn test_skill_set_channel_prompt_empty() {
    let set = SkillSet::default();
    assert!(set.render_channel_prompt().is_empty());
    assert!(set.render_branch_skills().is_empty());
}

fn weather() -> Skill {
    Skill {
        name: "weather".to_string(),
        description: "Get weather forecasts".to_string(),
        file_path: "/skills/weather/SKILL.md".to_string(),
        base_dir: "/skills/weather".to_string(),
        content: "# Weather\n\nUse curl.".to_string(),
        source: SkillSource::Instance,
        source_repo: None,
        tags: Vec::new(),
        related_skills: Vec::new(),
        linked_files: Vec::new(),
        category: "general".to_string(),
    }
}

#[test]
fn test_skill_set_channel_prompt() {
    let mut set = SkillSet::default();
    set.insert(weather());
    let lines = set.render_channel_prompt();
    assert_eq!(lines.len(), 1);
    assert_eq!(lines[0].name, "weather");
    assert_eq!(lines[0].description, "Get weather forecasts");
    assert!(!lines[0].suggested);
}

#[test]
fn test_skill_set_worker_skills() {
    let mut set = SkillSet::default();
    set.insert(weather());

    // Without suggestions
    let lines = set.render_worker_skills(&vec![]);
    assert_eq!(lines[0].name, "weather");
    assert_eq!(lines[0].description, "Get weather forecasts");
    assert!(!lines[0].suggested);

    // With suggestion
    let lines = set.render_worker_skills(&names(&["weather"]));
    assert!(lines[0].suggested);

    // Empty set returns nothing
    assert!(SkillSet::default().render_worker_skills(&vec![]).is_empty());
}

fn make_skill(name: &str, source: SkillSource) -> Skill {
    Skill {
        name: name.to_string(),
        description: format!("{name} skill"),
        file_path: format!("/skills/{name}/SKILL.md"),
        base_dir: format!("/tmp/test-skills-{name}"),
        content: format!("# {name}"),
        source,
        source_repo: None,
        tags: Vec::new(),
        related_skills: Vec::new(),
        linked_files: Vec::new(),
        category: "general".to_string(),
    }
}

#[test]
fn remove_builtin_skill_is_rejected() {
    let mut set = SkillSet::default();
    set.insert(make_skill("my-skill", SkillSource::Builtin));

    let error = set.remove("my-skill").unwrap_err();
    let msg = error.message("my-skill");
    assert!(msg.contains("built-in skill"), "unexpected error: {msg}");
    assert!(set.get("my-skill").is_some());
}

#[test]
fn remove_instance_skill_is_rejected() {
    let mut set = SkillSet::default();
    set.insert(make_skill("my-skill", SkillSource::Instance));

    let error = set.remove("my-skill").unwrap_err();
    let msg = error.message("my-skill");
    assert!(msg.contains("instance-level skill"), "unexpected error: {msg}");

    // Skill should still be in the set (not removed)
    assert!(set.get("my-skill").is_some());
}

#[test]
fn remove_workspace_skill_succeeds() {
    let mut set = SkillSet::default();
    let skill = make_skill("my-skill", SkillSource::Workspace);
    let expected_dir = skill.base_dir.clone();
    set.insert(skill);

    let path = set.remove("my-skill").unwrap();
    assert_eq!(path, Some(expected_dir));
    assert!(set.get("my-skill").is_none());
}

#[test]
fn remove_nonexistent_skill_returns_none() {
    let mut set = SkillSet::default();
    assert!(set.remove("nonexistent").unwrap().is_none());
}

#[test]
fn remove_is_case_insensitive() {
    let mut set = SkillSet::default();
    set.insert(make_skill("my-skill", SkillSource::Instance));
    let error = set.remove("MY-SKILL").unwrap_err();
    assert_eq!(error, RemoveError::Instance);
    assert!(error.message("MY-SKILL").contains("instance-level skill"));
}

#[test]
fn later_sources_shadow_earlier_ones() {
    let mut set = SkillSet::default();
    set.insert_all(vec![make_skill("Deploy", SkillSource::Builtin), make_skill("alpha", SkillSource::Builtin)]);
    set.insert(make_skill("deploy", SkillSource::Workspace));
    assert_eq!(set.len(), 2);
    assert!(!set.is_empty());
    assert_eq!(set.get("DEPLOY").unwrap().source, SkillSource::Workspace);
    let listed: Vec<String> = set.list().into_iter().map(|info| info.name).collect();
    assert_eq!(listed, names(&["alpha", "deploy"]));
    assert_eq!(set.iter().len(), 2);
}

fn file(raw: &str) -> SkillFile {
    SkillFile {
        raw: Some(text(raw)),
        file_path: "/r/x/SKILL.md".to_string(),
        linked_files: vec![],
    }
}

fn dir(name: &str, skill: Option<SkillFile>) -> DirEntry {
    DirEntry { name: name.to_string(), path: format!("/r/{name}"), is_dir: true, skill }
}

#[test]
fn directories_are_discovered_two_levels_deep() {
    let raw = "---\nname: one\ndescription: d\n---\n\nSee {baseDir}/x.";
    let entries = vec![
        TopEntry { entry: dir("one", Some(file(raw))), index: None, children: vec![] },
        TopEntry { entry: dir(".hidden", Some(file(raw))), index: None, children: vec![] },
        TopEntry {
            entry: dir("ops", None),
            index: Some(text("---\ndescription: Operations.\n---\n")),
            children: vec![dir("nested", Some(file("---\ndescription: n\n---\n\nBody.")))],
        },
    ];
    let loaded = load_skills_from_dir(entries, SkillSource::Workspace, host());
    let found: Vec<(String, String)> =
        loaded.skills.iter().map(|skill| (skill.name.clone(), skill.category.clone())).collect();
    assert_eq!(found.len(), 2);
    assert!(found.iter().any(|(name, _)| name == "one"));
    assert!(found.iter().any(|(name, category)| name == "nested" && category == "ops"));
    let one = loaded.skills.iter().find(|skill| skill.name == "one").unwrap();
    assert_eq!(one.content, "See /r/one/x.");
    assert_eq!(loaded.descriptions.len(), 1);
    assert_eq!(loaded.descriptions[0].category, "ops");
    assert_eq!(loaded.descriptions[0].description, "Operations.");
}

#[test]
fn linked_files_are_listed_in_order() {
    assert_eq!(
        collect_linked_files("/w/deploy", &names(&["/w/deploy/scripts/b.sh", "/elsewhere/x", "/w/deploy/assets/a.png"])),
        names(&["assets/a.png", "scripts/b.sh"])
    );
    assert_eq!(
        support_dirs("/w/deploy"),
        names(&["/w/deploy/references", "/w/deploy/templates", "/w/deploy/scripts", "/w/deploy/assets"])
    );
}

// The built-in skills.

#[test]
fn load_returns_builtin_skills() {
    let skills = load(said(WIKI_WRITING), host());
    assert!(!skills.is_empty());
    assert!(skills.iter().all(|s| s.source == SkillSource::Builtin));
}

#[test]
fn wiki_writing_skill_is_loaded() {
    let skills = load(said(WIKI_WRITING), host());
    let wiki = skills.iter().find(|s| s.name == "wiki-writing");
    assert!(wiki.is_some(), "wiki-writing skill should be present");
    let wiki = wiki.unwrap();
    assert!(!wiki.description.is_empty());
    assert!(wiki.content.contains("## Language"));
}

#[test]
fn parse_builtin_skill() {
    let raw = "---\nname: test-skill\ndescription: A test skill.\n---\n\n# Test\n\nBody here.";
    let skill = parse_builtin("test-skill", raw, said(raw), host()).unwrap().unwrap();
    assert_eq!(skill.name, "test-skill");
    assert_eq!(skill.description, "A test skill.");
    assert_eq!(skill.source, SkillSource::Builtin);
    assert!(skill.content.contains("# Test"));
    assert!(skill.file_path.contains("builtin://"));
}

#[test]
fn parse_builtin_falls_back_to_dir_name() {
    let raw = "---\ndescription: No name field.\n---\n\nBody.";
    let skill = parse_builtin("fallback-name", raw, said(raw), host()).unwrap().unwrap();
    assert_eq!(skill.name, "fallback-name");
}

#[test]
fn parse_builtin_respects_platform_gate() {
    // "android" is no platform that matches any host.
    let raw = "---\nname: mobile-only\ndescription: Gated.\nplatforms: [android]\n---\n\nBody.";
    let skill = parse_builtin("mobile-only", raw, said(raw), host()).unwrap();
    assert!(skill.is_none());
}

// Usage.

const NOW: &str = "2026-08-08T00:00:00Z";

#[test]
fn seed_is_idempotent_and_preserves_existing_rows() {
    let mut store = SkillUsageStore::new();
    store.seed(&names(&["Weather"]), NOW);
    store.record_read("weather", NOW);
    store.seed(&names(&["weather"]), NOW);

    let record = store.get("WEATHER").unwrap();
    assert_eq!(record.skill_name, "weather");
    assert_eq!(record.created_by, "user");
    assert_eq!(record.read_count, 1);
}

#[test]
fn record_read_seeds_missing_row_and_reactivates_stale() {
    let mut store = SkillUsageStore::new();
    store.record_read("deploy", NOW);
    let record = store.get("deploy").unwrap();
    assert_eq!(record.read_count, 1);
    assert!(record.last_read_at.is_some());

    let mut stale = record;
    stale.state = "stale".to_string();
    store.table.put(stale);

    store.record_read("deploy", NOW);
    let record = store.get("deploy").unwrap();
    assert_eq!(record.state, "active");
    assert_eq!(record.read_count, 2);
}

#[test]
fn record_installed_overrides_seeded_provenance() {
    let mut store = SkillUsageStore::new();
    store.seed(&names(&["github"]), NOW);
    store.record_installed(&names(&["github"]), NOW);
    assert_eq!(store.get("github").unwrap().created_by, "installed");
}

#[test]
fn record_installed_clears_agent_conversation_origin() {
    let mut store = SkillUsageStore::new();
    store.record_created("deploy", WriteOrigin::Agent, Some("conv-123".to_string()), NOW);
    assert_eq!(store.get("deploy").unwrap().origin_conversation_id.as_deref(), Some("conv-123"));

    store.record_installed(&names(&["deploy"]), NOW);
    let record = store.get("deploy").unwrap();
    assert_eq!(record.created_by, "installed");
    assert!(record.origin_conversation_id.is_none());
}

#[test]
fn remove_drops_the_row() {
    let mut store = SkillUsageStore::new();
    store.seed(&names(&["temp"]), NOW);
    store.remove("temp");
    assert!(store.get("temp").is_none());
    assert!(store.list().is_empty());
}

#[test]
fn usage_rows_follow_a_skill() {
    let mut store = SkillUsageStore::new();
    store.set_pinned("Deploy", true, NOW);
    assert!(store.get("deploy").unwrap().pinned);
    store.adopt("deploy", NOW);
    assert_eq!(store.get("deploy").unwrap().created_by, "agent");
    assert!(store.record_patch_if_counted("deploy", NOW));
    assert_eq!(store.get("deploy").unwrap().patch_count, 1);
    assert!(store.record_read_if_counted("deploy", NOW));
    let mut full = store.get("deploy").unwrap();
    assert_eq!(full.read_count, 1);
    full.read_count = i64::MAX;
    store.table.put(full);
    assert!(!store.record_read_if_counted("deploy", NOW));
    store.set_archived("deploy", NOW);
    assert_eq!(store.get("deploy").unwrap().state, "archived");
    store.set_restored("deploy");
    assert_eq!(store.get("deploy").unwrap().state, "active");
    assert_eq!(store.list().len(), 1);
}
