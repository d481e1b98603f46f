//! Settings, questions, projects, identity, versions and the small helpers.
use spacebot::agent::compactor::estimate_text_tokens;
use spacebot::identity::files::{missing_identity_files, Identity};
use spacebot::json::{Body, Json};
use spacebot::order::rank;
use spacebot::paths;
use spacebot::projects::{
    after_add, after_register, choose_repo, name_worktree, plan_worktree, sandbox_paths, Project, ProjectRepo,
    ProjectWorktree, ProvisionError, ProvisionStep,
};
use spacebot::questions::{AskOption, NewQuestion, QuestionStore, DEFAULT_QUESTION_TTL_DAYS};
use spacebot::settings::store::{SettingsError, SettingsStore, WorkerLogMode};
use spacebot::skills::ListedSkill;
use spacebot::table::Table;
use spacebot::text;
use spacebot::time::{seconds_later, whole_days, write_utc, Pattern};
use spacebot::version::{dev_version, full_version, Checkout};

fn settings() -> SettingsStore {
    SettingsStore::new(Table::new(), true, true).unwrap()
}

#[test]
fn log_modes_are_kept() {
    let mut store = settings();
    assert_eq!(store.worker_log_mode(), WorkerLogMode::ErrorsOnly);
    store.set_worker_log_mode(WorkerLogMode::AllCombined).unwrap();
    assert_eq!(store.worker_log_mode(), WorkerLogMode::AllCombined);
    assert_eq!(WorkerLogMode::parse("all_separate").unwrap(), WorkerLogMode::AllSeparate);
    assert!(WorkerLogMode::parse("loud").is_err());
}

#[test]
fn a_set_home_is_explicit_and_wins_over_adoption() {
    let mut store = settings();
    assert!(store.home_channel().is_none());
    assert!(store.adopt_home_channel("discord:1").unwrap());
    let home = store.home_channel().unwrap();
    assert_eq!(home.target, "discord:1");
    assert!(!home.explicit);
    assert!(!store.adopt_home_channel("discord:2").unwrap(), "a home is adopted once");
    store.set_home_channel("slack:1").unwrap();
    assert!(store.home_channel().unwrap().explicit);
    store.clear_home_channel().unwrap();
    assert!(store.home_channel().is_none());
}

#[test]
fn a_pause_has_a_reason() {
    let mut store = settings();
    assert!(store.pause_reason().is_none());
    store.set_paused(Some("budget")).unwrap();
    assert_eq!(store.pause_reason().as_deref(), Some("budget"));
    store.set_paused(None).unwrap();
    assert!(store.pause_reason().is_none());
}

#[test]
fn capture_is_kept_per_channel() {
    let mut store = settings();
    store.set_prompt_capture("a", true).unwrap();
    assert!(store.prompt_capture_enabled("a"));
    assert!(!store.prompt_capture_enabled("b"));
}

#[test]
fn a_store_that_cannot_be_written_says_so() {
    let mut store = settings();
    store.writable = false;
    assert!(matches!(store.set_home_channel("x"), Err(SettingsError::WriteFailed(_))));
}

#[test]
fn questions_are_answered_once() {
    let mut store = QuestionStore::new();
    let ask = || NewQuestion {
        question_id: "q1".to_string(),
        agent_id: "main".to_string(),
        channel_id: "c".to_string(),
        question: "Ship it?".to_string(),
        options: vec![AskOption { label: "yes".to_string(), description: None }],
        multi_select: false,
        message_ref: None,
    };
    assert!(store.insert(ask(), "2026-08-01 00:00:00"));
    assert!(!store.insert(ask(), "2026-08-01 00:00:00"));
    assert!(store.resolve("q1", vec!["yes".to_string()], 1_786_000_000));
    assert!(!store.resolve("q1", vec!["no".to_string()], 1_786_000_000));
    assert_eq!(store.get("q1").unwrap().answer.as_ref().unwrap(), &vec!["yes".to_string()]);
    assert!(!store.resolve("q2", vec![], 1_786_000_000));
}

#[test]
fn old_questions_are_pruned() {
    let mut store = QuestionStore::new();
    for (id, created_at) in [("old", "2026-07-24 23:59:59"), ("new", "2026-07-25 00:00:00"), ("done", "2026-07-01 00:00:00")] {
        let question = NewQuestion {
            question_id: id.to_string(),
            agent_id: "main".to_string(),
            channel_id: "c".to_string(),
            question: "Ship it?".to_string(),
            options: vec![],
            multi_select: false,
            message_ref: None,
        };
        assert!(store.insert(question, created_at));
    }
    let now = chrono::DateTime::parse_from_rfc3339("2026-08-01T00:00:00Z").unwrap().timestamp();
    assert!(store.resolve("done", vec!["yes".to_string()], now - 86_400));
    assert_eq!(store.prune_expired(-1, now), 0, "a negative time to live prunes nothing");
    assert_eq!(store.prune_expired(i64::MAX, now), 0);
    assert_eq!(store.prune_expired(DEFAULT_QUESTION_TTL_DAYS, now), 1);
    assert!(store.get("old").is_none());
    assert!(store.get("new").is_some(), "exactly as old as the time to live");
    assert!(store.get("done").is_some(), "what counts is when it was resolved");
    let week_after = now - 86_400 + 7 * 86_400;
    assert_eq!(store.prune_expired(DEFAULT_QUESTION_TTL_DAYS, week_after), 1, "the unanswered one");
    assert!(store.get("done").is_some(), "exactly as old as the time to live");
    assert_eq!(store.prune_expired(DEFAULT_QUESTION_TTL_DAYS, week_after + 1), 1, "a second older, on the same day");
    assert!(store.get("done").is_none());
}

fn project() -> Project {
    Project { id: "p".to_string(), name: "Proj".to_string(), root_path: "/work/proj".to_string() }
}

fn repo(id: &str, project_id: &str) -> ProjectRepo {
    ProjectRepo {
        id: id.to_string(),
        project_id: project_id.to_string(),
        name: id.to_string(),
        path: "main".to_string(),
    }
}

#[test]
fn a_single_repo_needs_no_name() {
    assert_eq!(choose_repo(&project(), None, None, &vec![repo("r", "p")]).unwrap().id, "r");
    assert!(matches!(
        choose_repo(&project(), None, None, &vec![]),
        Err(ProvisionError::NoRepos(_))
    ));
    assert!(matches!(
        choose_repo(&project(), None, None, &vec![repo("r", "p"), repo("s", "p")]),
        Err(ProvisionError::ManyRepos(_, _))
    ));
    assert!(matches!(
        choose_repo(&project(), Some("x"), None, &vec![]),
        Err(ProvisionError::NoRepo(_))
    ));
    assert!(matches!(
        choose_repo(&project(), Some("x"), Some(repo("x", "other")), &vec![]),
        Err(ProvisionError::ForeignRepo(_, _))
    ));
}

#[test]
fn worktrees_stay_in_one_directory() {
    assert_eq!(name_worktree("feature/login", &None).unwrap(), "feature-login");
    assert!(matches!(
        name_worktree("b", &Some("../up".to_string())),
        Err(ProvisionError::InvalidName(_))
    ));
    let plan = plan_worktree(
        Some(project()),
        "p",
        None,
        None,
        &vec![repo("r", "p")],
        "feature/login",
        &None,
        "agent",
    )
    .unwrap();
    assert_eq!(plan.repo_abs_path, "/work/proj/main");
    assert!(plan.worktree_abs_path.starts_with("/work/proj/"));
    assert!(plan.worktree_abs_path.ends_with("feature-login"));
    assert_eq!(plan.input.branch, "feature/login");
    assert!(matches!(after_add(false), ProvisionStep::Failed(ProvisionError::Git)));
    assert!(matches!(after_add(true), ProvisionStep::Register));
    let again = |plan: &spacebot::projects::WorktreePlan| spacebot::projects::WorktreePlan {
        repo_abs_path: plan.repo_abs_path.clone(),
        worktree_abs_path: plan.worktree_abs_path.clone(),
        input: spacebot::projects::CreateWorktreeInput {
            project_id: plan.input.project_id.clone(),
            repo_id: plan.input.repo_id.clone(),
            name: plan.input.name.clone(),
            path: plan.input.path.clone(),
            branch: plan.input.branch.clone(),
            created_by: plan.input.created_by.clone(),
        },
    };
    assert!(matches!(after_register(None, again(&plan)), ProvisionStep::Undo(_)));
    let worktree = ProjectWorktree { id: "w".to_string(), input: again(&plan).input };
    assert!(matches!(after_register(Some(worktree), plan), ProvisionStep::Provisioned(_)));
    assert!(matches!(
        plan_worktree(None, "p", None, None, &vec![], "b", &None, "agent"),
        Err(ProvisionError::NoProject(_))
    ));
    assert_eq!(sandbox_paths(&vec![project()]), vec!["/work/proj".to_string()]);
    assert!(!ProvisionError::Git.message().is_empty());
}

#[test]
fn identity_renders_what_is_there() {
    assert_eq!(Identity::default().render(), "");
    let identity = Identity { soul: Some("Be kind.".to_string()), identity: None, role: None };
    assert!(identity.render().contains("Be kind."));
    let missing = missing_identity_files(&vec![]);
    assert!(!missing.is_empty());
    assert!(missing_identity_files(&missing).is_empty());
}

#[test]
fn versions_name_the_checkout() {
    let checkout =
        Checkout { commit: "abc123".to_string(), tag: None, branch: Some("main".to_string()) };
    assert_eq!(full_version("1.2.3", &None), "1.2.3");
    assert!(full_version("1.2.3", &Some(checkout)).contains("abc123"));
    assert_eq!(dev_version("1.2.3", &None), None);
}

#[test]
fn instants_are_written_by_pattern() {
    let at = chrono::DateTime::parse_from_rfc3339("2026-08-01T10:11:12Z").unwrap().timestamp();
    assert_eq!(write_utc(at, Pattern::Day), "2026-08-01");
    assert_eq!(write_utc(at, Pattern::Minute), "2026-08-01 10:11");
    assert_eq!(write_utc(at, Pattern::Rfc3339), "2026-08-01T10:11:12+00:00");
    assert_eq!(write_utc(at, Pattern::Zulu), "2026-08-01T10:11:12Z");
    assert_eq!(seconds_later(at, 5), Some(at + 5));
    assert_eq!(seconds_later(at, u64::MAX), None);
    assert_eq!(whole_days(0, 86_400 * 3 + 5), 3);
    assert_eq!(whole_days(86_400 * 3 + 5, 0), -3);
}

#[test]
fn texts_are_cut_and_joined() {
    assert_eq!(text::trim("  a b \n"), "a b");
    assert_eq!(text::split("a.b..c", '.'), vec!["a", "b", "", "c"]);
    assert_eq!(text::lines("a\r\nb\n"), vec!["a", "b"]);
    assert_eq!(text::split_whitespace(" a  b "), vec!["a", "b"]);
    assert_eq!(text::replace("a_b_c", "_", "-"), "a-b-c");
    assert_eq!(text::slice_bytes("héllo", 0, 3), "hé");
    assert_eq!(text::show_signed(i64::MIN), i64::MIN.to_string());
    assert_eq!(text::show(u64::MAX), u64::MAX.to_string());
    assert_eq!(text::bytes_in("é"), 2);
    assert_eq!(estimate_text_tokens("12345678"), 2);
    assert_eq!(paths::join("/a", "b"), "/a/b");
    assert_eq!(paths::parent("/a/b").as_deref(), Some("/a"));
    assert_eq!(paths::parent("/"), None);
}

/// Every path of up to six characters out of slashes, dots and a letter, and
/// some longer ones.
fn sample_paths() -> Vec<String> {
    let mut all = vec![String::new()];
    let mut from = 0;
    for _ in 0..6 {
        let to = all.len();
        for at in from..to {
            for c in ['/', '.', 'a'] {
                let longer = format!("{}{c}", all[at]);
                all.push(longer);
            }
        }
        from = to;
    }
    for path in ["/work/skills/./deploy/", "/work//skills/ops/.", "./skills/../ops", "/a/b/c.d/é"] {
        all.push(path.to_string());
    }
    all
}

#[test]
fn parents_are_those_of_the_standard_library() {
    for path in sample_paths() {
        let expected = std::path::Path::new(&path).parent().map(|dir| dir.to_str().unwrap().to_string());
        assert_eq!(paths::parent(&path), expected, "{path:?}");
    }
}

#[test]
fn relative_paths_are_those_of_the_standard_library() {
    let all = sample_paths();
    for dir in all.iter().filter(|dir| dir.len() <= 3 || dir.len() > 6) {
        for path in &all {
            let expected =
                std::path::Path::new(path).strip_prefix(dir).ok().map(|rest| rest.to_str().unwrap().to_string());
            assert_eq!(paths::strip(dir, path), expected, "{path:?} below {dir:?}");
        }
    }
    assert_eq!(paths::strip("/work/skills/.", "/work//skills/ops/x/").as_deref(), Some("ops/x"));
}

#[test]
fn joined_paths_are_those_of_the_standard_library() {
    let all: Vec<String> = sample_paths().into_iter().filter(|path| path.len() <= 3 || path.len() > 6).collect();
    for dir in &all {
        for name in &all {
            let expected = std::path::Path::new(dir).join(name).to_str().unwrap().to_string();
            assert_eq!(paths::join(dir, name), expected, "{name:?} below {dir:?}");
        }
    }
}

#[test]
fn worktrees_go_beside_the_repo_however_the_root_is_written() {
    let placed = |root: &str| {
        let mut project = project();
        project.root_path = root.to_string();
        let mut only = repo("r", "p");
        only.path = ".".to_string();
        let repos = vec![only];
        plan_worktree(Some(project), "p", None, None, &repos, "main", &Some("w".to_string()), "agent")
            .map(|plan| plan.worktree_abs_path)
    };
    for root in ["/a/b", "/a/b/", "/a/b/.", "/a/./b//", "/a//b/./."] {
        assert_eq!(placed(root).unwrap(), "/a/w", "{root}");
    }
    for root in ["/", "/.", "//./"] {
        assert!(matches!(placed(root), Err(ProvisionError::NoParent)), "{root}");
    }
}

#[test]
fn ranking_keeps_what_ranks_alike_as_it_stood() {
    let entry = |name: &str, at: usize| ListedSkill { name: name.to_string(), at };
    let sorted = rank(vec![entry("b", 0), entry("a", 1), entry("b", 2), entry("a", 3)]);
    let places: Vec<usize> = sorted.iter().map(|entry| entry.at).collect();
    assert_eq!(places, vec![1, 3, 0, 2]);
}

#[test]
fn objects_keep_one_member_of_a_name() {
    let mut body = Body::new();
    body.text("a", "1");
    body.flag("b", true);
    body.text("a", "2");
    assert_eq!(body.members.len(), 2);
    let object = body.object();
    assert_eq!(object.text("a").as_deref(), Some("2"));
    assert!(object.is_set("b"));
    assert_eq!(object.text_or("missing", "x"), "x");
    assert_eq!(object.count("a"), 0);
    assert!(object.items("a").is_none());
    assert!(matches!(object.member("missing"), None));
    assert_eq!(Json::Null.text("a"), None);
}
