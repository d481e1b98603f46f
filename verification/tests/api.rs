//! The control API's decisions.
use spacebot::api::autonomy::{
    agent_runs, autonomy_fleet, autonomy_runs, autonomy_status, build_status, runs_limit, AgentRuns, AutonomyConfig,
    AutonomyLevel, AutonomyRun, AutonomyRunStatus,
};
use spacebot::api::chronicle::{get_chronicle_history, hold_limit, AgentHistory};
use spacebot::api::goals::{
    create_goal, created_goal, get_goal, get_goal_store, list_goals, listed_goals, update_goal, updated_goal,
    CreateGoalRequest, Goal, GoalListQuery, GoalStatus, GoalTaskCounts, UpdateGoalRequest,
};
use spacebot::api::prompts::{
    get_prompt_request, list_prompt_requests, record_store, set_prompt_debug_capture, settings_store, AgentStores,
    ListQuery, Listing, Payload,
};
use spacebot::api::tasks::{
    approve_task, assign_task, create_task, delete_task, dismiss_on_approval, execute_task, finish_task_mutation,
    get_task, get_task_store, list_tasks, update_task, CreateTaskRequest, Execution, NotificationKind,
    NotificationSeverity, TaskListQuery, UpdateTaskRequest,
};
use spacebot::api::wakes::{
    delete_wake, deleted_wake, fire_wake, fired, interval_label, interval_survey_item, list_wakes, manual_event,
    manual_key, minted_token, needs_token, route_delivery, trigger_label, update_wake, updated_wake, webhook_ingress,
    Ingress, TokenLookup, WakeDef, WakeTrigger, WakeUpdateRequest, INTERVAL_SURVEY_WAKE_ID, MAX_WEBHOOK_BODY_BYTES,
};
use spacebot::api::{clamp, found_or_status, Status, StoreError};
use spacebot::json::Json;
use spacebot::llm::record::Lookup;
use spacebot::tasks::{Task, TaskPriority, TaskStatus};

fn config(level: AutonomyLevel) -> AutonomyConfig {
    AutonomyConfig { level, interval_secs: 600, active_hours: None, max_tasks_per_run: 2 }
}

fn run(id: &str, started_at: &str) -> AutonomyRun {
    AutonomyRun {
        id: id.to_string(),
        status: AutonomyRunStatus::Completed,
        started_at: started_at.to_string(),
        summary: Some("did things".to_string()),
    }
}

#[test]
fn an_agent_at_rest_has_no_next_run() {
    let status = build_status("main", config(AutonomyLevel::Off), &vec![], Some(i64::MAX), 3, 1_786_000_000_000);
    assert_eq!(status.next_run_at, None, "no run is due, whenever the last one was");
    let status = build_status("main", config(AutonomyLevel::Off), &vec![], None, 3, 1_786_000_000_000);
    assert!(status.next_run_at.is_none());
    assert_eq!(status.pending_wake_events, 3);
    assert!(status.last_run_at.is_none());
}

#[test]
fn the_next_run_follows_the_last() {
    let start = 1_786_000_000_000i64;
    let runs = vec![run("r", "2026-08-06T07:06:40.000Z")];
    let status = build_status("main", config(AutonomyLevel::Act), &runs, Some(start), 0, start);
    let next = chrono::DateTime::parse_from_rfc3339(&status.next_run_at.unwrap()).unwrap();
    assert_eq!(next.timestamp_millis(), start + 600_000);
    assert_eq!(status.last_run_summary.as_deref(), Some("did things"));
}

#[test]
fn missing_agents_are_not_found() {
    assert!(matches!(autonomy_status(None), Err(Status::NotFound)));
    assert!(matches!(autonomy_status(Some(Err(StoreError))), Err(Status::Internal)));
    assert!(autonomy_fleet(vec![]).unwrap().agents.is_empty());
}

#[test]
fn runs_of_all_agents_are_merged_newest_first() {
    let lists = vec![
        AgentRuns { agent_id: "a".to_string(), runs: vec![run("1", "2026-08-01"), run("2", "2026-07-01")] },
        AgentRuns { agent_id: "b".to_string(), runs: vec![run("3", "2026-07-15")] },
    ];
    let merged = autonomy_runs(lists, 2);
    let ids: Vec<&str> = merged.runs.iter().map(|entry| entry.run.id.as_str()).collect();
    assert_eq!(ids, vec!["1", "3"]);
    assert!(runs_limit(0) >= 1);
}

#[test]
fn history_limits_are_held() {
    assert_eq!(hold_limit(None), 20);
    assert_eq!(hold_limit(Some(0)), 1);
    assert_eq!(hold_limit(Some(5000)), 100);
    let response = get_chronicle_history(
        vec![AgentHistory { agent_id: "a".to_string(), brief: None, checkpoints: vec![] }],
        None,
    );
    assert!(response.checkpoints.is_empty());
    assert!(response.daily_briefs.is_empty());
}

#[test]
fn goals_refuse_unknown_words() {
    assert!(matches!(
        list_goals(&GoalListQuery { status: Some("weird".to_string()), limit: 10 }),
        Err(Status::BadRequest)
    ));
    assert!(list_goals(&GoalListQuery { status: Some("active".to_string()), limit: 10 }).is_ok());
    let request = |priority: Option<&str>| CreateGoalRequest {
        title: "Ship".to_string(),
        description: None,
        priority: priority.map(str::to_string),
        due_date: None,
        metadata: None,
    };
    assert!(matches!(create_goal(request(Some("urgent"))), Err(Status::BadRequest)));
    assert_eq!(create_goal(request(Some("high"))).unwrap().priority, TaskPriority::High);
    let update = UpdateGoalRequest {
        title: None,
        description: None,
        status: Some("weird".to_string()),
        priority: None,
        due_date: None,
        notes: None,
        metadata: None,
    };
    assert!(matches!(update_goal(update), Err(Status::BadRequest)));
    assert!(matches!(
        get_goal(Ok(None), Ok(GoalTaskCounts { total: 0, done: 0 })),
        Err(Status::NotFound)
    ));
}

#[test]
fn closed_goals_stay_closed() {
    assert!(GoalStatus::Active.may_become(GoalStatus::Completed));
    assert!(!GoalStatus::Completed.may_become(GoalStatus::Active));
}

#[test]
fn statuses_have_codes() {
    assert_eq!(Status::NotFound.code(), 404);
    assert_eq!(Status::PayloadTooLarge.code(), 413);
    assert_eq!(Status::Accepted.code(), 202);
    assert_eq!(clamp(500, 1, 100), 100);
    assert_eq!(clamp(-5, 1, 100), 1);
    assert!(matches!(found_or_status::<u8>(Ok(None)), Err(Status::NotFound)));
    assert!(matches!(found_or_status::<u8>(Err(StoreError)), Err(Status::Internal)));
}

fn stores(id: &str, records: bool, settings: bool) -> AgentStores {
    AgentStores { agent_id: id.to_string(), records, settings }
}

#[test]
fn prompt_stores_are_found_by_agent() {
    let agents = vec![stores("a", true, true), stores("b", true, false)];
    assert_eq!(record_store(&agents, &Some("b".to_string())).unwrap(), 1);
    assert!(record_store(&agents, &Some("x".to_string())).is_err());
    assert_eq!(settings_store(&agents, &Some("a".to_string())).unwrap(), 0);
    let query = ListQuery {
        channel_id: None,
        process_id: None,
        message_id: Some("m".to_string()),
        limit: 5,
    };
    assert!(matches!(list_prompt_requests(&query), Listing::Message(_)));
    assert!(matches!(get_prompt_request(Ok(Lookup::Missing), Payload::Read), Err(Status::NotFound)));
    assert!(matches!(
        get_prompt_request(Ok(Lookup::Path("p".to_string())), Payload::Swept),
        Err(Status::NotFound)
    ));
    assert_eq!(get_prompt_request(Ok(Lookup::Path("p".to_string())), Payload::Read).unwrap(), "p");
    assert_eq!(set_prompt_debug_capture(&agents, Some(3)).unwrap().len(), 2);
}

fn task(status: TaskStatus) -> Task {
    Task {
        task_number: 7,
        title: "Do it".to_string(),
        description: None,
        status,
        priority: TaskPriority::Medium,
        owner_agent_id: "main".to_string(),
        assigned_agent_id: None,
        subtasks: vec![],
        created_by: "user".to_string(),
        worker_id: None,
        approved_by: None,
        approved_at: None,
        completed_at: None,
        created_at: String::new(),
        updated_at: String::new(),
        revision: 1,
    }
}

fn creation(priority: Option<&str>) -> CreateTaskRequest {
    CreateTaskRequest {
        owner_agent_id: "main".to_string(),
        assigned_agent_id: None,
        title: "Do it".to_string(),
        description: None,
        priority: priority.map(str::to_string),
        subtasks: vec![],
        metadata: None,
        source_memory_id: None,
        created_by: None,
        worker_type: None,
        project_id: None,
        repo_id: None,
        worktree_mode: None,
        worktree_id: None,
        required_skills: vec![],
        depends_on: vec![],
    }
}

#[test]
fn new_tasks_wait_for_approval() {
    let (input, edges) = create_task(creation(None)).unwrap();
    assert_eq!(input.status, TaskStatus::PendingApproval);
    assert_eq!(input.priority, TaskPriority::Medium);
    assert!(edges.is_empty());
    assert!(matches!(create_task(creation(Some("asap"))), Err(Status::BadRequest)));
}

#[test]
fn readiness_is_announced_once() {
    let first = finish_task_mutation(&task(TaskStatus::Ready), "updated", Some(TaskStatus::Backlog));
    assert!(first.approved.is_some());
    let again = finish_task_mutation(&task(TaskStatus::Ready), "updated", Some(TaskStatus::Ready));
    assert!(again.approved.is_none());
    let waiting = finish_task_mutation(&task(TaskStatus::PendingApproval), "created", None);
    let notice = waiting.notification.expect("an approval is asked for");
    assert_eq!(notice.action_url, "/tasks/7");
    assert_eq!(notice.related_entity_id, "7");
    assert_eq!((notice.kind, notice.severity), (NotificationKind::TaskApproval, NotificationSeverity::Info));
}

#[test]
fn executions_need_an_approved_task() {
    assert!(matches!(execute_task(Ok(None), None), Err(Status::NotFound)));
    assert!(matches!(
        execute_task(Ok(Some(task(TaskStatus::InProgress))), None),
        Ok(Execution::Underway(_))
    ));
    assert!(execute_task(Ok(Some(task(TaskStatus::PendingApproval))), None).is_err());
    assert_eq!(approve_task(Some("me".to_string())).status, Some(TaskStatus::Ready));
    assert_eq!(assign_task("other".to_string()).assigned_agent_id.as_deref(), Some("other"));
    assert!(delete_task(7, Ok(Some(task(TaskStatus::Done))), Ok(true)).is_ok());
    assert!(matches!(delete_task(7, Ok(None), Ok(false)), Err(Status::NotFound)));
}

#[test]
fn stores_are_unavailable_until_they_are_initialized() {
    assert!(matches!(get_task_store::<u8>(None), Err(Status::Unavailable)));
    assert_eq!(get_task_store(Some(3)).unwrap(), 3);
    assert!(matches!(get_goal_store::<u8>(None), Err(Status::Unavailable)));
    assert_eq!(Status::Unavailable.code(), 503);
    assert_eq!(get_task(Ok(Some(task(TaskStatus::Ready)))).unwrap().task.task_number, 7);
    assert!(matches!(get_task(Ok(None)), Err(Status::NotFound)));
    assert!(matches!(get_task(Err(StoreError)), Err(Status::Internal)));
    let dismissal = dismiss_on_approval(7);
    assert_eq!((dismissal.kind, dismissal.entity_type, dismissal.entity_id.as_str()), ("task_approval", "task", "7"));
}

#[test]
fn task_queries_refuse_unknown_words() {
    let query = |status: &str| TaskListQuery {
        agent_id: None,
        owner_agent_id: None,
        assigned_agent_id: None,
        status: Some(status.to_string()),
        priority: None,
        created_by: None,
        limit: 10,
    };
    assert!(matches!(list_tasks(query("weird")), Err(Status::BadRequest)));
    assert_eq!(list_tasks(query("ready")).unwrap().status, Some(TaskStatus::Ready));
    let update = UpdateTaskRequest {
        title: Some("New".to_string()),
        description: None,
        status: Some("done".to_string()),
        priority: None,
        assigned_agent_id: None,
        subtasks: None,
        metadata: None,
        complete_subtask: None,
        worker_id: None,
        approved_by: None,
        worker_type: None,
        project_id: None,
        repo_id: None,
        worktree_mode: None,
        worktree_id: None,
        required_skills: None,
        depends_on: None,
    };
    assert_eq!(update_task(update).unwrap().0.status, Some(TaskStatus::Done));
}

fn wake(builtin: bool) -> WakeDef {
    WakeDef {
        id: "w".to_string(),
        name: "Wake".to_string(),
        trigger: WakeTrigger::Webhook,
        instructions: String::new(),
        min_level: AutonomyLevel::Observe,
        enabled: true,
        builtin,
        config_owned: false,
        last_fired_at: None,
        webhook_token: Some("t".to_string()),
    }
}

#[test]
fn wakes_are_guarded() {
    assert_eq!(delete_wake("w", true, Ok(None)).unwrap_err().status, Status::NotFound);
    assert!(delete_wake("w", true, Ok(Some(wake(true)))).is_err(), "built-in wakes stay");
    assert!(delete_wake("w", true, Ok(Some(wake(false)))).is_ok());
    assert!(fire_wake("w", false, Ok(Some(wake(false)))).is_err());
    assert!(fire_wake("w", true, Ok(Some(wake(false)))).is_ok());
    let nothing = WakeUpdateRequest {
        enabled: Some(false),
        name: None,
        instructions: None,
        min_level: None,
    };
    assert!(update_wake(INTERVAL_SURVEY_WAKE_ID, true, Ok(None), &nothing).is_err());
    let listed = list_wakes(Some(config(AutonomyLevel::Act)), Ok(vec![wake(false)])).unwrap();
    assert!(listed.wakes.iter().any(|item| item.id == INTERVAL_SURVEY_WAKE_ID && item.is_virtual));
    assert_eq!(manual_key("u"), "manual:u");
    let event = manual_event("u");
    assert_eq!(event.dedupe_key, "manual:u");
    assert_eq!(event.payload.text("fired_by").as_deref(), Some("api"));
}

#[test]
fn webhooks_reach_the_first_agent_that_knows_the_token() {
    let known = vec![TokenLookup::Unknown, TokenLookup::Wake(true)];
    match webhook_ingress(&br#"{"b": [1, null], "a": "x"}"#.to_vec(), &known) {
        Ingress::Enqueue(1, event) => {
            assert_eq!(event.dedupe_key, "", "a burst coalesces");
            assert_eq!(event.payload.text("a").as_deref(), Some("x"));
            assert_eq!(event.payload.items("b").unwrap().len(), 2);
        }
        other => panic!("{other:?}"),
    }
    match webhook_ingress(&vec![b' '; MAX_WEBHOOK_BODY_BYTES + 1], &vec![TokenLookup::Wake(true)]) {
        Ingress::Refuse(error) => assert_eq!(error.status, Status::PayloadTooLarge),
        _ => panic!("too large a body"),
    }
    match webhook_ingress(&vec![], &vec![TokenLookup::Unknown]) {
        Ingress::Refuse(error) => assert_eq!(error.status, Status::NotFound),
        _ => panic!("nobody knows the token"),
    }
}

#[test]
fn webhook_bodies_that_are_no_json_degrade_to_an_empty_object() {
    let known = vec![TokenLookup::Failed, TokenLookup::Wake(true)];
    for body in [&b""[..], b"not json", b"{\"a\":", &[0xff, 0xfe]] {
        match webhook_ingress(&body.to_vec(), &known) {
            Ingress::Enqueue(1, event) => {
                assert!(matches!(&event.payload, Json::Object(members) if members.is_empty()), "{body:?}");
            }
            other => panic!("{other:?}"),
        }
    }
    for (body, expected) in [(&b"7"[..], "Number(7)"), (b" \"t\" ", "Text(\"t\")"), (b"null", "Null")] {
        match webhook_ingress(&body.to_vec(), &known) {
            Ingress::Enqueue(1, event) => assert_eq!(format!("{:?}", event.payload), expected),
            other => panic!("{other:?}"),
        }
    }
    match route_delivery(None, &vec![TokenLookup::Wake(false)]) {
        Ingress::Refuse(error) => assert_eq!((error.status, error.message), (Status::Conflict, "wake is disabled")),
        other => panic!("{other:?}"),
    }
    match route_delivery(Some(Json::Bool(true)), &vec![TokenLookup::Failed]) {
        Ingress::Refuse(error) => assert_eq!(error.status, Status::Internal),
        other => panic!("{other:?}"),
    }
}

#[test]
fn wake_triggers_have_labels() {
    assert_eq!(interval_label(7200), "every 2h");
    assert_eq!(interval_label(5400), "every 90m");
    assert_eq!(interval_label(59), "every 59s");
    assert_eq!(interval_label(61), "every 61s");
    let both = WakeTrigger::Schedule { cron_expr: Some("0 9 * * *".to_string()), interval_secs: Some(60) };
    assert_eq!(trigger_label(&both), "0 9 * * *");
    assert_eq!(trigger_label(&WakeTrigger::Schedule { cron_expr: None, interval_secs: Some(60) }), "every 1m");
    assert_eq!(trigger_label(&WakeTrigger::Schedule { cron_expr: None, interval_secs: None }), "schedule");
    assert_eq!(trigger_label(&WakeTrigger::Webhook), "webhook");
    assert_eq!(trigger_label(&WakeTrigger::Event { event: "task_approved".to_string() }), "task_approved");
}

#[test]
fn the_interval_survey_tracks_the_dial() {
    let resting = interval_survey_item(config(AutonomyLevel::Off));
    assert!(!resting.enabled && resting.builtin && resting.is_virtual);
    assert_eq!(resting.trigger_label, "every 10m");
    assert!(interval_survey_item(config(AutonomyLevel::Observe)).enabled);
}

#[test]
fn webhook_wakes_get_one_token() {
    let mut bare = wake(false);
    assert!(!needs_token(&bare));
    bare.webhook_token = None;
    assert!(needs_token(&bare));
    bare.trigger = WakeTrigger::Event { event: "e".to_string() };
    assert!(!needs_token(&bare));
    let minted = |outcome| minted_token(outcome, "mine".to_string(), Some("theirs".to_string()));
    assert_eq!(minted(Ok(true)).as_deref(), Some("mine"));
    assert_eq!(minted(Ok(false)).as_deref(), Some("theirs"));
    assert_eq!(minted(Err(StoreError)), None);
}

#[test]
fn changed_wakes_are_answered_for() {
    let item = updated_wake(Ok(()), Ok(Some(wake(false)))).unwrap();
    assert_eq!(item.webhook_url.as_deref(), Some("/hooks/wakes/t"));
    assert_eq!((item.trigger_kind.as_str(), item.is_virtual), ("webhook", false));
    assert_eq!(updated_wake(Ok(()), Ok(None)).unwrap_err().status, Status::NotFound);
    let failed = updated_wake(Err(StoreError), Ok(Some(wake(false)))).unwrap_err();
    assert_eq!((failed.status, failed.message), (Status::Internal, "failed to update wake"));
    assert!(deleted_wake(Ok(())).unwrap().is_set("success"));
    assert_eq!(deleted_wake(Err(StoreError)).unwrap_err().message, "failed to delete wake");
    let (status, body) = fired(Ok(())).unwrap();
    assert_eq!(status, Status::Accepted);
    assert_eq!(body.text("status").as_deref(), Some("queued"));
    assert_eq!(fired(Err(StoreError)).unwrap_err().status, Status::Internal);
}

#[test]
fn the_runs_of_one_agent_carry_its_id() {
    let response = agent_runs("main", vec![run("1", "2026-08-01"), run("2", "2026-07-01")]);
    let ids: Vec<(&str, &str)> =
        response.runs.iter().map(|entry| (entry.agent_id.as_str(), entry.run.id.as_str())).collect();
    assert_eq!(ids, vec![("main", "1"), ("main", "2")]);
}

fn goal(id: &str) -> Goal {
    Goal {
        id: id.to_string(),
        title: "Ship".to_string(),
        description: None,
        status: GoalStatus::Active,
        priority: TaskPriority::Medium,
        due_date: None,
        notes: None,
    }
}

fn counts() -> Result<GoalTaskCounts, StoreError> {
    Ok(GoalTaskCounts { total: 3, done: 1 })
}

#[test]
fn goals_are_answered_with_their_counts() {
    let created = created_goal(Ok(goal("g")), counts()).unwrap();
    assert_eq!((created.goal.goal.id.as_str(), created.goal.task_counts.done), ("g", 1));
    assert!(matches!(created_goal(Err(StoreError), counts()), Err(Status::BadRequest)));
    assert!(matches!(created_goal(Ok(goal("g")), Err(StoreError)), Err(Status::Internal)));

    assert_eq!(updated_goal(Ok(Some(goal("g"))), counts()).unwrap().goal.task_counts.total, 3);
    assert!(matches!(updated_goal(Ok(None), counts()), Err(Status::NotFound)));
    assert!(matches!(updated_goal(Err(StoreError), counts()), Err(Status::BadRequest)));

    let listed = listed_goals(vec![goal("a"), goal("b")], &vec![counts(), counts()]).unwrap();
    assert_eq!(listed.goals.len(), 2);
    assert_eq!(listed.goals[1].goal.id, "b");
    assert!(matches!(
        listed_goals(vec![goal("a"), goal("b")], &vec![counts(), Err(StoreError)]),
        Err(Status::Internal)
    ));
}
