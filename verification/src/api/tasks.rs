//! Task endpoints.
use vstd::prelude::*;
use crate::api;
use crate::api::goals;
use crate::api::{Status, StoreError};
use crate::json::{Body, Json};
use crate::llm::history::copy_opt;
use crate::tasks::{Task, TaskDependencyKind, TaskPriority, TaskStatus, TaskSubtask};
use crate::text;

verus! {

broadcast use vstd::seq::group_seq_axioms;

/// How many tasks are listed by default.
pub const DEFAULT_TASK_LIMIT: i64 = 100;

/// Which tasks to list.
#[derive(Debug)]
pub struct TaskListQuery {
    /// Convenience filter: matches tasks where owner OR assigned equals this
    /// value.
    pub agent_id: Option<String>,
    pub owner_agent_id: Option<String>,
    pub assigned_agent_id: Option<String>,
    pub status: Option<String>,
    pub priority: Option<String>,
    pub created_by: Option<String>,
    pub limit: i64,
}

/// What the store is asked for.
#[derive(Debug)]
pub struct TaskListFilter {
    pub agent_id: Option<String>,
    pub owner_agent_id: Option<String>,
    pub assigned_agent_id: Option<String>,
    pub status: Option<TaskStatus>,
    pub priority: Option<TaskPriority>,
    pub created_by: Option<String>,
    pub limit: Option<i64>,
}

/// A dependency that is asked for.
#[derive(Debug, Clone, Copy, PartialEq, Eq, Structural)]
pub struct TaskDependencyRequest {
    pub task: i64,
    pub kind: Option<TaskDependencyKind>,
}

/// A dependency of a task.
#[derive(Debug, Clone, Copy, PartialEq, Eq, Structural)]
pub struct TaskDependencyEdge {
    pub task: i64,
    pub kind: TaskDependencyKind,
}

/// A task to be created.
#[derive(Debug)]
pub struct CreateTaskRequest {
    /// The owning agent.
    pub owner_agent_id: String,
    /// Agent assigned to execute. Defaults to the owner.
    pub assigned_agent_id: Option<String>,
    pub title: String,
    pub description: Option<String>,
    pub priority: Option<String>,
    pub subtasks: Vec<TaskSubtask>,
    pub metadata: Option<Json>,
    pub source_memory_id: Option<String>,
    pub created_by: Option<String>,
    pub worker_type: Option<String>,
    pub project_id: Option<String>,
    pub repo_id: Option<String>,
    pub worktree_mode: Option<String>,
    pub worktree_id: Option<String>,
    pub required_skills: Vec<String>,
    pub depends_on: Vec<TaskDependencyRequest>,
}

/// What the store is given for a new task.
#[derive(Debug)]
pub struct CreateTaskInput {
    pub owner_agent_id: String,
    pub assigned_agent_id: Option<String>,
    pub title: String,
    pub description: Option<String>,
    pub status: TaskStatus,
    pub priority: TaskPriority,
    pub subtasks: Vec<TaskSubtask>,
    pub metadata: Json,
    pub source_memory_id: Option<String>,
    pub created_by: String,
    pub worker_type: Option<String>,
    pub project_id: Option<String>,
    pub repo_id: Option<String>,
    pub worktree_mode: Option<String>,
    pub worktree_id: Option<String>,
    pub required_skills: Vec<String>,
}

/// Changes to a task.
#[derive(Debug)]
pub struct UpdateTaskRequest {
    pub title: Option<String>,
    pub description: Option<String>,
    pub status: Option<String>,
    pub priority: Option<String>,
    pub assigned_agent_id: Option<String>,
    pub subtasks: Option<Vec<TaskSubtask>>,
    pub metadata: Option<Json>,
    pub complete_subtask: Option<usize>,
    pub worker_id: Option<String>,
    pub approved_by: Option<String>,
    pub worker_type: Option<String>,
    pub project_id: Option<String>,
    pub repo_id: Option<String>,
    pub worktree_mode: Option<String>,
    pub worktree_id: Option<String>,
    pub required_skills: Option<Vec<String>>,
    /// Full replacement of dependency edges; nothing leaves them unchanged.
    pub depends_on: Option<Vec<TaskDependencyRequest>>,
}

/// What the store is given for a change.
#[derive(Debug)]
pub struct UpdateTaskInput {
    pub title: Option<String>,
    pub description: Option<String>,
    pub status: Option<TaskStatus>,
    pub priority: Option<TaskPriority>,
    pub assigned_agent_id: Option<String>,
    pub subtasks: Option<Vec<TaskSubtask>>,
    pub metadata: Option<Json>,
    pub worker_id: Option<String>,
    pub clear_worker_id: bool,
    pub approved_by: Option<String>,
    pub complete_subtask: Option<usize>,
    pub worker_type: Option<String>,
    pub project_id: Option<String>,
    pub repo_id: Option<String>,
    pub worktree_mode: Option<String>,
    pub worktree_id: Option<String>,
    pub required_skills: Option<Vec<String>>,
}

/// Tasks.
#[derive(Debug)]
pub struct TaskListResponse {
    pub tasks: Vec<Task>,
}

/// One task.
#[derive(Debug)]
pub struct TaskResponse {
    pub task: Task,
}

/// What was done with a task.
#[derive(Debug)]
pub struct TaskActionResponse {
    pub success: bool,
    pub message: String,
}

/// The edges that are asked for; a gate where no kind is given.
pub open spec fn edges_of(requests: Seq<TaskDependencyRequest>) -> Seq<TaskDependencyEdge> {
    requests.map_values(
        |request: TaskDependencyRequest|
            TaskDependencyEdge {
                task: request.task,
                kind: match request.kind {
                    Some(kind) => kind,
                    None => TaskDependencyKind::Gate,
                },
            },
    )
}

/// The edges that are asked for; a gate where no kind is given.
pub fn dependency_edges(requests: &Vec<TaskDependencyRequest>) -> (edges: Vec<TaskDependencyEdge>)
    ensures
        edges@ == edges_of(requests@),
{
    let mut edges: Vec<TaskDependencyEdge> = Vec::new();
    let mut k: usize = 0;
    assert(edges@ =~= edges_of(requests@.take(0)));
    while k < requests.len()
        invariant
            k <= requests@.len(),
            edges@ == edges_of(requests@.take(k as int)),
        decreases requests@.len() - k,
    {
        let request = requests[k];
        let kind = match request.kind {
            Some(kind) => kind,
            None => TaskDependencyKind::Gate,
        };
        let edge = TaskDependencyEdge { task: request.task, kind };
        assert(edges_of(requests@.take(k + 1)) =~= edges_of(requests@.take(k as int)).push(edge));
        edges.push(edge);
        k = k + 1;
    }
    assert(requests@.take(k as int) =~= requests@);
    edges
}

/// An optional name, read.
pub open spec fn status_in(value: Option<String>) -> Result<Option<TaskStatus>, Status> {
    match value {
        None => Ok(None),
        Some(value) => match TaskStatus::named(value@) {
            Some(status) => Ok(Some(status)),
            None => Err(Status::BadRequest),
        },
    }
}

fn parse_status(value: &Option<String>) -> (status: Result<Option<TaskStatus>, Status>)
    ensures
        status == status_in(*value),
{
    match value {
        None => Ok(None),
        Some(value) => match TaskStatus::parse(value.as_str()) {
            Some(status) => Ok(Some(status)),
            None => Err(Status::BadRequest),
        },
    }
}

/// What two optional names come to when read one after the other.
pub open spec fn both_in(status: Option<String>, priority: Option<String>) -> Result<
    (Option<TaskStatus>, Option<TaskPriority>),
    Status,
> {
    match status_in(status) {
        Err(refused) => Err(refused),
        Ok(status) => match goals::priority_in(priority) {
            Err(refused) => Err(refused),
            Ok(priority) => Ok((status, priority)),
        },
    }
}

fn parse_both(status: &Option<String>, priority: &Option<String>) -> (both: Result<
    (Option<TaskStatus>, Option<TaskPriority>),
    Status,
>)
    ensures
        both == both_in(*status, *priority),
{
    match parse_status(status) {
        Err(refused) => Err(refused),
        Ok(status) => match goals::parse_priority(priority) {
            Err(refused) => Err(refused),
            Ok(priority) => Ok((status, priority)),
        },
    }
}

/// Extracts the task store, unavailable as long as it is not initialized.
pub fn get_task_store<T>(store: Option<T>) -> (answer: Result<T, Status>)
    ensures
        answer == api::initialized(store),
{
    api::store_or_unavailable(store)
}

/// Answers with a task that was looked up by its number.
pub fn get_task(found: Result<Option<Task>, StoreError>) -> (answer: Result<TaskResponse, Status>)
    ensures
        answer == (match api::looked_up(found) {
            Ok(task) => Ok::<TaskResponse, Status>(TaskResponse { task }),
            Err(status) => Err::<TaskResponse, Status>(status),
        }),
{
    match api::found_or_status(found) {
        Ok(task) => Ok(TaskResponse { task }),
        Err(status) => Err(status),
    }
}

/// Decides what the store is asked for in a listing.
pub fn list_tasks(query: TaskListQuery) -> (filter: Result<TaskListFilter, Status>)
    ensures
        match both_in(query.status, query.priority) {
            Err(refused) => filter == Err::<TaskListFilter, Status>(refused),
            Ok((status, priority)) => filter == Ok::<TaskListFilter, Status>(
                (TaskListFilter {
                    agent_id: query.agent_id,
                    owner_agent_id: query.owner_agent_id,
                    assigned_agent_id: query.assigned_agent_id,
                    status,
                    priority,
                    created_by: query.created_by,
                    limit: Some(api::clamped(query.limit as int, 1, 500) as i64),
                }),
            ),
        },
{
    match parse_both(&query.status, &query.priority) {
        Err(refused) => Err(refused),
        Ok((status, priority)) => Ok(
            TaskListFilter {
                agent_id: query.agent_id,
                owner_agent_id: query.owner_agent_id,
                assigned_agent_id: query.assigned_agent_id,
                status,
                priority,
                created_by: query.created_by,
                limit: Some(api::clamp(query.limit, 1, 500)),
            },
        ),
    }
}

/// Whether the store is given what a request for a new task says.
pub open spec fn creates(input: CreateTaskInput, request: CreateTaskRequest) -> bool {
    &&& input.owner_agent_id == request.owner_agent_id
    &&& input.assigned_agent_id == Some(
        match request.assigned_agent_id {
            Some(agent) => agent,
            None => request.owner_agent_id,
        },
    )
    &&& input.title == request.title
    &&& input.description == request.description
    &&& input.status == TaskStatus::PendingApproval
    &&& goals::priority_in(request.priority) matches Ok(priority) && input.priority == (match priority {
        Some(priority) => priority,
        None => TaskPriority::Medium,
    })
    &&& input.subtasks == request.subtasks
    &&& match request.metadata {
        Some(metadata) => input.metadata == metadata,
        None => input.metadata@ == crate::json::JsonModel::Object(crate::json::no_members()),
    }
    &&& input.source_memory_id == request.source_memory_id
    &&& input.created_by@ == (match request.created_by {
        Some(created_by) => created_by@,
        None => "human"@,
    })
    &&& input.worker_type == request.worker_type
    &&& input.project_id == request.project_id
    &&& input.repo_id == request.repo_id
    &&& input.worktree_mode == request.worktree_mode
    &&& input.worktree_id == request.worktree_id
    &&& input.required_skills == request.required_skills
}

/// Decides what the store is given for a new task, with the edges of its
/// dependencies. A new task always waits for approval.
pub fn create_task(request: CreateTaskRequest) -> (input: Result<(CreateTaskInput, Vec<TaskDependencyEdge>), Status>)
    ensures
        match input {
            Ok((input, edges)) => creates(input, request) && edges@ == edges_of(request.depends_on@),
            Err(status) => goals::priority_in(request.priority) == Err::<Option<TaskPriority>, Status>(status),
        },
{
    let priority = match goals::parse_priority(&request.priority) {
        Ok(Some(priority)) => priority,
        Ok(None) => TaskPriority::Medium,
        Err(status) => {
            return Err(status);
        },
    };
    let edges = dependency_edges(&request.depends_on);
    let assigned = match request.assigned_agent_id {
        Some(agent) => agent,
        None => request.owner_agent_id.clone(),
    };
    let metadata = match request.metadata {
        Some(metadata) => metadata,
        None => Body::new().object(),
    };
    let created_by = match request.created_by {
        Some(created_by) => created_by,
        None => "human".to_owned(),
    };
    Ok(
        (
            CreateTaskInput {
                owner_agent_id: request.owner_agent_id,
                assigned_agent_id: Some(assigned),
                title: request.title,
                description: request.description,
                status: TaskStatus::PendingApproval,
                priority,
                subtasks: request.subtasks,
                metadata,
                source_memory_id: request.source_memory_id,
                created_by,
                worker_type: request.worker_type,
                project_id: request.project_id,
                repo_id: request.repo_id,
                worktree_mode: request.worktree_mode,
                worktree_id: request.worktree_id,
                required_skills: request.required_skills,
            },
            edges,
        ),
    )
}

/// Whether the store is given what a request for a change says.
pub open spec fn updates(input: UpdateTaskInput, request: UpdateTaskRequest) -> bool {
    &&& input.title == request.title
    &&& input.description == request.description
    &&& both_in(request.status, request.priority) == Ok::<(Option<TaskStatus>, Option<TaskPriority>), Status>(
        (input.status, input.priority),
    )
    &&& input.assigned_agent_id == request.assigned_agent_id
    &&& input.subtasks == request.subtasks
    &&& input.metadata == request.metadata
    &&& input.worker_id == request.worker_id
    &&& !input.clear_worker_id
    &&& input.approved_by == request.approved_by
    &&& input.complete_subtask == request.complete_subtask
    &&& input.worker_type == request.worker_type
    &&& input.project_id == request.project_id
    &&& input.repo_id == request.repo_id
    &&& input.worktree_mode == request.worktree_mode
    &&& input.worktree_id == request.worktree_id
    &&& input.required_skills == request.required_skills
}

/// Decides what the store is given for a change of a task, with the edges that
/// replace those of its dependencies, where any are given.
pub fn update_task(request: UpdateTaskRequest) -> (input: Result<
    (UpdateTaskInput, Option<Vec<TaskDependencyEdge>>),
    Status,
>)
    ensures
        match input {
            Ok((input, edges)) => updates(input, request) && (match (edges, request.depends_on) {
                (Some(edges), Some(requests)) => edges@ == edges_of(requests@),
                (None, None) => true,
                _ => false,
            }),
            Err(status) => both_in(request.status, request.priority) == Err::<
                (Option<TaskStatus>, Option<TaskPriority>),
                Status,
            >(status),
        },
{
    let (status, priority) = match parse_both(&request.status, &request.priority) {
        Ok(both) => both,
        Err(refused) => {
            return Err(refused);
        },
    };
    let edges = match &request.depends_on {
        Some(requests) => Some(dependency_edges(requests)),
        None => None,
    };
    Ok(
        (
            UpdateTaskInput {
                title: request.title,
                description: request.description,
                status,
                priority,
                assigned_agent_id: request.assigned_agent_id,
                subtasks: request.subtasks,
                metadata: request.metadata,
                worker_id: request.worker_id,
                clear_worker_id: false,
                approved_by: request.approved_by,
                complete_subtask: request.complete_subtask,
                worker_type: request.worker_type,
                project_id: request.project_id,
                repo_id: request.repo_id,
                worktree_mode: request.worktree_mode,
                worktree_id: request.worktree_id,
                required_skills: request.required_skills,
            },
            edges,
        ),
    )
}

/// Whether a change sets a status and an approver, an assigned agent, and
/// nothing else.
pub open spec fn changes_only(
    input: UpdateTaskInput,
    status: Option<TaskStatus>,
    approved_by: Option<Seq<char>>,
    assigned: Option<Seq<char>>,
) -> bool {
    &&& input.status == status
    &&& text::opt_text(input.approved_by) == approved_by
    &&& text::opt_text(input.assigned_agent_id) == assigned
    &&& input.title is None && input.description is None && input.priority is None && input.subtasks is None
    &&& input.metadata is None && input.worker_id is None && !input.clear_worker_id
    &&& input.complete_subtask is None && input.worker_type is None && input.project_id is None
    &&& input.repo_id is None && input.worktree_mode is None && input.worktree_id is None
    &&& input.required_skills is None
}

fn change(status: Option<TaskStatus>, approved_by: Option<String>, assigned: Option<String>) -> (input: UpdateTaskInput)
    ensures
        changes_only(input, status, text::opt_text(approved_by), text::opt_text(assigned)),
{
    UpdateTaskInput {
        title: None,
        description: None,
        status,
        priority: None,
        assigned_agent_id: assigned,
        subtasks: None,
        metadata: None,
        worker_id: None,
        clear_worker_id: false,
        approved_by,
        complete_subtask: None,
        worker_type: None,
        project_id: None,
        repo_id: None,
        worktree_mode: None,
        worktree_id: None,
        required_skills: None,
    }
}

/// Approves a task: moves it to ready.
pub fn approve_task(approved_by: Option<String>) -> (input: UpdateTaskInput)
    ensures
        changes_only(input, Some(TaskStatus::Ready), text::opt_text(approved_by), None),
{
    change(Some(TaskStatus::Ready), approved_by, None)
}

/// The notifications that a decision makes obsolete.
#[derive(Debug)]
pub struct Dismissal {
    pub kind: &'static str,
    pub entity_type: &'static str,
    pub entity_id: String,
}

/// Which notifications are dismissed once a task is approved: those that ask
/// for its approval.
pub fn dismiss_on_approval(number: i64) -> (dismissal: Dismissal)
    ensures
        dismissal.kind@ == "task_approval"@,
        dismissal.entity_type@ == "task"@,
        dismissal.entity_id@ == text::signed_decimal(number as int),
{
    Dismissal { kind: "task_approval", entity_type: "task", entity_id: text::show_signed(number) }
}

/// Reassigns a task to a different agent.
pub fn assign_task(agent_id: String) -> (input: UpdateTaskInput)
    ensures
        changes_only(input, None, None, Some(agent_id@)),
{
    change(None, None, Some(agent_id))
}

/// What executing a task comes to.
#[derive(Debug)]
pub enum Execution {
    /// The task is already on its way, and returned as it is.
    Underway(Task),
    /// The task is moved to ready.
    Queue(UpdateTaskInput),
}

/// Moves a task to ready for execution. Tasks already in `ready` or
/// `in_progress` are returned as they are, and tasks that wait for approval
/// must be approved first.
pub fn execute_task(found: Result<Option<Task>, StoreError>, approved_by: Option<String>) -> (execution: Result<
    Execution,
    Status,
>)
    ensures
        match api::looked_up(found) {
            Err(status) => execution == Err::<Execution, Status>(status),
            Ok(task) => match task.status {
                TaskStatus::Ready | TaskStatus::InProgress => execution == Ok::<Execution, Status>(
                    Execution::Underway(task),
                ),
                TaskStatus::PendingApproval => execution == Err::<Execution, Status>(Status::Conflict),
                _ => execution matches Ok(Execution::Queue(input)) && changes_only(
                    input,
                    Some(TaskStatus::Ready),
                    text::opt_text(approved_by),
                    None,
                ),
            },
        },
{
    match api::found_or_status(found) {
        Err(status) => Err(status),
        Ok(task) => {
            if task.status == TaskStatus::Ready || task.status == TaskStatus::InProgress {
                return Ok(Execution::Underway(task));
            }
            if task.status == TaskStatus::PendingApproval {
                return Err(Status::Conflict);
            }
            Ok(Execution::Queue(change(Some(TaskStatus::Ready), approved_by, None)))
        },
    }
}

// ---------------------------------------------------------------------------
// After a change
// ---------------------------------------------------------------------------

/// An event that the interface is told of.
#[derive(Debug)]
pub struct TaskUpdated {
    pub agent_id: String,
    pub task_number: i64,
    pub status: String,
    pub action: String,
}

/// What a notification is about.
#[derive(Debug, Clone, Copy, PartialEq, Eq, Structural)]
pub enum NotificationKind {
    /// A task waits for approval.
    TaskApproval,
}

/// How much a notification matters.
#[derive(Debug, Clone, Copy, PartialEq, Eq, Structural)]
pub enum NotificationSeverity {
    Info,
}

/// A notification that a task waits for approval.
#[derive(Debug)]
pub struct ApprovalNotification {
    pub kind: NotificationKind,
    pub severity: NotificationSeverity,
    pub title: String,
    pub body: Option<String>,
    pub agent_id: String,
    pub related_entity_type: String,
    pub related_entity_id: String,
    pub action_url: String,
}

/// An event for the wake queue of the owning agent: a task was approved.
#[derive(Debug)]
pub struct TaskApproved {
    pub agent_id: String,
    pub dedupe_key: String,
    pub payload: Json,
}

/// What follows a change of a task.
#[derive(Debug)]
pub struct Aftermath {
    pub event: TaskUpdated,
    pub notification: Option<ApprovalNotification>,
    pub approved: Option<TaskApproved>,
}

/// Whether a change moved a task onto ready.
pub open spec fn landed_on_ready(status: TaskStatus, previous: Option<TaskStatus>) -> bool {
    status == TaskStatus::Ready && previous is Some && previous != Some(TaskStatus::Ready)
}

/// What an approval tells the wake queue.
pub open spec fn approval_payload(task: Task, action: Seq<char>) -> Seq<(Seq<char>, crate::json::JsonModel)> {
    crate::json::with_opt_text(
        crate::json::with_text(
            crate::json::with_text(
                crate::json::with_number(crate::json::no_members(), "task_number"@, task.task_number as int),
                "title"@,
                task.title@,
            ),
            "action"@,
            action,
        ),
        "approved_by"@,
        text::opt_text(task.approved_by),
    )
}

/// Whether an aftermath tells of a change of a task.
pub open spec fn tells(aftermath: Aftermath, task: Task, action: Seq<char>, previous: Option<TaskStatus>) -> bool {
    let number = text::signed_decimal(task.task_number as int);
    &&& aftermath.event.agent_id@ == task.agent()
    &&& aftermath.event.task_number == task.task_number
    &&& aftermath.event.status@ == task.status.name()
    &&& aftermath.event.action@ == action
    &&& match aftermath.notification {
        Some(notification) => {
            &&& task.status == TaskStatus::PendingApproval
            &&& notification.kind == NotificationKind::TaskApproval
            &&& notification.severity == NotificationSeverity::Info
            &&& notification.title@ == task.title@
            &&& text::opt_text(notification.body) == text::opt_text(task.description)
            &&& notification.agent_id@ == task.agent()
            &&& notification.related_entity_type@ == "task"@
            &&& notification.related_entity_id@ == number
            &&& notification.action_url@ == "/tasks/"@ + number
        },
        None => task.status != TaskStatus::PendingApproval,
    }
    &&& match aftermath.approved {
        Some(approved) => {
            &&& landed_on_ready(task.status, previous)
            &&& approved.agent_id@ == task.agent()
            &&& approved.dedupe_key@ == "task:"@ + number
            &&& approved.payload@ == crate::json::JsonModel::Object(approval_payload(task, action))
        },
        None => !landed_on_ready(task.status, previous),
    }
}

/// Post-mutation fan-out shared by the task handlers: the event, the approval
/// notification, and, when the mutation transitioned the task onto ready, a
/// task-approved event for the owning agent's wake queue.
pub fn finish_task_mutation(task: &Task, action: &str, previous_status: Option<TaskStatus>) -> (aftermath: Aftermath)
    ensures
        tells(aftermath, *task, action@, previous_status),
{
    let number = text::show_signed(task.task_number);
    let event = TaskUpdated {
        agent_id: task.effective_agent_id().to_owned(),
        task_number: task.task_number,
        status: task.status.as_str().to_owned(),
        action: action.to_owned(),
    };
    let notification = if task.status == TaskStatus::PendingApproval {
        let mut action_url = "/tasks/".to_owned();
        action_url.push_str(number.as_str());
        Some(
            ApprovalNotification {
                kind: NotificationKind::TaskApproval,
                severity: NotificationSeverity::Info,
                title: task.title.clone(),
                body: copy_opt(&task.description),
                agent_id: task.effective_agent_id().to_owned(),
                related_entity_type: "task".to_owned(),
                related_entity_id: number.clone(),
                action_url,
            },
        )
    } else {
        None
    };
    let landed = task.status == TaskStatus::Ready && (match previous_status {
        Some(previous) => previous != TaskStatus::Ready,
        None => false,
    });
    let approved = if landed {
        let mut payload = Body::new();
        payload.number("task_number", task.task_number);
        payload.text("title", task.title.as_str());
        payload.text("action", action);
        payload.opt_text("approved_by", &task.approved_by);
        let mut dedupe_key = "task:".to_owned();
        dedupe_key.push_str(number.as_str());
        Some(
            TaskApproved {
                agent_id: task.effective_agent_id().to_owned(),
                dedupe_key,
                payload: payload.object(),
            },
        )
    } else {
        None
    };
    Aftermath { event, notification, approved }
}

/// A deletion: what is answered, and the event that the interface is told of.
#[derive(Debug)]
pub struct Deletion {
    pub response: TaskActionResponse,
    pub event: TaskUpdated,
}

/// Answers the deletion of a task, which was looked up before it was deleted.
pub fn delete_task(number: i64, found: Result<Option<Task>, StoreError>, deleted: Result<bool, StoreError>) -> (deletion: Result<
    Deletion,
    Status,
>)
    ensures
        match api::looked_up(found) {
            Err(status) => deletion == Err::<Deletion, Status>(status),
            Ok(task) => match deleted {
                Err(_) => deletion == Err::<Deletion, Status>(Status::Internal),
                Ok(false) => deletion == Err::<Deletion, Status>(Status::NotFound),
                Ok(true) => deletion matches Ok(deletion) && deletion.response.success
                    && deletion.response.message@ == "Task #"@ + text::signed_decimal(number as int) + " deleted"@
                    && deletion.event.agent_id@ == task.agent() && deletion.event.task_number == number
                    && deletion.event.status@ == "deleted"@ && deletion.event.action@ == "deleted"@,
            },
        },
{
    let task = match api::found_or_status(found) {
        Ok(task) => task,
        Err(status) => {
            return Err(status);
        },
    };
    match deleted {
        Err(_) => Err(Status::Internal),
        Ok(false) => Err(Status::NotFound),
        Ok(true) => {
            let mut message = "Task #".to_owned();
            message.push_str(text::show_signed(number).as_str());
            message.push_str(" deleted");
            Ok(
                Deletion {
                    response: TaskActionResponse { success: true, message },
                    event: TaskUpdated {
                        agent_id: task.effective_agent_id().to_owned(),
                        task_number: number,
                        status: "deleted".to_owned(),
                        action: "deleted".to_owned(),
                    },
                },
            )
        },
    }
}

// ---------------------------------------------------------------------------
// Laws
// ---------------------------------------------------------------------------

/// A new task waits for approval, whatever is asked for: it is never on its
/// way without one.
pub proof fn law_new_tasks_wait_for_approval(input: CreateTaskInput, request: CreateTaskRequest)
    requires
        creates(input, request),
    ensures
        input.status == TaskStatus::PendingApproval,
        !landed_on_ready(input.status, None),
{
}

/// A task that is ready already is not announced as approved again.
pub proof fn law_readiness_is_announced_once(status: TaskStatus)
    ensures
        !landed_on_ready(status, Some(TaskStatus::Ready)),
{
}

/// A dependency keeps its task and its place, and is a gate unless it says
/// otherwise.
pub proof fn law_dependencies_gate_unless_they_say_otherwise(requests: Seq<TaskDependencyRequest>, k: int)
    requires
        0 <= k < requests.len(),
    ensures
        edges_of(requests).len() == requests.len(),
        edges_of(requests)[k].task == requests[k].task,
        requests[k].kind is None ==> edges_of(requests)[k].kind == TaskDependencyKind::Gate,
        requests[k].kind is Some ==> edges_of(requests)[k].kind == requests[k].kind->0,
{
}

/// A status and a priority are read where they are known, absent where they are
/// not given, and a bad request where either is neither.
pub proof fn law_unknown_words_are_bad_requests(status: Option<String>, priority: Option<String>)
    ensures
        status is None ==> status_in(status) == Ok::<Option<TaskStatus>, Status>(None),
        status is Some && TaskStatus::named(status->0@) is Some ==> status_in(status) == Ok::<Option<TaskStatus>, Status>(
            TaskStatus::named(status->0@),
        ),
        status is Some && TaskStatus::named(status->0@) is None ==> status_in(status) == Err::<
            Option<TaskStatus>,
            Status,
        >(Status::BadRequest),
        both_in(status, priority) is Ok <==> status_in(status) is Ok && goals::priority_in(priority) is Ok,
        both_in(status, priority) matches Ok((a, b)) ==> status_in(status) == Ok::<Option<TaskStatus>, Status>(a)
            && goals::priority_in(priority) == Ok::<Option<TaskPriority>, Status>(b),
        both_in(status, priority) matches Err(refused) ==> refused == Status::BadRequest,
{
}

/// A task is created for the agent it names, its owner without one, by the
/// author it names, a human without one, and everything else is taken over.
pub proof fn law_a_task_is_created_as_it_was_asked_for(input: CreateTaskInput, request: CreateTaskRequest)
    requires
        creates(input, request),
    ensures
        request.assigned_agent_id is None ==> input.assigned_agent_id == Some(input.owner_agent_id),
        request.assigned_agent_id is Some ==> input.assigned_agent_id == request.assigned_agent_id,
        input.owner_agent_id == request.owner_agent_id,
        input.title == request.title && input.description == request.description,
        request.created_by is None ==> input.created_by@ == "human"@,
        request.created_by is Some ==> input.created_by@ == request.created_by->0@,
        request.priority is None ==> input.priority == TaskPriority::Medium,
        request.priority is Some ==> TaskPriority::named(request.priority->0@) == Some(input.priority),
        request.metadata is Some ==> input.metadata == request.metadata->0,
        input.subtasks == request.subtasks && input.required_skills == request.required_skills,
        input.source_memory_id == request.source_memory_id && input.worker_type == request.worker_type,
        input.project_id == request.project_id && input.repo_id == request.repo_id,
        input.worktree_mode == request.worktree_mode && input.worktree_id == request.worktree_id,
{
}

/// A change takes over what it names, reads its status and priority, and never
/// takes a worker off a task.
pub proof fn law_a_task_is_changed_as_it_was_asked_for(input: UpdateTaskInput, request: UpdateTaskRequest)
    requires
        updates(input, request),
    ensures
        !input.clear_worker_id,
        status_in(request.status) == Ok::<Option<TaskStatus>, Status>(input.status),
        goals::priority_in(request.priority) == Ok::<Option<TaskPriority>, Status>(input.priority),
        input.title == request.title && input.description == request.description,
        input.assigned_agent_id == request.assigned_agent_id && input.worker_id == request.worker_id,
        input.subtasks == request.subtasks && input.metadata == request.metadata,
        input.approved_by == request.approved_by && input.complete_subtask == request.complete_subtask,
        input.worker_type == request.worker_type && input.required_skills == request.required_skills,
        input.project_id == request.project_id && input.repo_id == request.repo_id,
        input.worktree_mode == request.worktree_mode && input.worktree_id == request.worktree_id,
{
}

/// A task is announced as ready exactly when it just became so.
pub proof fn law_only_a_change_to_ready_is_announced(status: TaskStatus, previous: Option<TaskStatus>)
    ensures
        status != TaskStatus::Ready ==> !landed_on_ready(status, previous),
        previous is None ==> !landed_on_ready(status, previous),
        previous is Some && previous->0 != TaskStatus::Ready ==> landed_on_ready(TaskStatus::Ready, previous),
{
}

/// What follows a change tells of the task itself: everyone hears of it, a task
/// that waits for approval asks for it, and one that became ready wakes its
/// agent once.
pub proof fn law_the_aftermath_tells_of_its_task(
    aftermath: Aftermath,
    task: Task,
    action: Seq<char>,
    previous: Option<TaskStatus>,
)
    requires
        tells(aftermath, task, action, previous),
    ensures
        aftermath.event.agent_id@ == task.agent() && aftermath.event.task_number == task.task_number,
        aftermath.event.action@ == action && aftermath.event.status@ == task.status.name(),
        aftermath.notification is Some <==> task.status == TaskStatus::PendingApproval,
        aftermath.notification matches Some(notification) ==> notification.title@ == task.title@
            && notification.agent_id@ == task.agent() && text::ends(
            notification.action_url@,
            notification.related_entity_id@,
        ) && notification.kind == NotificationKind::TaskApproval && text::opt_text(notification.body)
            == text::opt_text(task.description) && notification.related_entity_id@ == text::signed_decimal(
            task.task_number as int,
        ),
        aftermath.approved is Some <==> task.status == TaskStatus::Ready && previous is Some && previous->0
            != TaskStatus::Ready,
        aftermath.approved matches Some(approved) ==> approved.agent_id@ == task.agent() && text::ends(
            approved.dedupe_key@,
            text::signed_decimal(task.task_number as int),
        ),
{
    let number = text::signed_decimal(task.task_number as int);
    text::law_parts_occur("/tasks/"@, number, Seq::empty());
    text::law_parts_occur("task:"@, number, Seq::empty());
}

/// A change of a status or an assignment changes nothing else.
pub proof fn law_a_narrow_change_changes_nothing_else(
    input: UpdateTaskInput,
    status: Option<TaskStatus>,
    approved_by: Option<Seq<char>>,
    assigned: Option<Seq<char>>,
)
    requires
        changes_only(input, status, approved_by, assigned),
    ensures
        input.status == status,
        text::opt_text(input.approved_by) == approved_by && text::opt_text(input.assigned_agent_id) == assigned,
        input.title is None && input.description is None && input.priority is None && input.subtasks is None,
        input.metadata is None && input.worker_id is None && !input.clear_worker_id && input.complete_subtask is None,
        input.project_id is None && input.repo_id is None && input.worktree_id is None && input.required_skills is None,
{
}

} // verus!
