//! Goal endpoints.
//!
//! Goals are user-defined objectives, instance-scoped like tasks. Completion
//! is user-initiated: the user closes a goal by setting its status to
//! `"completed"`.
use vstd::prelude::*;
use crate::api;
use crate::api::{Status, StoreError};
use crate::json::{Body, Json};
use crate::tasks::TaskPriority;
use crate::text;

verus! {

broadcast use vstd::seq::group_seq_axioms;

/// How many goals are listed by default.
pub const DEFAULT_GOAL_LIMIT: i64 = 100;

/// Where a goal stands.
#[derive(Debug, Clone, Copy, PartialEq, Eq, Structural)]
pub enum GoalStatus {
    Active,
    Paused,
    Completed,
    Abandoned,
}

impl GoalStatus {
    /// The status that a name stands for.
    pub open spec fn named(value: Seq<char>) -> Option<GoalStatus> {
        if value == "active"@ {
            Some(GoalStatus::Active)
        } else if value == "paused"@ {
            Some(GoalStatus::Paused)
        } else if value == "completed"@ {
            Some(GoalStatus::Completed)
        } else if value == "abandoned"@ {
            Some(GoalStatus::Abandoned)
        } else {
            None
        }
    }

    /// Reads the name of a status.
    pub fn parse(value: &str) -> (status: Option<GoalStatus>)
        ensures
            status == GoalStatus::named(value@),
    {
        if text::same(value, "active") {
            Some(GoalStatus::Active)
        } else if text::same(value, "paused") {
            Some(GoalStatus::Paused)
        } else if text::same(value, "completed") {
            Some(GoalStatus::Completed)
        } else if text::same(value, "abandoned") {
            Some(GoalStatus::Abandoned)
        } else {
            None
        }
    }

    /// Whether the goal lifecycle lets a goal go from one status to another:
    /// active to paused and back, active to completed, active to abandoned, or
    /// no change at all.
    pub open spec fn leads_to(self, next: GoalStatus) -> bool {
        self == next || self == GoalStatus::Active || self == GoalStatus::Paused && next == GoalStatus::Active
    }

    /// Whether the goal lifecycle lets a goal go from one status to another.
    pub fn may_become(self, next: GoalStatus) -> (yes: bool)
        ensures
            yes == self.leads_to(next),
    {
        self == next || self == GoalStatus::Active || self == GoalStatus::Paused && next == GoalStatus::Active
    }
}

/// A goal.
#[derive(Debug)]
pub struct Goal {
    pub id: String,
    pub title: String,
    pub description: Option<String>,
    pub status: GoalStatus,
    pub priority: TaskPriority,
    pub due_date: Option<String>,
    pub notes: Option<String>,
}

/// How many tasks are linked to a goal.
#[derive(Debug, Clone, Copy, PartialEq, Eq, Structural)]
pub struct GoalTaskCounts {
    pub total: i64,
    pub done: i64,
}

/// A goal with its task counts.
#[derive(Debug)]
pub struct GoalWithCounts {
    pub goal: Goal,
    pub task_counts: GoalTaskCounts,
}

/// Goals with their task counts.
#[derive(Debug)]
pub struct GoalListResponse {
    pub goals: Vec<GoalWithCounts>,
}

/// One goal with its task counts.
#[derive(Debug)]
pub struct GoalResponse {
    pub goal: GoalWithCounts,
}

/// Which goals to list.
#[derive(Debug)]
pub struct GoalListQuery {
    pub status: Option<String>,
    pub limit: i64,
}

/// What the store is asked for.
#[derive(Debug, Clone, Copy, PartialEq, Eq, Structural)]
pub struct GoalListFilter {
    pub status: Option<GoalStatus>,
    pub limit: Option<i64>,
}

/// A goal to be created.
#[derive(Debug)]
pub struct CreateGoalRequest {
    pub title: String,
    pub description: Option<String>,
    pub priority: Option<String>,
    /// Optional deadline as YYYY-MM-DD.
    pub due_date: Option<String>,
    pub metadata: Option<Json>,
}

/// What the store is given for a new goal.
#[derive(Debug)]
pub struct CreateGoalInput {
    pub title: String,
    pub description: Option<String>,
    pub priority: TaskPriority,
    pub due_date: Option<String>,
    pub metadata: Json,
}

/// Changes to a goal.
#[derive(Debug)]
pub struct UpdateGoalRequest {
    pub title: Option<String>,
    pub description: Option<String>,
    /// New status. Completion happens here: `"completed"` closes a goal.
    pub status: Option<String>,
    pub priority: Option<String>,
    /// New deadline as YYYY-MM-DD, or empty string to clear.
    pub due_date: Option<String>,
    /// Replacement progress notes, or empty string to clear.
    pub notes: Option<String>,
    /// Object patch deep-merged into the current metadata.
    pub metadata: Option<Json>,
}

/// What the store is given for a change.
#[derive(Debug)]
pub struct UpdateGoalInput {
    pub title: Option<String>,
    pub description: Option<String>,
    pub status: Option<GoalStatus>,
    pub priority: Option<TaskPriority>,
    pub due_date: Option<String>,
    pub notes: Option<String>,
    pub metadata: Option<Json>,
}

/// An optional name, read.
pub open spec fn goal_status_in(value: Option<String>) -> Result<Option<GoalStatus>, Status> {
    match value {
        None => Ok(None),
        Some(value) => match GoalStatus::named(value@) {
            Some(status) => Ok(Some(status)),
            None => Err(Status::BadRequest),
        },
    }
}

/// An optional name, read.
pub open spec fn priority_in(value: Option<String>) -> Result<Option<TaskPriority>, Status> {
    match value {
        None => Ok(None),
        Some(value) => match TaskPriority::named(value@) {
            Some(priority) => Ok(Some(priority)),
            None => Err(Status::BadRequest),
        },
    }
}

fn parse_status(value: &Option<String>) -> (status: Result<Option<GoalStatus>, Status>)
    ensures
        status == goal_status_in(*value),
{
    match value {
        None => Ok(None),
        Some(value) => match GoalStatus::parse(value.as_str()) {
            Some(status) => Ok(Some(status)),
            None => Err(Status::BadRequest),
        },
    }
}

/// Reads an optional priority; a name that stands for none is a bad request.
pub fn parse_priority(value: &Option<String>) -> (priority: Result<Option<TaskPriority>, Status>)
    ensures
        priority == priority_in(*value),
{
    match value {
        None => Ok(None),
        Some(value) => match TaskPriority::parse(value.as_str()) {
            Some(priority) => Ok(Some(priority)),
            None => Err(Status::BadRequest),
        },
    }
}

/// Extracts the goal store, unavailable as long as it is not initialized.
pub fn get_goal_store<T>(store: Option<T>) -> (answer: Result<T, Status>)
    ensures
        answer == api::initialized(store),
{
    api::store_or_unavailable(store)
}

/// Puts a goal together with its task counts.
pub fn with_counts(goal: Goal, counts: Result<GoalTaskCounts, StoreError>) -> (answer: Result<GoalWithCounts, Status>)
    ensures
        answer == (match counts {
            Ok(task_counts) => Ok::<GoalWithCounts, Status>((GoalWithCounts { goal, task_counts })),
            Err(_) => Err::<GoalWithCounts, Status>(Status::Internal),
        }),
{
    match counts {
        Ok(task_counts) => Ok(GoalWithCounts { goal, task_counts }),
        Err(_) => Err(Status::Internal),
    }
}

/// Decides what the store is asked for in a listing.
pub fn list_goals(query: &GoalListQuery) -> (filter: Result<GoalListFilter, Status>)
    ensures
        filter == (match goal_status_in(query.status) {
            Ok(status) => Ok::<GoalListFilter, Status>(
                (GoalListFilter { status, limit: Some(api::clamped(query.limit as int, 1, 500) as i64) }),
            ),
            Err(refused) => Err::<GoalListFilter, Status>(refused),
        }),
{
    match parse_status(&query.status) {
        Ok(status) => Ok(GoalListFilter { status, limit: Some(api::clamp(query.limit, 1, 500)) }),
        Err(refused) => Err(refused),
    }
}

/// The goals that were listed, each with its task counts.
pub open spec fn counted(goals: Seq<Goal>, counts: Seq<Result<GoalTaskCounts, StoreError>>) -> Seq<GoalWithCounts> {
    Seq::new(
        goals.len(),
        |k: int| GoalWithCounts { goal: goals[k], task_counts: counts[k]->Ok_0 },
    )
}

/// Whether some count failed.
pub open spec fn uncounted(counts: Seq<Result<GoalTaskCounts, StoreError>>) -> bool {
    exists|k: int| 0 <= k < counts.len() && (#[trigger] counts[k]) is Err
}

/// Answers a listing with the goals and their task counts.
pub fn listed_goals(goals: Vec<Goal>, counts: &Vec<Result<GoalTaskCounts, StoreError>>) -> (answer: Result<
    GoalListResponse,
    Status,
>)
    requires
        counts@.len() == goals@.len(),
    ensures
        match answer {
            Ok(response) => !uncounted(counts@) && response.goals@ == counted(goals@, counts@),
            Err(status) => uncounted(counts@) && status == Status::Internal,
        },
{
    let ghost all = goals@;
    let mut rest = goals;
    let mut entries: Vec<GoalWithCounts> = Vec::new();
    let total: usize = counts.len();
    let mut n: usize = 0;
    while rest.len() > 0
        invariant
            all == goals@,
            counts@.len() == all.len(),
            total == all.len(),
            n <= all.len(),
            rest@ == all.subrange(n as int, all.len() as int),
            entries@ == counted(all, counts@).take(n as int),
            forall|k: int| 0 <= k < n ==> (#[trigger] counts@[k]) is Ok,
        decreases rest@.len(),
    {
        let goal = rest.remove(0);
        assert(goal == all[n as int]);
        assert(rest@ =~= all.subrange(n + 1, all.len() as int));
        match counts[n] {
            Ok(task_counts) => {
                let entry = GoalWithCounts { goal, task_counts };
                assert(counted(all, counts@).take(n + 1) =~= counted(all, counts@).take(n as int).push(entry));
                entries.push(entry);
            },
            Err(_) => {
                assert(counts@[n as int] is Err);
                return Err(Status::Internal);
            },
        }
        n = n + 1;
    }
    assert(entries@ =~= counted(all, counts@));
    Ok(GoalListResponse { goals: entries })
}

/// Answers a request for one goal.
pub fn get_goal(found: Result<Option<Goal>, StoreError>, counts: Result<GoalTaskCounts, StoreError>) -> (answer: Result<
    GoalResponse,
    Status,
>)
    ensures
        match found {
            Err(_) => answer == Err::<GoalResponse, Status>(Status::Internal),
            Ok(None) => answer == Err::<GoalResponse, Status>(Status::NotFound),
            Ok(Some(goal)) => match counts {
                Err(_) => answer == Err::<GoalResponse, Status>(Status::Internal),
                Ok(task_counts) => answer == Ok::<GoalResponse, Status>(
                    (GoalResponse { goal: (GoalWithCounts { goal, task_counts }) }),
                ),
            },
        },
{
    match api::found_or_status(found) {
        Err(status) => Err(status),
        Ok(goal) => match with_counts(goal, counts) {
            Ok(goal) => Ok(GoalResponse { goal }),
            Err(status) => Err(status),
        },
    }
}

/// Whether the store is given what a request for a new goal says.
pub open spec fn creates(input: CreateGoalInput, request: CreateGoalRequest) -> bool {
    &&& input.title == request.title
    &&& input.description == request.description
    &&& Ok::<Option<TaskPriority>, Status>(Some(input.priority)) == (match priority_in(request.priority) {
        Ok(None) => Ok::<Option<TaskPriority>, Status>(Some(TaskPriority::Medium)),
        other => other,
    })
    &&& input.due_date == request.due_date
    &&& match request.metadata {
        Some(metadata) => input.metadata == metadata,
        None => input.metadata@ == crate::json::JsonModel::Object(crate::json::no_members()),
    }
}

/// Decides what the store is given for a new goal. New goals start active, and
/// have medium priority where none is given.
pub fn create_goal(request: CreateGoalRequest) -> (input: Result<CreateGoalInput, Status>)
    ensures
        match input {
            Ok(input) => creates(input, request),
            Err(status) => priority_in(request.priority) == Err::<Option<TaskPriority>, Status>(status),
        },
{
    let priority = match parse_priority(&request.priority) {
        Ok(Some(priority)) => priority,
        Ok(None) => TaskPriority::Medium,
        Err(status) => {
            return Err(status);
        },
    };
    let metadata = match request.metadata {
        Some(metadata) => metadata,
        None => Body::new().object(),
    };
    Ok(
        CreateGoalInput {
            title: request.title,
            description: request.description,
            priority,
            due_date: request.due_date,
            metadata,
        },
    )
}

/// Answers the creation of a goal: one that the store refuses is a bad request.
pub fn created_goal(created: Result<Goal, StoreError>, counts: Result<GoalTaskCounts, StoreError>) -> (answer: Result<
    GoalResponse,
    Status,
>)
    ensures
        match created {
            Err(_) => answer == Err::<GoalResponse, Status>(Status::BadRequest),
            Ok(goal) => match counts {
                Err(_) => answer == Err::<GoalResponse, Status>(Status::Internal),
                Ok(task_counts) => answer == Ok::<GoalResponse, Status>(
                    (GoalResponse { goal: (GoalWithCounts { goal, task_counts }) }),
                ),
            },
        },
{
    match created {
        Err(_) => Err(Status::BadRequest),
        Ok(goal) => match with_counts(goal, counts) {
            Ok(goal) => Ok(GoalResponse { goal }),
            Err(status) => Err(status),
        },
    }
}

/// Decides what the store is given for a change of a goal.
pub fn update_goal(request: UpdateGoalRequest) -> (input: Result<UpdateGoalInput, Status>)
    ensures
        match goal_status_in(request.status) {
            Err(status) => input == Err::<UpdateGoalInput, Status>(status),
            Ok(status) => match priority_in(request.priority) {
                Err(status) => input == Err::<UpdateGoalInput, Status>(status),
                Ok(priority) => input == Ok::<UpdateGoalInput, Status>(
                    (UpdateGoalInput {
                        title: request.title,
                        description: request.description,
                        status,
                        priority,
                        due_date: request.due_date,
                        notes: request.notes,
                        metadata: request.metadata,
                    }),
                ),
            },
        },
{
    let status = match parse_status(&request.status) {
        Ok(status) => status,
        Err(refused) => {
            return Err(refused);
        },
    };
    let priority = match parse_priority(&request.priority) {
        Ok(priority) => priority,
        Err(refused) => {
            return Err(refused);
        },
    };
    Ok(
        UpdateGoalInput {
            title: request.title,
            description: request.description,
            status,
            priority,
            due_date: request.due_date,
            notes: request.notes,
            metadata: request.metadata,
        },
    )
}

/// Answers a change of a goal: one that the store refuses is a bad request.
pub fn updated_goal(updated: Result<Option<Goal>, StoreError>, counts: Result<GoalTaskCounts, StoreError>) -> (answer: Result<
    GoalResponse,
    Status,
>)
    ensures
        match updated {
            Err(_) => answer == Err::<GoalResponse, Status>(Status::BadRequest),
            Ok(None) => answer == Err::<GoalResponse, Status>(Status::NotFound),
            Ok(Some(goal)) => match counts {
                Err(_) => answer == Err::<GoalResponse, Status>(Status::Internal),
                Ok(task_counts) => answer == Ok::<GoalResponse, Status>(
                    (GoalResponse { goal: (GoalWithCounts { goal, task_counts }) }),
                ),
            },
        },
{
    match updated {
        Err(_) => Err(Status::BadRequest),
        Ok(None) => Err(Status::NotFound),
        Ok(Some(goal)) => match with_counts(goal, counts) {
            Ok(goal) => Ok(GoalResponse { goal }),
            Err(status) => Err(status),
        },
    }
}

// ---------------------------------------------------------------------------
// Laws
// ---------------------------------------------------------------------------

/// A goal that was completed or abandoned stays so.
pub proof fn law_closed_goals_stay_closed(status: GoalStatus, next: GoalStatus)
    requires
        status == GoalStatus::Completed || status == GoalStatus::Abandoned,
        status.leads_to(next),
    ensures
        next == status,
{
}

/// A goal's status is read by its name, and no other word is one.
pub proof fn law_goal_statuses_go_by_their_names(value: Seq<char>)
    ensures
        GoalStatus::named(value) == Some(GoalStatus::Active) <==> value == "active"@,
        GoalStatus::named(value) == Some(GoalStatus::Paused) <==> value == "paused"@,
        GoalStatus::named(value) == Some(GoalStatus::Completed) <==> value == "completed"@,
        GoalStatus::named(value) == Some(GoalStatus::Abandoned) <==> value == "abandoned"@,
{
    reveal_strlit("active");
    reveal_strlit("paused");
    reveal_strlit("completed");
    reveal_strlit("abandoned");
    assert("active"@[0] != "paused"@[0] && "active"@[0] != "completed"@[0] && "paused"@[0] != "completed"@[0]);
    assert("active"@.len() != "abandoned"@.len() && "paused"@[0] != "abandoned"@[0]);
    assert("completed"@[0] != "abandoned"@[0]);
}

/// An active goal may go anywhere, a paused one back to active alone, and every
/// goal may stay where it is.
pub proof fn law_goals_move_from_active(status: GoalStatus, next: GoalStatus)
    ensures
        status.leads_to(status),
        GoalStatus::Active.leads_to(next),
        GoalStatus::Paused.leads_to(next) <==> next == GoalStatus::Paused || next == GoalStatus::Active,
{
}

/// Words that name nothing are bad requests, and what is not given is none.
pub proof fn law_unknown_goal_words_are_bad_requests(value: Option<String>)
    ensures
        value is None ==> goal_status_in(value) == Ok::<Option<GoalStatus>, Status>(None) && priority_in(value) == Ok::<
            Option<TaskPriority>,
            Status,
        >(None),
        value is Some ==> {
            &&& GoalStatus::named(value->0@) is Some ==> goal_status_in(value) == Ok::<Option<GoalStatus>, Status>(
                GoalStatus::named(value->0@),
            )
            &&& GoalStatus::named(value->0@) is None ==> goal_status_in(value) == Err::<Option<GoalStatus>, Status>(
                Status::BadRequest,
            )
            &&& TaskPriority::named(value->0@) is Some ==> priority_in(value) == Ok::<Option<TaskPriority>, Status>(
                TaskPriority::named(value->0@),
            )
            &&& TaskPriority::named(value->0@) is None ==> priority_in(value) == Err::<Option<TaskPriority>, Status>(
                Status::BadRequest,
            )
        },
{
}

/// Every goal is listed with its own counts, in order.
pub proof fn law_goals_keep_their_own_counts(
    goals: Seq<Goal>,
    counts: Seq<Result<GoalTaskCounts, StoreError>>,
    k: int,
)
    requires
        0 <= k < goals.len(),
        counts.len() == goals.len(),
        !uncounted(counts),
    ensures
        counted(goals, counts).len() == goals.len(),
        counted(goals, counts)[k].goal == goals[k],
        counts[k] == Ok::<GoalTaskCounts, StoreError>(counted(goals, counts)[k].task_counts),
{
    assert(!(counts[k] is Err));
}

/// A goal is created as it was asked for, of medium priority without one.
pub proof fn law_a_goal_is_created_as_it_was_asked_for(input: CreateGoalInput, request: CreateGoalRequest)
    requires
        creates(input, request),
    ensures
        input.title == request.title && input.description == request.description,
        input.due_date == request.due_date,
        request.priority is None ==> input.priority == TaskPriority::Medium,
        request.priority is Some ==> TaskPriority::named(request.priority->0@) == Some(input.priority),
        request.metadata is Some ==> input.metadata == request.metadata->0,
{
}

} // verus!
