//! Task tracking data model.
use vstd::prelude::*;
use crate::text;

verus! {

/// Where a task stands.
#[derive(Debug, Clone, Copy, PartialEq, Eq, Structural)]
pub enum TaskStatus {
    PendingApproval,
    Backlog,
    Ready,
    InProgress,
    Done,
}

impl TaskStatus {
    /// The name of a status.
    pub open spec fn name(self) -> Seq<char> {
        match self {
            TaskStatus::PendingApproval => "pending_approval"@,
            TaskStatus::Backlog => "backlog"@,
            TaskStatus::Ready => "ready"@,
            TaskStatus::InProgress => "in_progress"@,
            TaskStatus::Done => "done"@,
        }
    }

    /// The name of a status.
    pub fn as_str(self) -> (name: &'static str)
        ensures
            name@ == self.name(),
    {
        match self {
            TaskStatus::PendingApproval => "pending_approval",
            TaskStatus::Backlog => "backlog",
            TaskStatus::Ready => "ready",
            TaskStatus::InProgress => "in_progress",
            TaskStatus::Done => "done",
        }
    }

    /// The status that a name stands for.
    pub open spec fn named(value: Seq<char>) -> Option<TaskStatus> {
        if value == "pending_approval"@ {
            Some(TaskStatus::PendingApproval)
        } else if value == "backlog"@ {
            Some(TaskStatus::Backlog)
        } else if value == "ready"@ {
            Some(TaskStatus::Ready)
        } else if value == "in_progress"@ {
            Some(TaskStatus::InProgress)
        } else if value == "done"@ {
            Some(TaskStatus::Done)
        } else {
            None
        }
    }

    /// Reads the name of a status.
    pub fn parse(value: &str) -> (status: Option<TaskStatus>)
        ensures
            status == TaskStatus::named(value@),
    {
        if text::same(value, "pending_approval") {
            Some(TaskStatus::PendingApproval)
        } else if text::same(value, "backlog") {
            Some(TaskStatus::Backlog)
        } else if text::same(value, "ready") {
            Some(TaskStatus::Ready)
        } else if text::same(value, "in_progress") {
            Some(TaskStatus::InProgress)
        } else if text::same(value, "done") {
            Some(TaskStatus::Done)
        } else {
            None
        }
    }
}

/// How urgent a task is.
#[derive(Debug, Clone, Copy, PartialEq, Eq, Structural)]
pub enum TaskPriority {
    Critical,
    High,
    Medium,
    Low,
}

impl TaskPriority {
    /// The name of a priority.
    pub open spec fn name(self) -> Seq<char> {
        match self {
            TaskPriority::Critical => "critical"@,
            TaskPriority::High => "high"@,
            TaskPriority::Medium => "medium"@,
            TaskPriority::Low => "low"@,
        }
    }

    /// The name of a priority.
    pub fn as_str(self) -> (name: &'static str)
        ensures
            name@ == self.name(),
    {
        match self {
            TaskPriority::Critical => "critical",
            TaskPriority::High => "high",
            TaskPriority::Medium => "medium",
            TaskPriority::Low => "low",
        }
    }

    /// The priority that a name stands for.
    pub open spec fn named(value: Seq<char>) -> Option<TaskPriority> {
        if value == "critical"@ {
            Some(TaskPriority::Critical)
        } else if value == "high"@ {
            Some(TaskPriority::High)
        } else if value == "medium"@ {
            Some(TaskPriority::Medium)
        } else if value == "low"@ {
            Some(TaskPriority::Low)
        } else {
            None
        }
    }

    /// Reads the name of a priority.
    pub fn parse(value: &str) -> (priority: Option<TaskPriority>)
        ensures
            priority == TaskPriority::named(value@),
    {
        if text::same(value, "critical") {
            Some(TaskPriority::Critical)
        } else if text::same(value, "high") {
            Some(TaskPriority::High)
        } else if text::same(value, "medium") {
            Some(TaskPriority::Medium)
        } else if text::same(value, "low") {
            Some(TaskPriority::Low)
        } else {
            None
        }
    }
}

/// How a task depends on another: a gate blocks it until the other is done.
#[derive(Debug, Clone, Copy, PartialEq, Eq, Structural)]
pub enum TaskDependencyKind {
    Gate,
    Soft,
}

/// A step of a task.
#[derive(Debug)]
pub struct TaskSubtask {
    pub title: String,
    pub completed: bool,
}

impl Clone for TaskSubtask {
    fn clone(&self) -> (copy: Self)
        ensures
            copy == *self,
    {
        TaskSubtask { title: self.title.clone(), completed: self.completed }
    }
}

/// A task.
#[derive(Debug)]
pub struct Task {
    pub task_number: i64,
    pub title: String,
    pub description: Option<String>,
    pub status: TaskStatus,
    pub priority: TaskPriority,
    pub owner_agent_id: String,
    pub assigned_agent_id: Option<String>,
    pub subtasks: Vec<TaskSubtask>,
    pub created_by: String,
    pub worker_id: Option<String>,
    pub approved_by: Option<String>,
    pub approved_at: Option<String>,
    pub completed_at: Option<String>,
    pub created_at: String,
    pub updated_at: String,
    pub revision: i64,
}

impl Task {
    /// The agent that a task is for: the one assigned, or else its owner.
    pub open spec fn agent(self) -> Seq<char> {
        match self.assigned_agent_id {
            Some(agent) => agent@,
            None => self.owner_agent_id@,
        }
    }

    /// The agent that a task is for: the one assigned, or else its owner.
    pub fn effective_agent_id(&self) -> (agent: &str)
        ensures
            agent@ == self.agent(),
    {
        match &self.assigned_agent_id {
            Some(agent) => agent.as_str(),
            None => self.owner_agent_id.as_str(),
        }
    }
}

/// The name of a status reads back as that status.
pub proof fn law_status_names_read_back(status: TaskStatus)
    ensures
        TaskStatus::named(status.name()) == Some(status),
{
    reveal_strlit("pending_approval");
    reveal_strlit("backlog");
    reveal_strlit("ready");
    reveal_strlit("in_progress");
    reveal_strlit("done");
    assert("pending_approval"@.len() == 16);
    assert("backlog"@.len() == 7);
    assert("ready"@.len() == 5);
    assert("in_progress"@.len() == 11);
    assert("done"@.len() == 4);
}

/// The name of a priority reads back as that priority.
pub proof fn law_priority_names_read_back(priority: TaskPriority)
    ensures
        TaskPriority::named(priority.name()) == Some(priority),
{
    reveal_strlit("critical");
    reveal_strlit("high");
    reveal_strlit("medium");
    reveal_strlit("low");
    assert("critical"@.len() == 8);
    assert("high"@.len() == 4);
    assert("medium"@.len() == 6);
    assert("low"@.len() == 3);
}

/// No two statuses and no two priorities share a name, and no other word names
/// one.
pub proof fn law_only_names_are_read(value: Seq<char>)
    ensures
        TaskStatus::named(value) matches Some(status) ==> status.name() == value,
        TaskPriority::named(value) matches Some(priority) ==> priority.name() == value,
{
}

/// A status and a priority are called by their own names.
pub proof fn law_statuses_and_priorities_are_called_by_name()
    ensures
        TaskStatus::PendingApproval.name() == "pending_approval"@,
        TaskStatus::Backlog.name() == "backlog"@,
        TaskStatus::Ready.name() == "ready"@,
        TaskStatus::InProgress.name() == "in_progress"@,
        TaskStatus::Done.name() == "done"@,
        TaskPriority::Critical.name() == "critical"@,
        TaskPriority::High.name() == "high"@,
        TaskPriority::Medium.name() == "medium"@,
        TaskPriority::Low.name() == "low"@,
{
}

/// A task belongs to the agent it is assigned to, and to its owner while it is
/// assigned to none.
pub proof fn law_a_task_belongs_to_its_assignee(task: Task)
    ensures
        task.assigned_agent_id is Some ==> task.agent() == task.assigned_agent_id->0@,
        task.assigned_agent_id is None ==> task.agent() == task.owner_agent_id@,
{
}

} // verus!
