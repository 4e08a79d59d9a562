//! Background tasks: how a request's priority and filter names are read.

use vstd::prelude::*;

use crate::text::{chars_of, eq_str};

verus! {

broadcast use vstd::string::group_string_axioms;

/// A task to run in the background.
#[derive(Debug, Clone)]
pub struct SubmitTaskRequest {
    pub name: String,
    pub description: Option<String>,
    pub priority: String,
    pub payload: Option<String>,
}

/// Which background tasks to list.
#[derive(Debug, Clone)]
pub struct ListBackgroundTasksRequest {
    pub status: Option<String>,
    pub priority: Option<String>,
    pub limit: Option<usize>,
}

/// How urgent a background task is.
#[derive(Debug, Clone, Copy, PartialEq, Eq, Structural)]
pub enum TaskPriority {
    Low,
    Normal,
    High,
}

/// Where a background task stands.
#[derive(Debug, Clone, Copy, PartialEq, Eq, Structural)]
pub enum TaskStatus {
    Queued,
    Running,
    Paused,
    Completed,
    Failed,
    Cancelled,
}

/// A filter over the background tasks.
#[derive(Debug, Clone, Copy, PartialEq, Eq, Structural)]
pub struct TaskFilter {
    pub status: Option<TaskStatus>,
    pub priority: Option<TaskPriority>,
    pub limit: Option<usize>,
}

/// The priority a name stands for, exactly `Low`, `Normal` or `High`.
pub open spec fn priority_named(name: Seq<char>) -> Option<TaskPriority> {
    if name == "Low"@ {
        Some(TaskPriority::Low)
    } else if name == "Normal"@ {
        Some(TaskPriority::Normal)
    } else if name == "High"@ {
        Some(TaskPriority::High)
    } else {
        None
    }
}

/// The status a name stands for, exactly as the status is spelled.
pub open spec fn status_named(name: Seq<char>) -> Option<TaskStatus> {
    if name == "Queued"@ {
        Some(TaskStatus::Queued)
    } else if name == "Running"@ {
        Some(TaskStatus::Running)
    } else if name == "Paused"@ {
        Some(TaskStatus::Paused)
    } else if name == "Completed"@ {
        Some(TaskStatus::Completed)
    } else if name == "Failed"@ {
        Some(TaskStatus::Failed)
    } else if name == "Cancelled"@ {
        Some(TaskStatus::Cancelled)
    } else {
        None
    }
}

/// The priority a name stands for.
pub fn parse_priority(name: &str) -> (r: Option<TaskPriority>)
    ensures
        r == priority_named(name@),
{
    let v = chars_of(name);
    if eq_str(&v, "Low") {
        Some(TaskPriority::Low)
    } else if eq_str(&v, "Normal") {
        Some(TaskPriority::Normal)
    } else if eq_str(&v, "High") {
        Some(TaskPriority::High)
    } else {
        None
    }
}

/// The status a name stands for.
pub fn parse_status(name: &str) -> (r: Option<TaskStatus>)
    ensures
        r == status_named(name@),
{
    let v = chars_of(name);
    if eq_str(&v, "Queued") {
        Some(TaskStatus::Queued)
    } else if eq_str(&v, "Running") {
        Some(TaskStatus::Running)
    } else if eq_str(&v, "Paused") {
        Some(TaskStatus::Paused)
    } else if eq_str(&v, "Completed") {
        Some(TaskStatus::Completed)
    } else if eq_str(&v, "Failed") {
        Some(TaskStatus::Failed)
    } else if eq_str(&v, "Cancelled") {
        Some(TaskStatus::Cancelled)
    } else {
        None
    }
}

/// The priority a submitted task runs at: the one it names, normal where
/// the name is not known.
pub fn submit_priority(request: &SubmitTaskRequest) -> (r: TaskPriority)
    ensures
        r == (match priority_named(request.priority@) {
            Some(p) => p,
            None => TaskPriority::Normal,
        }),
{
    match parse_priority(request.priority.as_str()) {
        Some(p) => p,
        None => TaskPriority::Normal,
    }
}

/// The filter a listing request asks for: names that are not known filter
/// nothing.
pub fn task_filter(request: &ListBackgroundTasksRequest) -> (r: TaskFilter)
    ensures
        r.status == (match request.status {
            Some(s) => status_named(s@),
            None => None,
        }),
        r.priority == (match request.priority {
            Some(p) => priority_named(p@),
            None => None,
        }),
        r.limit == request.limit,
{
    let status = match &request.status {
        Some(s) => parse_status(s.as_str()),
        None => None,
    };
    let priority = match &request.priority {
        Some(p) => parse_priority(p.as_str()),
        None => None,
    };
    TaskFilter { status, priority, limit: request.limit }
}

} // verus!
