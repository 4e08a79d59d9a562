//! Goals for the AGI core and its agent orchestrator: what a goal request
//! becomes, and the defaults it is filled in with.

use vstd::prelude::*;

use crate::text::{append_str, chars_of, eq_str, string_of};

verus! {

broadcast use vstd::string::group_string_axioms;

/// A goal to pursue.
#[derive(Debug)]
pub struct SubmitGoalRequest {
    pub description: String,
    pub priority: Option<String>,
    pub deadline: Option<u64>,
    pub success_criteria: Option<Vec<String>>,
}

/// The id given to a goal.
#[derive(Debug)]
pub struct SubmitGoalResponse {
    pub goal_id: String,
}

/// A goal to pursue with several agents at once.
#[derive(Debug)]
pub struct SubmitParallelGoalRequest {
    pub description: String,
    pub priority: Option<String>,
    pub deadline: Option<u64>,
    pub success_criteria: Option<Vec<String>>,
    pub num_agents: Option<usize>,
}

/// A goal for one new agent.
#[derive(Debug)]
pub struct SpawnAgentRequest {
    pub description: String,
    pub priority: Option<String>,
    pub deadline: Option<u64>,
    pub success_criteria: Option<Vec<String>>,
}

/// The id of a new agent.
#[derive(Debug)]
pub struct SpawnAgentResponse {
    pub agent_id: String,
}

/// Goals for several new agents.
#[derive(Debug)]
pub struct SpawnParallelAgentsRequest {
    pub goals: Vec<SpawnAgentRequest>,
}

/// The ids of the new agents.
#[derive(Debug)]
pub struct SpawnParallelAgentsResponse {
    pub agent_ids: Vec<String>,
}

/// How urgent a goal is.
#[derive(Debug, Clone, Copy, PartialEq, Eq, Structural)]
pub enum GoalPriority {
    Low,
    Medium,
    High,
    Critical,
}

/// A goal as it is handed to the AGI: its id, what it asks, how urgent it
/// is, by when, and how success is judged.
#[derive(Debug)]
pub struct Goal {
    pub id: String,
    pub description: String,
    pub priority: GoalPriority,
    pub deadline: Option<u64>,
    pub success_criteria: Vec<String>,
}

/// The priority a request names: `low`, `medium`, `high` or `critical`,
/// exactly; medium otherwise.
pub open spec fn priority_of(name: Option<Seq<char>>) -> GoalPriority {
    match name {
        Some(n) => if n == "low"@ {
            GoalPriority::Low
        } else if n == "high"@ {
            GoalPriority::High
        } else if n == "critical"@ {
            GoalPriority::Critical
        } else {
            GoalPriority::Medium
        },
        None => GoalPriority::Medium,
    }
}

/// The priority a request names.
pub fn goal_priority(name: Option<&str>) -> (r: GoalPriority)
    ensures
        r == priority_of(match name {
            Some(n) => Some(n@),
            None => None,
        }),
{
    match name {
        Some(n) => {
            let v = chars_of(n);
            if eq_str(&v, "low") {
                GoalPriority::Low
            } else if eq_str(&v, "high") {
                GoalPriority::High
            } else if eq_str(&v, "critical") {
                GoalPriority::Critical
            } else {
                GoalPriority::Medium
            }
        },
        None => GoalPriority::Medium,
    }
}

/// The goal a request describes: its id is `goal_` and the first eight
/// characters of a fresh UUID; no success criteria where none are given.
pub fn goal_from_request(
    uuid: &str,
    description: String,
    priority: Option<&str>,
    deadline: Option<u64>,
    success_criteria: Option<Vec<String>>,
) -> (r: Goal)
    requires
        uuid@.len() >= 8,
    ensures
        r.id@ == "goal_"@ + uuid@.take(8),
        r.description == description,
        r.priority == priority_of(match priority {
            Some(n) => Some(n@),
            None => None,
        }),
        r.deadline == deadline,
        r.success_criteria@ == (match success_criteria {
            Some(c) => c@,
            None => Seq::<String>::empty(),
        }),
{
    let u = chars_of(uuid);
    let mut id = "goal_".to_owned();
    let head = string_of(&u, 0, 8);
    append_str(&mut id, head.as_str());
    let criteria = match success_criteria {
        Some(c) => c,
        None => Vec::new(),
    };
    Goal {
        id,
        description,
        priority: goal_priority(priority),
        deadline,
        success_criteria: criteria,
    }
}

/// How many agents pursue a goal in parallel: eight where the request
/// does not say.
pub fn parallel_agents(num_agents: Option<usize>) -> (r: usize)
    ensures
        r == (match num_agents {
            Some(n) => n,
            None => 8,
        }),
{
    match num_agents {
        Some(n) => n,
        None => 8,
    }
}

/// The error for a goal the AGI does not know.
pub fn goal_not_found(goal_id: &str) -> (r: String)
    ensures
        r@ == "Goal "@ + goal_id@ + " not found"@,
{
    let mut r = "Goal ".to_owned();
    append_str(&mut r, goal_id);
    append_str(&mut r, " not found");
    r
}

} // verus!
