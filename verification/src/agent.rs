//! The autonomous agent: task requests, and how a user's answer to an
//! approval request is read.

use vstd::prelude::*;

use crate::text::{append_str, chars_of, eq_str, lowercase, to_lowercase};

verus! {

broadcast use vstd::string::group_string_axioms;

/// A task for the agent.
#[derive(Debug)]
pub struct AgentSubmitTaskRequest {
    pub description: String,
    pub auto_approve: Option<bool>,
}

/// The id the agent gave a task.
#[derive(Debug)]
pub struct SubmitTaskResponse {
    pub task_id: String,
}

/// A user's answer to an approval request.
#[derive(Debug)]
pub enum ApprovalResolution {
    Approved { trust: bool },
    Rejected { reason: Option<String> },
}

/// The answer that a decision stands for, once lower-cased: `approve` or
/// `approved` approve (trusting the workflow where asked), `reject` or
/// `rejected` reject with the reason given; any other decision is refused,
/// naming it lower-cased.
pub fn resolve_decision(decision: &str, trust: Option<bool>, reason: Option<String>) -> (r: Result<
    ApprovalResolution,
    String,
>)
    ensures
        ({
            let d = lowercase(decision@);
            &&& (d == "approve"@ || d == "approved"@) ==> (r matches Ok(ApprovalResolution::Approved { trust: t })
                && t == (trust == Some(true)))
            &&& (d == "reject"@ || d == "rejected"@) && !(d == "approve"@ || d == "approved"@) ==> (
            r matches Ok(ApprovalResolution::Rejected { reason: x }) && x == reason)
            &&& !(d == "approve"@ || d == "approved"@ || d == "reject"@ || d == "rejected"@) ==> (
            r matches Err(e) && e@ == "Invalid approval decision: "@ + d)
        }),
{
    let normalized = to_lowercase(decision);
    let d = chars_of(normalized.as_str());
    if eq_str(&d, "approve") || eq_str(&d, "approved") {
        let t = match trust {
            Some(t) => t,
            None => false,
        };
        Ok(ApprovalResolution::Approved { trust: t })
    } else if eq_str(&d, "reject") || eq_str(&d, "rejected") {
        Ok(ApprovalResolution::Rejected { reason })
    } else {
        let mut e = "Invalid approval decision: ".to_owned();
        append_str(&mut e, normalized.as_str());
        Err(e)
    }
}

/// The reason reported for a rejection: the one given, else `Rejected by
/// user`.
pub fn rejection_reason(reason: &Option<String>) -> (r: String)
    ensures
        r@ == (match reason {
            Some(x) => x@,
            None => "Rejected by user"@,
        }),
{
    match reason {
        Some(x) => x.clone(),
        None => "Rejected by user".to_owned(),
    }
}

/// The error shown on the rejected action: the reason given, else
/// `Rejected`.
pub fn rejection_error(reason: &Option<String>) -> (r: String)
    ensures
        r@ == (match reason {
            Some(x) => x@,
            None => "Rejected"@,
        }),
{
    match reason {
        Some(x) => x.clone(),
        None => "Rejected".to_owned(),
    }
}

/// The error for a task the agent does not know.
pub fn task_not_found(task_id: &str) -> (r: String)
    ensures
        r@ == "Task "@ + task_id@ + " not found"@,
{
    let mut r = "Task ".to_owned();
    append_str(&mut r, task_id);
    append_str(&mut r, " not found");
    r
}

/// What the interface is told once an approval is resolved: the events
/// sent, in order, the status the waiting action moves to, and for a
/// rejection the reason shown and the action's error.
#[derive(Debug)]
pub struct ApprovalNotice {
    pub events: Vec<String>,
    pub action_status: String,
    pub reason: Option<String>,
    pub error: Option<String>,
}

/// The events of a resolution: granted or denied, then the action update.
pub open spec fn notice_events(approved: bool) -> Seq<Seq<char>> {
    if approved {
        seq!["agi:approval_granted"@, "approval:granted"@, "agent:action_update"@]
    } else {
        seq!["agi:approval_denied"@, "approval:denied"@, "agent:action_update"@]
    }
}

/// The notice of a resolution: an approval sends the granted events and
/// lets the action run; a rejection sends the denied events with the
/// reason (`"Rejected by user"` where none was given) and fails the action
/// with the reason (`"Rejected"` where none was given).
pub fn approval_notice(resolution: &ApprovalResolution) -> (r: ApprovalNotice)
    ensures
        r.events.deep_view() == notice_events(resolution is Approved),
        r.action_status@ == (if resolution is Approved {
            "running"@
        } else {
            "failed"@
        }),
        match resolution {
            ApprovalResolution::Approved { .. } => r.reason is None && r.error is None,
            ApprovalResolution::Rejected { reason } => r.reason.deep_view() == Some(match reason {
                Some(x) => x@,
                None => "Rejected by user"@,
            }) && r.error.deep_view() == Some(match reason {
                Some(x) => x@,
                None => "Rejected"@,
            }),
        },
{
    match resolution {
        ApprovalResolution::Approved { .. } => {
            let events = vec![
                "agi:approval_granted".to_owned(),
                "approval:granted".to_owned(),
                "agent:action_update".to_owned(),
            ];
            assert(events.deep_view() =~= notice_events(true));
            ApprovalNotice { events, action_status: "running".to_owned(), reason: None, error: None }
        },
        ApprovalResolution::Rejected { reason } => {
            let events = vec![
                "agi:approval_denied".to_owned(),
                "approval:denied".to_owned(),
                "agent:action_update".to_owned(),
            ];
            assert(events.deep_view() =~= notice_events(false));
            ApprovalNotice {
                events,
                action_status: "failed".to_owned(),
                reason: Some(rejection_reason(reason)),
                error: Some(rejection_error(reason)),
            }
        },
    }
}

} // verus!
