//! Sending a chat message to the model providers: the decisions of the
//! candidate loop (cache, call, fallback to the next provider, tool calls
//! and their follow-up request), and of the streamed answer, as step
//! functions from a state and what just happened to the next state and
//! what to do next. The caller performs each action and reports back.

use vstd::prelude::*;
use crate::text::append_str;

verus! {

broadcast use vstd::string::group_string_axioms;

// ---------------------------------------------------------------------------
// The candidate loop
// ---------------------------------------------------------------------------

/// Where the loop stands with its current candidate.
#[derive(Debug, Clone, Copy, PartialEq, Eq, Structural)]
pub enum RoutePhase {
    LookingUp,
    Invoking,
    Storing,
    RunningTools,
    FollowingUp,
    Finished,
}

/// The loop over the route candidates: the current candidate of how many,
/// whether tools can be run, whether the fresh answer asked for tools,
/// the phase, and the last provider error.
#[derive(Debug)]
pub struct RouteState {
    pub candidate: usize,
    pub candidates: usize,
    pub tools_enabled: bool,
    pub tool_calls: bool,
    pub phase: RoutePhase,
    pub last_error: Option<String>,
}

/// What came of the last action.
#[derive(Debug)]
pub enum RouteEvent {
    /// The cache held an answer; its provider is known or not.
    CacheHit { provider_known: bool },
    CacheMiss,
    /// The provider answered; with tool calls or not.
    Invoked { tool_calls: bool },
    InvokeFailed { error: String },
    Stored,
    ToolsDone,
    FollowUpDone,
    FollowUpFailed { error: String },
}

/// Where an answer came from.
#[derive(Debug, Clone, Copy, PartialEq, Eq, Structural)]
pub enum AnswerSource {
    Cache,
    Fresh,
    FollowUp,
}

/// What to do next.
#[derive(Debug)]
pub enum RouteAction {
    LookUpCache { candidate: usize },
    Invoke { candidate: usize },
    StoreCache { candidate: usize },
    RunTools { candidate: usize },
    FollowUp { candidate: usize },
    Answer { candidate: usize, source: AnswerSource },
    Fail { message: String },
}

/// The loop's state as values.
pub struct RouteView {
    pub candidate: nat,
    pub candidates: nat,
    pub tools_enabled: bool,
    pub tool_calls: bool,
    pub phase: RoutePhase,
    pub last_error: Option<Seq<char>>,
}

/// An event as values.
pub enum EventView {
    CacheHit { provider_known: bool },
    CacheMiss,
    Invoked { tool_calls: bool },
    InvokeFailed { error: Seq<char> },
    Stored,
    ToolsDone,
    FollowUpDone,
    FollowUpFailed { error: Seq<char> },
}

/// An action as values.
pub enum ActionView {
    LookUpCache { candidate: nat },
    Invoke { candidate: nat },
    StoreCache { candidate: nat },
    RunTools { candidate: nat },
    FollowUp { candidate: nat },
    Answer { candidate: nat, source: AnswerSource },
    Fail { message: Seq<char> },
}

impl View for RouteState {
    type V = RouteView;

    open spec fn view(&self) -> RouteView {
        RouteView {
            candidate: self.candidate as nat,
            candidates: self.candidates as nat,
            tools_enabled: self.tools_enabled,
            tool_calls: self.tool_calls,
            phase: self.phase,
            last_error: self.last_error.deep_view(),
        }
    }
}

impl View for RouteEvent {
    type V = EventView;

    open spec fn view(&self) -> EventView {
        match self {
            RouteEvent::CacheHit { provider_known } => EventView::CacheHit {
                provider_known: *provider_known,
            },
            RouteEvent::CacheMiss => EventView::CacheMiss,
            RouteEvent::Invoked { tool_calls } => EventView::Invoked { tool_calls: *tool_calls },
            RouteEvent::InvokeFailed { error } => EventView::InvokeFailed { error: error@ },
            RouteEvent::Stored => EventView::Stored,
            RouteEvent::ToolsDone => EventView::ToolsDone,
            RouteEvent::FollowUpDone => EventView::FollowUpDone,
            RouteEvent::FollowUpFailed { error } => EventView::FollowUpFailed { error: error@ },
        }
    }
}

impl View for RouteAction {
    type V = ActionView;

    open spec fn view(&self) -> ActionView {
        match self {
            RouteAction::LookUpCache { candidate } => ActionView::LookUpCache {
                candidate: *candidate as nat,
            },
            RouteAction::Invoke { candidate } => ActionView::Invoke { candidate: *candidate as nat },
            RouteAction::StoreCache { candidate } => ActionView::StoreCache {
                candidate: *candidate as nat,
            },
            RouteAction::RunTools { candidate } => ActionView::RunTools {
                candidate: *candidate as nat,
            },
            RouteAction::FollowUp { candidate } => ActionView::FollowUp {
                candidate: *candidate as nat,
            },
            RouteAction::Answer { candidate, source } => ActionView::Answer {
                candidate: *candidate as nat,
                source: *source,
            },
            RouteAction::Fail { message } => ActionView::Fail { message: message@ },
        }
    }
}

/// A loop state is sound: there is a candidate, and until the loop has
/// finished the current one is among them.
pub open spec fn route_wf(s: RouteView) -> bool {
    s.candidates > 0 && (s.phase != RoutePhase::Finished ==> s.candidate < s.candidates)
}

/// The event reports on the action of the phase the loop is in.
pub open spec fn event_fits(s: RouteView, e: EventView) -> bool {
    match s.phase {
        RoutePhase::LookingUp => e is CacheHit || e is CacheMiss,
        RoutePhase::Invoking => e is Invoked || e is InvokeFailed,
        RoutePhase::Storing => e is Stored,
        RoutePhase::RunningTools => e is ToolsDone,
        RoutePhase::FollowingUp => e is FollowUpDone || e is FollowUpFailed,
        RoutePhase::Finished => false,
    }
}

/// The message when there is no candidate.
pub open spec fn no_providers_message() -> Seq<char> {
    "No LLM providers are configured."@
}

/// The loop as it starts: with no candidate it fails at once; otherwise it
/// looks the first candidate up in the cache.
pub open spec fn route_begin(candidates: nat, tools_enabled: bool) -> (RouteView, ActionView) {
    if candidates == 0 {
        (
            RouteView {
                candidate: 0,
                candidates: 0,
                tools_enabled,
                tool_calls: false,
                phase: RoutePhase::Finished,
                last_error: None,
            },
            ActionView::Fail { message: no_providers_message() },
        )
    } else {
        (
            RouteView {
                candidate: 0,
                candidates,
                tools_enabled,
                tool_calls: false,
                phase: RoutePhase::LookingUp,
                last_error: None,
            },
            ActionView::LookUpCache { candidate: 0 },
        )
    }
}

/// `s` in phase `p`.
pub open spec fn in_phase(s: RouteView, p: RoutePhase) -> RouteView {
    RouteView { phase: p, ..s }
}

/// One step of the loop:
/// - a cache hit whose provider is known answers from the cache; a hit of
///   an unknown provider, or a miss, calls the candidate;
/// - an answer is stored in the cache first; then, where it asked for
///   tools and tools can be run, the tools run and a follow-up request to
///   the same candidate gives the answer; otherwise the answer is given;
/// - a failed call keeps its error and moves to the next candidate's cache
///   lookup, or, after the last candidate, fails with that error;
/// - a failed follow-up fails with `"Follow-up request failed: <error>"`.
pub open spec fn route_next(s: RouteView, e: EventView) -> (RouteView, ActionView) {
    let i = s.candidate;
    match e {
        EventView::CacheHit { provider_known } => if provider_known {
            (in_phase(s, RoutePhase::Finished), ActionView::Answer { candidate: i, source: AnswerSource::Cache })
        } else {
            (in_phase(s, RoutePhase::Invoking), ActionView::Invoke { candidate: i })
        },
        EventView::CacheMiss => (in_phase(s, RoutePhase::Invoking), ActionView::Invoke { candidate: i }),
        EventView::Invoked { tool_calls } => (
            RouteView { phase: RoutePhase::Storing, tool_calls, ..s },
            ActionView::StoreCache { candidate: i },
        ),
        EventView::InvokeFailed { error } => if i + 1 < s.candidates {
            (
                RouteView {
                    candidate: i + 1,
                    phase: RoutePhase::LookingUp,
                    last_error: Some(error),
                    ..s
                },
                ActionView::LookUpCache { candidate: i + 1 },
            )
        } else {
            (
                RouteView { phase: RoutePhase::Finished, last_error: Some(error), ..s },
                ActionView::Fail { message: error },
            )
        },
        EventView::Stored => if s.tool_calls && s.tools_enabled {
            (in_phase(s, RoutePhase::RunningTools), ActionView::RunTools { candidate: i })
        } else {
            (in_phase(s, RoutePhase::Finished), ActionView::Answer { candidate: i, source: AnswerSource::Fresh })
        },
        EventView::ToolsDone => (in_phase(s, RoutePhase::FollowingUp), ActionView::FollowUp { candidate: i }),
        EventView::FollowUpDone => (
            in_phase(s, RoutePhase::Finished),
            ActionView::Answer { candidate: i, source: AnswerSource::FollowUp },
        ),
        EventView::FollowUpFailed { error } => (
            in_phase(s, RoutePhase::Finished),
            ActionView::Fail { message: "Follow-up request failed: "@ + error },
        ),
    }
}

/// How many steps a phase leaves for its candidate at most.
pub open spec fn phase_rank(p: RoutePhase) -> nat {
    match p {
        RoutePhase::LookingUp => 5,
        RoutePhase::Invoking => 4,
        RoutePhase::Storing => 3,
        RoutePhase::RunningTools => 2,
        RoutePhase::FollowingUp => 1,
        RoutePhase::Finished => 0,
    }
}

/// A bound on the steps the loop has left.
pub open spec fn route_measure(s: RouteView) -> int {
    if s.phase == RoutePhase::Finished {
        0
    } else {
        (s.candidates - s.candidate) * 6 + phase_rank(s.phase)
    }
}

/// The loop ends: every step keeps the state sound, never goes back to an
/// earlier candidate, and brings the bound on the steps left down; an
/// action that answers or fails finishes the loop.
pub proof fn law_route_progress(s: RouteView, e: EventView)
    requires
        route_wf(s),
        event_fits(s, e),
    ensures
        route_wf(route_next(s, e).0),
        route_next(s, e).0.candidate >= s.candidate,
        route_next(s, e).0.candidates == s.candidates,
        route_measure(route_next(s, e).0) < route_measure(s),
        (route_next(s, e).1 is Answer || route_next(s, e).1 is Fail) <==> route_next(s, e).0.phase
            == RoutePhase::Finished,
{
}

/// A step answers only from the candidate it was at; its answer comes
/// from the cache exactly after a hit of a known provider, is the fresh
/// answer exactly when that answer has been stored and no tools are to
/// run, and is the follow-up answer exactly when the follow-up request
/// came back. A stored answer that asked for tools, where tools can run,
/// is not given: the tools run first.
pub proof fn law_route_answers(s: RouteView, e: EventView)
    requires
        route_wf(s),
        event_fits(s, e),
    ensures
        route_next(s, e).1 matches ActionView::Answer { candidate, source } ==> (candidate
            == s.candidate && (source == AnswerSource::Cache <==> (e matches EventView::CacheHit {
            provider_known: true,
        })) && (source == AnswerSource::Fresh <==> (e is Stored)) && (source
            == AnswerSource::FollowUp <==> (e is FollowUpDone))),
        (e is FollowUpDone) ==> (route_next(s, e).1 == (ActionView::Answer {
            candidate: s.candidate,
            source: AnswerSource::FollowUp,
        })),
        (e matches EventView::CacheHit { provider_known: true }) ==> (route_next(s, e).1 == (
        ActionView::Answer { candidate: s.candidate, source: AnswerSource::Cache })),
        (e is Stored) ==> (route_next(s, e).1 == (if s.tool_calls && s.tools_enabled {
            ActionView::RunTools { candidate: s.candidate }
        } else {
            ActionView::Answer { candidate: s.candidate, source: AnswerSource::Fresh }
        })),
        (e is ToolsDone) ==> (route_next(s, e).1 == (ActionView::FollowUp { candidate: s.candidate })),
{
}

/// Starts the loop over `candidates` candidates.
pub fn route_start(candidates: usize, tools_enabled: bool) -> (r: (RouteState, RouteAction))
    ensures
        (r.0@, r.1@) == route_begin(candidates as nat, tools_enabled),
        candidates > 0 ==> route_wf(r.0@),
{
    if candidates == 0 {
        let mut m = String::new();
        append_str(&mut m, "No LLM providers are configured.");
        (
            RouteState {
                candidate: 0,
                candidates: 0,
                tools_enabled,
                tool_calls: false,
                phase: RoutePhase::Finished,
                last_error: None,
            },
            RouteAction::Fail { message: m },
        )
    } else {
        (
            RouteState {
                candidate: 0,
                candidates,
                tools_enabled,
                tool_calls: false,
                phase: RoutePhase::LookingUp,
                last_error: None,
            },
            RouteAction::LookUpCache { candidate: 0 },
        )
    }
}

/// One step of the loop, as `route_next` describes it.
pub fn route_step(s: RouteState, e: RouteEvent) -> (r: (RouteState, RouteAction))
    requires
        route_wf(s@),
        event_fits(s@, e@),
    ensures
        (r.0@, r.1@) == route_next(s@, e@),
        route_wf(r.0@),
{
    let i = s.candidate;
    match e {
        RouteEvent::CacheHit { provider_known } => if provider_known {
            (
                RouteState { phase: RoutePhase::Finished, ..s },
                RouteAction::Answer { candidate: i, source: AnswerSource::Cache },
            )
        } else {
            (RouteState { phase: RoutePhase::Invoking, ..s }, RouteAction::Invoke { candidate: i })
        },
        RouteEvent::CacheMiss => (
            RouteState { phase: RoutePhase::Invoking, ..s },
            RouteAction::Invoke { candidate: i },
        ),
        RouteEvent::Invoked { tool_calls } => (
            RouteState { phase: RoutePhase::Storing, tool_calls, ..s },
            RouteAction::StoreCache { candidate: i },
        ),
        RouteEvent::InvokeFailed { error } => if i + 1 < s.candidates {
            (
                RouteState {
                    candidate: i + 1,
                    phase: RoutePhase::LookingUp,
                    last_error: Some(error),
                    ..s
                },
                RouteAction::LookUpCache { candidate: i + 1 },
            )
        } else {
            let message = error.clone();
            (
                RouteState { phase: RoutePhase::Finished, last_error: Some(error), ..s },
                RouteAction::Fail { message },
            )
        },
        RouteEvent::Stored => if s.tool_calls && s.tools_enabled {
            (
                RouteState { phase: RoutePhase::RunningTools, ..s },
                RouteAction::RunTools { candidate: i },
            )
        } else {
            (
                RouteState { phase: RoutePhase::Finished, ..s },
                RouteAction::Answer { candidate: i, source: AnswerSource::Fresh },
            )
        },
        RouteEvent::ToolsDone => (
            RouteState { phase: RoutePhase::FollowingUp, ..s },
            RouteAction::FollowUp { candidate: i },
        ),
        RouteEvent::FollowUpDone => (
            RouteState { phase: RoutePhase::Finished, ..s },
            RouteAction::Answer { candidate: i, source: AnswerSource::FollowUp },
        ),
        RouteEvent::FollowUpFailed { error } => {
            let mut m = String::new();
            append_str(&mut m, "Follow-up request failed: ");
            append_str(&mut m, error.as_str());
            (RouteState { phase: RoutePhase::Finished, ..s }, RouteAction::Fail { message: m })
        },
    }
}

// ---------------------------------------------------------------------------
// Texts of the loop
// ---------------------------------------------------------------------------

/// The text recorded for a tool that failed: `"Tool execution failed:
/// <error>"`.
pub fn tool_failure_text(error: &str) -> (r: String)
    ensures
        r@ == "Tool execution failed: "@ + error@,
{
    let mut r = String::new();
    append_str(&mut r, "Tool execution failed: ");
    append_str(&mut r, error);
    r
}

/// The system message that records a tool's result: `"Tool result [<id>]:
/// <result>"`.
pub fn tool_result_message(tool_call_id: &str, result: &str) -> (r: String)
    ensures
        r@ == "Tool result ["@ + tool_call_id@ + "]: "@ + result@,
{
    let mut r = String::new();
    append_str(&mut r, "Tool result [");
    append_str(&mut r, tool_call_id);
    append_str(&mut r, "]: ");
    append_str(&mut r, result);
    r
}

/// Why the answer ended: the provider's finish reason where it gave one,
/// else `"cache_hit"` for a cached answer and `"completed"` otherwise.
pub fn completion_reason(finish_reason: Option<String>, cached: bool) -> (r: String)
    ensures
        r@ == match finish_reason {
            Some(f) => f@,
            None => if cached {
                "cache_hit"@
            } else {
                "completed"@
            },
        },
{
    match finish_reason {
        Some(f) => f,
        None => {
            let mut r = String::new();
            if cached {
                append_str(&mut r, "cache_hit");
            } else {
                append_str(&mut r, "completed");
            }
            r
        },
    }
}

// ---------------------------------------------------------------------------
// The streamed answer
// ---------------------------------------------------------------------------

/// What one chunk of the stream comes to: whether it is sent on to the
/// interface (its text is not empty), and whether the stream ends (the
/// chunk is the last, or the stream failed).
#[derive(Debug)]
pub struct StreamStep {
    pub emit: bool,
    pub stop: bool,
}

/// Takes one chunk of the stream (`None` for a failed chunk): its text is
/// added to the answer so far.
pub fn stream_chunk(accumulated: &mut String, chunk: Option<(&str, bool)>) -> (r: StreamStep)
    ensures
        match chunk {
            Some((text, done)) => final(accumulated)@ == old(accumulated)@ + text@ && r.emit == (
            text@.len() > 0) && r.stop == done,
            None => final(accumulated)@ == old(accumulated)@ && !r.emit && r.stop,
        },
{
    match chunk {
        Some((text, done)) => {
            let v = crate::text::chars_of(text);
            append_str(accumulated, text);
            StreamStep { emit: v.len() > 0, stop: done }
        },
        None => StreamStep { emit: false, stop: true },
    }
}

/// Where the check for tool calls after a streamed answer stands.
#[derive(Debug, Clone, Copy, PartialEq, Eq, Structural)]
pub enum FollowPhase {
    Checking,
    RunningTools,
    Finalizing,
    Done,
}

/// What came of the last action of that check.
#[derive(Debug, Clone, Copy, PartialEq, Eq, Structural)]
pub enum FollowEvent {
    /// No candidate, or the check request failed.
    CheckFailed,
    Checked { tool_calls: bool },
    ToolsDone,
    FinalDone,
    FinalFailed,
}

/// What to do next after a streamed answer.
#[derive(Debug, Clone, Copy, PartialEq, Eq, Structural)]
pub enum FollowAction {
    /// Ask the first candidate, without streaming, whether tools are wanted.
    CheckTools,
    RunTools,
    /// Ask again with the tool results.
    Finalize,
    /// The streamed text stands.
    KeepStreamed,
    /// The final answer replaces the streamed text.
    UseFinal,
}

/// After a stream: the check is made only where tools are defined and can
/// be run; otherwise the streamed text stands.
pub fn follow_start(has_tools: bool, tools_enabled: bool) -> (r: (FollowPhase, FollowAction))
    ensures
        r == (if has_tools && tools_enabled {
            (FollowPhase::Checking, FollowAction::CheckTools)
        } else {
            (FollowPhase::Done, FollowAction::KeepStreamed)
        }),
{
    if has_tools && tools_enabled {
        (FollowPhase::Checking, FollowAction::CheckTools)
    } else {
        (FollowPhase::Done, FollowAction::KeepStreamed)
    }
}

/// One step of the check after a stream: tool calls run the tools and ask
/// again, whose answer replaces the streamed text; any failure, or an
/// answer without tool calls, leaves the streamed text as it is.
pub open spec fn follow_next(p: FollowPhase, e: FollowEvent) -> (FollowPhase, FollowAction) {
    match (p, e) {
        (FollowPhase::Checking, FollowEvent::Checked { tool_calls: true }) => (
            FollowPhase::RunningTools,
            FollowAction::RunTools,
        ),
        (FollowPhase::RunningTools, FollowEvent::ToolsDone) => (
            FollowPhase::Finalizing,
            FollowAction::Finalize,
        ),
        (FollowPhase::Finalizing, FollowEvent::FinalDone) => (FollowPhase::Done, FollowAction::UseFinal),
        _ => (FollowPhase::Done, FollowAction::KeepStreamed),
    }
}

/// After a stream, the final answer replaces the streamed text only when
/// the final request came back after the tools ran; the tools run only
/// when the check found tool calls; every other outcome keeps the
/// streamed text and ends the check.
pub proof fn law_follow_outcomes(p: FollowPhase, e: FollowEvent)
    ensures
        follow_next(p, e).1 == FollowAction::UseFinal <==> p == FollowPhase::Finalizing && e
            == FollowEvent::FinalDone,
        follow_next(p, e).1 == FollowAction::RunTools <==> p == FollowPhase::Checking && e
            == (FollowEvent::Checked { tool_calls: true }),
        follow_next(p, e).1 == FollowAction::Finalize <==> p == FollowPhase::RunningTools && e
            == FollowEvent::ToolsDone,
        follow_next(p, e).0 == FollowPhase::Done <==> (follow_next(p, e).1 == FollowAction::UseFinal
            || follow_next(p, e).1 == FollowAction::KeepStreamed),
{
}

/// One step of the check after a stream, as `follow_next` describes it.
pub fn follow_step(p: FollowPhase, e: FollowEvent) -> (r: (FollowPhase, FollowAction))
    ensures
        r == follow_next(p, e),
{
    match (p, e) {
        (FollowPhase::Checking, FollowEvent::Checked { tool_calls: true }) => (
            FollowPhase::RunningTools,
            FollowAction::RunTools,
        ),
        (FollowPhase::RunningTools, FollowEvent::ToolsDone) => (
            FollowPhase::Finalizing,
            FollowAction::Finalize,
        ),
        (FollowPhase::Finalizing, FollowEvent::FinalDone) => (FollowPhase::Done, FollowAction::UseFinal),
        _ => (FollowPhase::Done, FollowAction::KeepStreamed),
    }
}

} // verus!
