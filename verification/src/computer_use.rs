//! Computer use: sessions that record the actions taken and the screens
//! captured, and the tools a model calls by name.

use vstd::prelude::*;
use crate::text::append_str;

verus! {

broadcast use vstd::string::group_string_axioms;

/// What an action did.
#[derive(Debug, Clone, Copy, PartialEq, Eq, Structural)]
pub enum ActionType {
    Click,
    DoubleClick,
    RightClick,
    MoveMouse,
    Type,
    KeyPress,
    Screenshot,
    Scroll,
}

/// A captured screen: the image as base64 PNG, its size, and when it was
/// taken.
#[derive(Debug)]
pub struct ScreenCapture {
    pub image_data: String,
    pub width: u32,
    pub height: u32,
    pub timestamp: u64,
}

/// An action taken on the computer.
#[derive(Debug)]
pub struct ComputerAction {
    pub action_type: ActionType,
    pub coordinates: Option<(i32, i32)>,
    pub text: Option<String>,
    pub key: Option<String>,
}

/// A session: its id, the actions taken and the screens captured in it, in
/// order, and when it started.
#[derive(Debug)]
pub struct ComputerUseSession {
    pub id: String,
    pub actions: Vec<ComputerAction>,
    pub screenshots: Vec<ScreenCapture>,
    pub started_at: u64,
}

/// The sessions, oldest first, and the id of the current one.
#[derive(Debug)]
pub struct ComputerUseState {
    sessions: Vec<ComputerUseSession>,
    current_session: Option<String>,
}

/// A captured screen as values.
pub struct CaptureView {
    pub image_data: Seq<char>,
    pub width: u32,
    pub height: u32,
    pub timestamp: u64,
}

/// An action as values.
pub struct ActionView {
    pub action_type: ActionType,
    pub coordinates: Option<(i32, i32)>,
    pub text: Option<Seq<char>>,
    pub key: Option<Seq<char>>,
}

/// A session as values.
pub struct SessionView {
    pub id: Seq<char>,
    pub actions: Seq<ActionView>,
    pub screenshots: Seq<CaptureView>,
    pub started_at: u64,
}

/// The sessions and the current session's id, as values.
pub struct StateView {
    pub sessions: Seq<SessionView>,
    pub current: Option<Seq<char>>,
}

impl View for ScreenCapture {
    type V = CaptureView;

    open spec fn view(&self) -> CaptureView {
        CaptureView {
            image_data: self.image_data@,
            width: self.width,
            height: self.height,
            timestamp: self.timestamp,
        }
    }
}

impl View for ComputerAction {
    type V = ActionView;

    open spec fn view(&self) -> ActionView {
        ActionView {
            action_type: self.action_type,
            coordinates: self.coordinates,
            text: self.text.deep_view(),
            key: self.key.deep_view(),
        }
    }
}

/// The views of a list of actions.
pub open spec fn action_views(v: Seq<ComputerAction>) -> Seq<ActionView> {
    v.map_values(|a: ComputerAction| a@)
}

/// The views of a list of captures.
pub open spec fn capture_views(v: Seq<ScreenCapture>) -> Seq<CaptureView> {
    v.map_values(|c: ScreenCapture| c@)
}

impl View for ComputerUseSession {
    type V = SessionView;

    open spec fn view(&self) -> SessionView {
        SessionView {
            id: self.id@,
            actions: action_views(self.actions@),
            screenshots: capture_views(self.screenshots@),
            started_at: self.started_at,
        }
    }
}

/// The views of a list of sessions.
pub open spec fn session_views(v: Seq<ComputerUseSession>) -> Seq<SessionView> {
    v.map_values(|s: ComputerUseSession| s@)
}

impl View for ComputerUseState {
    type V = StateView;

    closed spec fn view(&self) -> StateView {
        StateView {
            sessions: session_views(self.sessions@),
            current: self.current_session.deep_view(),
        }
    }
}

// ---------------------------------------------------------------------------
// Tools
// ---------------------------------------------------------------------------

/// What a tool call reads of its JSON arguments: `x` and `y` where they
/// are integers, and `text` where it is a string.
#[derive(Debug)]
pub struct ToolArgs {
    pub x: Option<i64>,
    pub y: Option<i64>,
    pub text: Option<String>,
}

/// A tool call, with the arguments it acts on.
#[derive(Debug)]
pub enum ToolCall {
    Screenshot,
    Click { x: i32, y: i32 },
    Type { text: String },
    MoveMouse { x: i32, y: i32 },
}

/// The screen position of a pointer tool's arguments, each coordinate cut
/// to 32 bits, or the message for the first one missing.
pub open spec fn coordinates_of(x: Option<i64>, y: Option<i64>) -> Result<(i32, i32), Seq<char>> {
    match x {
        None => Err("Missing x coordinate"@),
        Some(a) => match y {
            None => Err("Missing y coordinate"@),
            Some(b) => Ok((a as i32, b as i32)),
        },
    }
}

/// The position a pointer tool acts on.
fn coordinates(args: &ToolArgs) -> (r: Result<(i32, i32), String>)
    ensures
        match coordinates_of(args.x, args.y) {
            Ok(p) => r matches Ok(q) && q == p,
            Err(m) => r matches Err(e) && e@ == m,
        },
{
    let x = match args.x {
        Some(a) => a,
        None => {
            let mut e = String::new();
            append_str(&mut e, "Missing x coordinate");
            return Err(e);
        },
    };
    let y = match args.y {
        Some(b) => b,
        None => {
            let mut e = String::new();
            append_str(&mut e, "Missing y coordinate");
            return Err(e);
        },
    };
    Ok((x as i32, y as i32))
}

/// The call a model makes by a tool's name: `"screenshot"`; `"click"` and
/// `"move_mouse"` at the position of `x` and `y`; `"type"` with `text`. A
/// missing argument, or another name (`"Unknown tool: <name>"`), is refused.
pub fn tool_call(tool_name: &str, args: &ToolArgs) -> (r: Result<ToolCall, String>)
    ensures
        tool_name@ == "screenshot"@ ==> r matches Ok(ToolCall::Screenshot),
        tool_name@ == "click"@ ==> match coordinates_of(args.x, args.y) {
            Ok(p) => r matches Ok(ToolCall::Click { x, y }) && x == p.0 && y == p.1,
            Err(m) => r matches Err(e) && e@ == m,
        },
        tool_name@ == "move_mouse"@ ==> match coordinates_of(args.x, args.y) {
            Ok(p) => r matches Ok(ToolCall::MoveMouse { x, y }) && x == p.0 && y == p.1,
            Err(m) => r matches Err(e) && e@ == m,
        },
        tool_name@ == "type"@ ==> match args.text {
            Some(t) => r matches Ok(ToolCall::Type { text }) && text@ == t@,
            None => r matches Err(e) && e@ == "Missing text"@,
        },
        tool_name@ != "screenshot"@ && tool_name@ != "click"@ && tool_name@ != "move_mouse"@
            && tool_name@ != "type"@ ==> (r matches Err(e) && e@ == "Unknown tool: "@ + tool_name@),
{
    proof {
        reveal_strlit("screenshot");
        reveal_strlit("click");
        reveal_strlit("type");
        reveal_strlit("move_mouse");
        assert("screenshot"@.len() == 10 && "screenshot"@[0] == 's');
        assert("click"@.len() == 5 && "click"@[0] == 'c');
        assert("type"@.len() == 4 && "type"@[0] == 't');
        assert("move_mouse"@.len() == 10 && "move_mouse"@[0] == 'm');
    }
    let name = crate::text::chars_of(tool_name);
    if crate::text::eq_str(&name, "screenshot") {
        Ok(ToolCall::Screenshot)
    } else if crate::text::eq_str(&name, "click") {
        match coordinates(args) {
            Ok((x, y)) => Ok(ToolCall::Click { x, y }),
            Err(e) => Err(e),
        }
    } else if crate::text::eq_str(&name, "type") {
        match &args.text {
            Some(t) => Ok(ToolCall::Type { text: t.clone() }),
            None => {
                let mut e = String::new();
                append_str(&mut e, "Missing text");
                Err(e)
            },
        }
    } else if crate::text::eq_str(&name, "move_mouse") {
        match coordinates(args) {
            Ok((x, y)) => Ok(ToolCall::MoveMouse { x, y }),
            Err(e) => Err(e),
        }
    } else {
        let mut e = String::new();
        append_str(&mut e, "Unknown tool: ");
        append_str(&mut e, tool_name);
        Err(e)
    }
}

// ---------------------------------------------------------------------------
// The model of the sessions
// ---------------------------------------------------------------------------

/// The position of the first session of `s` with the id `id`, at or after
/// `from`.
pub open spec fn session_index_from(s: Seq<SessionView>, id: Seq<char>, from: int) -> Option<int>
    decreases s.len() - from,
{
    if from < 0 || from >= s.len() {
        None
    } else if s[from].id == id {
        Some(from)
    } else {
        session_index_from(s, id, from + 1)
    }
}

/// The position of the first session of `s` with the id `id`.
pub open spec fn session_index(s: Seq<SessionView>, id: Seq<char>) -> Option<int> {
    session_index_from(s, id, 0)
}

/// The session with the id `id`: the first one of that id.
pub open spec fn find_session(s: StateView, id: Seq<char>) -> Option<SessionView> {
    match session_index(s.sessions, id) {
        Some(i) => Some(s.sessions[i]),
        None => None,
    }
}

/// A new session, with nothing recorded yet.
pub open spec fn empty_session(id: Seq<char>, started_at: u64) -> SessionView {
    SessionView { id, actions: Seq::empty(), screenshots: Seq::empty(), started_at }
}

/// `s` after a session `id` is started: it is added last and becomes the
/// current one.
pub open spec fn started(s: StateView, id: Seq<char>, started_at: u64) -> StateView {
    StateView { sessions: s.sessions.push(empty_session(id, started_at)), current: Some(id) }
}

/// `s` with `f` applied to the current session: the first session with the
/// current id; unchanged where there is no current session or none has its
/// id.
pub open spec fn update_current(s: StateView, f: spec_fn(SessionView) -> SessionView) -> StateView {
    match s.current {
        Some(c) => match session_index(s.sessions, c) {
            Some(i) => StateView { sessions: s.sessions.update(i, f(s.sessions[i])), current: s.current },
            None => s,
        },
        None => s,
    }
}

/// `s` after an action is recorded: appended to the current session's
/// actions.
pub open spec fn with_action(s: StateView, a: ActionView) -> StateView {
    update_current(
        s,
        |x: SessionView|
            SessionView {
                id: x.id,
                actions: x.actions.push(a),
                screenshots: x.screenshots,
                started_at: x.started_at,
            },
    )
}

/// `s` after a capture is recorded: appended to the current session's
/// screenshots.
pub open spec fn with_capture(s: StateView, c: CaptureView) -> StateView {
    update_current(
        s,
        |x: SessionView|
            SessionView {
                id: x.id,
                actions: x.actions,
                screenshots: x.screenshots.push(c),
                started_at: x.started_at,
            },
    )
}

/// The first position found at or after `from` holds `id`, and none before
/// it does.
pub proof fn lemma_session_index_from(s: Seq<SessionView>, id: Seq<char>, from: int)
    requires
        0 <= from,
    ensures
        session_index_from(s, id, from) matches Some(i) ==> from <= i < s.len() && s[i].id == id
            && forall|j: int| from <= j < i ==> s[j].id != id,
        session_index_from(s, id, from) is None ==> forall|j: int| from <= j < s.len() ==> s[j].id != id,
    decreases s.len() - from,
{
    if from < s.len() && s[from].id != id {
        lemma_session_index_from(s, id, from + 1);
    }
}

/// Where `s[i]` is the first session with the id `id`, it is the one found.
pub proof fn lemma_session_index_at(s: Seq<SessionView>, id: Seq<char>, i: int, from: int)
    requires
        0 <= from <= i < s.len(),
        s[i].id == id,
        forall|j: int| from <= j < i ==> s[j].id != id,
    ensures
        session_index_from(s, id, from) == Some(i),
    decreases i - from,
{
    if from < i {
        lemma_session_index_at(s, id, i, from + 1);
    }
}

/// Sessions with the same ids in the same order are searched alike.
pub proof fn lemma_session_index_same_ids(s: Seq<SessionView>, t: Seq<SessionView>, id: Seq<char>, from: int)
    requires
        s.len() == t.len(),
        forall|j: int| 0 <= j < s.len() ==> s[j].id == t[j].id,
    ensures
        session_index_from(s, id, from) == session_index_from(t, id, from),
    decreases s.len() - from,
{
    if 0 <= from < s.len() {
        lemma_session_index_same_ids(s, t, id, from + 1);
    }
}

/// A session just started is the current one: with no earlier session of
/// its id, it is the one found by its id, with nothing recorded, and an
/// action or a capture recorded next is found in it, alone.
pub proof fn law_recorded_action_found(
    s: StateView,
    id: Seq<char>,
    started_at: u64,
    a: ActionView,
    c: CaptureView,
)
    requires
        session_index(s.sessions, id) is None,
    ensures
        find_session(started(s, id, started_at), id) == Some(empty_session(id, started_at)),
        find_session(with_action(started(s, id, started_at), a), id) == Some(
            SessionView { id, actions: seq![a], screenshots: Seq::empty(), started_at },
        ),
        find_session(with_capture(started(s, id, started_at), c), id) == Some(
            SessionView { id, actions: Seq::empty(), screenshots: seq![c], started_at },
        ),
{
    let t = started(s, id, started_at);
    let n = s.sessions.len() as int;
    lemma_session_index_from(s.sessions, id, 0);
    assert forall|j: int| 0 <= j < n implies t.sessions[j].id != id by {
        assert(t.sessions[j] == s.sessions[j]);
    }
    lemma_session_index_at(t.sessions, id, n, 0);
    let u = with_action(t, a);
    assert(u.sessions == t.sessions.update(
        n,
        SessionView {
            id,
            actions: Seq::<ActionView>::empty().push(a),
            screenshots: Seq::empty(),
            started_at,
        },
    ));
    lemma_session_index_same_ids(t.sessions, u.sessions, id, 0);
    assert(Seq::<ActionView>::empty().push(a) =~= seq![a]);
    let w = with_capture(t, c);
    assert(w.sessions == t.sessions.update(
        n,
        SessionView {
            id,
            actions: Seq::empty(),
            screenshots: Seq::<CaptureView>::empty().push(c),
            started_at,
        },
    ));
    lemma_session_index_same_ids(t.sessions, w.sessions, id, 0);
    assert(Seq::<CaptureView>::empty().push(c) =~= seq![c]);
}

// ---------------------------------------------------------------------------
// Copies
// ---------------------------------------------------------------------------

/// A copy of an optional string.
fn copy_opt(o: &Option<String>) -> (r: Option<String>)
    ensures
        r.deep_view() == o.deep_view(),
{
    match o {
        Some(s) => Some(s.clone()),
        None => None,
    }
}

impl ScreenCapture {
    /// A copy of this capture.
    pub fn duplicate(&self) -> (r: ScreenCapture)
        ensures
            r@ == self@,
    {
        ScreenCapture {
            image_data: self.image_data.clone(),
            width: self.width,
            height: self.height,
            timestamp: self.timestamp,
        }
    }
}

impl ComputerAction {
    /// A copy of this action.
    pub fn duplicate(&self) -> (r: ComputerAction)
        ensures
            r@ == self@,
    {
        ComputerAction {
            action_type: self.action_type,
            coordinates: self.coordinates,
            text: copy_opt(&self.text),
            key: copy_opt(&self.key),
        }
    }
}

impl ComputerUseSession {
    /// A copy of this session.
    pub fn duplicate(&self) -> (r: ComputerUseSession)
        ensures
            r@ == self@,
    {
        let mut actions: Vec<ComputerAction> = Vec::new();
        let mut i: usize = 0;
        while i < self.actions.len()
            invariant
                i <= self.actions.len(),
                action_views(actions@) == action_views(self.actions@).take(i as int),
            decreases self.actions.len() - i,
        {
            let a = self.actions[i].duplicate();
            let ghost before = actions@;
            actions.push(a);
            assert(action_views(actions@) =~= action_views(before).push(self.actions@[i as int]@));
            assert(action_views(self.actions@).take(i + 1) =~= action_views(self.actions@).take(
                i as int,
            ).push(self.actions@[i as int]@));
            i += 1;
        }
        let mut screenshots: Vec<ScreenCapture> = Vec::new();
        let mut j: usize = 0;
        while j < self.screenshots.len()
            invariant
                j <= self.screenshots.len(),
                capture_views(screenshots@) == capture_views(self.screenshots@).take(j as int),
            decreases self.screenshots.len() - j,
        {
            let c = self.screenshots[j].duplicate();
            let ghost before = screenshots@;
            screenshots.push(c);
            assert(capture_views(screenshots@) =~= capture_views(before).push(
                self.screenshots@[j as int]@,
            ));
            assert(capture_views(self.screenshots@).take(j + 1) =~= capture_views(
                self.screenshots@,
            ).take(j as int).push(self.screenshots@[j as int]@));
            j += 1;
        }
        assert(action_views(actions@) =~= action_views(self.actions@));
        assert(capture_views(screenshots@) =~= capture_views(self.screenshots@));
        ComputerUseSession {
            id: self.id.clone(),
            actions,
            screenshots,
            started_at: self.started_at,
        }
    }
}

// ---------------------------------------------------------------------------
// The state's operations
// ---------------------------------------------------------------------------

impl ComputerUseState {
    /// No sessions, and none current.
    pub fn new() -> (r: ComputerUseState)
        ensures
            r@.sessions == Seq::<SessionView>::empty(),
            r@.current is None,
    {
        let r = ComputerUseState { sessions: Vec::new(), current_session: None };
        assert(r@.sessions =~= Seq::<SessionView>::empty());
        r
    }

}

impl Default for ComputerUseState {
    fn default() -> (r: ComputerUseState)
        ensures
            r@.sessions == Seq::<SessionView>::empty(),
            r@.current is None,
    {
        ComputerUseState::new()
    }
}

impl ComputerUseState {
    /// The position of the first session with the id `id`.
    fn index_of(&self, id: &String) -> (r: Option<usize>)
        ensures
            r matches Some(i) ==> session_index(self@.sessions, id@) == Some(i as int),
            r is None ==> session_index(self@.sessions, id@) is None,
    {
        let mut i: usize = 0;
        while i < self.sessions.len()
            invariant
                i <= self.sessions.len(),
                session_index(self@.sessions, id@) == session_index_from(
                    self@.sessions,
                    id@,
                    i as int,
                ),
            decreases self.sessions.len() - i,
        {
            assert(self@.sessions[i as int] == self.sessions@[i as int]@);
            if self.sessions[i].id == *id {
                return Some(i);
            }
            i += 1;
        }
        None
    }

    /// Starts the session `id`, begun at `started_at`, and makes it the
    /// current one; gives back its id.
    pub fn start_session(&mut self, id: String, started_at: u64) -> (r: String)
        ensures
            final(self)@ == started(old(self)@, id@, started_at),
            r@ == id@,
    {
        let session = ComputerUseSession {
            id: id.clone(),
            actions: Vec::new(),
            screenshots: Vec::new(),
            started_at,
        };
        assert(session@ == empty_session(id@, started_at)) by {
            assert(action_views(session.actions@) =~= Seq::<ActionView>::empty());
            assert(capture_views(session.screenshots@) =~= Seq::<CaptureView>::empty());
        }
        self.sessions.push(session);
        self.current_session = Some(id.clone());
        assert(self@.sessions =~= old(self)@.sessions.push(empty_session(id@, started_at)));
        id
    }

    /// The position of the current session, where there is one.
    fn current_index(&self) -> (r: Option<usize>)
        ensures
            r matches Some(i) ==> self@.current matches Some(c) && session_index(self@.sessions, c)
                == Some(i as int),
            r is None ==> match self@.current {
                Some(c) => session_index(self@.sessions, c) is None,
                None => true,
            },
    {
        match &self.current_session {
            Some(c) => self.index_of(c),
            None => None,
        }
    }

    /// Records an action in the current session.
    pub fn record_action(&mut self, action: ComputerAction)
        ensures
            final(self)@ == with_action(old(self)@, action@),
    {
        let ghost a = action@;
        match self.current_index() {
            Some(i) => {
                proof {
                    lemma_session_index_from(self@.sessions, self@.current->0, 0);
                }
                let mut s = self.sessions.remove(i);
                let ghost before = s@;
                s.actions.push(action);
                assert(action_views(s.actions@) =~= before.actions.push(a));
                self.sessions.insert(i, s);
                assert(self@.sessions =~= old(self)@.sessions.update(
                    i as int,
                    SessionView {
                        id: before.id,
                        actions: before.actions.push(a),
                        screenshots: before.screenshots,
                        started_at: before.started_at,
                    },
                ));
            },
            None => {},
        }
    }

    /// Records a captured screen in the current session.
    pub fn record_screenshot(&mut self, capture: ScreenCapture)
        ensures
            final(self)@ == with_capture(old(self)@, capture@),
    {
        let ghost c = capture@;
        match self.current_index() {
            Some(i) => {
                proof {
                    lemma_session_index_from(self@.sessions, self@.current->0, 0);
                }
                let mut s = self.sessions.remove(i);
                let ghost before = s@;
                s.screenshots.push(capture);
                assert(capture_views(s.screenshots@) =~= before.screenshots.push(c));
                self.sessions.insert(i, s);
                assert(self@.sessions =~= old(self)@.sessions.update(
                    i as int,
                    SessionView {
                        id: before.id,
                        actions: before.actions,
                        screenshots: before.screenshots.push(c),
                        started_at: before.started_at,
                    },
                ));
            },
            None => {},
        }
    }

    /// The session `session_id`: the first one of that id, or
    /// `"Session not found: <id>"`.
    pub fn get_session(&self, session_id: &str) -> (r: Result<ComputerUseSession, String>)
        ensures
            match find_session(self@, session_id@) {
                Some(s) => r matches Ok(x) && x@ == s,
                None => r matches Err(e) && e@ == "Session not found: "@ + session_id@,
            },
    {
        let mut key = String::new();
        append_str(&mut key, session_id);
        match self.index_of(&key) {
            Some(i) => {
                proof {
                    lemma_session_index_from(self@.sessions, session_id@, 0);
                }
                Ok(self.sessions[i].duplicate())
            },
            None => {
                let mut e = String::new();
                append_str(&mut e, "Session not found: ");
                append_str(&mut e, session_id);
                Err(e)
            },
        }
    }

    /// All sessions, oldest first.
    pub fn list_sessions(&self) -> (r: Vec<ComputerUseSession>)
        ensures
            session_views(r@) == self@.sessions,
    {
        let mut r: Vec<ComputerUseSession> = Vec::new();
        let mut i: usize = 0;
        while i < self.sessions.len()
            invariant
                i <= self.sessions.len(),
                session_views(r@) == self@.sessions.take(i as int),
            decreases self.sessions.len() - i,
        {
            let s = self.sessions[i].duplicate();
            let ghost before = r@;
            r.push(s);
            assert(session_views(r@) =~= session_views(before).push(self.sessions@[i as int]@));
            assert(self@.sessions.take(i + 1) =~= self@.sessions.take(i as int).push(
                self.sessions@[i as int]@,
            ));
            i += 1;
        }
        assert(self@.sessions.take(self.sessions.len() as int) =~= self@.sessions);
        r
    }
}

} // verus!
