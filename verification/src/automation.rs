//! Desktop automation requests: what a request asks for once its defaults
//! are filled in, where a click or a typing lands, and the region an
//! overlay highlights for a drag.

use vstd::prelude::*;

use crate::text::{eq_str, lowercase, to_lowercase, chars_of};

verus! {

broadcast use vstd::string::group_string_axioms;

/// A search for UI elements.
#[derive(Debug)]
pub struct FindElementsRequest {
    pub parent_id: Option<String>,
    pub window: Option<String>,
    pub window_class: Option<String>,
    pub name: Option<String>,
    pub class_name: Option<String>,
    pub automation_id: Option<String>,
    pub control_type: Option<String>,
    pub max_results: Option<usize>,
}

/// Invoking an element.
#[derive(Debug)]
pub struct InvokeRequest {
    pub element_id: String,
}

/// Setting an element's value.
#[derive(Debug)]
pub struct ValueRequest {
    pub element_id: String,
    pub value: String,
    pub focus: Option<bool>,
}

/// A click, on an element or at a point.
#[derive(Debug)]
pub struct ClickRequest {
    pub element_id: Option<String>,
    pub x: Option<i32>,
    pub y: Option<i32>,
    pub button: Option<String>,
}

/// A screenshot, of an element, a region or the whole screen.
#[derive(Debug)]
pub struct ScreenshotRequest {
    pub element_id: Option<String>,
    pub x: Option<i32>,
    pub y: Option<i32>,
    pub width: Option<u32>,
    pub height: Option<u32>,
    pub conversation_id: Option<i64>,
}

/// A click shown by the overlay.
#[derive(Debug)]
pub struct OverlayClickPayload {
    pub x: i32,
    pub y: i32,
    pub button: String,
}

/// Typing shown by the overlay.
#[derive(Debug)]
pub struct OverlayTypePayload {
    pub x: i32,
    pub y: i32,
    pub text: String,
}

/// A region highlighted by the overlay.
#[derive(Debug, Clone, Copy, PartialEq, Eq, Structural)]
pub struct OverlayRegionPayload {
    pub x: i32,
    pub y: i32,
    pub width: i32,
    pub height: i32,
}

/// Text to type, into an element or at a point.
#[derive(Debug)]
pub struct SendKeysRequest {
    pub text: String,
    pub element_id: Option<String>,
    pub x: Option<i32>,
    pub y: Option<i32>,
    pub focus: Option<bool>,
}

/// A key with modifiers held.
#[derive(Debug)]
pub struct HotkeyRequest {
    pub key: u16,
    pub modifiers: Vec<String>,
}

/// A drag from one point to another.
#[derive(Debug, Clone, Copy, PartialEq, Eq, Structural)]
pub struct DragDropRequest {
    pub from_x: i32,
    pub from_y: i32,
    pub to_x: i32,
    pub to_y: i32,
    pub duration_ms: u32,
}

/// How long a drag takes where the request does not say: 300 ms.
pub fn default_drag_duration() -> (r: u32)
    ensures
        r == 300,
{
    300
}

/// The button of an overlay click where the payload does not say.
pub fn default_left_button() -> (r: String)
    ensures
        r@ == "left"@,
{
    "left".to_owned()
}

/// A mouse button.
#[derive(Debug, Clone, Copy, PartialEq, Eq, Structural)]
pub enum ClickButton {
    Left,
    Right,
    Middle,
}

/// The button a lower-cased button name stands for: `right`, `middle`,
/// and the left one for any other name.
pub open spec fn button_of(name: Seq<char>) -> ClickButton {
    if name == "right"@ {
        ClickButton::Right
    } else if name == "middle"@ {
        ClickButton::Middle
    } else {
        ClickButton::Left
    }
}

/// The name of the button a click asks for, lower-cased (`left` where it
/// names none), and the button it stands for.
pub fn click_button(button: Option<&str>) -> (r: (String, ClickButton))
    ensures
        r.0@ == lowercase(
            match button {
                Some(b) => b@,
                None => "left"@,
            },
        ),
        r.1 == button_of(r.0@),
{
    let name = match button {
        Some(b) => b,
        None => "left",
    };
    let lower = to_lowercase(name);
    let v = chars_of(lower.as_str());
    let kind = if eq_str(&v, "right") {
        ClickButton::Right
    } else if eq_str(&v, "middle") {
        ClickButton::Middle
    } else {
        ClickButton::Left
    };
    (lower, kind)
}

/// Where a click lands: the centre of the element where the request names
/// one (`element_centre`, found by the caller), else the point it gives.
pub open spec fn click_point_of(
    has_element: bool,
    element_centre: (i32, i32),
    x: Option<i32>,
    y: Option<i32>,
) -> Option<(i32, i32)> {
    if has_element {
        Some(element_centre)
    } else {
        match (x, y) {
            (Some(a), Some(b)) => Some((a, b)),
            _ => None,
        }
    }
}

/// Where a click lands; an error where the request names neither an
/// element nor a point.
pub fn click_point(request: &ClickRequest, element_centre: (i32, i32)) -> (r: Result<(i32, i32), String>)
    ensures
        match click_point_of(request.element_id is Some, element_centre, request.x, request.y) {
            Some(p) => r == Ok::<(i32, i32), String>(p),
            None => r matches Err(e) && e@ == "Either element_id or (x, y) must be provided"@,
        },
{
    if request.element_id.is_some() {
        Ok(element_centre)
    } else {
        match (request.x, request.y) {
            (Some(a), Some(b)) => Ok((a, b)),
            _ => Err("Either element_id or (x, y) must be provided".to_owned()),
        }
    }
}

impl SendKeysRequest {
    /// Whether the element is focused first: always where the caller forces
    /// it, else where the request asks.
    pub fn should_focus(&self, force_focus: bool) -> (r: bool)
        ensures
            r == (force_focus || self.focus == Some(true)),
    {
        force_focus || match self.focus {
            Some(f) => f,
            None => false,
        }
    }

    /// The point the request gives, where it gives both coordinates.
    pub fn fallback_position(&self) -> (r: Option<(i32, i32)>)
        ensures
            r == (match (self.x, self.y) {
                (Some(a), Some(b)) => Some((a, b)),
                _ => None,
            }),
    {
        match (self.x, self.y) {
            (Some(a), Some(b)) => Some((a, b)),
            _ => None,
        }
    }
}

/// Where the overlay shows typing: the location found, else the origin.
pub fn typing_anchor(location: Option<(i32, i32)>) -> (r: (i32, i32))
    ensures
        r == (match location {
            Some(p) => p,
            None => (0i32, 0i32),
        }),
{
    match location {
        Some(p) => p,
        None => (0, 0),
    }
}

/// The first 32 characters of typed text, which the overlay shows.
pub fn typing_preview(text: &str) -> (r: String)
    ensures
        r@ == text@.take(if text@.len() < 32 { text@.len() as int } else { 32 }),
{
    let v = chars_of(text);
    let n: usize = if v.len() < 32 { v.len() } else { 32 };
    let r = crate::text::string_of(&v, 0, n);
    r
}

/// The difference `b - a` fits in an `i32`, and so does its absolute
/// value.
pub open spec fn span_fits(a: i32, b: i32) -> bool {
    -0x7fff_ffff <= b - a <= 0x7fff_ffff
}

/// The region between the two ends of a drag.
pub open spec fn drag_region_of(req: DragDropRequest) -> OverlayRegionPayload {
    OverlayRegionPayload {
        x: if req.from_x <= req.to_x { req.from_x } else { req.to_x },
        y: if req.from_y <= req.to_y { req.from_y } else { req.to_y },
        width: (if req.to_x >= req.from_x { req.to_x - req.from_x } else { req.from_x - req.to_x }) as i32,
        height: (if req.to_y >= req.from_y { req.to_y - req.from_y } else { req.from_y - req.to_y }) as i32,
    }
}

/// The region the overlay highlights after a drag: from the smaller
/// coordinates, as wide and high as the distance between the ends.
pub fn drag_region(req: &DragDropRequest) -> (r: OverlayRegionPayload)
    requires
        span_fits(req.from_x, req.to_x),
        span_fits(req.from_y, req.to_y),
    ensures
        r == drag_region_of(*req),
{
    let x = if req.from_x <= req.to_x { req.from_x } else { req.to_x };
    let y = if req.from_y <= req.to_y { req.from_y } else { req.to_y };
    let width = if req.to_x >= req.from_x { req.to_x - req.from_x } else { req.from_x - req.to_x };
    let height = if req.to_y >= req.from_y { req.to_y - req.from_y } else { req.from_y - req.to_y };
    OverlayRegionPayload { x, y, width, height }
}

/// Where replaying the recent overlay events starts: the last `limit` of
/// `count` (ten where no limit is given).
pub fn replay_start(count: usize, limit: Option<usize>) -> (r: usize)
    ensures
        r == (if count >= (match limit {
            Some(l) => l,
            None => 10,
        }) {
            count - (match limit {
                Some(l) => l,
                None => 10,
            })
        } else {
            0
        }),
{
    let l: usize = match limit {
        Some(l) => l,
        None => 10,
    };
    if count >= l {
        count - l
    } else {
        0
    }
}

} // verus!
