//! Keyboard and mouse input: which low-level messages are recorded, under
//! which event type, and the gestures (double clicks, drags) recognised
//! from consecutive mouse messages.
use vstd::prelude::*;
use std::time::{Duration, Instant};
use crate::time::{duration_as_nanos, duration_from_millis, duration_at_least, instant_now, instant_elapsed};

verus! {

/// Window message: the pointer moved.
pub const WM_MOUSEMOVE: u32 = 0x0200;
/// Window message: left button pressed.
pub const WM_LBUTTONDOWN: u32 = 0x0201;
/// Window message: left button released.
pub const WM_LBUTTONUP: u32 = 0x0202;
/// Window message: right button pressed.
pub const WM_RBUTTONDOWN: u32 = 0x0204;
/// Window message: right button released.
pub const WM_RBUTTONUP: u32 = 0x0205;
/// Window message: middle button pressed.
pub const WM_MBUTTONDOWN: u32 = 0x0207;
/// Window message: wheel turned.
pub const WM_MOUSEWHEEL: u32 = 0x020A;
/// Window message: key pressed.
pub const WM_KEYDOWN: u32 = 0x0100;
/// Window message: key pressed together with Alt.
pub const WM_SYSKEYDOWN: u32 = 0x0104;

/// Longest pause between two left clicks of a double click, in milliseconds.
pub const DOUBLE_CLICK_MS: u64 = 500;

/// How far, in pixels along each axis, the pointer may move before a click
/// no longer counts as in place.
pub const GESTURE_SLOP_PX: i64 = 4;

/// Whether a keyboard message is a key press that is recorded.
pub fn is_key_press(message: u32) -> (r: bool)
    ensures
        r == (message == WM_KEYDOWN || message == WM_SYSKEYDOWN),
{
    message == WM_KEYDOWN || message == WM_SYSKEYDOWN
}

/// The mouse messages told apart.
#[derive(Debug, Clone, Copy, PartialEq, Eq, Structural)]
pub enum MouseMessageKind {
    LeftDown,
    RightDown,
    MiddleDown,
    LeftUp,
    RightUp,
    Move,
    Wheel,
    Other,
}

/// The kind of the mouse message numbered `message`.
pub open spec fn mouse_kind_of(message: u32) -> MouseMessageKind {
    if message == WM_LBUTTONDOWN {
        MouseMessageKind::LeftDown
    } else if message == WM_RBUTTONDOWN {
        MouseMessageKind::RightDown
    } else if message == WM_MBUTTONDOWN {
        MouseMessageKind::MiddleDown
    } else if message == WM_LBUTTONUP {
        MouseMessageKind::LeftUp
    } else if message == WM_RBUTTONUP {
        MouseMessageKind::RightUp
    } else if message == WM_MOUSEMOVE {
        MouseMessageKind::Move
    } else if message == WM_MOUSEWHEEL {
        MouseMessageKind::Wheel
    } else {
        MouseMessageKind::Other
    }
}

/// Classifies a low-level mouse message.
pub fn mouse_message_kind(message: u32) -> (k: MouseMessageKind)
    ensures
        k == mouse_kind_of(message),
{
    if message == WM_LBUTTONDOWN {
        MouseMessageKind::LeftDown
    } else if message == WM_RBUTTONDOWN {
        MouseMessageKind::RightDown
    } else if message == WM_MBUTTONDOWN {
        MouseMessageKind::MiddleDown
    } else if message == WM_LBUTTONUP {
        MouseMessageKind::LeftUp
    } else if message == WM_RBUTTONUP {
        MouseMessageKind::RightUp
    } else if message == WM_MOUSEMOVE {
        MouseMessageKind::Move
    } else if message == WM_MOUSEWHEEL {
        MouseMessageKind::Wheel
    } else {
        MouseMessageKind::Other
    }
}

/// The button a message concerns, by name.
pub open spec fn mouse_button_of(kind: MouseMessageKind) -> Option<Seq<char>> {
    match kind {
        MouseMessageKind::LeftDown | MouseMessageKind::LeftUp => Some("left"@),
        MouseMessageKind::RightDown | MouseMessageKind::RightUp => Some("right"@),
        MouseMessageKind::MiddleDown => Some("middle"@),
        _ => None,
    }
}

/// The button a message concerns: left, right or middle, or none for moves,
/// the wheel and other messages.
pub fn mouse_button(kind: MouseMessageKind) -> (b: Option<&'static str>)
    ensures
        match b {
            Some(s) => mouse_button_of(kind) == Some(s@),
            None => mouse_button_of(kind) is None,
        },
{
    match kind {
        MouseMessageKind::LeftDown | MouseMessageKind::LeftUp => Some("left"),
        MouseMessageKind::RightDown | MouseMessageKind::RightUp => Some("right"),
        MouseMessageKind::MiddleDown => Some("middle"),
        _ => None,
    }
}

/// The event types mouse input is recorded under.
#[derive(Debug, Clone, Copy, PartialEq, Eq, Structural)]
pub enum MouseEventType {
    Click,
    DoubleClick,
    RightClick,
    LeftUp,
    RightUp,
    Move,
    DragStarted,
    DragEnded,
    Scroll,
    Input,
}

/// The stored name of each event type.
pub open spec fn mouse_event_name(t: MouseEventType) -> Seq<char> {
    match t {
        MouseEventType::Click => "mouse_click"@,
        MouseEventType::DoubleClick => "mouse_double_click"@,
        MouseEventType::RightClick => "mouse_right_click"@,
        MouseEventType::LeftUp => "mouse_left_up"@,
        MouseEventType::RightUp => "mouse_right_up"@,
        MouseEventType::Move => "mouse_move"@,
        MouseEventType::DragStarted => "mouse_drag_started"@,
        MouseEventType::DragEnded => "mouse_drag_ended"@,
        MouseEventType::Scroll => "mouse_scroll"@,
        MouseEventType::Input => "mouse_input"@,
    }
}

/// The stored name of an event type.
pub fn mouse_event_type_name(t: MouseEventType) -> (s: &'static str)
    ensures
        s@ == mouse_event_name(t),
{
    match t {
        MouseEventType::Click => "mouse_click",
        MouseEventType::DoubleClick => "mouse_double_click",
        MouseEventType::RightClick => "mouse_right_click",
        MouseEventType::LeftUp => "mouse_left_up",
        MouseEventType::RightUp => "mouse_right_up",
        MouseEventType::Move => "mouse_move",
        MouseEventType::DragStarted => "mouse_drag_started",
        MouseEventType::DragEnded => "mouse_drag_ended",
        MouseEventType::Scroll => "mouse_scroll",
        MouseEventType::Input => "mouse_input",
    }
}

/// Whether mouse input of type `t` is stored: only discrete clicks,
/// double clicks, right clicks and scrolls. Movement, drags, button
/// releases and other messages are never recorded.
pub open spec fn is_recorded_mouse_event(t: MouseEventType) -> bool {
    t == MouseEventType::Click || t == MouseEventType::DoubleClick || t == MouseEventType::RightClick
        || t == MouseEventType::Scroll
}

/// Decides whether mouse input of type `t` is stored.
pub fn records_mouse_event(t: MouseEventType) -> (r: bool)
    ensures
        r == is_recorded_mouse_event(t),
        t == MouseEventType::Move ==> !r,
{
    match t {
        MouseEventType::Click | MouseEventType::DoubleClick | MouseEventType::RightClick | MouseEventType::Scroll => true,
        _ => false,
    }
}

/// The event type of a message taken on its own: both the left and the
/// middle button record a click.
pub open spec fn plain_event_type(kind: MouseMessageKind) -> MouseEventType {
    match kind {
        MouseMessageKind::LeftDown | MouseMessageKind::MiddleDown => MouseEventType::Click,
        MouseMessageKind::RightDown => MouseEventType::RightClick,
        MouseMessageKind::LeftUp => MouseEventType::LeftUp,
        MouseMessageKind::RightUp => MouseEventType::RightUp,
        MouseMessageKind::Move => MouseEventType::Move,
        MouseMessageKind::Wheel => MouseEventType::Scroll,
        MouseMessageKind::Other => MouseEventType::Input,
    }
}

/// Whether `(x, y)` lies within the slop of `at` along both axes.
pub open spec fn near(at: (i32, i32), x: i32, y: i32) -> bool {
    -GESTURE_SLOP_PX <= at.0 - x <= GESTURE_SLOP_PX && -GESTURE_SLOP_PX <= at.1 - y <= GESTURE_SLOP_PX
}

/// The event type of a message and the press position kept afterwards,
/// given the position of the pending left press (`left_down`) and that of
/// the previous left click if it came within the double-click time
/// (`recent_click`).
///
/// A click (left or middle) near a recent click is a double click, and
/// becomes the pending press; a move away from the pending press starts a
/// drag; a left release while a press is pending ends the drag and clears it.
pub open spec fn gesture(
    left_down: Option<(i32, i32)>,
    recent_click: Option<(i32, i32)>,
    kind: MouseMessageKind,
    x: i32,
    y: i32,
) -> (MouseEventType, Option<(i32, i32)>) {
    let plain = plain_event_type(kind);
    if plain == MouseEventType::Click {
        let t = match recent_click {
            Some(at) => if near(at, x, y) { MouseEventType::DoubleClick } else { plain },
            None => plain,
        };
        (t, Some((x, y)))
    } else if plain == MouseEventType::Move {
        match left_down {
            Some(at) => if !near(at, x, y) { (MouseEventType::DragStarted, left_down) } else { (plain, left_down) },
            None => (plain, left_down),
        }
    } else if plain == MouseEventType::LeftUp {
        if left_down is Some { (MouseEventType::DragEnded, None) } else { (plain, None) }
    } else {
        (plain, left_down)
    }
}

/// Whether `(x, y)` lies within the slop of `(ax, ay)`.
fn is_near(ax: i32, ay: i32, x: i32, y: i32) -> (r: bool)
    ensures
        r == near((ax, ay), x, y),
{
    let dx = ax as i64 - x as i64;
    let dy = ay as i64 - y as i64;
    -GESTURE_SLOP_PX <= dx && dx <= GESTURE_SLOP_PX && -GESTURE_SLOP_PX <= dy && dy <= GESTURE_SLOP_PX
}

/// Computes [`gesture`].
pub fn next_gesture(
    left_down: Option<(i32, i32)>,
    recent_click: Option<(i32, i32)>,
    kind: MouseMessageKind,
    x: i32,
    y: i32,
) -> (r: (MouseEventType, Option<(i32, i32)>))
    ensures
        r == gesture(left_down, recent_click, kind, x, y),
{
    match kind {
        MouseMessageKind::LeftDown | MouseMessageKind::MiddleDown => {
            let t = match recent_click {
                Some((ax, ay)) => if is_near(ax, ay, x, y) { MouseEventType::DoubleClick } else { MouseEventType::Click },
                None => MouseEventType::Click,
            };
            (t, Some((x, y)))
        },
        MouseMessageKind::Move => match left_down {
            Some((ax, ay)) => if !is_near(ax, ay, x, y) {
                (MouseEventType::DragStarted, left_down)
            } else {
                (MouseEventType::Move, left_down)
            },
            None => (MouseEventType::Move, left_down),
        },
        MouseMessageKind::LeftUp => if left_down.is_some() {
            (MouseEventType::DragEnded, None)
        } else {
            (MouseEventType::LeftUp, None)
        },
        MouseMessageKind::RightDown => (MouseEventType::RightClick, left_down),
        MouseMessageKind::RightUp => (MouseEventType::RightUp, left_down),
        MouseMessageKind::Wheel => (MouseEventType::Scroll, left_down),
        MouseMessageKind::Other => (MouseEventType::Input, left_down),
    }
}

/// With the left button held at `at`, a move to `(x, y)` starts a drag
/// exactly when the pointer has left the 4-pixel square around the press,
/// along the x axis or along the y axis; the press stays pending either way.
pub proof fn law_drag_starts_beyond_slop(
    at: (i32, i32),
    recent_click: Option<(i32, i32)>,
    x: i32,
    y: i32,
)
    ensures
        gesture(Some(at), recent_click, MouseMessageKind::Move, x, y) == (
            if at.0 - x > 4 || x - at.0 > 4 || at.1 - y > 4 || y - at.1 > 4 {
                MouseEventType::DragStarted
            } else {
                MouseEventType::Move
            },
            Some(at),
        ),
        gesture(None, recent_click, MouseMessageKind::Move, x, y) == (
            MouseEventType::Move,
            None::<(i32, i32)>,
        ),
{
}

/// A left or middle click at `(x, y)` is a double click exactly when the
/// recent click lies within 4 pixels of it on both axes; with no recent
/// click it is a plain click. Either way it becomes the pending press.
pub proof fn law_double_click_within_slop(
    left_down: Option<(i32, i32)>,
    kind: MouseMessageKind,
    recent_click: Option<(i32, i32)>,
    x: i32,
    y: i32,
)
    requires
        kind == MouseMessageKind::LeftDown || kind == MouseMessageKind::MiddleDown,
    ensures
        gesture(left_down, recent_click, kind, x, y) == (
            match recent_click {
                Some(c) => if -4 <= c.0 - x <= 4 && -4 <= c.1 - y <= 4 {
                    MouseEventType::DoubleClick
                } else {
                    MouseEventType::Click
                },
                None => MouseEventType::Click,
            },
            Some((x, y)),
        ),
{
}

/// The previous left click as a candidate for a double click: its
/// position when it came at most `DOUBLE_CLICK_MS` before, `elapsed` being
/// the time since it.
pub open spec fn recent_click_spec(last: Option<(i32, i32)>, elapsed: Duration) -> Option<(i32, i32)> {
    if duration_as_nanos(elapsed) <= DOUBLE_CLICK_MS as nat * 1_000_000 {
        last
    } else {
        None
    }
}

/// Computes [`recent_click_spec`].
pub fn recent_click(last: Option<(i32, i32)>, elapsed: Duration) -> (r: Option<(i32, i32)>)
    ensures
        r == recent_click_spec(last, elapsed),
{
    if duration_at_least(duration_from_millis(DOUBLE_CLICK_MS), elapsed) {
        last
    } else {
        None
    }
}

/// The gesture state carried from one mouse message to the next: the
/// pending left press and the time and place of the last left click.
pub struct MouseGestureTracker {
    left_down: Option<(i32, i32)>,
    last_left_click: Option<(Instant, i32, i32)>,
}

impl MouseGestureTracker {
    /// Where the pending left press happened, if one is pending.
    pub closed spec fn pressed_at(&self) -> Option<(i32, i32)> {
        self.left_down
    }

    /// When and where the last left click happened, if there was one.
    pub closed spec fn last_click(&self) -> Option<(Instant, i32, i32)> {
        self.last_left_click
    }

    /// Where the last left click happened, if there was one.
    pub open spec fn last_click_at(&self) -> Option<(i32, i32)> {
        match self.last_click() {
            Some((_, x, y)) => Some((x, y)),
            None => None,
        }
    }

    /// A tracker that has seen no message.
    pub fn new() -> (t: Self)
        ensures
            t.pressed_at() is None,
            t.last_click() is None,
    {
        MouseGestureTracker { left_down: None, last_left_click: None }
    }

    /// Classifies the next mouse message at `(x, y)` and updates the state.
    /// The time since the last left click is read from the clock and handed
    /// to [`recent_click`]; the result and the new pending press are
    /// [`gesture`] applied to that. A click (left or middle) becomes the last
    /// click, at the current instant.
    pub fn observe(&mut self, kind: MouseMessageKind, x: i32, y: i32) -> (t: MouseEventType)
        ensures
            exists|elapsed: Duration|
                (t, final(self).pressed_at()) == #[trigger] gesture(
                    old(self).pressed_at(),
                    recent_click_spec(old(self).last_click_at(), elapsed),
                    kind,
                    x,
                    y,
                ),
            plain_event_type(kind) == MouseEventType::Click ==> (final(self).last_click() matches Some(
                (_, cx, cy),
            ) && cx == x && cy == y),
            plain_event_type(kind) != MouseEventType::Click ==> final(self).last_click() == old(
                self,
            ).last_click(),
    {
        let ghost mut witness: Duration = arbitrary();
        let recent = match &self.last_left_click {
            Some((at, cx, cy)) => {
                let elapsed = instant_elapsed(at);
                proof {
                    witness = elapsed;
                }
                recent_click(Some((*cx, *cy)), elapsed)
            },
            None => None,
        };
        assert(recent == recent_click_spec(old(self).last_click_at(), witness));
        let (t, pressed) = next_gesture(self.left_down, recent, kind, x, y);
        if kind == MouseMessageKind::LeftDown || kind == MouseMessageKind::MiddleDown {
            self.last_left_click = Some((instant_now(), x, y));
        }
        self.left_down = pressed;
        assert((t, self.pressed_at()) == gesture(
            old(self).pressed_at(),
            recent_click_spec(old(self).last_click_at(), witness),
            kind,
            x,
            y,
        ));
        t
    }
}

} // verus!
