//! The mouse: motion, buttons and the wheel, and whether the cursor ran into an edge.
use vstd::prelude::*;

verus! {

/// The pointer moves by so much.
#[derive(Debug, Clone, Copy, PartialEq, Eq, Structural)]
pub enum EisPointerEvent {
    Motion { dx: i16, dy: i16 },
}

/// A button goes down or up.
#[derive(Debug, Clone, Copy, PartialEq, Eq, Structural)]
pub enum EisButtonEvent {
    Button { button: u32, pressed: bool },
}

/// The wheel turns by so much.
#[derive(Debug, Clone, Copy, PartialEq, Eq, Structural)]
pub enum EisScrollEvent {
    Scroll { dx: i32, dy: i32 },
}

/// What is known of the cursor: where the compositor last saw it, and the motion that was
/// last sent.
pub struct MouseState {
    pub last_pos: Option<(i32, i32)>,
    pub last_dx: i16,
    pub last_dy: i16,
    pub motion_sent: bool,
}

pub open spec fn abs(x: int) -> int {
    if x < 0 {
        -x
    } else {
        x
    }
}

/// Whether a cursor that is now at `(x, y)` was stopped by an edge: a motion was sent
/// since the last position, and along the axis of most of that motion (the horizontal one
/// where both are equal) the position is still the same.
pub open spec fn hits_edge(state: MouseState, x: i32, y: i32) -> bool {
    match state.last_pos {
        None => false,
        Some((prev_x, prev_y)) => state.motion_sent && if abs(state.last_dx as int) >= abs(
            state.last_dy as int,
        ) {
            x == prev_x
        } else {
            y == prev_y
        },
    }
}

fn magnitude(x: i16) -> (r: i32)
    ensures
        r == abs(x as int),
{
    if x < 0 {
        -(x as i32)
    } else {
        x as i32
    }
}

impl MouseState {
    /// Nothing is known yet.
    pub fn new() -> (s: MouseState)
        ensures
            s.last_pos is None,
            s.last_dx == 0,
            s.last_dy == 0,
            !s.motion_sent,
    {
        MouseState { last_pos: None, last_dx: 0, last_dy: 0, motion_sent: false }
    }

    /// Notes a motion and returns the event to send.
    pub fn handle_move(&mut self, dx: i16, dy: i16) -> (event: EisPointerEvent)
        ensures
            event == (EisPointerEvent::Motion { dx, dy }),
            *final(self) == (MouseState {
                last_pos: old(self).last_pos,
                last_dx: dx,
                last_dy: dy,
                motion_sent: true,
            }),
    {
        self.last_dx = dx;
        self.last_dy = dy;
        self.motion_sent = true;
        EisPointerEvent::Motion { dx, dy }
    }

    /// Notes where the compositor sees the cursor; says whether it ran into an edge.
    pub fn update_compositor_pos(&mut self, x: i32, y: i32) -> (hit: bool)
        ensures
            hit == hits_edge(*old(self), x, y),
            *final(self) == (MouseState {
                last_pos: Some((x, y)),
                last_dx: old(self).last_dx,
                last_dy: old(self).last_dy,
                motion_sent: false,
            }),
    {
        let hit = match self.last_pos {
            Some((prev_x, prev_y)) => if self.motion_sent {
                if magnitude(self.last_dx) >= magnitude(self.last_dy) {
                    x == prev_x
                } else {
                    y == prev_y
                }
            } else {
                false
            },
            None => false,
        };
        self.last_pos = Some((x, y));
        self.motion_sent = false;
        hit
    }
}

/// A position that comes without a motion before it is never taken for an edge.
pub proof fn still_cursor_hits_no_edge(state: MouseState, x: i32, y: i32)
    requires
        !state.motion_sent,
    ensures
        !hits_edge(state, x, y),
{
}

// Linux button codes (linux/input-event-codes.h).
pub const BTN_LEFT: u32 = 0x110;

pub const BTN_RIGHT: u32 = 0x111;

pub const BTN_MIDDLE: u32 = 0x112;

/// The Linux code of a browser mouse button.
pub open spec fn linux_button(button: u8) -> u32 {
    if button == 0 {
        BTN_LEFT
    } else if button == 1 {
        BTN_MIDDLE
    } else if button == 2 {
        BTN_RIGHT
    } else {
        (0x100 + button) as u32
    }
}

/// The Linux code of a browser mouse button.
pub fn web_button_to_linux(button: u8) -> (r: u32)
    ensures
        r == linux_button(button),
{
    match button {
        0 => BTN_LEFT,
        1 => BTN_MIDDLE,
        2 => BTN_RIGHT,
        n => 0x100 + n as u32,
    }
}

/// Two buttons keep apart, but for those whose codes are taken by the first three.
pub proof fn linux_buttons_are_distinct(a: u8, b: u8)
    requires
        a != b,
        !(16 <= a <= 18),
        !(16 <= b <= 18),
    ensures
        linux_button(a) != linux_button(b),
{
}

/// A cursor that was sent a motion hits an edge exactly where it stands as it stood along the
/// axis of most of that motion: wherever it went along this axis, to either side, it was not
/// stopped, and where it went along the other axis does not matter.
pub proof fn stopped_cursors_hit_an_edge(state: MouseState, from: (i32, i32), x: i32, y: i32)
    requires
        state.last_pos == Some(from),
        state.motion_sent,
    ensures
        state.last_dx * state.last_dx >= state.last_dy * state.last_dy ==> (hits_edge(state, x, y)
            <==> x - from.0 == 0),
        state.last_dx * state.last_dx < state.last_dy * state.last_dy ==> (hits_edge(state, x, y)
            <==> y - from.1 == 0),
{
    let dx = state.last_dx as int;
    let dy = state.last_dy as int;
    let a = abs(dx);
    let b = abs(dy);
    assert(dx * dx == a * a) by (nonlinear_arith)
        requires
            dx == a || dx == -a,
    ;
    assert(dy * dy == b * b) by (nonlinear_arith)
        requires
            dy == b || dy == -b,
    ;
    if a >= b {
        assert(a * a >= b * b) by (nonlinear_arith)
            requires
                a >= b,
                b >= 0,
        ;
    } else {
        assert(a * a < b * b) by (nonlinear_arith)
            requires
                a < b,
                a >= 0,
        ;
    }
}

/// An edge is hit only after a motion, from a place that is known.
pub proof fn edges_need_a_motion(state: MouseState, x: i32, y: i32)
    requires
        hits_edge(state, x, y),
    ensures
        state.motion_sent,
        state.last_pos is Some,
{
}

/// The sides do not matter: a motion the other way, or one with its axes swapped together with
/// both places (where one axis has more of it), hits an edge just as the first one does.
pub proof fn edges_are_alike(state: MouseState, from: (i32, i32), x: i32, y: i32)
    requires
        state.last_pos == Some(from),
        -32768 < state.last_dx,
        -32768 < state.last_dy,
    ensures
        hits_edge(
            MouseState {
                last_dx: (-state.last_dx) as i16,
                last_dy: (-state.last_dy) as i16,
                ..state
            },
            x,
            y,
        ) == hits_edge(state, x, y),
        state.last_dx != state.last_dy && state.last_dx != -state.last_dy ==> hits_edge(
            MouseState {
                last_pos: Some((from.1, from.0)),
                last_dx: state.last_dy,
                last_dy: state.last_dx,
                motion_sent: state.motion_sent,
            },
            y,
            x,
        ) == hits_edge(state, x, y),
{
}

/// The codes of the buttons: the left one has 272, the right one 273 and the middle one 274,
/// which the browser counts 0, 2 and 1; all others count up from 256.
pub proof fn buttons_have_their_codes(button: u8)
    ensures
        button == 0 ==> linux_button(button) == 272,
        button == 1 ==> linux_button(button) == 274,
        button == 2 ==> linux_button(button) == 273,
        button >= 3 ==> linux_button(button) - button == 256,
{
}

} // verus!
