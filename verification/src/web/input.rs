//! Input in the browser: fingers and their slots, and the capture of the mouse.
use crate::shared::client_datagram::{ClientDatagram, ClientMessage, Modifiers};
use std::collections::HashMap;
use vstd::prelude::*;

verus! {

broadcast use vstd::std_specs::hash::group_hash_axioms;

// ----- keys

/// The message for a key that was pressed with some modifiers.
pub fn key_message(code: String, shift: bool, ctrl: bool, alt: bool, meta: bool) -> (d:
    ClientDatagram)
    ensures
        d matches ClientDatagram::Keyboard { keycode, modifiers } && keycode@ == code@
            && modifiers.valid() && modifiers.shift() == shift && modifiers.ctrl() == ctrl
            && modifiers.alt() == alt && modifiers.meta() == meta,
{
    ClientDatagram::Keyboard { keycode: code, modifiers: Modifiers::from_keys(shift, ctrl, alt, meta) }
}

// ----- touches

/// The slots of the fingers on the screen, the slots that are free again, and the slot that
/// was never used.
pub struct TouchSlots {
    slots: HashMap<i32, u8>,
    free: Vec<u8>,
    next: u8,
}

/// Who has which slot.
#[verifier::ext_equal]
pub ghost struct SlotTable {
    pub slots: Map<i32, u8>,
    pub free: Seq<u8>,
    pub next: u8,
}

impl View for TouchSlots {
    type V = SlotTable;

    closed spec fn view(&self) -> SlotTable {
        SlotTable { slots: self.slots@, free: self.free@, next: self.next }
    }
}

impl SlotTable {
    /// The slot that a new finger gets: the one freed last, or else a new one.
    pub open spec fn offered(self) -> u8 {
        if self.free.len() > 0 {
            self.free.last()
        } else {
            self.next
        }
    }

    /// The table after a finger is on the screen.
    pub open spec fn pressed(self, id: i32) -> SlotTable {
        if self.slots.contains_key(id) {
            self
        } else if self.free.len() > 0 {
            SlotTable {
                slots: self.slots.insert(id, self.free.last()),
                free: self.free.drop_last(),
                next: self.next,
            }
        } else {
            SlotTable {
                slots: self.slots.insert(id, self.next),
                free: self.free,
                next: ((self.next + 1) % 256) as u8,
            }
        }
    }

    /// The table after a finger is gone.
    pub open spec fn released(self, id: i32) -> SlotTable {
        if self.slots.contains_key(id) {
            SlotTable {
                slots: self.slots.remove(id),
                free: self.free.push(self.slots[id]),
                next: self.next,
            }
        } else {
            self
        }
    }

    /// No two fingers share a slot, none has one that is free, and no slot is free twice.
    pub open spec fn distinct(self) -> bool {
        &&& forall|a: i32, b: i32|
            #![trigger self.slots[a], self.slots[b]]
            self.slots.contains_key(a) && self.slots.contains_key(b) && self.slots[a]
                == self.slots[b] ==> a == b
        &&& forall|a: i32, i: int|
            #![trigger self.slots[a], self.free[i]]
            self.slots.contains_key(a) && 0 <= i < self.free.len() ==> self.slots[a]
                != self.free[i]
        &&& self.free.no_duplicates()
        &&& self.has_fresh() || self.next == 0
    }

    /// The slot that was never used is there: all others have lower numbers.
    pub open spec fn has_fresh(self) -> bool {
        &&& forall|a: i32| #[trigger]
            self.slots.contains_key(a) ==> self.slots[a] < self.next
        &&& forall|i: int| 0 <= i < self.free.len() ==> #[trigger] self.free[i] < self.next
    }
}

impl TouchSlots {
    /// No finger is on the screen.
    pub fn new() -> (s: TouchSlots)
        ensures
            s@ == (SlotTable { slots: Map::empty(), free: Seq::empty(), next: 0 }),
            s@.distinct(),
    {
        TouchSlots { slots: HashMap::new(), free: Vec::new(), next: 0 }
    }

    /// A finger is on the screen; returns its slot.
    pub fn press(&mut self, id: i32) -> (slot: u8)
        ensures
            final(self)@ == old(self)@.pressed(id),
            slot == final(self)@.slots[id],
            slot == (if old(self)@.slots.contains_key(id) {
                old(self)@.slots[id]
            } else {
                old(self)@.offered()
            }),
    {
        if let Some(slot) = self.slots.get(&id) {
            return *slot;
        }
        let slot: u8 = match self.free.pop() {
            Some(slot) => slot,
            None => {
                let slot = self.next;
                self.next = self.next.wrapping_add(1);
                slot
            },
        };
        self.slots.insert(id, slot);
        assert(self@ =~= old(self)@.pressed(id));
        slot
    }

    /// A finger is gone; returns the slot that it had.
    pub fn release(&mut self, id: i32) -> (slot: Option<u8>)
        ensures
            final(self)@ == old(self)@.released(id),
            slot == (if old(self)@.slots.contains_key(id) {
                Some(old(self)@.slots[id])
            } else {
                None
            }),
    {
        match self.slots.remove(&id) {
            Some(slot) => {
                self.free.push(slot);
                assert(self@ =~= old(self)@.released(id));
                Some(slot)
            },
            None => {
                assert(self@ =~= old(self)@.released(id));
                None
            },
        }
    }
}

/// The table after some fingers are on the screen.
pub open spec fn all_pressed(t: SlotTable, touches: Seq<(i32, u16, u16)>) -> SlotTable
    decreases touches.len(),
{
    if touches.len() == 0 {
        t
    } else {
        all_pressed(t, touches.drop_last()).pressed(touches.last().0)
    }
}

/// What the server is told about fingers on the screen: where each one is, by its slot.
pub open spec fn touch_reports(t: SlotTable, touches: Seq<(i32, u16, u16)>) -> Seq<ClientMessage>
    decreases touches.len(),
{
    if touches.len() == 0 {
        Seq::empty()
    } else {
        let (id, x, y) = touches.last();
        touch_reports(t, touches.drop_last()).push(
            ClientMessage::Touchscreen { index: all_pressed(t, touches).slots[id], x, y },
        )
    }
}

/// The table after some fingers are gone.
pub open spec fn all_released(t: SlotTable, ids: Seq<i32>) -> SlotTable
    decreases ids.len(),
{
    if ids.len() == 0 {
        t
    } else {
        all_released(t, ids.drop_last()).released(ids.last())
    }
}

/// What the server is told about fingers that are gone: the slots of those that were there.
pub open spec fn release_reports(t: SlotTable, ids: Seq<i32>) -> Seq<ClientMessage>
    decreases ids.len(),
{
    if ids.len() == 0 {
        Seq::empty()
    } else {
        let before = all_released(t, ids.drop_last());
        let reports = release_reports(t, ids.drop_last());
        if before.slots.contains_key(ids.last()) {
            reports.push(ClientMessage::TouchscreenRelease { index: before.slots[ids.last()] })
        } else {
            reports
        }
    }
}

/// What a row of messages says.
pub open spec fn message_views(messages: Seq<ClientDatagram>) -> Seq<ClientMessage> {
    messages.map_values(|d: ClientDatagram| d@)
}

/// The messages about fingers that are on the screen, each with its place.
pub fn touch_messages(slots: &mut TouchSlots, touches: &[(i32, u16, u16)]) -> (r: Vec<
    ClientDatagram,
>)
    ensures
        final(slots)@ == all_pressed(old(slots)@, touches@),
        message_views(r@) == touch_reports(old(slots)@, touches@),
{
    let mut r: Vec<ClientDatagram> = Vec::new();
    let ghost t = slots@;
    let mut i: usize = 0;
    while i < touches.len()
        invariant
            i <= touches.len(),
            slots@ == all_pressed(t, touches@.take(i as int)),
            message_views(r@) == touch_reports(t, touches@.take(i as int)),
        decreases touches.len() - i,
    {
        let ghost before = r@;
        assert(touches@.take(i + 1).drop_last() =~= touches@.take(i as int));
        let (id, x, y) = touches[i];
        let index = slots.press(id);
        r.push(ClientDatagram::Touchscreen { index, x, y });
        assert(message_views(r@) =~= message_views(before).push(
            ClientMessage::Touchscreen { index, x, y },
        ));
        i += 1;
    }
    assert(touches@.take(touches@.len() as int) =~= touches@);
    r
}

/// The messages about fingers that are gone.
pub fn release_messages(slots: &mut TouchSlots, ids: &[i32]) -> (r: Vec<ClientDatagram>)
    ensures
        final(slots)@ == all_released(old(slots)@, ids@),
        message_views(r@) == release_reports(old(slots)@, ids@),
{
    let mut r: Vec<ClientDatagram> = Vec::new();
    let ghost t = slots@;
    let mut i: usize = 0;
    while i < ids.len()
        invariant
            i <= ids.len(),
            slots@ == all_released(t, ids@.take(i as int)),
            message_views(r@) == release_reports(t, ids@.take(i as int)),
        decreases ids.len() - i,
    {
        let ghost before = r@;
        assert(ids@.take(i + 1).drop_last() =~= ids@.take(i as int));
        if let Some(index) = slots.release(ids[i]) {
            r.push(ClientDatagram::TouchscreenRelease { index });
            assert(message_views(r@) =~= message_views(before).push(
                ClientMessage::TouchscreenRelease { index },
            ));
        }
        i += 1;
    }
    assert(ids@.take(ids@.len() as int) =~= ids@);
    r
}

/// Fingers keep apart: pressing and releasing never gives two fingers the same slot, as
/// long as there is a slot left for the finger.
pub proof fn slots_stay_distinct(t: SlotTable, id: i32)
    requires
        t.distinct(),
    ensures
        t.slots.contains_key(id) || t.free.len() > 0 || t.has_fresh() ==> t.pressed(id).distinct(),
        t.released(id).distinct(),
{
    let p = t.pressed(id);
    if !t.slots.contains_key(id) && t.free.len() > 0 {
        assert forall|i: int, j: int| 0 <= i < j < p.free.len() implies p.free[i] != p.free[j] by {
            assert(t.free[i] != t.free[j]);
        }
        assert forall|a: i32, i: int|
            #![trigger p.slots[a], p.free[i]]
            p.slots.contains_key(a) && 0 <= i < p.free.len() implies p.slots[a] != p.free[i] by {
            if a == id {
                assert(t.free[i] != t.free[t.free.len() - 1]);
            } else {
                assert(t.slots[a] != t.free[i]);
            }
        }
        assert forall|a: i32, b: i32|
            #![trigger p.slots[a], p.slots[b]]
            p.slots.contains_key(a) && p.slots.contains_key(b) && p.slots[a] == p.slots[b] implies a
            == b by {
            if a == id && b != id {
                assert(t.slots[b] != t.free[t.free.len() - 1]);
            } else if b == id && a != id {
                assert(t.slots[a] != t.free[t.free.len() - 1]);
            }
        }
        assert(t.has_fresh() ==> p.has_fresh()) by {
            if t.has_fresh() {
                assert(t.free[t.free.len() - 1] < t.next);
            }
        }
    }
    let r = t.released(id);
    if t.slots.contains_key(id) {
        assert forall|i: int, j: int| 0 <= i < j < r.free.len() implies r.free[i] != r.free[j] by {
            if j == t.free.len() {
                assert(t.slots[id] != t.free[i]);
            } else {
                assert(t.free[i] != t.free[j]);
            }
        }
        assert forall|a: i32, i: int|
            #![trigger r.slots[a], r.free[i]]
            r.slots.contains_key(a) && 0 <= i < r.free.len() implies r.slots[a] != r.free[i] by {
            if i == t.free.len() {
                assert(t.slots[a] == t.slots[id] ==> a == id);
            } else {
                assert(t.slots[a] != t.free[i]);
            }
        }
    }
}

/// A finger that is lifted and comes down again at once gets its slot back.
pub proof fn slot_is_reused(t: SlotTable, id: i32)
    requires
        t.slots.contains_key(id),
    ensures
        t.released(id).pressed(id) == t,
{
    let back = t.released(id).pressed(id);
    assert(back.slots =~= t.slots);
    assert(back.free =~= t.free);
}

// ----- the mouse

/// How long after the capture began a release by the server is ignored, in milliseconds.
pub const RELEASE_GRACE_MS: i64 = 1000;

/// The capture of the mouse.
#[derive(Debug, Clone, Copy, PartialEq, Eq, Structural)]
pub struct MouseCapture {
    /// The mouse may be captured when it enters the picture.
    pub can_capture: bool,
    /// The server let go of the mouse: it has to enter and leave the picture first.
    pub awaiting_exit: bool,
    /// It has entered since.
    pub entered_once: bool,
    /// The server asked to let go of the mouse.
    pub release_asked: bool,
}

/// What happens to the mouse. Times are whole milliseconds since the capture began.
#[derive(Debug, Clone, Copy, PartialEq, Eq, Structural)]
pub enum MouseSignal {
    /// A pointer entered the picture; `mouse` where it is one.
    Enter { mouse: bool },
    Leave { mouse: bool },
    /// A pointer was pressed on the picture.
    Down { mouse: bool },
    /// The mouse moved, while it was captured or not.
    Move { locked: bool, since_lock_ms: i64, dx: i16, dy: i16 },
    /// The server asks to let go of the mouse.
    ServerRelease,
}

/// What to do.
#[derive(Debug, Clone, Copy, PartialEq, Eq, Structural)]
pub enum MouseAction {
    Nothing,
    /// Capture the mouse.
    RequestLock,
    /// Capture the mouse, and count the time from now on.
    RequestLockNow,
    /// Let go of the mouse.
    ExitLock,
    /// Tell the server about the motion.
    SendMove { dx: i16, dy: i16 },
}

/// The capture after a signal.
pub open spec fn mouse_next(s: MouseCapture, signal: MouseSignal) -> MouseCapture {
    match signal {
        MouseSignal::Enter { mouse } => if mouse && s.awaiting_exit {
            MouseCapture { entered_once: true, ..s }
        } else {
            s
        },
        MouseSignal::Leave { mouse } => if mouse && s.awaiting_exit && s.entered_once {
            MouseCapture {
                can_capture: true,
                awaiting_exit: false,
                entered_once: false,
                release_asked: s.release_asked,
            }
        } else {
            s
        },
        MouseSignal::Down { mouse } => if mouse {
            MouseCapture {
                can_capture: true,
                awaiting_exit: false,
                entered_once: false,
                release_asked: false,
            }
        } else {
            s
        },
        MouseSignal::Move { locked, since_lock_ms, dx, dy } => if !locked {
            s
        } else if s.release_asked && since_lock_ms >= RELEASE_GRACE_MS {
            MouseCapture {
                can_capture: false,
                awaiting_exit: true,
                entered_once: s.entered_once,
                release_asked: false,
            }
        } else {
            MouseCapture { release_asked: false, ..s }
        },
        MouseSignal::ServerRelease => MouseCapture { release_asked: true, ..s },
    }
}

/// What to do about a signal.
pub open spec fn mouse_action(s: MouseCapture, signal: MouseSignal) -> MouseAction {
    match signal {
        MouseSignal::Enter { mouse } => if mouse && !s.awaiting_exit && s.can_capture {
            MouseAction::RequestLock
        } else {
            MouseAction::Nothing
        },
        MouseSignal::Leave { mouse } => MouseAction::Nothing,
        MouseSignal::Down { mouse } => if mouse {
            MouseAction::RequestLockNow
        } else {
            MouseAction::Nothing
        },
        MouseSignal::Move { locked, since_lock_ms, dx, dy } => if !locked {
            MouseAction::Nothing
        } else if s.release_asked && since_lock_ms >= RELEASE_GRACE_MS {
            MouseAction::ExitLock
        } else if dx == 0 && dy == 0 {
            MouseAction::Nothing
        } else {
            MouseAction::SendMove { dx, dy }
        },
        MouseSignal::ServerRelease => MouseAction::Nothing,
    }
}

impl MouseCapture {
    /// The mouse may be captured.
    pub fn new() -> (s: MouseCapture)
        ensures
            s == (MouseCapture {
                can_capture: true,
                awaiting_exit: false,
                entered_once: false,
                release_asked: false,
            }),
    {
        MouseCapture {
            can_capture: true,
            awaiting_exit: false,
            entered_once: false,
            release_asked: false,
        }
    }

    /// Takes note of a signal and says what to do.
    pub fn step(&mut self, signal: MouseSignal) -> (action: MouseAction)
        ensures
            *final(self) == mouse_next(*old(self), signal),
            action == mouse_action(*old(self), signal),
    {
        match signal {
            MouseSignal::Enter { mouse } => {
                if !mouse {
                    MouseAction::Nothing
                } else if self.awaiting_exit {
                    self.entered_once = true;
                    MouseAction::Nothing
                } else if self.can_capture {
                    MouseAction::RequestLock
                } else {
                    MouseAction::Nothing
                }
            },
            MouseSignal::Leave { mouse } => {
                if mouse && self.awaiting_exit && self.entered_once {
                    self.awaiting_exit = false;
                    self.entered_once = false;
                    self.can_capture = true;
                }
                MouseAction::Nothing
            },
            MouseSignal::Down { mouse } => {
                if !mouse {
                    return MouseAction::Nothing;
                }
                self.release_asked = false;
                self.can_capture = true;
                self.awaiting_exit = false;
                self.entered_once = false;
                MouseAction::RequestLockNow
            },
            MouseSignal::Move { locked, since_lock_ms, dx, dy } => {
                if !locked {
                    return MouseAction::Nothing;
                }
                if self.release_asked && since_lock_ms >= RELEASE_GRACE_MS {
                    self.release_asked = false;
                    self.can_capture = false;
                    self.awaiting_exit = true;
                    return MouseAction::ExitLock;
                }
                self.release_asked = false;
                if dx == 0 && dy == 0 {
                    MouseAction::Nothing
                } else {
                    MouseAction::SendMove { dx, dy }
                }
            },
            MouseSignal::ServerRelease => {
                self.release_asked = true;
                MouseAction::Nothing
            },
        }
    }
}

/// The capture after a row of signals.
pub open spec fn mouse_after(s: MouseCapture, signals: Seq<MouseSignal>) -> MouseCapture
    decreases signals.len(),
{
    if signals.len() == 0 {
        s
    } else {
        mouse_next(mouse_after(s, signals.drop_last()), signals.last())
    }
}

/// While the mouse has to leave the picture first, it may not be captured; the states that
/// can be reached from a fresh capture all keep to this.
pub open spec fn mouse_consistent(s: MouseCapture) -> bool {
    &&& s.awaiting_exit == !s.can_capture
    &&& s.entered_once ==> s.awaiting_exit
}

/// The capture stays consistent, whatever happens.
pub proof fn mouse_stays_consistent(s: MouseCapture, signals: Seq<MouseSignal>)
    requires
        mouse_consistent(s),
    ensures
        mouse_consistent(mouse_after(s, signals)),
    decreases signals.len(),
{
    if signals.len() > 0 {
        mouse_stays_consistent(s, signals.drop_last());
    }
}

/// After the server let go of the mouse, nothing but a click or a mouse that leaves the
/// picture after it entered lets it be captured again.
pub proof fn released_mouse_stays_free(s: MouseCapture, signal: MouseSignal)
    requires
        mouse_consistent(s),
        s.awaiting_exit,
    ensures
        signal !is Down ==> mouse_action(s, signal) !is RequestLock && mouse_action(s, signal)
            !is RequestLockNow,
        !mouse_next(s, signal).awaiting_exit ==> signal == (MouseSignal::Down { mouse: true })
            || (signal == (MouseSignal::Leave { mouse: true }) && s.entered_once),
{
}

/// Entering and leaving the picture once lets the mouse be captured again.
pub proof fn entering_and_leaving_frees_the_capture(s: MouseCapture)
    requires
        mouse_consistent(s),
        s.awaiting_exit,
    ensures
        ({
            let after = mouse_after(
                s,
                seq![MouseSignal::Enter { mouse: true }, MouseSignal::Leave { mouse: true }],
            );
            after.can_capture && !after.awaiting_exit && mouse_action(
                after,
                MouseSignal::Enter { mouse: true },
            ) is RequestLock
        }),
{
    reveal_with_fuel(mouse_after, 3);
    let row = seq![MouseSignal::Enter { mouse: true }, MouseSignal::Leave { mouse: true }];
    assert(row.drop_last() =~= seq![MouseSignal::Enter { mouse: true }]);
    assert(row.drop_last().drop_last() =~= Seq::<MouseSignal>::empty());
}

/// In the first second of a capture the server cannot end it.
pub proof fn fresh_captures_are_kept(s: MouseCapture, since_lock_ms: i64, dx: i16, dy: i16)
    requires
        since_lock_ms < RELEASE_GRACE_MS,
    ensures
        mouse_action(
            s,
            MouseSignal::Move { locked: true, since_lock_ms, dx, dy },
        ) !is ExitLock,
{
}

/// The message for a mouse button, while the mouse is captured.
pub fn button_message(locked: bool, button: i16, pressed: bool) -> (r: Option<ClientDatagram>)
    ensures
        r is Some == locked,
        r matches Some(d) ==> d@ == (ClientMessage::MouseButton {
            button: (button as int % 256) as u8,
            pressed,
        }),
{
    if !locked {
        return None;
    }
    let low: u8 = ((button as i32 + 65536) % 256) as u8;
    Some(ClientDatagram::MouseButton { button: low, pressed })
}

/// How many units of the wheel a browser step is, by the unit that the browser counts in: 0
/// for pixels, 1 for lines, anything else for pages.
pub fn scroll_factor(delta_mode: u32) -> (r: u32)
    ensures
        r == (if delta_mode == 0 {
            1u32
        } else if delta_mode == 1 {
            40
        } else {
            120
        }),
        delta_mode == 0 <==> r == 1,
        delta_mode == 1 <==> r == 40,
        delta_mode >= 2 <==> r == 120,
{
    match delta_mode {
        0 => 1,
        1 => 40,
        _ => 120,
    }
}

/// The message for the wheel, while the mouse is captured.
pub fn scroll_message(locked: bool, dx: i32, dy: i32) -> (r: Option<ClientDatagram>)
    ensures
        r is Some == locked,
        r matches Some(d) ==> d@ == (ClientMessage::Scroll { dx, dy }),
{
    if locked {
        Some(ClientDatagram::Scroll { dx, dy })
    } else {
        None
    }
}

/// A finger that comes down gets a slot and keeps it while it is down; no other finger's slot
/// changes by it. A slot that was given back is given out again first, the latest one before the
/// others; else a new one is, the next in the row.
pub proof fn fingers_get_and_keep_slots(t: SlotTable, id: i32, other: i32)
    ensures
        ({
            let u = t.pressed(id);
            &&& u.slots.contains_key(id)
            &&& t.slots.contains_key(id) ==> u == t
            &&& !t.slots.contains_key(id) && t.free.len() > 0 ==> u.slots[id]
                == t.free[t.free.len() - 1] && u.free == t.free.take(t.free.len() - 1) && u.next
                == t.next
            &&& !t.slots.contains_key(id) && t.free.len() == 0 ==> u.slots[id] == t.next && u.free
                == t.free && (u.next - t.next - 1) % 256 == 0
            &&& other != id ==> u.slots.contains_key(other) == t.slots.contains_key(other)
            &&& t.slots.contains_key(other) ==> u.slots.contains_key(other) && u.slots[other]
                == t.slots[other]
        }),
{
    if t.free.len() > 0 {
        assert(t.free.drop_last() =~= t.free.take(t.free.len() - 1));
    }
}

/// A finger that is lifted gives its slot back; no other finger's slot changes by it, and nothing
/// does where it was not down.
pub proof fn lifted_fingers_give_slots_back(t: SlotTable, id: i32, other: i32)
    ensures
        ({
            let u = t.released(id);
            &&& !u.slots.contains_key(id)
            &&& !t.slots.contains_key(id) ==> u == t
            &&& t.slots.contains_key(id) ==> u.free.len() == t.free.len() + 1 && u.free.last()
                == t.slots[id] && u.free.take(t.free.len() as int) == t.free && u.next == t.next
            &&& other != id ==> u.slots.contains_key(other) == t.slots.contains_key(other)
            &&& other != id && t.slots.contains_key(other) ==> u.slots[other] == t.slots[other]
        }),
{
    if t.slots.contains_key(id) {
        assert(t.released(id).free.take(t.free.len() as int) =~= t.free);
    }
}

proof fn pressing_keeps_slots(t: SlotTable, touches: Seq<(i32, u16, u16)>, id: i32)
    requires
        t.slots.contains_key(id),
    ensures
        all_pressed(t, touches).slots.contains_key(id),
        all_pressed(t, touches).slots[id] == t.slots[id],
    decreases touches.len(),
{
    if touches.len() > 0 {
        pressing_keeps_slots(t, touches.drop_last(), id);
        fingers_get_and_keep_slots(all_pressed(t, touches.drop_last()), touches.last().0, id);
    }
}

/// Each touch is reported once, in order, at its own place and under the slot of its finger.
pub proof fn touches_are_reported_in_order(t: SlotTable, touches: Seq<(i32, u16, u16)>, i: int)
    ensures
        touch_reports(t, touches).len() == touches.len(),
        0 <= i < touches.len() ==> (touch_reports(t, touches)[i] matches ClientMessage::Touchscreen {
            index,
            x,
            y,
        } && x == touches[i].1 && y == touches[i].2 && all_pressed(t, touches).slots.contains_key(
            touches[i].0,
        ) && index == all_pressed(t, touches).slots[touches[i].0]),
    decreases touches.len(),
{
    if touches.len() > 0 {
        let before = touches.drop_last();
        touches_are_reported_in_order(t, before, i);
        let now = all_pressed(t, before);
        fingers_get_and_keep_slots(now, touches.last().0, touches.last().0);
        if 0 <= i < before.len() {
            assert(touch_reports(t, touches)[i] == touch_reports(t, before)[i]);
            assert(before[i] == touches[i]);
            fingers_get_and_keep_slots(now, touches.last().0, touches[i].0);
        }
    }
}

proof fn releasing_keeps_slots(t: SlotTable, ids: Seq<i32>, id: i32)
    requires
        t.slots.contains_key(id),
        !ids.contains(id),
    ensures
        all_released(t, ids).slots.contains_key(id),
        all_released(t, ids).slots[id] == t.slots[id],
    decreases ids.len(),
{
    if ids.len() > 0 {
        let before = ids.drop_last();
        assert(!before.contains(id)) by {
            if before.contains(id) {
                let k = choose|k: int| 0 <= k < before.len() && before[k] == id;
                assert(ids[k] == id);
            }
        }
        assert(ids.contains(ids.last()));
        releasing_keeps_slots(t, before, id);
        lifted_fingers_give_slots_back(all_released(t, before), ids.last(), id);
    }
}

/// Fingers that are down and are lifted are reported one by one, in order, each under the slot
/// that it had.
pub proof fn releases_are_reported_in_order(t: SlotTable, ids: Seq<i32>, i: int)
    requires
        ids.no_duplicates(),
        forall|k: int| 0 <= k < ids.len() ==> #[trigger] t.slots.contains_key(ids[k]),
    ensures
        release_reports(t, ids).len() == ids.len(),
        0 <= i < ids.len() ==> release_reports(t, ids)[i] == (ClientMessage::TouchscreenRelease {
            index: t.slots[ids[i]],
        }),
    decreases ids.len(),
{
    if ids.len() > 0 {
        let before = ids.drop_last();
        assert forall|k: int| 0 <= k < before.len() implies #[trigger] t.slots.contains_key(
            before[k],
        ) by {
            assert(before[k] == ids[k]);
            assert(t.slots.contains_key(ids[k]));
        }
        releases_are_reported_in_order(t, before, i);
        let last = ids.last();
        assert(t.slots.contains_key(ids[ids.len() - 1]));
        assert(!before.contains(last)) by {
            if before.contains(last) {
                let k = choose|k: int| 0 <= k < before.len() && before[k] == last;
                assert(ids[k] == ids[ids.len() - 1]);
            }
        }
        releasing_keeps_slots(t, before, last);
        if 0 <= i < before.len() {
            assert(release_reports(t, ids)[i] == release_reports(t, before)[i]);
            assert(before[i] == ids[i]);
        }
    }
}

/// What is done of a mouse, and when: a lock is asked for where the mouse enters and may be
/// captured, and at once where it is pressed; it is left where the server asked for that and the
/// lock is a second old; and a motion is sent as it is, where it is one, while the lock stays.
pub proof fn mouse_actions_have_reasons(s: MouseCapture, signal: MouseSignal, dx: i16, dy: i16)
    ensures
        mouse_action(s, signal) == MouseAction::RequestLock <==> signal == (MouseSignal::Enter {
            mouse: true,
        }) && s.can_capture && !s.awaiting_exit,
        mouse_action(s, signal) == MouseAction::RequestLockNow <==> signal == (MouseSignal::Down {
            mouse: true,
        }),
        mouse_action(s, signal) == MouseAction::ExitLock <==> s.release_asked && (
        signal matches MouseSignal::Move { locked, since_lock_ms, .. } && locked && since_lock_ms
            >= 1000),
        mouse_action(s, signal) == (MouseAction::SendMove { dx, dy }) <==> (dx != 0 || dy != 0) && (
        signal matches MouseSignal::Move { locked, since_lock_ms, dx: x, dy: y } && locked && x
            == dx && y == dy && !(s.release_asked && since_lock_ms >= 1000)),
{
}

/// What is known of a mouse, and how it changes: a release is asked for by the server, until the
/// next motion under a lock or a press; a capture that was left waits for the mouse to come and
/// go, or for a press.
pub proof fn mouse_states_change_for_reasons(s: MouseCapture, signal: MouseSignal)
    ensures
        ({
            let t = mouse_next(s, signal);
            let pressed = signal == (MouseSignal::Down { mouse: true });
            let exits = mouse_action(s, signal) == MouseAction::ExitLock;
            let gone = signal == (MouseSignal::Leave { mouse: true }) && s.awaiting_exit
                && s.entered_once;
            &&& t.release_asked <==> signal is ServerRelease || (s.release_asked && !pressed && !(
            signal matches MouseSignal::Move { locked, .. } && locked))
            &&& t.awaiting_exit <==> exits || (s.awaiting_exit && !pressed && !gone)
            &&& t.can_capture <==> pressed || gone || (s.can_capture && !exits)
            &&& t.entered_once <==> (signal == (MouseSignal::Enter { mouse: true })
                && s.awaiting_exit) || (s.entered_once && !pressed && !gone)
        }),
{
}

} // verus!
