//! Keys: the Linux key codes, the browser's names for them and the modifiers that are held.
use crate::shared::client_datagram::Modifiers;
use crate::text;
use vstd::prelude::*;

verus! {

// Linux input event key codes (linux/input-event-codes.h).
pub const KEY_ESC: u32 = 1;

pub const KEY_1: u32 = 2;

pub const KEY_2: u32 = 3;

pub const KEY_3: u32 = 4;

pub const KEY_4: u32 = 5;

pub const KEY_5: u32 = 6;

pub const KEY_6: u32 = 7;

pub const KEY_7: u32 = 8;

pub const KEY_8: u32 = 9;

pub const KEY_9: u32 = 10;

pub const KEY_0: u32 = 11;

pub const KEY_MINUS: u32 = 12;

pub const KEY_EQUAL: u32 = 13;

pub const KEY_BACKSPACE: u32 = 14;

pub const KEY_TAB: u32 = 15;

pub const KEY_Q: u32 = 16;

pub const KEY_W: u32 = 17;

pub const KEY_E: u32 = 18;

pub const KEY_R: u32 = 19;

pub const KEY_T: u32 = 20;

pub const KEY_Y: u32 = 21;

pub const KEY_U: u32 = 22;

pub const KEY_I: u32 = 23;

pub const KEY_O: u32 = 24;

pub const KEY_P: u32 = 25;

pub const KEY_LEFTBRACE: u32 = 26;

pub const KEY_RIGHTBRACE: u32 = 27;

pub const KEY_ENTER: u32 = 28;

pub const KEY_LEFTCTRL: u32 = 29;

pub const KEY_A: u32 = 30;

pub const KEY_S: u32 = 31;

pub const KEY_D: u32 = 32;

pub const KEY_F: u32 = 33;

pub const KEY_G: u32 = 34;

pub const KEY_H: u32 = 35;

pub const KEY_J: u32 = 36;

pub const KEY_K: u32 = 37;

pub const KEY_L: u32 = 38;

pub const KEY_SEMICOLON: u32 = 39;

pub const KEY_APOSTROPHE: u32 = 40;

pub const KEY_GRAVE: u32 = 41;

pub const KEY_LEFTSHIFT: u32 = 42;

pub const KEY_BACKSLASH: u32 = 43;

pub const KEY_Z: u32 = 44;

pub const KEY_X: u32 = 45;

pub const KEY_C: u32 = 46;

pub const KEY_V: u32 = 47;

pub const KEY_B: u32 = 48;

pub const KEY_N: u32 = 49;

pub const KEY_M: u32 = 50;

pub const KEY_COMMA: u32 = 51;

pub const KEY_DOT: u32 = 52;

pub const KEY_SLASH: u32 = 53;

pub const KEY_RIGHTSHIFT: u32 = 54;

pub const KEY_LEFTALT: u32 = 56;

pub const KEY_SPACE: u32 = 57;

pub const KEY_CAPSLOCK: u32 = 58;

pub const KEY_F1: u32 = 59;

pub const KEY_F2: u32 = 60;

pub const KEY_F3: u32 = 61;

pub const KEY_F4: u32 = 62;

pub const KEY_F5: u32 = 63;

pub const KEY_F6: u32 = 64;

pub const KEY_F7: u32 = 65;

pub const KEY_F8: u32 = 66;

pub const KEY_F9: u32 = 67;

pub const KEY_F10: u32 = 68;

pub const KEY_NUMLOCK: u32 = 69;

pub const KEY_SCROLLLOCK: u32 = 70;

pub const KEY_F11: u32 = 87;

pub const KEY_F12: u32 = 88;

pub const KEY_RIGHTCTRL: u32 = 97;

pub const KEY_SYSRQ: u32 = 99;

pub const KEY_RIGHTALT: u32 = 100;

pub const KEY_HOME: u32 = 102;

pub const KEY_UP: u32 = 103;

pub const KEY_PAGEUP: u32 = 104;

pub const KEY_LEFT: u32 = 105;

pub const KEY_RIGHT: u32 = 106;

pub const KEY_END: u32 = 107;

pub const KEY_DOWN: u32 = 108;

pub const KEY_PAGEDOWN: u32 = 109;

pub const KEY_INSERT: u32 = 110;

pub const KEY_DELETE: u32 = 111;

pub const KEY_PAUSE: u32 = 119;

pub const KEY_LEFTMETA: u32 = 125;

pub const KEY_RIGHTMETA: u32 = 126;

pub const KEY_KP0: u32 = 82;

pub const KEY_KP1: u32 = 79;

pub const KEY_KP2: u32 = 80;

pub const KEY_KP3: u32 = 81;

pub const KEY_KP4: u32 = 75;

pub const KEY_KP5: u32 = 76;

pub const KEY_KP6: u32 = 77;

pub const KEY_KP7: u32 = 71;

pub const KEY_KP8: u32 = 72;

pub const KEY_KP9: u32 = 73;

pub const KEY_KPPLUS: u32 = 78;

pub const KEY_KPMINUS: u32 = 74;

pub const KEY_KPSLASH: u32 = 98;

pub const KEY_KPASTERISK: u32 = 55;

pub const KEY_KPENTER: u32 = 96;

pub const KEY_KPDOT: u32 = 83;

/// A key goes down (`press`) or up.
#[derive(Debug, Clone, Copy, PartialEq, Eq, Structural)]
pub struct EisKeyboardEvent {
    pub key: u32,
    pub press: bool,
}

// ----- modifiers

/// The (left) modifier keys of a set of modifiers, in the order control, shift, alt, meta.
pub open spec fn modifier_keys(mods: Modifiers) -> Seq<u32> {
    (if mods.ctrl() { seq![KEY_LEFTCTRL] } else { Seq::<u32>::empty() })
        + (if mods.shift() { seq![KEY_LEFTSHIFT] } else { Seq::<u32>::empty() })
        + (if mods.alt() { seq![KEY_LEFTALT] } else { Seq::<u32>::empty() })
        + (if mods.meta() { seq![KEY_LEFTMETA] } else { Seq::<u32>::empty() })
}

/// The modifiers of `a` that are not among those of `b`.
pub open spec fn minus(a: Modifiers, b: Modifiers) -> Modifiers {
    Modifiers {
        bits: ((if a.shift() && !b.shift() { 1int } else { 0 }) + (if a.ctrl() && !b.ctrl() {
            2int
        } else {
            0
        }) + (if a.alt() && !b.alt() { 4int } else { 0 }) + (if a.meta() && !b.meta() {
            8int
        } else {
            0
        })) as u8,
    }
}

pub open spec fn key_events(keys: Seq<u32>, press: bool) -> Seq<EisKeyboardEvent> {
    keys.map_values(|key: u32| EisKeyboardEvent { key, press })
}

/// The modifiers go up, the last of their order first.
pub open spec fn releases(mods: Modifiers) -> Seq<EisKeyboardEvent> {
    key_events(modifier_keys(mods).reverse(), false)
}

/// The modifiers go down, in their order.
pub open spec fn presses(mods: Modifiers) -> Seq<EisKeyboardEvent> {
    key_events(modifier_keys(mods), true)
}

/// The events that lead from the modifiers `from` to the modifiers `to`.
pub open spec fn transition(from: Modifiers, to: Modifiers) -> Seq<EisKeyboardEvent> {
    releases(minus(from, to)) + presses(minus(to, from))
}

/// The (left) modifier keys of a set of modifiers, in the order control, shift, alt, meta.
pub fn modifier_keycodes(mods: Modifiers) -> (r: Vec<u32>)
    ensures
        r@ == modifier_keys(mods),
{
    let (shift, ctrl, alt, meta) = mods.keys();
    let mut v: Vec<u32> = Vec::new();
    if ctrl {
        v.push(KEY_LEFTCTRL);
    }
    if shift {
        v.push(KEY_LEFTSHIFT);
    }
    if alt {
        v.push(KEY_LEFTALT);
    }
    if meta {
        v.push(KEY_LEFTMETA);
    }
    assert(v@ =~= modifier_keys(mods));
    v
}

fn difference(a: Modifiers, b: Modifiers) -> (r: Modifiers)
    ensures
        r == minus(a, b),
        r.valid(),
{
    let (s, c, l, m) = a.keys();
    let (s2, c2, l2, m2) = b.keys();
    Modifiers::from_keys(s && !s2, c && !c2, l && !l2, m && !m2)
}

/// Appends one event for each key, from the last to the first where `backwards`.
fn push_events(
    events: &mut Vec<EisKeyboardEvent>,
    keys: &Vec<u32>,
    press: bool,
    backwards: bool,
)
    ensures
        final(events)@ == old(events)@ + key_events(
            if backwards {
                keys@.reverse()
            } else {
                keys@
            },
            press,
        ),
{
    let ghost row = if backwards { keys@.reverse() } else { keys@ };
    let n = keys.len();
    let mut i: usize = 0;
    while i < n
        invariant
            i <= n,
            n == keys.len(),
            row == (if backwards { keys@.reverse() } else { keys@ }),
            events@ == old(events)@ + key_events(row.take(i as int), press),
        decreases n - i,
    {
        let key = if backwards { keys[n - 1 - i] } else { keys[i] };
        events.push(EisKeyboardEvent { key, press });
        assert(row.take(i + 1) =~= row.take(i as int).push(key));
        assert(key_events(row.take(i + 1), press) =~= key_events(row.take(i as int), press).push(
            EisKeyboardEvent { key, press },
        ));
        i += 1;
    }
    assert(row.take(n as int) =~= row);
}

/// The modifiers that are held down on the desktop.
pub struct ModifierState {
    current: Modifiers,
}

impl View for ModifierState {
    type V = Modifiers;

    closed spec fn view(&self) -> Modifiers {
        self.current
    }
}

impl ModifierState {
    /// No modifier is held.
    pub fn new() -> (s: ModifierState)
        ensures
            s@.bits == 0,
    {
        ModifierState { current: Modifiers::empty() }
    }

    /// Goes over to `new_mods` and returns the events that are to be sent before the
    /// event of the key itself: those of modifiers that changed, and no others.
    pub fn sync(&mut self, new_mods: Modifiers) -> (events: Vec<EisKeyboardEvent>)
        ensures
            final(self)@ == new_mods,
            events@ == transition(old(self)@, new_mods),
    {
        let added = difference(new_mods, self.current);
        let removed = difference(self.current, new_mods);
        self.current = new_mods;
        let mut events: Vec<EisKeyboardEvent> = Vec::new();
        push_events(&mut events, &modifier_keycodes(removed), false, true);
        push_events(&mut events, &modifier_keycodes(added), true, false);
        assert(events@ =~= transition(old(self)@, new_mods));
        events
    }

    /// Lets go of every modifier that is held.
    pub fn release_all(&mut self) -> (events: Vec<EisKeyboardEvent>)
        ensures
            final(self)@.bits == 0,
            events@ == releases(old(self)@),
    {
        let held = self.current;
        self.current = Modifiers::empty();
        let mut events: Vec<EisKeyboardEvent> = Vec::new();
        push_events(&mut events, &modifier_keycodes(held), false, true);
        assert(events@ =~= releases(old(self)@));
        events
    }
}

// ----- keys

/// The Linux key of a browser key name. Modifiers have none: their state is kept apart.
pub open spec fn eis_key(code: Seq<char>) -> Option<u32> {
    if code == "KeyA"@ {
        Some(KEY_A)
    } else if code == "KeyB"@ {
        Some(KEY_B)
    } else if code == "KeyC"@ {
        Some(KEY_C)
    } else if code == "KeyD"@ {
        Some(KEY_D)
    } else if code == "KeyE"@ {
        Some(KEY_E)
    } else if code == "KeyF"@ {
        Some(KEY_F)
    } else if code == "KeyG"@ {
        Some(KEY_G)
    } else if code == "KeyH"@ {
        Some(KEY_H)
    } else if code == "KeyI"@ {
        Some(KEY_I)
    } else if code == "KeyJ"@ {
        Some(KEY_J)
    } else if code == "KeyK"@ {
        Some(KEY_K)
    } else if code == "KeyL"@ {
        Some(KEY_L)
    } else if code == "KeyM"@ {
        Some(KEY_M)
    } else if code == "KeyN"@ {
        Some(KEY_N)
    } else if code == "KeyO"@ {
        Some(KEY_O)
    } else if code == "KeyP"@ {
        Some(KEY_P)
    } else if code == "KeyQ"@ {
        Some(KEY_Q)
    } else if code == "KeyR"@ {
        Some(KEY_R)
    } else if code == "KeyS"@ {
        Some(KEY_S)
    } else if code == "KeyT"@ {
        Some(KEY_T)
    } else if code == "KeyU"@ {
        Some(KEY_U)
    } else if code == "KeyV"@ {
        Some(KEY_V)
    } else if code == "KeyW"@ {
        Some(KEY_W)
    } else if code == "KeyX"@ {
        Some(KEY_X)
    } else if code == "KeyY"@ {
        Some(KEY_Y)
    } else if code == "KeyZ"@ {
        Some(KEY_Z)
    } else if code == "Digit0"@ {
        Some(KEY_0)
    } else if code == "Digit1"@ {
        Some(KEY_1)
    } else if code == "Digit2"@ {
        Some(KEY_2)
    } else if code == "Digit3"@ {
        Some(KEY_3)
    } else if code == "Digit4"@ {
        Some(KEY_4)
    } else if code == "Digit5"@ {
        Some(KEY_5)
    } else if code == "Digit6"@ {
        Some(KEY_6)
    } else if code == "Digit7"@ {
        Some(KEY_7)
    } else if code == "Digit8"@ {
        Some(KEY_8)
    } else if code == "Digit9"@ {
        Some(KEY_9)
    } else if code == "Enter"@ {
        Some(KEY_ENTER)
    } else if code == "Escape"@ {
        Some(KEY_ESC)
    } else if code == "Backspace"@ {
        Some(KEY_BACKSPACE)
    } else if code == "Tab"@ {
        Some(KEY_TAB)
    } else if code == "Space"@ {
        Some(KEY_SPACE)
    } else if code == "Delete"@ {
        Some(KEY_DELETE)
    } else if code == "Insert"@ {
        Some(KEY_INSERT)
    } else if code == "Home"@ {
        Some(KEY_HOME)
    } else if code == "End"@ {
        Some(KEY_END)
    } else if code == "PageUp"@ {
        Some(KEY_PAGEUP)
    } else if code == "PageDown"@ {
        Some(KEY_PAGEDOWN)
    } else if code == "ArrowLeft"@ {
        Some(KEY_LEFT)
    } else if code == "ArrowUp"@ {
        Some(KEY_UP)
    } else if code == "ArrowRight"@ {
        Some(KEY_RIGHT)
    } else if code == "ArrowDown"@ {
        Some(KEY_DOWN)
    } else if code == "F1"@ {
        Some(KEY_F1)
    } else if code == "F2"@ {
        Some(KEY_F2)
    } else if code == "F3"@ {
        Some(KEY_F3)
    } else if code == "F4"@ {
        Some(KEY_F4)
    } else if code == "F5"@ {
        Some(KEY_F5)
    } else if code == "F6"@ {
        Some(KEY_F6)
    } else if code == "F7"@ {
        Some(KEY_F7)
    } else if code == "F8"@ {
        Some(KEY_F8)
    } else if code == "F9"@ {
        Some(KEY_F9)
    } else if code == "F10"@ {
        Some(KEY_F10)
    } else if code == "F11"@ {
        Some(KEY_F11)
    } else if code == "F12"@ {
        Some(KEY_F12)
    } else if code == "Semicolon"@ {
        Some(KEY_SEMICOLON)
    } else if code == "Equal"@ {
        Some(KEY_EQUAL)
    } else if code == "Comma"@ {
        Some(KEY_COMMA)
    } else if code == "Minus"@ {
        Some(KEY_MINUS)
    } else if code == "Period"@ {
        Some(KEY_DOT)
    } else if code == "Slash"@ {
        Some(KEY_SLASH)
    } else if code == "Backquote"@ {
        Some(KEY_GRAVE)
    } else if code == "BracketLeft"@ {
        Some(KEY_LEFTBRACE)
    } else if code == "Backslash"@ {
        Some(KEY_BACKSLASH)
    } else if code == "BracketRight"@ {
        Some(KEY_RIGHTBRACE)
    } else if code == "Quote"@ {
        Some(KEY_APOSTROPHE)
    } else if code == "CapsLock"@ {
        Some(KEY_CAPSLOCK)
    } else if code == "NumLock"@ {
        Some(KEY_NUMLOCK)
    } else if code == "ScrollLock"@ {
        Some(KEY_SCROLLLOCK)
    } else if code == "PrintScreen"@ {
        Some(KEY_SYSRQ)
    } else if code == "Pause"@ {
        Some(KEY_PAUSE)
    } else if code == "Numpad0"@ {
        Some(KEY_KP0)
    } else if code == "Numpad1"@ {
        Some(KEY_KP1)
    } else if code == "Numpad2"@ {
        Some(KEY_KP2)
    } else if code == "Numpad3"@ {
        Some(KEY_KP3)
    } else if code == "Numpad4"@ {
        Some(KEY_KP4)
    } else if code == "Numpad5"@ {
        Some(KEY_KP5)
    } else if code == "Numpad6"@ {
        Some(KEY_KP6)
    } else if code == "Numpad7"@ {
        Some(KEY_KP7)
    } else if code == "Numpad8"@ {
        Some(KEY_KP8)
    } else if code == "Numpad9"@ {
        Some(KEY_KP9)
    } else if code == "NumpadAdd"@ {
        Some(KEY_KPPLUS)
    } else if code == "NumpadSubtract"@ {
        Some(KEY_KPMINUS)
    } else if code == "NumpadDivide"@ {
        Some(KEY_KPSLASH)
    } else if code == "NumpadMultiply"@ {
        Some(KEY_KPASTERISK)
    } else if code == "NumpadEnter"@ {
        Some(KEY_KPENTER)
    } else if code == "NumpadDecimal"@ {
        Some(KEY_KPDOT)
    } else {
        None
    }
}

/// Whether a browser key name is that of a modifier.
pub open spec fn names_modifier(code: Seq<char>) -> bool {
    ||| code == "ShiftLeft"@
    ||| code == "ShiftRight"@
    ||| code == "ControlLeft"@
    ||| code == "ControlRight"@
    ||| code == "AltLeft"@
    ||| code == "AltRight"@
    ||| code == "MetaLeft"@
    ||| code == "MetaRight"@
}

/// The Linux key of a browser key name, where it has one and is no modifier.
pub fn js_keycode_to_eis_key(code: &str) -> (r: Option<u32>)
    ensures
        r == eis_key(code@),
{
    if text::str_eq(code, "KeyA") {
        Some(KEY_A)
    } else if text::str_eq(code, "KeyB") {
        Some(KEY_B)
    } else if text::str_eq(code, "KeyC") {
        Some(KEY_C)
    } else if text::str_eq(code, "KeyD") {
        Some(KEY_D)
    } else if text::str_eq(code, "KeyE") {
        Some(KEY_E)
    } else if text::str_eq(code, "KeyF") {
        Some(KEY_F)
    } else if text::str_eq(code, "KeyG") {
        Some(KEY_G)
    } else if text::str_eq(code, "KeyH") {
        Some(KEY_H)
    } else if text::str_eq(code, "KeyI") {
        Some(KEY_I)
    } else if text::str_eq(code, "KeyJ") {
        Some(KEY_J)
    } else if text::str_eq(code, "KeyK") {
        Some(KEY_K)
    } else if text::str_eq(code, "KeyL") {
        Some(KEY_L)
    } else if text::str_eq(code, "KeyM") {
        Some(KEY_M)
    } else if text::str_eq(code, "KeyN") {
        Some(KEY_N)
    } else if text::str_eq(code, "KeyO") {
        Some(KEY_O)
    } else if text::str_eq(code, "KeyP") {
        Some(KEY_P)
    } else if text::str_eq(code, "KeyQ") {
        Some(KEY_Q)
    } else if text::str_eq(code, "KeyR") {
        Some(KEY_R)
    } else if text::str_eq(code, "KeyS") {
        Some(KEY_S)
    } else if text::str_eq(code, "KeyT") {
        Some(KEY_T)
    } else if text::str_eq(code, "KeyU") {
        Some(KEY_U)
    } else if text::str_eq(code, "KeyV") {
        Some(KEY_V)
    } else if text::str_eq(code, "KeyW") {
        Some(KEY_W)
    } else if text::str_eq(code, "KeyX") {
        Some(KEY_X)
    } else if text::str_eq(code, "KeyY") {
        Some(KEY_Y)
    } else if text::str_eq(code, "KeyZ") {
        Some(KEY_Z)
    } else if text::str_eq(code, "Digit0") {
        Some(KEY_0)
    } else if text::str_eq(code, "Digit1") {
        Some(KEY_1)
    } else if text::str_eq(code, "Digit2") {
        Some(KEY_2)
    } else if text::str_eq(code, "Digit3") {
        Some(KEY_3)
    } else if text::str_eq(code, "Digit4") {
        Some(KEY_4)
    } else if text::str_eq(code, "Digit5") {
        Some(KEY_5)
    } else if text::str_eq(code, "Digit6") {
        Some(KEY_6)
    } else if text::str_eq(code, "Digit7") {
        Some(KEY_7)
    } else if text::str_eq(code, "Digit8") {
        Some(KEY_8)
    } else if text::str_eq(code, "Digit9") {
        Some(KEY_9)
    } else if text::str_eq(code, "Enter") {
        Some(KEY_ENTER)
    } else if text::str_eq(code, "Escape") {
        Some(KEY_ESC)
    } else if text::str_eq(code, "Backspace") {
        Some(KEY_BACKSPACE)
    } else if text::str_eq(code, "Tab") {
        Some(KEY_TAB)
    } else if text::str_eq(code, "Space") {
        Some(KEY_SPACE)
    } else if text::str_eq(code, "Delete") {
        Some(KEY_DELETE)
    } else if text::str_eq(code, "Insert") {
        Some(KEY_INSERT)
    } else if text::str_eq(code, "Home") {
        Some(KEY_HOME)
    } else if text::str_eq(code, "End") {
        Some(KEY_END)
    } else if text::str_eq(code, "PageUp") {
        Some(KEY_PAGEUP)
    } else if text::str_eq(code, "PageDown") {
        Some(KEY_PAGEDOWN)
    } else if text::str_eq(code, "ArrowLeft") {
        Some(KEY_LEFT)
    } else if text::str_eq(code, "ArrowUp") {
        Some(KEY_UP)
    } else if text::str_eq(code, "ArrowRight") {
        Some(KEY_RIGHT)
    } else if text::str_eq(code, "ArrowDown") {
        Some(KEY_DOWN)
    } else if text::str_eq(code, "F1") {
        Some(KEY_F1)
    } else if text::str_eq(code, "F2") {
        Some(KEY_F2)
    } else if text::str_eq(code, "F3") {
        Some(KEY_F3)
    } else if text::str_eq(code, "F4") {
        Some(KEY_F4)
    } else if text::str_eq(code, "F5") {
        Some(KEY_F5)
    } else if text::str_eq(code, "F6") {
        Some(KEY_F6)
    } else if text::str_eq(code, "F7") {
        Some(KEY_F7)
    } else if text::str_eq(code, "F8") {
        Some(KEY_F8)
    } else if text::str_eq(code, "F9") {
        Some(KEY_F9)
    } else if text::str_eq(code, "F10") {
        Some(KEY_F10)
    } else if text::str_eq(code, "F11") {
        Some(KEY_F11)
    } else if text::str_eq(code, "F12") {
        Some(KEY_F12)
    } else if text::str_eq(code, "Semicolon") {
        Some(KEY_SEMICOLON)
    } else if text::str_eq(code, "Equal") {
        Some(KEY_EQUAL)
    } else if text::str_eq(code, "Comma") {
        Some(KEY_COMMA)
    } else if text::str_eq(code, "Minus") {
        Some(KEY_MINUS)
    } else if text::str_eq(code, "Period") {
        Some(KEY_DOT)
    } else if text::str_eq(code, "Slash") {
        Some(KEY_SLASH)
    } else if text::str_eq(code, "Backquote") {
        Some(KEY_GRAVE)
    } else if text::str_eq(code, "BracketLeft") {
        Some(KEY_LEFTBRACE)
    } else if text::str_eq(code, "Backslash") {
        Some(KEY_BACKSLASH)
    } else if text::str_eq(code, "BracketRight") {
        Some(KEY_RIGHTBRACE)
    } else if text::str_eq(code, "Quote") {
        Some(KEY_APOSTROPHE)
    } else if text::str_eq(code, "CapsLock") {
        Some(KEY_CAPSLOCK)
    } else if text::str_eq(code, "NumLock") {
        Some(KEY_NUMLOCK)
    } else if text::str_eq(code, "ScrollLock") {
        Some(KEY_SCROLLLOCK)
    } else if text::str_eq(code, "PrintScreen") {
        Some(KEY_SYSRQ)
    } else if text::str_eq(code, "Pause") {
        Some(KEY_PAUSE)
    } else if text::str_eq(code, "Numpad0") {
        Some(KEY_KP0)
    } else if text::str_eq(code, "Numpad1") {
        Some(KEY_KP1)
    } else if text::str_eq(code, "Numpad2") {
        Some(KEY_KP2)
    } else if text::str_eq(code, "Numpad3") {
        Some(KEY_KP3)
    } else if text::str_eq(code, "Numpad4") {
        Some(KEY_KP4)
    } else if text::str_eq(code, "Numpad5") {
        Some(KEY_KP5)
    } else if text::str_eq(code, "Numpad6") {
        Some(KEY_KP6)
    } else if text::str_eq(code, "Numpad7") {
        Some(KEY_KP7)
    } else if text::str_eq(code, "Numpad8") {
        Some(KEY_KP8)
    } else if text::str_eq(code, "Numpad9") {
        Some(KEY_KP9)
    } else if text::str_eq(code, "NumpadAdd") {
        Some(KEY_KPPLUS)
    } else if text::str_eq(code, "NumpadSubtract") {
        Some(KEY_KPMINUS)
    } else if text::str_eq(code, "NumpadDivide") {
        Some(KEY_KPSLASH)
    } else if text::str_eq(code, "NumpadMultiply") {
        Some(KEY_KPASTERISK)
    } else if text::str_eq(code, "NumpadEnter") {
        Some(KEY_KPENTER)
    } else if text::str_eq(code, "NumpadDecimal") {
        Some(KEY_KPDOT)
    } else {
        None
    }
}

/// Whether a browser key name is that of a modifier, which is not sent as a key of its own.
pub fn is_modifier_code(code: &str) -> (r: bool)
    ensures
        r == names_modifier(code@),
{
    text::str_eq(code, "ShiftLeft") || text::str_eq(code, "ShiftRight") || text::str_eq(
        code,
        "ControlLeft",
    ) || text::str_eq(code, "ControlRight") || text::str_eq(code, "AltLeft") || text::str_eq(
        code,
        "AltRight",
    ) || text::str_eq(code, "MetaLeft") || text::str_eq(code, "MetaRight")
}

/// The events of the key itself: down and up, unless it is a modifier or unknown.
pub open spec fn tap(code: Seq<char>) -> Seq<EisKeyboardEvent> {
    if names_modifier(code) {
        Seq::empty()
    } else {
        match eis_key(code) {
            Some(key) => seq![
                EisKeyboardEvent { key, press: true },
                EisKeyboardEvent { key, press: false },
            ],
            None => Seq::empty(),
        }
    }
}

/// Turns keys from the browser into key events.
pub struct KeyboardState {
    mod_state: ModifierState,
}

impl View for KeyboardState {
    type V = Modifiers;

    closed spec fn view(&self) -> Modifiers {
        self.mod_state@
    }
}

impl KeyboardState {
    /// No modifier is held.
    pub fn new() -> (s: KeyboardState)
        ensures
            s@.bits == 0,
    {
        KeyboardState { mod_state: ModifierState::new() }
    }

    /// The events for a key from the browser: first the modifiers, then the key.
    pub fn handle_event(&mut self, keycode: &str, modifiers: Modifiers) -> (events: Vec<
        EisKeyboardEvent,
    >)
        ensures
            final(self)@ == modifiers,
            events@ == transition(old(self)@, modifiers) + tap(keycode@),
    {
        let mut events = self.mod_state.sync(modifiers);
        if is_modifier_code(keycode) {
        } else if let Some(key) = js_keycode_to_eis_key(keycode) {
            events.push(EisKeyboardEvent { key, press: true });
            events.push(EisKeyboardEvent { key, press: false });
        }
        assert(events@ =~= transition(old(self)@, modifiers) + tap(keycode@));
        events
    }

    /// Lets go of every modifier that is held.
    pub fn release_all_modifiers(&mut self) -> (events: Vec<EisKeyboardEvent>)
        ensures
            final(self)@.bits == 0,
            events@ == releases(old(self)@),
    {
        self.mod_state.release_all()
    }
}

// ----- laws

/// The keys that are down after some events. An event that changes nothing (a key that
/// goes down while it is down, or up while it is up) leaves no answer.
pub open spec fn replay(down: Set<u32>, events: Seq<EisKeyboardEvent>) -> Option<Set<u32>>
    decreases events.len(),
{
    if events.len() == 0 {
        Some(down)
    } else {
        match replay(down, events.drop_last()) {
            None => None,
            Some(now) => {
                let e = events.last();
                if now.contains(e.key) == e.press {
                    None
                } else if e.press {
                    Some(now.insert(e.key))
                } else {
                    Some(now.remove(e.key))
                }
            },
        }
    }
}

/// The modifier keys of a set of modifiers, as a set.
pub open spec fn held_keys(mods: Modifiers) -> Set<u32> {
    modifier_keys(mods).to_set()
}

proof fn replay_in_two(down: Set<u32>, a: Seq<EisKeyboardEvent>, b: Seq<EisKeyboardEvent>)
    requires
        replay(down, a) is Some,
    ensures
        replay(down, a + b) == replay(replay(down, a)->0, b),
    decreases b.len(),
{
    if b.len() == 0 {
        assert(a + b =~= a);
    } else {
        replay_in_two(down, a, b.drop_last());
        assert((a + b).drop_last() =~= a + b.drop_last());
    }
}

proof fn held_keys_are(mods: Modifiers, key: u32)
    ensures
        held_keys(mods).contains(key) <==> {
            ||| key == KEY_LEFTCTRL && mods.ctrl()
            ||| key == KEY_LEFTSHIFT && mods.shift()
            ||| key == KEY_LEFTALT && mods.alt()
            ||| key == KEY_LEFTMETA && mods.meta()
        },
{
    let keys = modifier_keys(mods);
    let c = if mods.ctrl() { 1int } else { 0 };
    let s = if mods.shift() { 1int } else { 0 };
    let a = if mods.alt() { 1int } else { 0 };
    if mods.ctrl() {
        assert(keys[0] == KEY_LEFTCTRL);
    }
    if mods.shift() {
        assert(keys[c] == KEY_LEFTSHIFT);
    }
    if mods.alt() {
        assert(keys[c + s] == KEY_LEFTALT);
    }
    if mods.meta() {
        assert(keys[c + s + a] == KEY_LEFTMETA);
    }
}

proof fn one_event(down: Set<u32>, e: EisKeyboardEvent)
    requires
        down.contains(e.key) != e.press,
    ensures
        replay(down, seq![e]) == Some(
            if e.press {
                down.insert(e.key)
            } else {
                down.remove(e.key)
            },
        ),
{
    reveal_with_fuel(replay, 2);
    assert(seq![e].drop_last() =~= Seq::<EisKeyboardEvent>::empty());
}

/// Replays the events of the keys one after the other.
proof fn replay_keys(down: Set<u32>, keys: Seq<u32>, press: bool)
    requires
        keys.no_duplicates(),
        forall|key: u32| #[trigger] keys.contains(key) ==> down.contains(key) != press,
    ensures
        replay(down, key_events(keys, press)) is Some,
        forall|key: u32| #[trigger]
            replay(down, key_events(keys, press))->0.contains(key) == if keys.contains(key) {
                press
            } else {
                down.contains(key)
            },
    decreases keys.len(),
{
    if keys.len() > 0 {
        let before = keys.drop_last();
        assert(forall|key: u32| #[trigger]
            keys.contains(key) <==> before.contains(key) || key == keys.last()) by {
            assert forall|key: u32| #[trigger]
                keys.contains(key) implies before.contains(key) || key == keys.last() by {
                let i = choose|i: int| 0 <= i < keys.len() && keys[i] == key;
                if i < before.len() {
                    assert(before[i] == key);
                }
            }
            assert forall|key: u32|
                before.contains(key) || key == keys.last() implies #[trigger] keys.contains(key) by {
                if before.contains(key) {
                    let i = choose|i: int| 0 <= i < before.len() && before[i] == key;
                    assert(keys[i] == key);
                } else {
                    assert(keys[keys.len() - 1] == key);
                }
            }
        }
        assert(!before.contains(keys.last())) by {
            if before.contains(keys.last()) {
                let i = choose|i: int| 0 <= i < before.len() && before[i] == keys.last();
                assert(keys[i] == keys[keys.len() - 1]);
            }
        }
        assert forall|key: u32| #[trigger] before.contains(key) implies down.contains(key)
            != press by {
            assert(keys.contains(key));
        }
        replay_keys(down, before, press);
        assert(key_events(keys, press).drop_last() =~= key_events(before, press));
        assert(key_events(keys, press).last() == EisKeyboardEvent { key: keys.last(), press });
        assert(keys.contains(keys.last()));
    } else {
        assert(key_events(keys, press) =~= Seq::<EisKeyboardEvent>::empty());
    }
}

proof fn modifier_keys_are_distinct(mods: Modifiers)
    ensures
        modifier_keys(mods).no_duplicates(),
        modifier_keys(mods).reverse().no_duplicates(),
        forall|key: u32| #[trigger]
            modifier_keys(mods).reverse().contains(key) <==> held_keys(mods).contains(key),
        forall|key: u32| #[trigger]
            modifier_keys(mods).contains(key) <==> held_keys(mods).contains(key),
{
    let keys = modifier_keys(mods);
    let back = keys.reverse();
    assert forall|key: u32| #[trigger] back.contains(key) implies held_keys(mods).contains(key) by {
        let i = choose|i: int| 0 <= i < back.len() && back[i] == key;
        assert(keys[keys.len() - 1 - i] == key);
    }
    assert forall|key: u32| held_keys(mods).contains(key) implies #[trigger] back.contains(key) by {
        let i = choose|i: int| 0 <= i < keys.len() && keys[i] == key;
        assert(back[keys.len() - 1 - i] == key);
    }
}

/// Some keys that are down go up, then some that are up go down.
proof fn replay_two_rows(down: Set<u32>, gone: Seq<u32>, new: Seq<u32>, goal: Set<u32>)
    requires
        gone.no_duplicates(),
        new.no_duplicates(),
        forall|key: u32| #[trigger] gone.contains(key) ==> down.contains(key),
        forall|key: u32| #[trigger] new.contains(key) ==> !down.contains(key),
        forall|key: u32| #[trigger]
            goal.contains(key) <==> (down.contains(key) && !gone.contains(key)) || new.contains(
                key,
            ),
    ensures
        replay(down, key_events(gone, false) + key_events(new, true)) == Some(goal),
{
    replay_keys(down, gone, false);
    let mid = replay(down, key_events(gone, false))->0;
    assert forall|key: u32| #[trigger] new.contains(key) implies !mid.contains(key) by {
        assert(mid.contains(key) == if gone.contains(key) {
            false
        } else {
            down.contains(key)
        });
    }
    replay_keys(mid, new, true);
    replay_in_two(down, key_events(gone, false), key_events(new, true));
    let end = replay(mid, key_events(new, true))->0;
    assert forall|key: u32| #[trigger] end.contains(key) == goal.contains(key) by {
        assert(mid.contains(key) == if gone.contains(key) {
            false
        } else {
            down.contains(key)
        });
    }
    assert(end =~= goal);
}

proof fn held_keys_of_difference(a: Modifiers, b: Modifiers, key: u32)
    ensures
        held_keys(minus(a, b)).contains(key) <==> held_keys(a).contains(key) && !held_keys(
            b,
        ).contains(key),
{
    held_keys_are(a, key);
    held_keys_are(b, key);
    held_keys_are(minus(a, b), key);
    let d = minus(a, b);
    assert(d.shift() == (a.shift() && !b.shift()));
    assert(d.ctrl() == (a.ctrl() && !b.ctrl()));
    assert(d.alt() == (a.alt() && !b.alt()));
    assert(d.meta() == (a.meta() && !b.meta()));
}

/// The events between two sets of modifiers lead from the one to the other, and none of
/// them is idle: a key goes down only when it is up and up only when it is down.
pub proof fn transition_is_exact(from: Modifiers, to: Modifiers)
    ensures
        replay(held_keys(from), transition(from, to)) == Some(held_keys(to)),
{
    let gone = modifier_keys(minus(from, to)).reverse();
    let new = modifier_keys(minus(to, from));
    modifier_keys_are_distinct(minus(from, to));
    modifier_keys_are_distinct(minus(to, from));
    assert forall|key: u32| #[trigger] gone.contains(key) implies held_keys(from).contains(key) by {
        held_keys_of_difference(from, to, key);
    }
    assert forall|key: u32| #[trigger] new.contains(key) implies !held_keys(from).contains(key) by {
        held_keys_of_difference(to, from, key);
    }
    assert forall|key: u32| #[trigger]
        held_keys(to).contains(key) <==> (held_keys(from).contains(key) && !gone.contains(key))
            || new.contains(key) by {
        held_keys_of_difference(from, to, key);
        held_keys_of_difference(to, from, key);
    }
    replay_two_rows(held_keys(from), gone, new, held_keys(to));
}

/// Letting go of all modifiers leaves none down, and lets go of none that was up.
pub proof fn release_all_leaves_nothing_down(mods: Modifiers)
    ensures
        replay(held_keys(mods), releases(mods)) == Some(Set::<u32>::empty()),
{
    modifier_keys_are_distinct(mods);
    replay_keys(held_keys(mods), modifier_keys(mods).reverse(), false);
    let end = replay(held_keys(mods), releases(mods))->0;
    assert forall|key: u32| !(#[trigger] end.contains(key)) by {
        assert(modifier_keys(mods).reverse().contains(key) <==> held_keys(mods).contains(key));
    }
    assert(end =~= Set::<u32>::empty());
}

/// No key of the table is a modifier key.
pub proof fn mapped_keys_are_no_modifiers(code: Seq<char>)
    ensures
        eis_key(code) matches Some(key) ==> ![
            KEY_LEFTCTRL,
            KEY_LEFTSHIFT,
            KEY_LEFTALT,
            KEY_LEFTMETA,
            KEY_RIGHTCTRL,
            KEY_RIGHTSHIFT,
            KEY_RIGHTALT,
            KEY_RIGHTMETA,
        ]@.contains(key),
{
}

/// Different names in the table have different keys.
pub proof fn mapped_keys_are_distinct(a: Seq<char>, b: Seq<char>)
    requires
        eis_key(a) is Some,
        eis_key(a) == eis_key(b),
    ensures
        a == b,
{
}

/// A number by which the names of keys are told apart.
#[verifier::opaque]
spec fn fingerprint(name: Seq<char>) -> int {
    let n = name.len() as int;
    n + name[1] as int + 3 * (name[n / 2] as int) + 131 * (name[n - 1] as int)
}

proof fn fingerprints_of_letter_keys()
    ensures
        fingerprint("KeyA"@) == 8983,
        fingerprint("KeyB"@) == 9114,
        fingerprint("KeyC"@) == 9245,
        fingerprint("KeyD"@) == 9376,
        fingerprint("KeyE"@) == 9507,
        fingerprint("KeyF"@) == 9638,
        fingerprint("KeyG"@) == 9769,
        fingerprint("KeyH"@) == 9900,
        fingerprint("KeyI"@) == 10031,
        fingerprint("KeyJ"@) == 10162,
        fingerprint("KeyK"@) == 10293,
        fingerprint("KeyL"@) == 10424,
        fingerprint("KeyM"@) == 10555,
        fingerprint("KeyN"@) == 10686,
        fingerprint("KeyO"@) == 10817,
        fingerprint("KeyP"@) == 10948,
        fingerprint("KeyQ"@) == 11079,
        fingerprint("KeyR"@) == 11210,
        fingerprint("KeyS"@) == 11341,
        fingerprint("KeyT"@) == 11472,
        fingerprint("KeyU"@) == 11603,
        fingerprint("KeyV"@) == 11734,
        fingerprint("KeyW"@) == 11865,
        fingerprint("KeyX"@) == 11996,
        fingerprint("KeyY"@) == 12127,
        fingerprint("KeyZ"@) == 12258,
{
    reveal(fingerprint);
    reveal_strlit("KeyA");
    assert("KeyA"@.len() == 4 && "KeyA"@[1] == 'e' && "KeyA"@[2] == 'y' && "KeyA"@[3] == 'A');
    reveal_strlit("KeyB");
    assert("KeyB"@.len() == 4 && "KeyB"@[1] == 'e' && "KeyB"@[2] == 'y' && "KeyB"@[3] == 'B');
    reveal_strlit("KeyC");
    assert("KeyC"@.len() == 4 && "KeyC"@[1] == 'e' && "KeyC"@[2] == 'y' && "KeyC"@[3] == 'C');
    reveal_strlit("KeyD");
    assert("KeyD"@.len() == 4 && "KeyD"@[1] == 'e' && "KeyD"@[2] == 'y' && "KeyD"@[3] == 'D');
    reveal_strlit("KeyE");
    assert("KeyE"@.len() == 4 && "KeyE"@[1] == 'e' && "KeyE"@[2] == 'y' && "KeyE"@[3] == 'E');
    reveal_strlit("KeyF");
    assert("KeyF"@.len() == 4 && "KeyF"@[1] == 'e' && "KeyF"@[2] == 'y' && "KeyF"@[3] == 'F');
    reveal_strlit("KeyG");
    assert("KeyG"@.len() == 4 && "KeyG"@[1] == 'e' && "KeyG"@[2] == 'y' && "KeyG"@[3] == 'G');
    reveal_strlit("KeyH");
    assert("KeyH"@.len() == 4 && "KeyH"@[1] == 'e' && "KeyH"@[2] == 'y' && "KeyH"@[3] == 'H');
    reveal_strlit("KeyI");
    assert("KeyI"@.len() == 4 && "KeyI"@[1] == 'e' && "KeyI"@[2] == 'y' && "KeyI"@[3] == 'I');
    reveal_strlit("KeyJ");
    assert("KeyJ"@.len() == 4 && "KeyJ"@[1] == 'e' && "KeyJ"@[2] == 'y' && "KeyJ"@[3] == 'J');
    reveal_strlit("KeyK");
    assert("KeyK"@.len() == 4 && "KeyK"@[1] == 'e' && "KeyK"@[2] == 'y' && "KeyK"@[3] == 'K');
    reveal_strlit("KeyL");
    assert("KeyL"@.len() == 4 && "KeyL"@[1] == 'e' && "KeyL"@[2] == 'y' && "KeyL"@[3] == 'L');
    reveal_strlit("KeyM");
    assert("KeyM"@.len() == 4 && "KeyM"@[1] == 'e' && "KeyM"@[2] == 'y' && "KeyM"@[3] == 'M');
    reveal_strlit("KeyN");
    assert("KeyN"@.len() == 4 && "KeyN"@[1] == 'e' && "KeyN"@[2] == 'y' && "KeyN"@[3] == 'N');
    reveal_strlit("KeyO");
    assert("KeyO"@.len() == 4 && "KeyO"@[1] == 'e' && "KeyO"@[2] == 'y' && "KeyO"@[3] == 'O');
    reveal_strlit("KeyP");
    assert("KeyP"@.len() == 4 && "KeyP"@[1] == 'e' && "KeyP"@[2] == 'y' && "KeyP"@[3] == 'P');
    reveal_strlit("KeyQ");
    assert("KeyQ"@.len() == 4 && "KeyQ"@[1] == 'e' && "KeyQ"@[2] == 'y' && "KeyQ"@[3] == 'Q');
    reveal_strlit("KeyR");
    assert("KeyR"@.len() == 4 && "KeyR"@[1] == 'e' && "KeyR"@[2] == 'y' && "KeyR"@[3] == 'R');
    reveal_strlit("KeyS");
    assert("KeyS"@.len() == 4 && "KeyS"@[1] == 'e' && "KeyS"@[2] == 'y' && "KeyS"@[3] == 'S');
    reveal_strlit("KeyT");
    assert("KeyT"@.len() == 4 && "KeyT"@[1] == 'e' && "KeyT"@[2] == 'y' && "KeyT"@[3] == 'T');
    reveal_strlit("KeyU");
    assert("KeyU"@.len() == 4 && "KeyU"@[1] == 'e' && "KeyU"@[2] == 'y' && "KeyU"@[3] == 'U');
    reveal_strlit("KeyV");
    assert("KeyV"@.len() == 4 && "KeyV"@[1] == 'e' && "KeyV"@[2] == 'y' && "KeyV"@[3] == 'V');
    reveal_strlit("KeyW");
    assert("KeyW"@.len() == 4 && "KeyW"@[1] == 'e' && "KeyW"@[2] == 'y' && "KeyW"@[3] == 'W');
    reveal_strlit("KeyX");
    assert("KeyX"@.len() == 4 && "KeyX"@[1] == 'e' && "KeyX"@[2] == 'y' && "KeyX"@[3] == 'X');
    reveal_strlit("KeyY");
    assert("KeyY"@.len() == 4 && "KeyY"@[1] == 'e' && "KeyY"@[2] == 'y' && "KeyY"@[3] == 'Y');
    reveal_strlit("KeyZ");
    assert("KeyZ"@.len() == 4 && "KeyZ"@[1] == 'e' && "KeyZ"@[2] == 'y' && "KeyZ"@[3] == 'Z');
}

proof fn fingerprints_of_digit_keys()
    ensures
        fingerprint("Digit0"@) == 6714,
        fingerprint("Digit1"@) == 6845,
        fingerprint("Digit2"@) == 6976,
        fingerprint("Digit3"@) == 7107,
        fingerprint("Digit4"@) == 7238,
        fingerprint("Digit5"@) == 7369,
        fingerprint("Digit6"@) == 7500,
        fingerprint("Digit7"@) == 7631,
        fingerprint("Digit8"@) == 7762,
        fingerprint("Digit9"@) == 7893,
{
    reveal(fingerprint);
    reveal_strlit("Digit0");
    assert("Digit0"@.len() == 6 && "Digit0"@[1] == 'i' && "Digit0"@[3] == 'i' && "Digit0"@[5] == '0');
    reveal_strlit("Digit1");
    assert("Digit1"@.len() == 6 && "Digit1"@[1] == 'i' && "Digit1"@[3] == 'i' && "Digit1"@[5] == '1');
    reveal_strlit("Digit2");
    assert("Digit2"@.len() == 6 && "Digit2"@[1] == 'i' && "Digit2"@[3] == 'i' && "Digit2"@[5] == '2');
    reveal_strlit("Digit3");
    assert("Digit3"@.len() == 6 && "Digit3"@[1] == 'i' && "Digit3"@[3] == 'i' && "Digit3"@[5] == '3');
    reveal_strlit("Digit4");
    assert("Digit4"@.len() == 6 && "Digit4"@[1] == 'i' && "Digit4"@[3] == 'i' && "Digit4"@[5] == '4');
    reveal_strlit("Digit5");
    assert("Digit5"@.len() == 6 && "Digit5"@[1] == 'i' && "Digit5"@[3] == 'i' && "Digit5"@[5] == '5');
    reveal_strlit("Digit6");
    assert("Digit6"@.len() == 6 && "Digit6"@[1] == 'i' && "Digit6"@[3] == 'i' && "Digit6"@[5] == '6');
    reveal_strlit("Digit7");
    assert("Digit7"@.len() == 6 && "Digit7"@[1] == 'i' && "Digit7"@[3] == 'i' && "Digit7"@[5] == '7');
    reveal_strlit("Digit8");
    assert("Digit8"@.len() == 6 && "Digit8"@[1] == 'i' && "Digit8"@[3] == 'i' && "Digit8"@[5] == '8');
    reveal_strlit("Digit9");
    assert("Digit9"@.len() == 6 && "Digit9"@[1] == 'i' && "Digit9"@[3] == 'i' && "Digit9"@[5] == '9');
}

proof fn fingerprints_of_function_keys()
    ensures
        fingerprint("F1"@) == 6617,
        fingerprint("F2"@) == 6752,
        fingerprint("F3"@) == 6887,
        fingerprint("F4"@) == 7022,
        fingerprint("F5"@) == 7157,
        fingerprint("F6"@) == 7292,
        fingerprint("F7"@) == 7427,
        fingerprint("F8"@) == 7562,
        fingerprint("F9"@) == 7697,
        fingerprint("F10"@) == 6487,
        fingerprint("F11"@) == 6618,
        fingerprint("F12"@) == 6749,
{
    reveal(fingerprint);
    reveal_strlit("F1");
    assert("F1"@.len() == 2 && "F1"@[1] == '1' && "F1"@[1] == '1' && "F1"@[1] == '1');
    reveal_strlit("F2");
    assert("F2"@.len() == 2 && "F2"@[1] == '2' && "F2"@[1] == '2' && "F2"@[1] == '2');
    reveal_strlit("F3");
    assert("F3"@.len() == 2 && "F3"@[1] == '3' && "F3"@[1] == '3' && "F3"@[1] == '3');
    reveal_strlit("F4");
    assert("F4"@.len() == 2 && "F4"@[1] == '4' && "F4"@[1] == '4' && "F4"@[1] == '4');
    reveal_strlit("F5");
    assert("F5"@.len() == 2 && "F5"@[1] == '5' && "F5"@[1] == '5' && "F5"@[1] == '5');
    reveal_strlit("F6");
    assert("F6"@.len() == 2 && "F6"@[1] == '6' && "F6"@[1] == '6' && "F6"@[1] == '6');
    reveal_strlit("F7");
    assert("F7"@.len() == 2 && "F7"@[1] == '7' && "F7"@[1] == '7' && "F7"@[1] == '7');
    reveal_strlit("F8");
    assert("F8"@.len() == 2 && "F8"@[1] == '8' && "F8"@[1] == '8' && "F8"@[1] == '8');
    reveal_strlit("F9");
    assert("F9"@.len() == 2 && "F9"@[1] == '9' && "F9"@[1] == '9' && "F9"@[1] == '9');
    reveal_strlit("F10");
    assert("F10"@.len() == 3 && "F10"@[1] == '1' && "F10"@[1] == '1' && "F10"@[2] == '0');
    reveal_strlit("F11");
    assert("F11"@.len() == 3 && "F11"@[1] == '1' && "F11"@[1] == '1' && "F11"@[2] == '1');
    reveal_strlit("F12");
    assert("F12"@.len() == 3 && "F12"@[1] == '1' && "F12"@[1] == '1' && "F12"@[2] == '2');
}

proof fn fingerprints_of_numpad_keys()
    ensures
        fingerprint("Numpad0"@) == 6748,
        fingerprint("Numpad1"@) == 6879,
        fingerprint("Numpad2"@) == 7010,
        fingerprint("Numpad3"@) == 7141,
        fingerprint("Numpad4"@) == 7272,
        fingerprint("Numpad5"@) == 7403,
        fingerprint("Numpad6"@) == 7534,
        fingerprint("Numpad7"@) == 7665,
        fingerprint("Numpad8"@) == 7796,
        fingerprint("Numpad9"@) == 7927,
        fingerprint("NumpadAdd"@) == 13517,
        fingerprint("NumpadSubtract"@) == 15678,
        fingerprint("NumpadDivide"@) == 13564,
        fingerprint("NumpadMultiply"@) == 16333,
        fingerprint("NumpadEnter"@) == 15362,
        fingerprint("NumpadDecimal"@) == 14482,
{
    reveal(fingerprint);
    reveal_strlit("Numpad0");
    assert("Numpad0"@.len() == 7 && "Numpad0"@[1] == 'u' && "Numpad0"@[3] == 'p' && "Numpad0"@[6] == '0');
    reveal_strlit("Numpad1");
    assert("Numpad1"@.len() == 7 && "Numpad1"@[1] == 'u' && "Numpad1"@[3] == 'p' && "Numpad1"@[6] == '1');
    reveal_strlit("Numpad2");
    assert("Numpad2"@.len() == 7 && "Numpad2"@[1] == 'u' && "Numpad2"@[3] == 'p' && "Numpad2"@[6] == '2');
    reveal_strlit("Numpad3");
    assert("Numpad3"@.len() == 7 && "Numpad3"@[1] == 'u' && "Numpad3"@[3] == 'p' && "Numpad3"@[6] == '3');
    reveal_strlit("Numpad4");
    assert("Numpad4"@.len() == 7 && "Numpad4"@[1] == 'u' && "Numpad4"@[3] == 'p' && "Numpad4"@[6] == '4');
    reveal_strlit("Numpad5");
    assert("Numpad5"@.len() == 7 && "Numpad5"@[1] == 'u' && "Numpad5"@[3] == 'p' && "Numpad5"@[6] == '5');
    reveal_strlit("Numpad6");
    assert("Numpad6"@.len() == 7 && "Numpad6"@[1] == 'u' && "Numpad6"@[3] == 'p' && "Numpad6"@[6] == '6');
    reveal_strlit("Numpad7");
    assert("Numpad7"@.len() == 7 && "Numpad7"@[1] == 'u' && "Numpad7"@[3] == 'p' && "Numpad7"@[6] == '7');
    reveal_strlit("Numpad8");
    assert("Numpad8"@.len() == 7 && "Numpad8"@[1] == 'u' && "Numpad8"@[3] == 'p' && "Numpad8"@[6] == '8');
    reveal_strlit("Numpad9");
    assert("Numpad9"@.len() == 7 && "Numpad9"@[1] == 'u' && "Numpad9"@[3] == 'p' && "Numpad9"@[6] == '9');
    reveal_strlit("NumpadAdd");
    assert("NumpadAdd"@.len() == 9 && "NumpadAdd"@[1] == 'u' && "NumpadAdd"@[4] == 'a' && "NumpadAdd"@[8] == 'd');
    reveal_strlit("NumpadSubtract");
    assert("NumpadSubtract"@.len() == 14 && "NumpadSubtract"@[1] == 'u' && "NumpadSubtract"@[7] == 'u' && "NumpadSubtract"@[13] == 't');
    reveal_strlit("NumpadDivide");
    assert("NumpadDivide"@.len() == 12 && "NumpadDivide"@[1] == 'u' && "NumpadDivide"@[6] == 'D' && "NumpadDivide"@[11] == 'e');
    reveal_strlit("NumpadMultiply");
    assert("NumpadMultiply"@.len() == 14 && "NumpadMultiply"@[1] == 'u' && "NumpadMultiply"@[7] == 'u' && "NumpadMultiply"@[13] == 'y');
    reveal_strlit("NumpadEnter");
    assert("NumpadEnter"@.len() == 11 && "NumpadEnter"@[1] == 'u' && "NumpadEnter"@[5] == 'd' && "NumpadEnter"@[10] == 'r');
    reveal_strlit("NumpadDecimal");
    assert("NumpadDecimal"@.len() == 13 && "NumpadDecimal"@[1] == 'u' && "NumpadDecimal"@[6] == 'D' && "NumpadDecimal"@[12] == 'l');
}

proof fn fingerprints_of_punctuation_keys()
    ensures
        fingerprint("Space"@) == 13639,
        fingerprint("Semicolon"@) == 14817,
        fingerprint("Equal"@) == 14617,
        fingerprint("Comma"@) == 13150,
        fingerprint("Minus"@) == 15505,
        fingerprint("Period"@) == 13522,
        fingerprint("Slash"@) == 14028,
        fingerprint("Backquote"@) == 13676,
        fingerprint("BracketLeft"@) == 15624,
        fingerprint("Backslash"@) == 14075,
        fingerprint("BracketRight"@) == 15670,
        fingerprint("Quote"@) == 13686,
{
    reveal(fingerprint);
    reveal_strlit("Space");
    assert("Space"@.len() == 5 && "Space"@[1] == 'p' && "Space"@[2] == 'a' && "Space"@[4] == 'e');
    reveal_strlit("Semicolon");
    assert("Semicolon"@.len() == 9 && "Semicolon"@[1] == 'e' && "Semicolon"@[4] == 'c' && "Semicolon"@[8] == 'n');
    reveal_strlit("Equal");
    assert("Equal"@.len() == 5 && "Equal"@[1] == 'q' && "Equal"@[2] == 'u' && "Equal"@[4] == 'l');
    reveal_strlit("Comma");
    assert("Comma"@.len() == 5 && "Comma"@[1] == 'o' && "Comma"@[2] == 'm' && "Comma"@[4] == 'a');
    reveal_strlit("Minus");
    assert("Minus"@.len() == 5 && "Minus"@[1] == 'i' && "Minus"@[2] == 'n' && "Minus"@[4] == 's');
    reveal_strlit("Period");
    assert("Period"@.len() == 6 && "Period"@[1] == 'e' && "Period"@[3] == 'i' && "Period"@[5] == 'd');
    reveal_strlit("Slash");
    assert("Slash"@.len() == 5 && "Slash"@[1] == 'l' && "Slash"@[2] == 'a' && "Slash"@[4] == 'h');
    reveal_strlit("Backquote");
    assert("Backquote"@.len() == 9 && "Backquote"@[1] == 'a' && "Backquote"@[4] == 'q' && "Backquote"@[8] == 'e');
    reveal_strlit("BracketLeft");
    assert("BracketLeft"@.len() == 11 && "BracketLeft"@[1] == 'r' && "BracketLeft"@[5] == 'e' && "BracketLeft"@[10] == 't');
    reveal_strlit("Backslash");
    assert("Backslash"@.len() == 9 && "Backslash"@[1] == 'a' && "Backslash"@[4] == 's' && "Backslash"@[8] == 'h');
    reveal_strlit("BracketRight");
    assert("BracketRight"@.len() == 12 && "BracketRight"@[1] == 'r' && "BracketRight"@[6] == 't' && "BracketRight"@[11] == 't');
    reveal_strlit("Quote");
    assert("Quote"@.len() == 5 && "Quote"@[1] == 'u' && "Quote"@[2] == 'o' && "Quote"@[4] == 'e');
}

proof fn fingerprints_of_control_keys()
    ensures
        fingerprint("Enter"@) == 15397,
        fingerprint("Escape"@) == 13643,
        fingerprint("Backspace"@) == 13682,
        fingerprint("Tab"@) == 13229,
        fingerprint("Delete"@) == 13641,
        fingerprint("Insert"@) == 15615,
        fingerprint("Home"@) == 13673,
        fingerprint("End"@) == 13543,
        fingerprint("PageUp"@) == 15078,
        fingerprint("PageDown"@) == 14719,
        fingerprint("ArrowLeft"@) == 15676,
        fingerprint("ArrowUp"@) == 15126,
        fingerprint("ArrowRight"@) == 15566,
        fingerprint("ArrowDown"@) == 14890,
        fingerprint("CapsLock"@) == 14350,
        fingerprint("NumLock"@) == 14369,
        fingerprint("ScrollLock"@) == 14450,
        fingerprint("PrintScreen"@) == 14784,
        fingerprint("Pause"@) == 13684,
{
    reveal(fingerprint);
    reveal_strlit("Enter");
    assert("Enter"@.len() == 5 && "Enter"@[1] == 'n' && "Enter"@[2] == 't' && "Enter"@[4] == 'r');
    reveal_strlit("Escape");
    assert("Escape"@.len() == 6 && "Escape"@[1] == 's' && "Escape"@[3] == 'a' && "Escape"@[5] == 'e');
    reveal_strlit("Backspace");
    assert("Backspace"@.len() == 9 && "Backspace"@[1] == 'a' && "Backspace"@[4] == 's' && "Backspace"@[8] == 'e');
    reveal_strlit("Tab");
    assert("Tab"@.len() == 3 && "Tab"@[1] == 'a' && "Tab"@[1] == 'a' && "Tab"@[2] == 'b');
    reveal_strlit("Delete");
    assert("Delete"@.len() == 6 && "Delete"@[1] == 'e' && "Delete"@[3] == 'e' && "Delete"@[5] == 'e');
    reveal_strlit("Insert");
    assert("Insert"@.len() == 6 && "Insert"@[1] == 'n' && "Insert"@[3] == 'e' && "Insert"@[5] == 't');
    reveal_strlit("Home");
    assert("Home"@.len() == 4 && "Home"@[1] == 'o' && "Home"@[2] == 'm' && "Home"@[3] == 'e');
    reveal_strlit("End");
    assert("End"@.len() == 3 && "End"@[1] == 'n' && "End"@[1] == 'n' && "End"@[2] == 'd');
    reveal_strlit("PageUp");
    assert("PageUp"@.len() == 6 && "PageUp"@[1] == 'a' && "PageUp"@[3] == 'e' && "PageUp"@[5] == 'p');
    reveal_strlit("PageDown");
    assert("PageDown"@.len() == 8 && "PageDown"@[1] == 'a' && "PageDown"@[4] == 'D' && "PageDown"@[7] == 'n');
    reveal_strlit("ArrowLeft");
    assert("ArrowLeft"@.len() == 9 && "ArrowLeft"@[1] == 'r' && "ArrowLeft"@[4] == 'w' && "ArrowLeft"@[8] == 't');
    reveal_strlit("ArrowUp");
    assert("ArrowUp"@.len() == 7 && "ArrowUp"@[1] == 'r' && "ArrowUp"@[3] == 'o' && "ArrowUp"@[6] == 'p');
    reveal_strlit("ArrowRight");
    assert("ArrowRight"@.len() == 10 && "ArrowRight"@[1] == 'r' && "ArrowRight"@[5] == 'R' && "ArrowRight"@[9] == 't');
    reveal_strlit("ArrowDown");
    assert("ArrowDown"@.len() == 9 && "ArrowDown"@[1] == 'r' && "ArrowDown"@[4] == 'w' && "ArrowDown"@[8] == 'n');
    reveal_strlit("CapsLock");
    assert("CapsLock"@.len() == 8 && "CapsLock"@[1] == 'a' && "CapsLock"@[4] == 'L' && "CapsLock"@[7] == 'k');
    reveal_strlit("NumLock");
    assert("NumLock"@.len() == 7 && "NumLock"@[1] == 'u' && "NumLock"@[3] == 'L' && "NumLock"@[6] == 'k');
    reveal_strlit("ScrollLock");
    assert("ScrollLock"@.len() == 10 && "ScrollLock"@[1] == 'c' && "ScrollLock"@[5] == 'l' && "ScrollLock"@[9] == 'k');
    reveal_strlit("PrintScreen");
    assert("PrintScreen"@.len() == 11 && "PrintScreen"@[1] == 'r' && "PrintScreen"@[5] == 'S' && "PrintScreen"@[10] == 'n');
    reveal_strlit("Pause");
    assert("Pause"@.len() == 5 && "Pause"@[1] == 'a' && "Pause"@[2] == 'u' && "Pause"@[4] == 'e');
}

proof fn fingerprints_of_modifiers()
    ensures
        fingerprint("ShiftLeft"@) == 15657,
        fingerprint("ShiftRight"@) == 15556,
        fingerprint("ControlLeft"@) == 15651,
        fingerprint("ControlRight"@) == 15643,
        fingerprint("AltLeft"@) == 15539,
        fingerprint("AltRight"@) == 15627,
        fingerprint("MetaLeft"@) == 15533,
        fingerprint("MetaRight"@) == 15552,
{
    reveal(fingerprint);
    reveal_strlit("ShiftLeft");
    assert("ShiftLeft"@.len() == 9 && "ShiftLeft"@[1] == 'h' && "ShiftLeft"@[4] == 't' && "ShiftLeft"@[8] == 't');
    reveal_strlit("ShiftRight");
    assert("ShiftRight"@.len() == 10 && "ShiftRight"@[1] == 'h' && "ShiftRight"@[5] == 'R' && "ShiftRight"@[9] == 't');
    reveal_strlit("ControlLeft");
    assert("ControlLeft"@.len() == 11 && "ControlLeft"@[1] == 'o' && "ControlLeft"@[5] == 'o' && "ControlLeft"@[10] == 't');
    reveal_strlit("ControlRight");
    assert("ControlRight"@.len() == 12 && "ControlRight"@[1] == 'o' && "ControlRight"@[6] == 'l' && "ControlRight"@[11] == 't');
    reveal_strlit("AltLeft");
    assert("AltLeft"@.len() == 7 && "AltLeft"@[1] == 'l' && "AltLeft"@[3] == 'L' && "AltLeft"@[6] == 't');
    reveal_strlit("AltRight");
    assert("AltRight"@.len() == 8 && "AltRight"@[1] == 'l' && "AltRight"@[4] == 'i' && "AltRight"@[7] == 't');
    reveal_strlit("MetaLeft");
    assert("MetaLeft"@.len() == 8 && "MetaLeft"@[1] == 'e' && "MetaLeft"@[4] == 'L' && "MetaLeft"@[7] == 't');
    reveal_strlit("MetaRight");
    assert("MetaRight"@.len() == 9 && "MetaRight"@[1] == 'e' && "MetaRight"@[4] == 'R' && "MetaRight"@[8] == 't');
}

/// The fingerprints of all names: no two are alike.
proof fn fingerprints()
    ensures
        fingerprint("KeyA"@) == 8983,
        fingerprint("KeyB"@) == 9114,
        fingerprint("KeyC"@) == 9245,
        fingerprint("KeyD"@) == 9376,
        fingerprint("KeyE"@) == 9507,
        fingerprint("KeyF"@) == 9638,
        fingerprint("KeyG"@) == 9769,
        fingerprint("KeyH"@) == 9900,
        fingerprint("KeyI"@) == 10031,
        fingerprint("KeyJ"@) == 10162,
        fingerprint("KeyK"@) == 10293,
        fingerprint("KeyL"@) == 10424,
        fingerprint("KeyM"@) == 10555,
        fingerprint("KeyN"@) == 10686,
        fingerprint("KeyO"@) == 10817,
        fingerprint("KeyP"@) == 10948,
        fingerprint("KeyQ"@) == 11079,
        fingerprint("KeyR"@) == 11210,
        fingerprint("KeyS"@) == 11341,
        fingerprint("KeyT"@) == 11472,
        fingerprint("KeyU"@) == 11603,
        fingerprint("KeyV"@) == 11734,
        fingerprint("KeyW"@) == 11865,
        fingerprint("KeyX"@) == 11996,
        fingerprint("KeyY"@) == 12127,
        fingerprint("KeyZ"@) == 12258,
        fingerprint("Digit0"@) == 6714,
        fingerprint("Digit1"@) == 6845,
        fingerprint("Digit2"@) == 6976,
        fingerprint("Digit3"@) == 7107,
        fingerprint("Digit4"@) == 7238,
        fingerprint("Digit5"@) == 7369,
        fingerprint("Digit6"@) == 7500,
        fingerprint("Digit7"@) == 7631,
        fingerprint("Digit8"@) == 7762,
        fingerprint("Digit9"@) == 7893,
        fingerprint("F1"@) == 6617,
        fingerprint("F2"@) == 6752,
        fingerprint("F3"@) == 6887,
        fingerprint("F4"@) == 7022,
        fingerprint("F5"@) == 7157,
        fingerprint("F6"@) == 7292,
        fingerprint("F7"@) == 7427,
        fingerprint("F8"@) == 7562,
        fingerprint("F9"@) == 7697,
        fingerprint("F10"@) == 6487,
        fingerprint("F11"@) == 6618,
        fingerprint("F12"@) == 6749,
        fingerprint("Numpad0"@) == 6748,
        fingerprint("Numpad1"@) == 6879,
        fingerprint("Numpad2"@) == 7010,
        fingerprint("Numpad3"@) == 7141,
        fingerprint("Numpad4"@) == 7272,
        fingerprint("Numpad5"@) == 7403,
        fingerprint("Numpad6"@) == 7534,
        fingerprint("Numpad7"@) == 7665,
        fingerprint("Numpad8"@) == 7796,
        fingerprint("Numpad9"@) == 7927,
        fingerprint("NumpadAdd"@) == 13517,
        fingerprint("NumpadSubtract"@) == 15678,
        fingerprint("NumpadDivide"@) == 13564,
        fingerprint("NumpadMultiply"@) == 16333,
        fingerprint("NumpadEnter"@) == 15362,
        fingerprint("NumpadDecimal"@) == 14482,
        fingerprint("Space"@) == 13639,
        fingerprint("Semicolon"@) == 14817,
        fingerprint("Equal"@) == 14617,
        fingerprint("Comma"@) == 13150,
        fingerprint("Minus"@) == 15505,
        fingerprint("Period"@) == 13522,
        fingerprint("Slash"@) == 14028,
        fingerprint("Backquote"@) == 13676,
        fingerprint("BracketLeft"@) == 15624,
        fingerprint("Backslash"@) == 14075,
        fingerprint("BracketRight"@) == 15670,
        fingerprint("Quote"@) == 13686,
        fingerprint("Enter"@) == 15397,
        fingerprint("Escape"@) == 13643,
        fingerprint("Backspace"@) == 13682,
        fingerprint("Tab"@) == 13229,
        fingerprint("Delete"@) == 13641,
        fingerprint("Insert"@) == 15615,
        fingerprint("Home"@) == 13673,
        fingerprint("End"@) == 13543,
        fingerprint("PageUp"@) == 15078,
        fingerprint("PageDown"@) == 14719,
        fingerprint("ArrowLeft"@) == 15676,
        fingerprint("ArrowUp"@) == 15126,
        fingerprint("ArrowRight"@) == 15566,
        fingerprint("ArrowDown"@) == 14890,
        fingerprint("CapsLock"@) == 14350,
        fingerprint("NumLock"@) == 14369,
        fingerprint("ScrollLock"@) == 14450,
        fingerprint("PrintScreen"@) == 14784,
        fingerprint("Pause"@) == 13684,
        fingerprint("ShiftLeft"@) == 15657,
        fingerprint("ShiftRight"@) == 15556,
        fingerprint("ControlLeft"@) == 15651,
        fingerprint("ControlRight"@) == 15643,
        fingerprint("AltLeft"@) == 15539,
        fingerprint("AltRight"@) == 15627,
        fingerprint("MetaLeft"@) == 15533,
        fingerprint("MetaRight"@) == 15552,
{
    fingerprints_of_letter_keys();
    fingerprints_of_digit_keys();
    fingerprints_of_function_keys();
    fingerprints_of_numpad_keys();
    fingerprints_of_punctuation_keys();
    fingerprints_of_control_keys();
    fingerprints_of_modifiers();
}

/// The letters have the codes that linux/input-event-codes.h gives them: those of the three rows
/// of a keyboard count up from 16, 30 and 44.
pub proof fn letter_keys(code: Seq<char>)
    ensures
        eis_key(code) == Some(16u32) <==> code == "KeyQ"@,
        eis_key(code) == Some(17u32) <==> code == "KeyW"@,
        eis_key(code) == Some(18u32) <==> code == "KeyE"@,
        eis_key(code) == Some(19u32) <==> code == "KeyR"@,
        eis_key(code) == Some(20u32) <==> code == "KeyT"@,
        eis_key(code) == Some(21u32) <==> code == "KeyY"@,
        eis_key(code) == Some(22u32) <==> code == "KeyU"@,
        eis_key(code) == Some(23u32) <==> code == "KeyI"@,
        eis_key(code) == Some(24u32) <==> code == "KeyO"@,
        eis_key(code) == Some(25u32) <==> code == "KeyP"@,
        eis_key(code) == Some(30u32) <==> code == "KeyA"@,
        eis_key(code) == Some(31u32) <==> code == "KeyS"@,
        eis_key(code) == Some(32u32) <==> code == "KeyD"@,
        eis_key(code) == Some(33u32) <==> code == "KeyF"@,
        eis_key(code) == Some(34u32) <==> code == "KeyG"@,
        eis_key(code) == Some(35u32) <==> code == "KeyH"@,
        eis_key(code) == Some(36u32) <==> code == "KeyJ"@,
        eis_key(code) == Some(37u32) <==> code == "KeyK"@,
        eis_key(code) == Some(38u32) <==> code == "KeyL"@,
        eis_key(code) == Some(44u32) <==> code == "KeyZ"@,
        eis_key(code) == Some(45u32) <==> code == "KeyX"@,
        eis_key(code) == Some(46u32) <==> code == "KeyC"@,
        eis_key(code) == Some(47u32) <==> code == "KeyV"@,
        eis_key(code) == Some(48u32) <==> code == "KeyB"@,
        eis_key(code) == Some(49u32) <==> code == "KeyN"@,
        eis_key(code) == Some(50u32) <==> code == "KeyM"@,
{
    let mark = fingerprint(code);
    fingerprints();
}

/// The digits 1 to 9 have the codes 2 to 10, and 0 has 11.
pub proof fn digit_keys(code: Seq<char>)
    ensures
        eis_key(code) == Some(2u32) <==> code == "Digit1"@,
        eis_key(code) == Some(3u32) <==> code == "Digit2"@,
        eis_key(code) == Some(4u32) <==> code == "Digit3"@,
        eis_key(code) == Some(5u32) <==> code == "Digit4"@,
        eis_key(code) == Some(6u32) <==> code == "Digit5"@,
        eis_key(code) == Some(7u32) <==> code == "Digit6"@,
        eis_key(code) == Some(8u32) <==> code == "Digit7"@,
        eis_key(code) == Some(9u32) <==> code == "Digit8"@,
        eis_key(code) == Some(10u32) <==> code == "Digit9"@,
        eis_key(code) == Some(11u32) <==> code == "Digit0"@,
{
    let mark = fingerprint(code);
    fingerprints();
}

/// The first ten function keys have the codes 59 to 68; the last two have 87 and 88.
pub proof fn function_keys(code: Seq<char>)
    ensures
        eis_key(code) == Some(59u32) <==> code == "F1"@,
        eis_key(code) == Some(60u32) <==> code == "F2"@,
        eis_key(code) == Some(61u32) <==> code == "F3"@,
        eis_key(code) == Some(62u32) <==> code == "F4"@,
        eis_key(code) == Some(63u32) <==> code == "F5"@,
        eis_key(code) == Some(64u32) <==> code == "F6"@,
        eis_key(code) == Some(65u32) <==> code == "F7"@,
        eis_key(code) == Some(66u32) <==> code == "F8"@,
        eis_key(code) == Some(67u32) <==> code == "F9"@,
        eis_key(code) == Some(68u32) <==> code == "F10"@,
        eis_key(code) == Some(87u32) <==> code == "F11"@,
        eis_key(code) == Some(88u32) <==> code == "F12"@,
{
    let mark = fingerprint(code);
    fingerprints();
}

/// The keys of the numeric keypad have the codes of its own, not those of the main block.
pub proof fn numpad_keys(code: Seq<char>)
    ensures
        eis_key(code) == Some(55u32) <==> code == "NumpadMultiply"@,
        eis_key(code) == Some(71u32) <==> code == "Numpad7"@,
        eis_key(code) == Some(72u32) <==> code == "Numpad8"@,
        eis_key(code) == Some(73u32) <==> code == "Numpad9"@,
        eis_key(code) == Some(74u32) <==> code == "NumpadSubtract"@,
        eis_key(code) == Some(75u32) <==> code == "Numpad4"@,
        eis_key(code) == Some(76u32) <==> code == "Numpad5"@,
        eis_key(code) == Some(77u32) <==> code == "Numpad6"@,
        eis_key(code) == Some(78u32) <==> code == "NumpadAdd"@,
        eis_key(code) == Some(79u32) <==> code == "Numpad1"@,
        eis_key(code) == Some(80u32) <==> code == "Numpad2"@,
        eis_key(code) == Some(81u32) <==> code == "Numpad3"@,
        eis_key(code) == Some(82u32) <==> code == "Numpad0"@,
        eis_key(code) == Some(83u32) <==> code == "NumpadDecimal"@,
        eis_key(code) == Some(96u32) <==> code == "NumpadEnter"@,
        eis_key(code) == Some(98u32) <==> code == "NumpadDivide"@,
{
    let mark = fingerprint(code);
    fingerprints();
}

/// The marks and the space bar have the codes of the places they stand at on a US keyboard.
pub proof fn punctuation_keys(code: Seq<char>)
    ensures
        eis_key(code) == Some(12u32) <==> code == "Minus"@,
        eis_key(code) == Some(13u32) <==> code == "Equal"@,
        eis_key(code) == Some(26u32) <==> code == "BracketLeft"@,
        eis_key(code) == Some(27u32) <==> code == "BracketRight"@,
        eis_key(code) == Some(39u32) <==> code == "Semicolon"@,
        eis_key(code) == Some(40u32) <==> code == "Quote"@,
        eis_key(code) == Some(41u32) <==> code == "Backquote"@,
        eis_key(code) == Some(43u32) <==> code == "Backslash"@,
        eis_key(code) == Some(51u32) <==> code == "Comma"@,
        eis_key(code) == Some(52u32) <==> code == "Period"@,
        eis_key(code) == Some(53u32) <==> code == "Slash"@,
        eis_key(code) == Some(57u32) <==> code == "Space"@,
{
    let mark = fingerprint(code);
    fingerprints();
}

/// The keys that edit, move the cursor and lock have the codes of linux/input-event-codes.h.
pub proof fn control_keys(code: Seq<char>)
    ensures
        eis_key(code) == Some(1u32) <==> code == "Escape"@,
        eis_key(code) == Some(14u32) <==> code == "Backspace"@,
        eis_key(code) == Some(15u32) <==> code == "Tab"@,
        eis_key(code) == Some(28u32) <==> code == "Enter"@,
        eis_key(code) == Some(58u32) <==> code == "CapsLock"@,
        eis_key(code) == Some(69u32) <==> code == "NumLock"@,
        eis_key(code) == Some(70u32) <==> code == "ScrollLock"@,
        eis_key(code) == Some(99u32) <==> code == "PrintScreen"@,
        eis_key(code) == Some(102u32) <==> code == "Home"@,
        eis_key(code) == Some(103u32) <==> code == "ArrowUp"@,
        eis_key(code) == Some(104u32) <==> code == "PageUp"@,
        eis_key(code) == Some(105u32) <==> code == "ArrowLeft"@,
        eis_key(code) == Some(106u32) <==> code == "ArrowRight"@,
        eis_key(code) == Some(107u32) <==> code == "End"@,
        eis_key(code) == Some(108u32) <==> code == "ArrowDown"@,
        eis_key(code) == Some(109u32) <==> code == "PageDown"@,
        eis_key(code) == Some(110u32) <==> code == "Insert"@,
        eis_key(code) == Some(111u32) <==> code == "Delete"@,
        eis_key(code) == Some(119u32) <==> code == "Pause"@,
{
    let mark = fingerprint(code);
    fingerprints();
}

/// No other key is ever meant: what has a code at all has one of those named in the laws on the
/// letters, the digits, the function keys, the keypad, the marks and the other keys.
pub proof fn no_other_keys(code: Seq<char>)
    ensures
        eis_key(code) matches Some(key) ==> {
            ||| 1 <= key <= 28
            ||| 30 <= key <= 41
            ||| 43 <= key <= 53
            ||| key == 55
            ||| 57 <= key <= 83
            ||| 87 <= key <= 88
            ||| key == 96
            ||| 98 <= key <= 99
            ||| 102 <= key <= 111
            ||| key == 119
        },
{
}

/// The names of modifiers are not in the table.
pub proof fn modifier_names_have_no_key(code: Seq<char>)
    requires
        names_modifier(code),
    ensures
        eis_key(code) is None,
{
    let mark = fingerprint(code);
    fingerprints();
}

/// A whole keyboard event leaves exactly the modifiers of that event down, and none of its
/// steps is idle.
pub proof fn keyboard_event_is_exact(from: Modifiers, to: Modifiers, code: Seq<char>)
    ensures
        replay(held_keys(from), transition(from, to) + tap(code)) == Some(held_keys(to)),
{
    transition_is_exact(from, to);
    replay_in_two(held_keys(from), transition(from, to), tap(code));
    if !names_modifier(code) && eis_key(code) is Some {
        let key = eis_key(code)->0;
        mapped_keys_are_no_modifiers(code);
        held_keys_are(to, key);
        let d = EisKeyboardEvent { key, press: true };
        let u = EisKeyboardEvent { key, press: false };
        one_event(held_keys(to), d);
        one_event(held_keys(to).insert(key), u);
        replay_in_two(held_keys(to), seq![d], seq![u]);
        assert(tap(code) =~= seq![d] + seq![u]);
        assert(held_keys(to).insert(key).remove(key) =~= held_keys(to));
    } else {
        assert(tap(code) =~= Seq::<EisKeyboardEvent>::empty());
    }
}

/// The modifiers' names are those of four keys that stand on either side.
pub proof fn modifiers_have_two_sides(code: Seq<char>)
    ensures
        names_modifier(code) <==> {
            ||| code == "Shift"@ + "Left"@
            ||| code == "Shift"@ + "Right"@
            ||| code == "Control"@ + "Left"@
            ||| code == "Control"@ + "Right"@
            ||| code == "Alt"@ + "Left"@
            ||| code == "Alt"@ + "Right"@
            ||| code == "Meta"@ + "Left"@
            ||| code == "Meta"@ + "Right"@
        },
{
    reveal_strlit("Left");
    reveal_strlit("Right");
    reveal_strlit("Shift");
    reveal_strlit("Control");
    reveal_strlit("Alt");
    reveal_strlit("Meta");
    reveal_strlit("ShiftLeft");
    reveal_strlit("ShiftRight");
    reveal_strlit("ControlLeft");
    reveal_strlit("ControlRight");
    reveal_strlit("AltLeft");
    reveal_strlit("AltRight");
    reveal_strlit("MetaLeft");
    reveal_strlit("MetaRight");
    assert("Shift"@ + "Left"@ =~= "ShiftLeft"@);
    assert("Shift"@ + "Right"@ =~= "ShiftRight"@);
    assert("Control"@ + "Left"@ =~= "ControlLeft"@);
    assert("Control"@ + "Right"@ =~= "ControlRight"@);
    assert("Alt"@ + "Left"@ =~= "AltLeft"@);
    assert("Alt"@ + "Right"@ =~= "AltRight"@);
    assert("Meta"@ + "Left"@ =~= "MetaLeft"@);
    assert("Meta"@ + "Right"@ =~= "MetaRight"@);
}

/// The keys of a set of modifiers, by their codes: 29 where the bit of control is set, 42 where
/// that of shift is, 56 where that of alt is and 125 where that of meta is, the lower code
/// first, and no other.
pub proof fn modifiers_have_their_keys(mods: Modifiers)
    ensures
        modifier_keys(mods).contains(29) <==> mods.bits / 2 % 2 == 1,
        modifier_keys(mods).contains(42) <==> mods.bits % 2 == 1,
        modifier_keys(mods).contains(56) <==> mods.bits / 4 % 2 == 1,
        modifier_keys(mods).contains(125) <==> mods.bits / 8 % 2 == 1,
        forall|i: int, j: int|
            0 <= i < j < modifier_keys(mods).len() ==> #[trigger] modifier_keys(mods)[i]
                < #[trigger] modifier_keys(mods)[j],
        forall|i: int|
            0 <= i < modifier_keys(mods).len() ==> {
                let key = #[trigger] modifier_keys(mods)[i];
                key == 29 || key == 42 || key == 56 || key == 125
            },
{
    let keys = modifier_keys(mods);
    held_keys_are(mods, 29);
    held_keys_are(mods, 42);
    held_keys_are(mods, 56);
    held_keys_are(mods, 125);
    assert(held_keys(mods).contains(29) <==> keys.contains(29));
}

proof fn events_of_keys(keys: Seq<u32>, press: bool, e: EisKeyboardEvent)
    ensures
        key_events(keys, press).len() == keys.len(),
        forall|i: int|
            0 <= i < keys.len() ==> #[trigger] key_events(keys, press)[i] == (EisKeyboardEvent {
                key: keys[i],
                press,
            }),
        key_events(keys, press).contains(e) <==> e.press == press && keys.contains(e.key),
{
    let events = key_events(keys, press);
    if e.press == press && keys.contains(e.key) {
        let i = choose|i: int| 0 <= i < keys.len() && keys[i] == e.key;
        assert(events[i] == e);
    }
    if events.contains(e) {
        let i = choose|i: int| 0 <= i < events.len() && events[i] == e;
        assert(keys[i] == e.key);
    }
}

proof fn transition_has(from: Modifiers, to: Modifiers, e: EisKeyboardEvent)
    ensures
        transition(from, to).contains(e) <==> if e.press {
            held_keys(to).contains(e.key) && !held_keys(from).contains(e.key)
        } else {
            held_keys(from).contains(e.key) && !held_keys(to).contains(e.key)
        },
{
    let gone = modifier_keys(minus(from, to));
    let new = modifier_keys(minus(to, from));
    let a = releases(minus(from, to));
    let b = presses(minus(to, from));
    events_of_keys(gone.reverse(), false, e);
    events_of_keys(new, true, e);
    held_keys_of_difference(from, to, e.key);
    held_keys_of_difference(to, from, e.key);
    if gone.contains(e.key) {
        let i = choose|i: int| 0 <= i < gone.len() && gone[i] == e.key;
        assert(gone.reverse()[gone.len() - 1 - i] == e.key);
    }
    if gone.reverse().contains(e.key) {
        let i = choose|i: int| 0 <= i < gone.len() && gone.reverse()[i] == e.key;
        assert(gone[gone.len() - 1 - i] == e.key);
    }
    let t = transition(from, to);
    if a.contains(e) {
        let i = choose|i: int| 0 <= i < a.len() && a[i] == e;
        assert(t[i] == e);
    }
    if b.contains(e) {
        let i = choose|i: int| 0 <= i < b.len() && b[i] == e;
        assert(t[a.len() + i] == e);
    }
    if t.contains(e) {
        let i = choose|i: int| 0 <= i < t.len() && t[i] == e;
        if i < a.len() {
            assert(a[i] == e);
        } else {
            assert(b[i - a.len()] == e);
        }
    }
}

/// Between two sets of modifiers, the keys of those that are held no more go up and the keys of
/// those that are held now go down; all others are left alone.
pub proof fn transitions_change_what_differs(from: Modifiers, to: Modifiers, press: bool)
    ensures
        ({
            let t = transition(from, to);
            let (a, b) = if press { (to.bits, from.bits) } else { (from.bits, to.bits) };
            &&& t.contains(EisKeyboardEvent { key: 29, press }) <==> a / 2 % 2 == 1 && b / 2 % 2
                == 0
            &&& t.contains(EisKeyboardEvent { key: 42, press }) <==> a % 2 == 1 && b % 2 == 0
            &&& t.contains(EisKeyboardEvent { key: 56, press }) <==> a / 4 % 2 == 1 && b / 4 % 2
                == 0
            &&& t.contains(EisKeyboardEvent { key: 125, press }) <==> a / 8 % 2 == 1 && b / 8 % 2
                == 0
        }),
{
    transition_has(from, to, EisKeyboardEvent { key: 29, press });
    transition_has(from, to, EisKeyboardEvent { key: 42, press });
    transition_has(from, to, EisKeyboardEvent { key: 56, press });
    transition_has(from, to, EisKeyboardEvent { key: 125, press });
    held_keys_are(from, 29);
    held_keys_are(from, 42);
    held_keys_are(from, 56);
    held_keys_are(from, 125);
    held_keys_are(to, 29);
    held_keys_are(to, 42);
    held_keys_are(to, 56);
    held_keys_are(to, 125);
}

/// Between two sets of modifiers, no key goes down before all that go up are up; those that go
/// up do so from the highest code down, and those that go down from the lowest code up.
pub proof fn transitions_release_first(from: Modifiers, to: Modifiers, i: int, j: int)
    requires
        0 <= i < j < transition(from, to).len(),
    ensures
        ({
            let first = transition(from, to)[i];
            let second = transition(from, to)[j];
            &&& !second.press ==> !first.press && first.key > second.key
            &&& first.press ==> second.press && first.key < second.key
        }),
{
    let gone = modifier_keys(minus(from, to));
    let new = modifier_keys(minus(to, from));
    modifiers_have_their_keys(minus(from, to));
    modifiers_have_their_keys(minus(to, from));
    let e = transition(from, to)[i];
    events_of_keys(gone.reverse(), false, e);
    events_of_keys(new, true, e);
    let n = gone.len() as int;
    if j < n {
        assert(gone.reverse()[i] == gone[n - 1 - i]);
        assert(gone.reverse()[j] == gone[n - 1 - j]);
    }
}

/// To release all modifiers is to go over to none.
pub proof fn releasing_is_going_to_none(mods: Modifiers)
    ensures
        releases(mods) == transition(mods, Modifiers { bits: 0 }),
{
    let none = Modifiers { bits: 0 };
    let d = minus(mods, none);
    assert(d.shift() == mods.shift() && d.ctrl() == mods.ctrl() && d.alt() == mods.alt() && d.meta()
        == mods.meta());
    let e = minus(none, mods);
    assert(!e.shift() && !e.ctrl() && !e.alt() && !e.meta());
    assert(modifier_keys(d) =~= modifier_keys(mods));
    assert(modifier_keys(e) =~= Seq::<u32>::empty());
    assert(presses(e) =~= Seq::<EisKeyboardEvent>::empty());
    assert(transition(mods, none) =~= releases(mods));
}

/// A key that has a code is pressed and let go, in this order; of any other nothing is sent.
pub proof fn keys_are_pressed_and_let_go(code: Seq<char>)
    ensures
        eis_key(code) matches Some(key) ==> tap(code).len() == 2 && tap(code)[0].press && !tap(
            code,
        )[1].press && tap(code)[0].key == key && tap(code)[1].key == key,
        eis_key(code) is None ==> tap(code).len() == 0,
{
    if names_modifier(code) {
        modifier_names_have_no_key(code);
    }
}

} // verus!
