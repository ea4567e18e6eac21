//! From client messages to emulated input: which events a message makes, which device each
//! event goes to, and when the devices of a seat are ready.
use super::eis_keyboard::{EisKeyboardEvent, KeyboardState};
use super::pointer::{
    web_button_to_linux, EisButtonEvent, EisPointerEvent, EisScrollEvent, MouseState,
};
use super::touch::{can_move, offset_touch_event, EisTouchEvent, TouchState};
use crate::shared::client_datagram::ClientDatagram;
use crate::shared::server_datagram::ServerDatagram;
use vstd::prelude::*;

verus! {

/// An event for one of the emulated devices.
#[derive(Debug, Clone, Copy, PartialEq, Eq, Structural)]
pub enum EisInputEvent {
    Touch(EisTouchEvent),
    Keyboard(EisKeyboardEvent),
    Pointer(EisPointerEvent),
    Button(EisButtonEvent),
    Scroll(EisScrollEvent),
}

pub open spec fn keyboard_inputs(events: Seq<EisKeyboardEvent>) -> Seq<EisInputEvent> {
    events.map_values(|e: EisKeyboardEvent| EisInputEvent::Keyboard(e))
}

pub open spec fn touch_inputs(events: Seq<EisTouchEvent>) -> Seq<EisInputEvent> {
    events.map_values(|e: EisTouchEvent| EisInputEvent::Touch(e))
}

/// What a client message leads to.
pub struct Routed {
    /// The events to send, in this order.
    pub events: Vec<EisInputEvent>,
    /// Whether the second after which held modifiers are let go starts anew.
    pub reset_timeout: bool,
}

/// Turns client messages into input events, and remembers what is held.
pub struct InputRouter {
    pub touch: TouchState,
    pub keyboard: KeyboardState,
    pub mouse: MouseState,
}

impl InputRouter {
    /// Nothing is held, nothing is known of the cursor.
    pub fn new() -> (r: InputRouter)
        ensures
            r.touch@ == Set::<u8>::empty(),
            r.keyboard@.bits == 0,
            r.mouse.last_pos is None,
            r.mouse.last_dx == 0,
            r.mouse.last_dy == 0,
            !r.mouse.motion_sent,
    {
        InputRouter {
            touch: TouchState::new(),
            keyboard: KeyboardState::new(),
            mouse: MouseState::new(),
        }
    }

    /// A message arrived from the browser. Messages that are no input do nothing.
    pub fn on_message(&mut self, message: &ClientDatagram) -> (r: Routed)
        ensures
            r.reset_timeout == (message is Keyboard),
            match *message {
                ClientDatagram::Touchscreen { index, x, y } => {
                    &&& r.events@ == seq![
                        EisInputEvent::Touch(
                            super::touch::touch_event(old(self).touch@, index, x, y),
                        ),
                    ]
                    &&& final(self).touch@ == old(self).touch@.insert(index)
                },
                ClientDatagram::TouchscreenRelease { index } => {
                    &&& r.events@ == if old(self).touch@.contains(index) {
                        seq![EisInputEvent::Touch(EisTouchEvent::Up { index })]
                    } else {
                        Seq::empty()
                    }
                    &&& final(self).touch@ == old(self).touch@.remove(index)
                },
                ClientDatagram::Keyboard { keycode, modifiers } => {
                    &&& r.events@ == keyboard_inputs(
                        super::eis_keyboard::transition(old(self).keyboard@, modifiers)
                            + super::eis_keyboard::tap(keycode@),
                    )
                    &&& final(self).keyboard@ == modifiers
                },
                ClientDatagram::MouseMove { dx, dy } => {
                    &&& r.events@ == seq![
                        EisInputEvent::Pointer(EisPointerEvent::Motion { dx, dy }),
                    ]
                    &&& final(self).mouse == MouseState {
                        last_pos: old(self).mouse.last_pos,
                        last_dx: dx,
                        last_dy: dy,
                        motion_sent: true,
                    }
                },
                ClientDatagram::MouseButton { button, pressed } => r.events@ == seq![
                    EisInputEvent::Button(
                        EisButtonEvent::Button {
                            button: super::pointer::linux_button(button),
                            pressed,
                        },
                    ),
                ],
                ClientDatagram::Scroll { dx, dy } => r.events@ == seq![
                    EisInputEvent::Scroll(EisScrollEvent::Scroll { dx, dy }),
                ],
                _ => r.events@ == Seq::<EisInputEvent>::empty(),
            },
            !(message is Touchscreen) && !(message is TouchscreenRelease) ==> final(self).touch@
                == old(self).touch@,
            !(message is Keyboard) ==> final(self).keyboard@ == old(self).keyboard@,
            !(message is MouseMove) ==> final(self).mouse == old(self).mouse,
    {
        let mut events: Vec<EisInputEvent> = Vec::new();
        let mut reset_timeout: bool = false;
        match message {
            ClientDatagram::Touchscreen { index, x, y } => {
                let made = self.touch.handle_touch(*index, *x, *y);
                events = touch_events(&made);
                assert(events@ =~= seq![EisInputEvent::Touch(made@[0])]);
            },
            ClientDatagram::TouchscreenRelease { index } => {
                if let Some(event) = self.touch.handle_release(*index) {
                    events.push(EisInputEvent::Touch(event));
                }
            },
            ClientDatagram::Keyboard { keycode, modifiers } => {
                let made = self.keyboard.handle_event(keycode.as_str(), *modifiers);
                events = keyboard_events(&made);
                reset_timeout = true;
            },
            ClientDatagram::MouseMove { dx, dy } => {
                let event = self.mouse.handle_move(*dx, *dy);
                events.push(EisInputEvent::Pointer(event));
            },
            ClientDatagram::MouseButton { button, pressed } => {
                let button = web_button_to_linux(*button);
                events.push(
                    EisInputEvent::Button(EisButtonEvent::Button { button, pressed: *pressed }),
                );
            },
            ClientDatagram::Scroll { dx, dy } => {
                events.push(EisInputEvent::Scroll(EisScrollEvent::Scroll { dx: *dx, dy: *dy }));
            },
            _ => {},
        }
        Routed { events, reset_timeout }
    }

    /// The compositor reports where the cursor is. Where an edge stopped it, the browser is
    /// told to let go of the mouse.
    pub fn on_cursor(&mut self, x: i32, y: i32) -> (reply: Option<ServerDatagram>)
        ensures
            reply is Some == super::pointer::hits_edge(old(self).mouse, x, y),
            reply matches Some(d) ==> d is ReleaseMouse,
            final(self).mouse == (MouseState {
                last_pos: Some((x, y)),
                last_dx: old(self).mouse.last_dx,
                last_dy: old(self).mouse.last_dy,
                motion_sent: false,
            }),
            final(self).touch@ == old(self).touch@,
            final(self).keyboard@ == old(self).keyboard@,
    {
        if self.mouse.update_compositor_pos(x, y) {
            Some(ServerDatagram::ReleaseMouse)
        } else {
            None
        }
    }

    /// Nothing arrived for a second: every finger is lifted, so that no touch is stuck after
    /// the browser is gone.
    pub fn on_idle(&mut self) -> (events: Vec<EisInputEvent>)
        ensures
            exists|lifted: Seq<EisTouchEvent>|
                {
                    &&& #[trigger] super::touch::lifts_all(old(self).touch@, lifted)
                    &&& events@ == touch_inputs(lifted)
                },
            final(self).touch@ == Set::<u8>::empty(),
            final(self).keyboard@ == old(self).keyboard@,
            final(self).mouse == old(self).mouse,
    {
        let made = self.touch.release_all();
        touch_events(&made)
    }

    /// No key arrived for a second: every modifier is let go.
    pub fn on_modifier_timeout(&mut self) -> (events: Vec<EisInputEvent>)
        ensures
            events@ == keyboard_inputs(super::eis_keyboard::releases(old(self).keyboard@)),
            final(self).keyboard@.bits == 0,
            final(self).touch@ == old(self).touch@,
            final(self).mouse == old(self).mouse,
    {
        let made = self.keyboard.release_all_modifiers();
        keyboard_events(&made)
    }
}

fn touch_events(made: &Vec<EisTouchEvent>) -> (events: Vec<EisInputEvent>)
    ensures
        events@ == touch_inputs(made@),
{
    let mut events: Vec<EisInputEvent> = Vec::new();
    let mut i: usize = 0;
    while i < made.len()
        invariant
            i <= made.len(),
            events@ == touch_inputs(made@.take(i as int)),
        decreases made.len() - i,
    {
        events.push(EisInputEvent::Touch(made[i]));
        i += 1;
        assert(touch_inputs(made@.take(i as int)) =~= touch_inputs(made@.take(i - 1)).push(
            EisInputEvent::Touch(made@[i - 1]),
        ));
    }
    assert(made@.take(made@.len() as int) =~= made@);
    events
}

fn keyboard_events(made: &Vec<EisKeyboardEvent>) -> (events: Vec<EisInputEvent>)
    ensures
        events@ == keyboard_inputs(made@),
{
    let mut events: Vec<EisInputEvent> = Vec::new();
    let mut i: usize = 0;
    while i < made.len()
        invariant
            i <= made.len(),
            events@ == keyboard_inputs(made@.take(i as int)),
        decreases made.len() - i,
    {
        events.push(EisInputEvent::Keyboard(made[i]));
        i += 1;
        assert(keyboard_inputs(made@.take(i as int)) =~= keyboard_inputs(made@.take(i - 1)).push(
            EisInputEvent::Keyboard(made@[i - 1]),
        ));
    }
    assert(made@.take(made@.len() as int) =~= made@);
    events
}

// ----- sending

/// The number after `n`; after the last one comes 0.
pub open spec fn successor(n: u32) -> u32 {
    if n == u32::MAX {
        0
    } else {
        (n + 1) as u32
    }
}

/// The number after `n`; after the last one comes 0.
pub fn next_number(n: u32) -> (r: u32)
    ensures
        r == successor(n),
{
    n.wrapping_add(1)
}

/// The emulation sequence numbers, one row for each kind of event.
#[derive(Debug, Clone, Copy, PartialEq, Eq, Structural)]
pub struct Sequences {
    pub touch: u32,
    pub keyboard: u32,
    pub pointer: u32,
    pub button: u32,
    pub scroll: u32,
}

/// The emulated device that an event goes to.
#[derive(Debug, Clone, Copy, PartialEq, Eq, Structural)]
pub enum EisDevice {
    Touch,
    Keyboard,
    Pointer,
}

/// Buttons and the wheel belong to the pointer.
pub open spec fn device_of(event: EisInputEvent) -> EisDevice {
    match event {
        EisInputEvent::Touch(_) => EisDevice::Touch,
        EisInputEvent::Keyboard(_) => EisDevice::Keyboard,
        _ => EisDevice::Pointer,
    }
}

/// The sequence numbers after an event of this kind.
pub open spec fn advanced(s: Sequences, event: EisInputEvent) -> Sequences {
    match event {
        EisInputEvent::Touch(_) => Sequences { touch: successor(s.touch), ..s },
        EisInputEvent::Keyboard(_) => Sequences { keyboard: successor(s.keyboard), ..s },
        EisInputEvent::Pointer(_) => Sequences { pointer: successor(s.pointer), ..s },
        EisInputEvent::Button(_) => Sequences { button: successor(s.button), ..s },
        EisInputEvent::Scroll(_) => Sequences { scroll: successor(s.scroll), ..s },
    }
}

/// The number of the row of an event's kind.
pub open spec fn number_for(s: Sequences, event: EisInputEvent) -> u32 {
    match event {
        EisInputEvent::Touch(_) => s.touch,
        EisInputEvent::Keyboard(_) => s.keyboard,
        EisInputEvent::Pointer(_) => s.pointer,
        EisInputEvent::Button(_) => s.button,
        EisInputEvent::Scroll(_) => s.scroll,
    }
}

/// What is sent for an event: the event itself, with touches moved to where the stream
/// stands on the desktop, its device and its sequence number.
#[derive(Debug, Clone, Copy, PartialEq, Eq, Structural)]
pub struct EisCommand {
    pub event: EisInputEvent,
    pub device: EisDevice,
    pub sequence: u32,
}

/// Whether an event can be moved to where the stream stands.
pub open spec fn placeable(event: EisInputEvent, stream_pos: (i32, i32)) -> bool {
    event matches EisInputEvent::Touch(touch) ==> super::touch::movable(
        touch,
        stream_pos.0,
        stream_pos.1,
    )
}

/// Whether an event can be moved to where the stream stands.
pub fn can_place(event: EisInputEvent, stream_pos: (i32, i32)) -> (r: bool)
    ensures
        r == placeable(event, stream_pos),
{
    match event {
        EisInputEvent::Touch(touch) => can_move(touch, stream_pos),
        _ => true,
    }
}

impl Sequences {
    /// Nothing was sent yet.
    pub fn new() -> (s: Sequences)
        ensures
            s == (Sequences { touch: 0, keyboard: 0, pointer: 0, button: 0, scroll: 0 }),
    {
        Sequences { touch: 0, keyboard: 0, pointer: 0, button: 0, scroll: 0 }
    }

    /// Prepares an event for sending.
    pub fn prepare(&mut self, event: EisInputEvent, stream_pos: (i32, i32)) -> (c: EisCommand)
        requires
            placeable(event, stream_pos),
        ensures
            *final(self) == advanced(*old(self), event),
            c.sequence == number_for(*final(self), event),
            c.device == device_of(event),
            c.event == (match event {
                EisInputEvent::Touch(touch) => EisInputEvent::Touch(
                    super::touch::moved(touch, stream_pos.0, stream_pos.1),
                ),
                _ => event,
            }),
    {
        match event {
            EisInputEvent::Touch(touch) => {
                self.touch = next_number(self.touch);
                let event = EisInputEvent::Touch(offset_touch_event(touch, stream_pos));
                EisCommand { event, device: EisDevice::Touch, sequence: self.touch }
            },
            EisInputEvent::Keyboard(_) => {
                self.keyboard = next_number(self.keyboard);
                EisCommand { event, device: EisDevice::Keyboard, sequence: self.keyboard }
            },
            EisInputEvent::Pointer(_) => {
                self.pointer = next_number(self.pointer);
                EisCommand { event, device: EisDevice::Pointer, sequence: self.pointer }
            },
            EisInputEvent::Button(_) => {
                self.button = next_number(self.button);
                EisCommand { event, device: EisDevice::Pointer, sequence: self.button }
            },
            EisInputEvent::Scroll(_) => {
                self.scroll = next_number(self.scroll);
                EisCommand { event, device: EisDevice::Pointer, sequence: self.scroll }
            },
        }
    }
}

// ----- the devices of a seat

/// What the EIS connection reports. Devices go by a number of their own.
#[derive(Debug, Clone, Copy, PartialEq, Eq, Structural)]
pub enum EisSignal {
    SeatAdded,
    DeviceAdded { device: u64, touch: bool, keyboard: bool, pointer: bool },
    DeviceResumed { device: u64 },
    DevicePaused { device: u64 },
    Disconnected,
    Other,
    /// The stream reported an error.
    Failed,
    /// The stream is at its end.
    Closed,
}

/// The devices that were found so far, and which of them have been resumed.
#[derive(Debug, Clone, Copy, PartialEq, Eq, Structural)]
pub struct DeviceSearch {
    pub touch: Option<u64>,
    pub keyboard: Option<u64>,
    pub pointer: Option<u64>,
    pub touch_resumed: bool,
    pub keyboard_resumed: bool,
    pub pointer_resumed: bool,
}

/// What to do after a signal.
#[derive(Debug, Clone, Copy, PartialEq, Eq, Structural)]
pub enum SearchStep {
    /// Ask the seat for all kinds of devices.
    BindCapabilities,
    /// Wait for the next signal.
    Wait,
    /// All devices are there and may be used.
    Ready { touch: u64, keyboard: u64, pointer: u64 },
    /// There will be no devices.
    GiveUp,
}

impl DeviceSearch {
    /// Only a device that was found can have been resumed.
    pub open spec fn well_formed(self) -> bool {
        &&& self.touch_resumed ==> self.touch is Some
        &&& self.keyboard_resumed ==> self.keyboard is Some
        &&& self.pointer_resumed ==> self.pointer is Some
    }

    /// Every kind of device was found and resumed.
    pub open spec fn ready(self) -> bool {
        self.touch_resumed && self.keyboard_resumed && self.pointer_resumed
    }

    /// The search after a signal: the first device of each kind is taken, and a device that
    /// was taken is marked when it is resumed.
    pub open spec fn after(self, signal: EisSignal) -> DeviceSearch {
        match signal {
            EisSignal::DeviceAdded { device, touch, keyboard, pointer } => DeviceSearch {
                touch: if touch && self.touch is None {
                    Some(device)
                } else {
                    self.touch
                },
                keyboard: if keyboard && self.keyboard is None {
                    Some(device)
                } else {
                    self.keyboard
                },
                pointer: if pointer && self.pointer is None {
                    Some(device)
                } else {
                    self.pointer
                },
                ..self
            },
            EisSignal::DeviceResumed { device } => DeviceSearch {
                touch_resumed: self.touch_resumed || self.touch == Some(device),
                keyboard_resumed: self.keyboard_resumed || self.keyboard == Some(device),
                pointer_resumed: self.pointer_resumed || self.pointer == Some(device),
                ..self
            },
            _ => self,
        }
    }

    /// Nothing was found yet.
    pub fn new() -> (s: DeviceSearch)
        ensures
            s.well_formed(),
            s == (DeviceSearch {
                touch: None,
                keyboard: None,
                pointer: None,
                touch_resumed: false,
                keyboard_resumed: false,
                pointer_resumed: false,
            }),
    {
        DeviceSearch {
            touch: None,
            keyboard: None,
            pointer: None,
            touch_resumed: false,
            keyboard_resumed: false,
            pointer_resumed: false,
        }
    }

    /// Takes note of a signal and says what to do.
    pub fn step(&mut self, signal: EisSignal) -> (r: SearchStep)
        requires
            old(self).well_formed(),
        ensures
            final(self).well_formed(),
            *final(self) == old(self).after(signal),
            r == (match signal {
                EisSignal::SeatAdded => SearchStep::BindCapabilities,
                EisSignal::DeviceResumed { .. } => if final(self).ready() {
                    SearchStep::Ready {
                        touch: final(self).touch->0,
                        keyboard: final(self).keyboard->0,
                        pointer: final(self).pointer->0,
                    }
                } else {
                    SearchStep::Wait
                },
                EisSignal::Disconnected | EisSignal::Failed | EisSignal::Closed =>
                SearchStep::GiveUp,
                _ => SearchStep::Wait,
            }),
            r is BindCapabilities <==> signal is SeatAdded,
            r is GiveUp <==> signal is Disconnected || signal is Failed || signal is Closed,
            r is Ready <==> signal is DeviceResumed && final(self).touch_resumed
                && final(self).keyboard_resumed && final(self).pointer_resumed,
            r matches SearchStep::Ready { touch, keyboard, pointer } ==> final(self).touch == Some(touch)
                && final(self).keyboard == Some(keyboard) && final(self).pointer == Some(pointer),
    {
        match signal {
            EisSignal::SeatAdded => SearchStep::BindCapabilities,
            EisSignal::DeviceAdded { device, touch, keyboard, pointer } => {
                if touch && self.touch.is_none() {
                    self.touch = Some(device);
                }
                if keyboard && self.keyboard.is_none() {
                    self.keyboard = Some(device);
                }
                if pointer && self.pointer.is_none() {
                    self.pointer = Some(device);
                }
                SearchStep::Wait
            },
            EisSignal::DeviceResumed { device } => {
                if let Some(found) = self.touch {
                    if found == device {
                        self.touch_resumed = true;
                    }
                }
                if let Some(found) = self.keyboard {
                    if found == device {
                        self.keyboard_resumed = true;
                    }
                }
                if let Some(found) = self.pointer {
                    if found == device {
                        self.pointer_resumed = true;
                    }
                }
                match (self.touch, self.keyboard, self.pointer) {
                    (Some(touch), Some(keyboard), Some(pointer)) => if self.touch_resumed
                        && self.keyboard_resumed && self.pointer_resumed {
                        SearchStep::Ready { touch, keyboard, pointer }
                    } else {
                        SearchStep::Wait
                    },
                    _ => SearchStep::Wait,
                }
            },
            EisSignal::Disconnected | EisSignal::Failed | EisSignal::Closed => SearchStep::GiveUp,
            EisSignal::DevicePaused { .. } | EisSignal::Other => SearchStep::Wait,
        }
    }
}

/// The search after a row of signals.
pub open spec fn search_after(s: DeviceSearch, signals: Seq<EisSignal>) -> DeviceSearch
    decreases signals.len(),
{
    if signals.len() == 0 {
        s
    } else {
        search_after(s, signals.drop_last()).after(signals.last())
    }
}

/// Once a device of a kind was taken it stays, and once it was resumed it counts as resumed.
pub proof fn found_devices_stay(s: DeviceSearch, signals: Seq<EisSignal>)
    requires
        s.well_formed(),
    ensures
        search_after(s, signals).well_formed(),
        s.touch is Some ==> search_after(s, signals).touch == s.touch,
        s.keyboard is Some ==> search_after(s, signals).keyboard == s.keyboard,
        s.pointer is Some ==> search_after(s, signals).pointer == s.pointer,
        s.ready() ==> search_after(s, signals).ready(),
    decreases signals.len(),
{
    if signals.len() > 0 {
        found_devices_stay(s, signals.drop_last());
    }
}

/// The devices are ready after a row of signals only if each of the three was resumed by
/// one of them.
pub proof fn ready_devices_were_resumed(s: DeviceSearch, signals: Seq<EisSignal>)
    requires
        s.well_formed(),
        !s.touch_resumed && !s.keyboard_resumed && !s.pointer_resumed,
        search_after(s, signals).ready(),
    ensures
        signals.contains(
            EisSignal::DeviceResumed { device: search_after(s, signals).touch->0 },
        ),
        signals.contains(
            EisSignal::DeviceResumed { device: search_after(s, signals).keyboard->0 },
        ),
        signals.contains(
            EisSignal::DeviceResumed { device: search_after(s, signals).pointer->0 },
        ),
{
    resumed_devices_were_resumed(s, signals);
}

proof fn resumed_devices_were_resumed(s: DeviceSearch, signals: Seq<EisSignal>)
    requires
        s.well_formed(),
        !s.touch_resumed && !s.keyboard_resumed && !s.pointer_resumed,
    ensures
        search_after(s, signals).well_formed(),
        search_after(s, signals).touch_resumed ==> signals.contains(
            EisSignal::DeviceResumed { device: search_after(s, signals).touch->0 },
        ),
        search_after(s, signals).keyboard_resumed ==> signals.contains(
            EisSignal::DeviceResumed { device: search_after(s, signals).keyboard->0 },
        ),
        search_after(s, signals).pointer_resumed ==> signals.contains(
            EisSignal::DeviceResumed { device: search_after(s, signals).pointer->0 },
        ),
    decreases signals.len(),
{
    if signals.len() > 0 {
        let before = signals.drop_last();
        resumed_devices_were_resumed(s, before);
        let t = search_after(s, before);
        assert(signals[signals.len() - 1] == signals.last());
        assert forall|x: EisSignal| #[trigger] before.contains(x) implies signals.contains(x) by {
            let i = choose|i: int| 0 <= i < before.len() && before[i] == x;
            assert(signals[i] == x);
        }
        let x = EisSignal::DeviceResumed { device: t.touch->0 };
        let y = EisSignal::DeviceResumed { device: t.keyboard->0 };
        let z = EisSignal::DeviceResumed { device: t.pointer->0 };
        assert(before.contains(x) ==> signals.contains(x));
        assert(before.contains(y) ==> signals.contains(y));
        assert(before.contains(z) ==> signals.contains(z));
    }
}

/// What to do after a signal while input is being sent.
#[derive(Debug, Clone, Copy, PartialEq, Eq, Structural)]
pub enum SendingStep {
    Continue,
    /// A device is paused: hold back until the wait for its return is over.
    AwaitResume,
    Stop,
}

/// What a signal means while input is being sent.
pub fn sending_step(signal: EisSignal) -> (r: SendingStep)
    ensures
        r == (match signal {
            EisSignal::DevicePaused { .. } => SendingStep::AwaitResume,
            EisSignal::Disconnected | EisSignal::Failed | EisSignal::Closed => SendingStep::Stop,
            _ => SendingStep::Continue,
        }),
        r is AwaitResume <==> signal is DevicePaused,
        r is Stop <==> signal is Disconnected || signal is Failed || signal is Closed,
{
    match signal {
        EisSignal::DevicePaused { .. } => SendingStep::AwaitResume,
        EisSignal::Disconnected | EisSignal::Failed | EisSignal::Closed => SendingStep::Stop,
        _ => SendingStep::Continue,
    }
}

/// Whether a signal ends the wait for a paused device.
pub fn ends_pause(signal: EisSignal) -> (r: bool)
    ensures
        r == (signal is DeviceResumed || signal is Disconnected || signal is Failed
            || signal is Closed),
        r <==> !(signal is SeatAdded || signal is DeviceAdded || signal is DevicePaused || signal
            is Other),
{
    match signal {
        EisSignal::DeviceResumed { .. }
        | EisSignal::Disconnected
        | EisSignal::Failed
        | EisSignal::Closed => true,
        _ => false,
    }
}

// ----- connecting

/// How long to wait before the compositor is asked for a connection again, in milliseconds.
pub const RETRY_MS: u64 = 500;

/// Where the attempts to connect to the compositor's input stand.
#[derive(Debug, Clone, Copy, PartialEq, Eq, Structural)]
pub enum ConnectState {
    /// It is asked for the first time.
    First,
    /// It is asked once more.
    Again,
}

/// What to do after an attempt to connect.
#[derive(Debug, Clone, Copy, PartialEq, Eq, Structural)]
pub enum ConnectAction {
    /// Go on with the connection.
    Proceed,
    /// Wait for so many milliseconds and ask once more.
    RetryAfter(u64),
    /// Fail as the attempt did.
    Fail,
}

/// What an attempt to connect leads to: a first one that fails is followed by one more.
pub open spec fn connect_step(state: ConnectState, connected: bool) -> (ConnectState, ConnectAction) {
    if connected {
        (state, ConnectAction::Proceed)
    } else {
        match state {
            ConnectState::First => (ConnectState::Again, ConnectAction::RetryAfter(RETRY_MS)),
            ConnectState::Again => (ConnectState::Again, ConnectAction::Fail),
        }
    }
}

impl ConnectState {
    /// No attempt was made.
    pub fn new() -> (s: ConnectState)
        ensures
            s == ConnectState::First,
    {
        ConnectState::First
    }

    /// Takes note of whether an attempt succeeded and says what to do.
    pub fn step(&mut self, connected: bool) -> (action: ConnectAction)
        ensures
            (*final(self), action) == connect_step(*old(self), connected),
    {
        if connected {
            return ConnectAction::Proceed;
        }
        match *self {
            ConnectState::First => {
                *self = ConnectState::Again;
                ConnectAction::RetryAfter(RETRY_MS)
            },
            ConnectState::Again => ConnectAction::Fail,
        }
    }
}

/// Where the attempts stand after a row of failures.
pub open spec fn after_refusals(n: nat) -> ConnectState {
    if n == 0 {
        ConnectState::First
    } else {
        ConnectState::Again
    }
}

/// A connection is asked for twice and not more often: another attempt follows the first
/// failure, and none the second.
pub proof fn connections_are_tried_twice(n: nat)
    ensures
        connect_step(after_refusals(n), false).0 == after_refusals(n + 1),
        connect_step(after_refusals(n), false).1 is RetryAfter <==> n == 0,
        connect_step(after_refusals(n), true).1 == ConnectAction::Proceed,
{
}

/// A number is followed by the next one, and the last of 32 bits by 0.
pub proof fn numbers_count_up(n: u32)
    ensures
        n < 0xffff_ffff ==> successor(n) == n + 1,
        n == 0xffff_ffff ==> successor(n) == 0,
{
}

/// Each kind of event is counted apart: an event takes the next number of its own kind, and the
/// numbers of the other kinds stay where they are.
pub proof fn kinds_are_counted_apart(s: Sequences, event: EisInputEvent)
    ensures
        ({
            let t = advanced(s, event);
            &&& (number_for(t, event) - number_for(s, event) - 1) % 0x1_0000_0000 == 0
            &&& event is Touch ==> number_for(t, event) == t.touch
            &&& event is Keyboard ==> number_for(t, event) == t.keyboard
            &&& event is Pointer ==> number_for(t, event) == t.pointer
            &&& event is Button ==> number_for(t, event) == t.button
            &&& event is Scroll ==> number_for(t, event) == t.scroll
            &&& event !is Touch ==> t.touch == s.touch
            &&& event !is Keyboard ==> t.keyboard == s.keyboard
            &&& event !is Pointer ==> t.pointer == s.pointer
            &&& event !is Button ==> t.button == s.button
            &&& event !is Scroll ==> t.scroll == s.scroll
        }),
{
}

/// Touches go to the touchscreen, keys to the keyboard, and all that a mouse does to the pointer.
pub proof fn events_have_their_devices(event: EisInputEvent)
    ensures
        device_of(event) == EisDevice::Touch <==> event is Touch,
        device_of(event) == EisDevice::Keyboard <==> event is Keyboard,
        device_of(event) == EisDevice::Pointer <==> event is Pointer || event is Button || event
            is Scroll,
{
}

/// Events are turned into inputs one for one, in their order, and nothing in them changes.
pub proof fn inputs_follow_their_events(
    keys: Seq<EisKeyboardEvent>,
    touches: Seq<EisTouchEvent>,
    i: int,
)
    ensures
        keyboard_inputs(keys).len() == keys.len(),
        touch_inputs(touches).len() == touches.len(),
        0 <= i < keys.len() ==> keyboard_inputs(keys)[i] == EisInputEvent::Keyboard(keys[i]),
        0 <= i < touches.len() ==> touch_inputs(touches)[i] == EisInputEvent::Touch(touches[i]),
{
}

/// A new device is taken for what it can do and what is not found yet; it is not in use before
/// it was resumed, and what was found keeps its place.
pub proof fn devices_are_taken_for_what_they_can_do(
    s: DeviceSearch,
    device: u64,
    touch: bool,
    keyboard: bool,
    pointer: bool,
)
    ensures
        ({
            let t = s.after(EisSignal::DeviceAdded { device, touch, keyboard, pointer });
            &&& s.touch is Some || !touch ==> t.touch == s.touch
            &&& s.touch is None && touch ==> t.touch == Some(device)
            &&& s.keyboard is Some || !keyboard ==> t.keyboard == s.keyboard
            &&& s.keyboard is None && keyboard ==> t.keyboard == Some(device)
            &&& s.pointer is Some || !pointer ==> t.pointer == s.pointer
            &&& s.pointer is None && pointer ==> t.pointer == Some(device)
            &&& t.touch_resumed == s.touch_resumed
            &&& t.keyboard_resumed == s.keyboard_resumed
            &&& t.pointer_resumed == s.pointer_resumed
        }),
{
}

/// A device that is resumed is ready in each place it was taken for, and no other place changes;
/// signals that are neither change nothing.
pub proof fn resumed_devices_are_ready(s: DeviceSearch, signal: EisSignal)
    ensures
        ({
            let t = s.after(signal);
            &&& signal !is DeviceAdded ==> t.touch == s.touch && t.keyboard == s.keyboard
                && t.pointer == s.pointer
            &&& signal matches EisSignal::DeviceResumed { device } ==> {
                &&& t.touch_resumed <==> s.touch_resumed || s.touch == Some(device)
                &&& t.keyboard_resumed <==> s.keyboard_resumed || s.keyboard == Some(device)
                &&& t.pointer_resumed <==> s.pointer_resumed || s.pointer == Some(device)
            }
            &&& signal !is DeviceResumed && signal !is DeviceAdded ==> t == s
        }),
{
}

/// All three devices are in use once each was resumed, and not before.
pub proof fn all_three_devices_are_needed(s: DeviceSearch)
    ensures
        s.ready() <==> s.touch_resumed && s.keyboard_resumed && s.pointer_resumed,
        s.well_formed() && s.ready() ==> s.touch is Some && s.keyboard is Some && s.pointer is Some,
{
}

/// A connection that stands is used; a first refusal is answered by one more try, half a second
/// later; a second one ends it.
pub proof fn one_more_try_comes_after_half_a_second(state: ConnectState, connected: bool)
    ensures
        connect_step(state, connected).1 == ConnectAction::Proceed <==> connected,
        connect_step(state, connected).1 == ConnectAction::RetryAfter(500) <==> !connected && state
            is First,
        connect_step(state, connected).1 == ConnectAction::Fail <==> !connected && state is Again,
        connect_step(state, connected).0 is First <==> connected && state is First,
{
}

/// Only a touch depends on where the stream lies on the screen.
pub proof fn only_touches_are_placed(event: EisInputEvent, stream_pos: (i32, i32))
    ensures
        event !is Touch ==> placeable(event, stream_pos),
        event matches EisInputEvent::Touch(super::touch::EisTouchEvent::Up { .. }) ==> placeable(
            event,
            stream_pos,
        ),
        event matches EisInputEvent::Touch(super::touch::EisTouchEvent::Down { x, y, .. }) ==> (
        placeable(event, stream_pos) <==> x + stream_pos.0 <= 2147483647 && y + stream_pos.1
            <= 2147483647),
        event matches EisInputEvent::Touch(super::touch::EisTouchEvent::Motion { x, y, .. }) ==> (
        placeable(event, stream_pos) <==> x + stream_pos.0 <= 2147483647 && y + stream_pos.1
            <= 2147483647),
{
}

} // verus!
