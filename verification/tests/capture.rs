//! Screen capture, audio and emulated input.
use webshooter::server::input::{self, ClientDatagram as InputDatagram};
use webshooter::server::pipewire::audio::{
    audio_pipeline_description, channel_map, sink_channels, sink_name, sink_rate, AudioForwarder,
    AudioPacket,
};
use webshooter::server::pipewire::eis::{
    ends_pause, sending_step, ConnectAction, ConnectState, DeviceSearch, EisDevice, EisInputEvent,
    EisSignal, InputRouter, SearchStep, SendingStep, Sequences,
};
use webshooter::server::pipewire::eis_keyboard::{
    is_modifier_code, js_keycode_to_eis_key, modifier_keycodes, EisKeyboardEvent, KeyboardState,
    ModifierState,
};
use webshooter::server::pipewire::gamepad::{device_name, GamepadManager};
use webshooter::server::pipewire::pointer::{
    web_button_to_linux, EisButtonEvent, EisPointerEvent, EisScrollEvent, MouseState,
};
use webshooter::server::pipewire::portal_auth::{
    get_portal_token, set_portal_token, DialogAction, DialogSignal, DialogState, PortalToken,
};
use webshooter::server::pipewire::touch::{can_move, offset_touch_event, EisTouchEvent, TouchState};
use webshooter::server::pipewire::video::{
    bus_verdict, capture_codec, is_gpu_loss, is_kwin, keyframe_step, monitor_arguments,
    monitor_kind, no_stream_message, pick_stream, pipeline_description, sized_stream, source_kind,
    BusMessage, BusVerdict, CaptureAction, CaptureSignal, CaptureState, DisplaySize,
    KeyframeSignal, KeyframeStep, MonitorKind, SourceKind, SpawnOutcome,
};
use webshooter::server::server_datagram::ServerDatagram as OldDatagram;
use webshooter::server::video::{
    av1_pipeline_description, capture_step, muxed_pipeline_description, replay_touch, TouchNotice,
    TouchSignal,
};
use webshooter::server::wt::{
    audio_step, fragment_frame, token_from_path, AudioSignal, AudioStep, ClientEvents,
    FrameForwarder,
};
use webshooter::shared::client_datagram::{ClientDatagram, Modifiers};
use webshooter::shared::codec::Codec;
use webshooter::shared::server_datagram::{AudioFormat, ServerDatagram};
use webshooter::shared::wire::WireError;

fn mods(shift: bool, ctrl: bool, alt: bool, meta: bool) -> Modifiers {
    Modifiers::from_keys(shift, ctrl, alt, meta)
}

fn key(key: u32, press: bool) -> EisKeyboardEvent {
    EisKeyboardEvent { key, press }
}

#[test]
fn keys_have_linux_codes() {
    let known = [
        ("Escape", 1),
        ("Digit1", 2),
        ("Digit0", 11),
        ("Minus", 12),
        ("Backspace", 14),
        ("Tab", 15),
        ("KeyQ", 16),
        ("Enter", 28),
        ("KeyA", 30),
        ("KeyZ", 44),
        ("Space", 57),
        ("CapsLock", 58),
        ("F1", 59),
        ("F10", 68),
        ("F11", 87),
        ("F12", 88),
        ("ArrowUp", 103),
        ("ArrowDown", 108),
        ("Delete", 111),
        ("Numpad0", 82),
        ("Numpad9", 73),
        ("BracketLeft", 26),
        ("BracketRight", 27),
        ("Backslash", 43),
    ];
    for (code, linux) in known {
        assert_eq!(js_keycode_to_eis_key(code), Some(linux), "{code}");
    }
    for code in ["", "keya", "KeyÄ", "ShiftLeft", "F25", "Escape "] {
        assert_eq!(js_keycode_to_eis_key(code), None, "{code}");
    }
    for code in ["ShiftLeft", "ShiftRight", "ControlLeft", "AltRight", "MetaLeft"] {
        assert!(is_modifier_code(code), "{code}");
    }
    assert!(!is_modifier_code("KeyA"));
}

#[test]
fn modifiers_follow_the_message() {
    assert_eq!(modifier_keycodes(mods(true, true, true, true)).len(), 4);
    assert!(modifier_keycodes(Modifiers::empty()).is_empty());
    let mut state = ModifierState::new();
    assert_eq!(state.sync(mods(true, false, false, false)), vec![key(42, true)]);
    assert!(state.sync(mods(true, false, false, false)).is_empty());
    let changed = state.sync(mods(false, true, false, false));
    assert_eq!(changed.len(), 2);
    assert!(changed.contains(&key(42, false)) && changed.contains(&key(29, true)));
    assert_eq!(state.release_all(), vec![key(29, false)]);
    assert!(state.release_all().is_empty());
}

#[test]
fn a_key_is_tapped_with_its_modifiers() {
    let mut state = KeyboardState::new();
    assert_eq!(
        state.handle_event("KeyA", mods(true, false, false, false)),
        vec![key(42, true), key(30, true), key(30, false)]
    );
    assert_eq!(
        state.handle_event("KeyB", mods(true, false, false, false)),
        vec![key(48, true), key(48, false)]
    );
    assert_eq!(state.handle_event("Unknown", mods(false, false, false, false)), vec![key(42, false)]);
    assert!(state.handle_event("ShiftLeft", mods(false, false, false, false)).is_empty());
    state.handle_event("KeyA", mods(false, false, true, false));
    assert_eq!(state.release_all_modifiers(), vec![key(56, false)]);
}

#[test]
fn an_edge_stops_the_cursor() {
    let mut mouse = MouseState::new();
    assert!(!mouse.update_compositor_pos(10, 10));
    assert_eq!(mouse.handle_move(-5, 2), EisPointerEvent::Motion { dx: -5, dy: 2 });
    assert!(mouse.update_compositor_pos(10, 12));
    assert!(!mouse.update_compositor_pos(10, 12));
    mouse.handle_move(2, 5);
    assert!(!mouse.update_compositor_pos(10, 17));
    mouse.handle_move(2, 5);
    assert!(mouse.update_compositor_pos(12, 17));
    mouse.handle_move(i16::MIN, i16::MIN);
    assert!(mouse.update_compositor_pos(12, 0));
    assert_eq!(web_button_to_linux(0), 0x110);
    assert_eq!(web_button_to_linux(1), 0x112);
    assert_eq!(web_button_to_linux(2), 0x111);
    assert_eq!(web_button_to_linux(3), 0x103);
    assert_eq!(web_button_to_linux(16), web_button_to_linux(0));
}

#[test]
fn fingers_go_down_move_and_lift() {
    let mut touch = TouchState::new();
    assert_eq!(touch.handle_touch(1, 5, 6), vec![EisTouchEvent::Down { x: 5, y: 6, index: 1 }]);
    assert_eq!(touch.handle_touch(1, 7, 8), vec![EisTouchEvent::Motion { x: 7, y: 8, index: 1 }]);
    assert_eq!(touch.handle_release(2), None);
    assert_eq!(touch.handle_release(1), Some(EisTouchEvent::Up { index: 1 }));
    touch.handle_touch(3, 0, 0);
    touch.handle_touch(4, 0, 0);
    let lifted = touch.release_all();
    assert_eq!(lifted.len(), 2);
    assert!(lifted.contains(&EisTouchEvent::Up { index: 3 }));
    assert!(lifted.contains(&EisTouchEvent::Up { index: 4 }));
    assert!(touch.release_all().is_empty());
    assert_eq!(
        offset_touch_event(EisTouchEvent::Down { x: 5, y: 6, index: 1 }, (100, -10)),
        EisTouchEvent::Down { x: 105, y: 0, index: 1 }
    );
    assert_eq!(
        offset_touch_event(EisTouchEvent::Up { index: 1 }, (100, -10)),
        EisTouchEvent::Up { index: 1 }
    );
    let far = EisTouchEvent::Motion { x: 1, y: 0, index: 1 };
    assert!(can_move(far, (i32::MAX - 1, i32::MAX)));
    assert!(!can_move(far, (i32::MAX, 0)));
    assert!(can_move(EisTouchEvent::Up { index: 1 }, (i32::MAX, i32::MAX)));
}

#[test]
fn messages_become_input() {
    let mut router = InputRouter::new();
    let routed = router.on_message(&ClientDatagram::Touchscreen { index: 2, x: 1, y: 1 });
    assert_eq!(
        routed.events,
        vec![EisInputEvent::Touch(EisTouchEvent::Down { x: 1, y: 1, index: 2 })]
    );
    assert!(!routed.reset_timeout);
    let routed = router.on_message(&ClientDatagram::Keyboard {
        keycode: "KeyA".to_string(),
        modifiers: mods(false, true, false, false),
    });
    assert_eq!(routed.events.len(), 3);
    assert!(routed.reset_timeout);
    let routed = router.on_message(&ClientDatagram::MouseButton { button: 2, pressed: true });
    assert_eq!(
        routed.events,
        vec![EisInputEvent::Button(EisButtonEvent::Button { button: 0x111, pressed: true })]
    );
    let routed = router.on_message(&ClientDatagram::Scroll { dx: 1, dy: -120 });
    assert_eq!(
        routed.events,
        vec![EisInputEvent::Scroll(EisScrollEvent::Scroll { dx: 1, dy: -120 })]
    );
    assert!(router.on_message(&ClientDatagram::KeepAlive).events.is_empty());
    assert!(router
        .on_message(&ClientDatagram::TouchscreenRelease { index: 9 })
        .events
        .is_empty());
    assert_eq!(router.on_cursor(4, 4), None);
    router.on_message(&ClientDatagram::MouseMove { dx: 3, dy: 0 });
    assert_eq!(router.on_cursor(4, 4), Some(ServerDatagram::ReleaseMouse));
    assert_eq!(
        router.on_idle(),
        vec![EisInputEvent::Touch(EisTouchEvent::Up { index: 2 })]
    );
    assert_eq!(
        router.on_modifier_timeout(),
        vec![EisInputEvent::Keyboard(key(29, false))]
    );
}

#[test]
fn events_are_numbered_by_kind() {
    let mut sequences = Sequences::new();
    let touch = EisInputEvent::Touch(EisTouchEvent::Down { x: 1, y: 1, index: 0 });
    let first = sequences.prepare(touch, (10, 20));
    assert_eq!((first.device, first.sequence), (EisDevice::Touch, 1));
    assert_eq!(
        first.event,
        EisInputEvent::Touch(EisTouchEvent::Down { x: 11, y: 21, index: 0 })
    );
    let scroll = EisInputEvent::Scroll(EisScrollEvent::Scroll { dx: 0, dy: 1 });
    let second = sequences.prepare(scroll, (10, 20));
    assert_eq!((second.device, second.sequence), (EisDevice::Pointer, 1));
    assert_eq!(sequences.prepare(touch, (0, 0)).sequence, 2);
    sequences.keyboard = u32::MAX;
    let typed = sequences.prepare(EisInputEvent::Keyboard(key(30, true)), (0, 0));
    assert_eq!((typed.device, typed.sequence), (EisDevice::Keyboard, 0));
}

#[test]
fn devices_are_awaited() {
    let mut search = DeviceSearch::new();
    let added = |device, touch, keyboard, pointer| EisSignal::DeviceAdded {
        device,
        touch,
        keyboard,
        pointer,
    };
    assert_eq!(search.step(EisSignal::SeatAdded), SearchStep::BindCapabilities);
    assert_eq!(search.step(added(1, true, true, false)), SearchStep::Wait);
    assert_eq!(search.step(added(2, true, false, true)), SearchStep::Wait);
    assert_eq!(search.step(EisSignal::DeviceResumed { device: 1 }), SearchStep::Wait);
    assert_eq!(search.step(EisSignal::DevicePaused { device: 1 }), SearchStep::Wait);
    assert_eq!(
        search.step(EisSignal::DeviceResumed { device: 2 }),
        SearchStep::Ready { touch: 1, keyboard: 1, pointer: 2 }
    );
    for end in [EisSignal::Disconnected, EisSignal::Failed, EisSignal::Closed] {
        assert_eq!(DeviceSearch::new().step(end), SearchStep::GiveUp);
        assert_eq!(sending_step(end), SendingStep::Stop);
        assert!(ends_pause(end));
    }
    assert_eq!(sending_step(EisSignal::DevicePaused { device: 1 }), SendingStep::AwaitResume);
    assert_eq!(sending_step(EisSignal::Other), SendingStep::Continue);
    assert!(ends_pause(EisSignal::DeviceResumed { device: 9 }));
    assert!(!ends_pause(EisSignal::Other));
}

#[test]
fn captures_keep_their_size() {
    let size = |width, height, index| DisplaySize { width, height, index };
    let resize = |width, height, index| CaptureSignal::Resize { width, height, index };
    let mut state = CaptureState::AwaitingSize;
    assert_eq!(state.step(CaptureSignal::OtherMessage), CaptureAction::Wait);
    assert_eq!(state.step(resize(8, 6, 3)), CaptureAction::SetUp { size: size(8, 6, 3) });
    assert_eq!(state.step(CaptureSignal::SetUpFailed), CaptureAction::Restart { size: size(8, 6, 3) });
    assert_eq!(state.step(CaptureSignal::SetUp), CaptureAction::Wait);
    assert_eq!(state, CaptureState::Streaming { size: size(8, 6, 3) });
    assert_eq!(state.step(CaptureSignal::GpuLost), CaptureAction::Restart { size: size(8, 6, 3) });
    state.step(CaptureSignal::SetUp);
    assert_eq!(state.step(resize(9, 7, 5)), CaptureAction::Restart { size: size(9, 7, 3) });
    state.step(CaptureSignal::SetUp);
    assert_eq!(state.step(CaptureSignal::ClientGone), CaptureAction::StartOver);
    assert_eq!(state, CaptureState::AwaitingSize);
    assert_eq!(state.step(CaptureSignal::Cancelled), CaptureAction::Finish);
    assert_eq!(state.step(resize(1, 1, 1)), CaptureAction::Finish);

    let mut plain = CaptureState::SettingUp { size: size(8, 6, 3) };
    assert_eq!(capture_step(&mut plain, CaptureSignal::SetUpFailed), CaptureAction::StartOver);
    assert_eq!(plain, CaptureState::AwaitingSize);
    plain = CaptureState::Streaming { size: size(8, 6, 3) };
    assert_eq!(capture_step(&mut plain, CaptureSignal::GpuLost), CaptureAction::Wait);
    assert_eq!(
        capture_step(&mut plain, resize(9, 7, 5)),
        CaptureAction::Restart { size: size(9, 7, 3) }
    );
}

#[test]
fn monitors_come_from_kwin_or_the_portal() {
    assert!(is_kwin(Some("X-KDE-Plasma")));
    assert!(!is_kwin(Some("GNOME")) && !is_kwin(None));
    assert_eq!(monitor_kind(false, SpawnOutcome::Failed), Some(MonitorKind::Portal));
    assert_eq!(monitor_kind(true, SpawnOutcome::Started), Some(MonitorKind::ChildProcess));
    assert_eq!(monitor_kind(true, SpawnOutcome::NotFound), Some(MonitorKind::Portal));
    assert_eq!(monitor_kind(true, SpawnOutcome::Failed), None);
    assert_eq!(source_kind(MonitorKind::ChildProcess), SourceKind::Monitor);
    assert_eq!(source_kind(MonitorKind::Portal), SourceKind::Virtual);
    assert_eq!(
        monitor_arguments(1920, 1080, 2),
        vec![
            "--resolution",
            "1920x1080",
            "--name",
            "webshooter-2",
            "--password",
            "x",
            "--port",
            "-1"
        ]
    );
}

#[test]
fn the_last_stream_of_the_size_is_taken() {
    let streams = [Some((8, 6)), None, Some((-8, 6)), Some((9, 6)), Some((65536 + 8, 6))];
    assert_eq!(pick_stream(&streams, 8, 6), Some(4));
    assert_eq!(pick_stream(&streams[..4], 8, 6), Some(2));
    assert_eq!(pick_stream(&streams, 7, 6), None);
    assert!(sized_stream(Some((i32::MIN, 0)), 0, 0));
    assert_eq!(no_stream_message(8, 6), "no stream at 8x6 from portal start");
}

#[test]
fn pipelines_are_described() {
    assert_eq!(
        pipeline_description(5, 42, Codec::H264),
        "pipewiresrc fd=5 path=42 ! videoconvert ! vah264enc name=enc rate-control=vbr \
         bitrate=7000 target-percentage=75 ! appsink name=sink sync=false"
    );
    assert_eq!(
        av1_pipeline_description(-1, 0),
        "pipewiresrc fd=-1 path=0 ! videoconvert ! vaav1enc rate-control=vbr bitrate=7000 \
         target-percentage=75 ! appsink name=sink sync=false"
    );
    assert_eq!(
        muxed_pipeline_description(5, 42),
        "pipewiresrc fd=5 path=42 ! vaapipostproc ! vaav1enc ! av1parse ! matroskamux \
         streamable=true ! appsink name=sink sync=false"
    );
    assert_eq!(capture_codec(&None), Codec::Av1);
    assert_eq!(capture_codec(&Some(vec![Codec::Vp9, Codec::H264])), Codec::H264);
}

#[test]
fn a_lost_gpu_restarts_the_capture() {
    for words in ["the context was lost", "hard recovery", "GPU hang", "vaapi x", "amf y"] {
        assert!(is_gpu_loss(words), "{words}");
    }
    assert!(!is_gpu_loss("context") && !is_gpu_loss("stream ended") && !is_gpu_loss("gpu"));
    assert_eq!(
        bus_verdict(&BusMessage::Error("GPU".to_string())),
        BusVerdict { stop: true, restart: true }
    );
    assert_eq!(
        bus_verdict(&BusMessage::Error("x".to_string())),
        BusVerdict { stop: true, restart: false }
    );
    assert_eq!(bus_verdict(&BusMessage::EndOfStream), BusVerdict { stop: true, restart: false });
    assert_eq!(bus_verdict(&BusMessage::Other), BusVerdict { stop: false, restart: false });
    assert_eq!(keyframe_step(KeyframeSignal::Tick), KeyframeStep::Force);
    assert_eq!(keyframe_step(KeyframeSignal::Requested), KeyframeStep::Force);
    assert_eq!(keyframe_step(KeyframeSignal::OtherMessage), KeyframeStep::Wait);
    assert_eq!(keyframe_step(KeyframeSignal::ClientGone), KeyframeStep::Stop);
    assert_eq!(keyframe_step(KeyframeSignal::Cancelled), KeyframeStep::Stop);
}

#[test]
fn touches_are_replayed() {
    let mut state = TouchState::new();
    let r = replay_touch(&mut state, TouchSignal::Touch { index: 1, x: 2, y: 3 });
    assert_eq!(r.notices, vec![TouchNotice::Down { slot: 1, x: 2, y: 3 }]);
    let r = replay_touch(&mut state, TouchSignal::Touch { index: 1, x: 4, y: 5 });
    assert_eq!(r.notices, vec![TouchNotice::Motion { slot: 1, x: 4, y: 5 }]);
    assert!(replay_touch(&mut state, TouchSignal::Release { index: Some(2) }).notices.is_empty());
    let r = replay_touch(&mut state, TouchSignal::Release { index: Some(1) });
    assert_eq!(r.notices, vec![TouchNotice::Up { slot: 1 }]);
    replay_touch(&mut state, TouchSignal::Touch { index: 6, x: 0, y: 0 });
    let r = replay_touch(&mut state, TouchSignal::Idle);
    assert_eq!(r.notices, vec![TouchNotice::Up { slot: 6 }]);
    assert!(r.go_on);
    assert!(replay_touch(&mut state, TouchSignal::Other).go_on);
    assert!(!replay_touch(&mut state, TouchSignal::Closed).go_on);
}

#[test]
fn dialogs_are_confirmed() {
    let mut state = DialogState::start(true);
    assert_eq!(state.duration(), 300);
    assert!(!state.limit_runs() && !DialogState::start(false).limit_runs());
    assert_eq!(state.step(DialogSignal::Elapsed), DialogAction::PressEnter);
    assert_eq!(state.duration(), 50);
    assert!(state.limit_runs());
    assert_eq!(state.step(DialogSignal::Completed), DialogAction::Wait);
    assert_eq!(state.step(DialogSignal::Elapsed), DialogAction::ReleaseEnter);
    assert_eq!(state.duration(), 100);
    assert_eq!(state.step(DialogSignal::Elapsed), DialogAction::PressEnter);
    assert_eq!(state.step(DialogSignal::Elapsed), DialogAction::ReleaseEnter);
    assert_eq!(state.step(DialogSignal::Expired), DialogAction::GiveUp);
    assert_eq!(state.step(DialogSignal::Completed), DialogAction::Return);
    let mut manual = DialogState::start(false);
    assert_eq!(manual.duration(), 30000);
    assert_eq!(manual.step(DialogSignal::Elapsed), DialogAction::Exit);
    assert_eq!(manual.step(DialogSignal::Completed), DialogAction::Return);
    let mut patient = DialogState::start(true);
    assert_eq!(patient.step_without_limit(DialogSignal::Elapsed), DialogAction::PressEnter);
    assert_eq!(patient.step_without_limit(DialogSignal::Expired), DialogAction::Wait);
    assert_eq!(patient.step_without_limit(DialogSignal::Elapsed), DialogAction::ReleaseEnter);
    assert_eq!(patient.step_without_limit(DialogSignal::Completed), DialogAction::Return);
    let mut manual = DialogState::start(false);
    assert_eq!(manual.step_without_limit(DialogSignal::Elapsed), DialogAction::Wait);
    assert_eq!(manual.step_without_limit(DialogSignal::Completed), DialogAction::Return);
    let mut token = PortalToken::new(None);
    assert_eq!(get_portal_token(&token), None);
    set_portal_token(&mut token, "t".to_string());
    assert_eq!(get_portal_token(&token).as_deref(), Some("t"));
    assert_eq!(get_portal_token(&PortalToken::new(Some("k".to_string()))).as_deref(), Some("k"));
}

#[test]
fn gamepads_are_created_once() {
    let mut pads = GamepadManager::new();
    assert!(pads.update(1));
    assert!(!pads.update(1));
    assert!(pads.remove(1));
    assert!(!pads.remove(1));
    assert!(pads.update(1));
    assert_eq!(device_name(3), "Webshooter Gamepad 3");
}

#[test]
fn sinks_have_a_layout() {
    assert_eq!((sink_channels(0), sink_channels(6), sink_channels(9)), (2, 6, 8));
    assert_eq!((sink_rate(0), sink_rate(44100)), (48000, 44100));
    assert_eq!(channel_map(1), "MONO");
    assert_eq!(channel_map(2), "FL,FR");
    assert_eq!(channel_map(6), "FL,FR,FC,LFE,RL,RR");
    assert_eq!(channel_map(8), "FL,FR,FC,LFE,RL,RR,SL,SR");
    assert_eq!(channel_map(10), "AUX0,AUX1,AUX2,AUX3,AUX4,AUX5,AUX6,AUX7,AUX8,AUX9");
    assert_eq!(channel_map(0), "");
    assert_eq!(sink_name("webshooter-a-1"), "webshooter-a-1-audio-sink");
    assert_eq!(
        audio_pipeline_description("n", 2, 48000),
        "pulsesrc device=n-audio-sink.monitor client-name=n ! audioconvert ! audioresample \
         ! capsfilter caps=\"audio/x-raw,format=S16LE,rate=48000,channels=2\" \
         ! opusenc bitrate=128000 ! appsink name=sink sync=false"
    );
}

#[test]
fn audio_is_cut_into_messages() {
    let mut forwarder = AudioForwarder::new();
    let packet = |n: usize| AudioPacket {
        channels: 2,
        rate: 48000,
        format: AudioFormat::Opus,
        data: vec![7; n],
    };
    assert!(forwarder.forward(&packet(0)).is_empty());
    assert_eq!(forwarder.frame_id, 0);
    let messages = forwarder.forward(&packet(1188));
    assert_eq!(messages.len(), 2);
    assert!(matches!(
        &messages[1],
        ServerDatagram::AudioFrame { frame_id: 0, frag_idx: 1, num_frags: 2, payload, .. }
            if payload.len() == 1
    ));
    assert_eq!(messages[0].to_bytes().len(), 1200);
    forwarder.frame_id = 65535;
    forwarder.forward(&packet(1));
    assert_eq!(forwarder.frame_id, 0);
}

#[test]
fn frames_are_cut_into_datagrams() {
    let mut forwarder = FrameForwarder::new(None);
    assert_eq!(forwarder.payload_size, 1191);
    let data: Vec<u8> = (0..2500).map(|n| n as u8).collect();
    let datagrams = forwarder.forward(true, Codec::Vp9, &data);
    assert_eq!(datagrams.len(), 3);
    assert!(datagrams.iter().all(|d| d.len() <= 1200));
    assert_eq!(datagrams[0][..9], [0, 0, 0, 0, 0, 0, 3, 1, 3]);
    assert_eq!(datagrams[2][..9], [0, 0, 0, 0, 2, 0, 3, 0, 3]);
    assert_eq!(datagrams.iter().flat_map(|d| d[9..].to_vec()).collect::<Vec<_>>(), data);
    assert_eq!(forwarder.frame_id, 1);
    forwarder.skip();
    assert_eq!(forwarder.frame_id, 2);
    assert_eq!(FrameForwarder::new(Some(5)).payload_size, 1);
    assert_eq!(fragment_frame(7, false, Codec::Av1, &[1], 10), vec![vec![0, 0, 7, 0, 0, 0, 1, 0, 0, 1]]);
    assert!(fragment_frame(7, false, Codec::Av1, &[], 10).is_empty());
}

#[test]
fn client_events_are_kept() {
    let mut events = ClientEvents::new();
    assert_eq!(events.on_message(ClientDatagram::KeepAlive), None);
    assert_eq!(
        events.on_message(ClientDatagram::Error { message: "m".to_string() }).as_deref(),
        Some("m")
    );
    assert!(events.decoders.is_none());
    events.on_message(ClientDatagram::DecoderCapabilities { decoders: vec![Codec::Vp9] });
    assert_eq!(events.decoders, Some(vec![Codec::Vp9]));
    let ready = AudioSignal::Ready { channels: 2, rate: 48000 };
    assert_eq!(audio_step(ready, false), AudioStep::Start { channels: 2, rate: 48000 });
    assert_eq!(audio_step(ready, true), AudioStep::Stop);
    assert_eq!(audio_step(AudioSignal::OtherMessage, true), AudioStep::Wait);
    assert_eq!(audio_step(AudioSignal::ClientGone, false), AudioStep::Stop);
    assert_eq!(audio_step(AudioSignal::Cancelled, false), AudioStep::Stop);
    assert_eq!(token_from_path("/a?x=1&token=T&token=U").as_deref(), Some("T"));
    assert_eq!(token_from_path("/a?token").as_deref(), None);
}

#[test]
fn the_input_channel_reads_keys_and_sizes() {
    assert!(input::is_complete(&[]) && input::is_complete(&[1, 0]) && !input::is_complete(&[1]));
    assert!(!input::is_complete(&[2, 0, 0, 0, 0]));
    assert_eq!(InputDatagram::from_bytes(&[]), Err(WireError::EmptyDatagram));
    assert_eq!(InputDatagram::from_bytes(&[3, 0]), Err(WireError::DatagramType));
    assert_eq!(InputDatagram::from_bytes(&[0]), Ok(InputDatagram::KeepAlive));
    assert_eq!(
        InputDatagram::from_bytes(&[1, 2, b'x']),
        Ok(InputDatagram::Keyboard {
            keycode: "x".to_string(),
            modifiers: mods(false, true, false, false)
        })
    );
    assert_eq!(
        InputDatagram::from_bytes(&[2, 1, 1, 0, 2, 0]),
        Ok(InputDatagram::ResizeDisplay { index: 1, width: 256, height: 512 })
    );
    let old = OldDatagram::VideoFrame {
        frame_id: 1,
        frag_idx: 2,
        num_frags: 3,
        is_keyframe: true,
        payload: &[9],
    };
    assert_eq!(old.to_bytes(), vec![0, 0, 1, 0, 2, 0, 3, 1, 9]);
    assert_eq!(OldDatagram::HEADER, 8);
}

#[test]
fn connections_are_tried_twice() {
    let mut state = ConnectState::new();
    assert_eq!(state.step(false), ConnectAction::RetryAfter(500));
    assert_eq!(state.step(false), ConnectAction::Fail);
    let mut state = ConnectState::new();
    assert_eq!(state.step(true), ConnectAction::Proceed);
    let mut state = ConnectState::new();
    assert_eq!(state.step(false), ConnectAction::RetryAfter(500));
    assert_eq!(state.step(true), ConnectAction::Proceed);
}
