//! What runs in the browser.
use webshooter::server::wt::FrameForwarder;
use webshooter::shared::client_datagram::ClientDatagram;
use webshooter::shared::codec::Codec;
use webshooter::shared::log_level::{Level, LevelFilter};
use webshooter::shared::server_datagram::{AudioFormat, ServerDatagram};
use webshooter::web::assembly::{u16_leq, FrameAssembler, PacketAssembler};
use webshooter::web::audio::{
    opus_identification_header, opus_nb_frames, opus_packet_samples, opus_samples_per_frame,
    playable, AudioPlayer, AudioReady,
};
use webshooter::web::gamepad::{buttons_mask, PadMessage, PadReading, PadState};
use webshooter::web::input::{
    button_message, key_message, release_messages, scroll_factor, scroll_message, touch_messages,
    MouseAction, MouseCapture, MouseSignal, TouchSlots,
};
use webshooter::web::log::{
    apply_server_level, console_line, encode_error, initial_level, level_name, parse_level,
    ConsoleKind,
};
use webshooter::web::receiver::{on_read, ReadOutcome, Receiver};
use webshooter::web::transport::{needs_stream, session_url};
use webshooter::web::video::{
    fullscreen_extent, fullscreen_fits, resize_message, DecoderSetup, ResizePrompt, VideoReceiver,
};

#[test]
fn frame_numbers_go_round() {
    assert!(u16_leq(5, 5) && u16_leq(5, 6) && !u16_leq(6, 5));
    assert!(u16_leq(65535, 0) && !u16_leq(0, 65535));
    assert!(u16_leq(0, 0x7fff) && !u16_leq(0, 0x8000));
}

#[test]
fn fragments_give_the_frame_back() {
    let data: Vec<u8> = (0..5000).map(|n| (n % 251) as u8).collect();
    let mut forwarder = FrameForwarder::new(Some(1200));
    let mut receiver = VideoReceiver::new();
    for keyframe in [true, false] {
        let datagrams = forwarder.forward(keyframe, Codec::H264, &data);
        assert_eq!(datagrams.len(), 5);
        let mut done = None;
        for i in [4usize, 1, 1, 0, 3, 4, 2] {
            assert!(done.is_none());
            let d = ServerDatagram::from_bytes(&datagrams[i]).unwrap();
            assert!(receiver.accepts(&d));
            done = receiver.on_datagram(d);
        }
        let chunk = done.unwrap();
        assert_eq!(chunk.data, data);
        assert_eq!(chunk.is_keyframe, keyframe);
        assert_eq!(chunk.timestamp, if keyframe { 0 } else { 1000 });
    }
    assert!(receiver.on_datagram(ServerDatagram::ReleaseMouse).is_none());
}

#[test]
fn a_complete_frame_drops_older_ones() {
    let mut frames = FrameAssembler::new();
    assert!(frames.push(65535, 0, 2, true, vec![1]).is_none());
    assert!(frames.push(1, 0, 2, false, vec![2]).is_none());
    assert!(!frames.has_place(65535, 2, 9));
    assert!(frames.push(0, 0, 1, false, vec![3]).is_some());
    // The first frame starts anew, with as many fragments as it says now.
    assert!(frames.has_place(65535, 2, 9));
    let done = frames.push(1, 1, 2, false, vec![4]).unwrap();
    assert_eq!((done.is_keyframe, done.data), (false, vec![2, 4]));
}

#[test]
fn packets_are_put_together() {
    let mut packets = PacketAssembler::new();
    assert_eq!(packets.push(3, 1, 2, vec![2]), None);
    assert_eq!(packets.push(3, 1, 2, vec![9]), None);
    assert_eq!(packets.push(3, 7, 2, vec![9]), None);
    assert_eq!(packets.push(3, 0, 2, vec![1]), Some(vec![1, 2]));
    assert_eq!(packets.push(4, 0, 1, vec![5]), Some(vec![5]));
}

#[test]
fn sizes_are_held_back() {
    let mut prompt = ResizePrompt::new();
    assert!(prompt.step(5_000_000) && !prompt.step(5_000_000) && !prompt.step(6_999_999));
    assert!(prompt.step(7_000_000) && !prompt.step(8_000_000) && !prompt.step(1));
    assert_eq!(prompt.last_sent, Some(7_000_000));
    assert!(prompt.step(9_500_000) && !prompt.step(11_000_000));
    assert_eq!(
        resize_message(8, 6),
        ClientDatagram::ResizeDisplay { index: 0, width: 8, height: 6 }
    );
    assert_eq!(fullscreen_extent(800, 600, 2), 1600);
    assert_eq!(fullscreen_extent(600, 800, 1), 800);
    assert_eq!(fullscreen_extent(-1, 5, 1), 65535);
    assert_eq!(fullscreen_extent(65536 + 3, 2, 1), 3);
    assert!(fullscreen_fits(800, 32767, 2));
    assert!(!fullscreen_fits(800, 32768, 2));
}

#[test]
fn opus_is_described() {
    assert_eq!(
        opus_identification_header(2, 48000),
        b"OpusHead\x01\x02\x00\x00\x80\xbb\x00\x00\x00\x00\x01\x01\x01\x00\x01".to_vec()
    );
    assert_eq!(
        opus_identification_header(1, 0x01020304),
        b"OpusHead\x01\x01\x00\x00\x04\x03\x02\x01\x00\x00\x00".to_vec()
    );
}

#[test]
fn opus_packets_are_measured() {
    // CELT, 20 ms; SILK, 60 ms; hybrid, 10 ms and 20 ms.
    assert_eq!(opus_samples_per_frame(0xf8, 48000), 960);
    assert_eq!(opus_samples_per_frame(0xe0, 48000), 120);
    assert_eq!(opus_samples_per_frame(0x18, 48000), 2880);
    assert_eq!(opus_samples_per_frame(0x00, 48000), 480);
    assert_eq!(opus_samples_per_frame(0x10, 48000), 1920);
    assert_eq!(opus_samples_per_frame(0x60, 48000), 480);
    assert_eq!(opus_samples_per_frame(0x68, 48000), 960);
    assert_eq!(opus_nb_frames(&[]), None);
    assert_eq!(opus_nb_frames(&[0xf8]), Some(1));
    assert_eq!(opus_nb_frames(&[0xf9]), Some(2));
    assert_eq!(opus_nb_frames(&[0xfa]), Some(2));
    assert_eq!(opus_nb_frames(&[0xfb]), None);
    assert_eq!(opus_nb_frames(&[0xfb, 0xc5]), Some(5));
    assert_eq!(opus_packet_samples(&[0xfb, 3], 48000), 2880);
    assert_eq!(opus_packet_samples(&[], 48000), 0);
    // 120 ms are the most: six frames of 20 ms, two of 60 ms.
    assert_eq!(opus_packet_samples(&[0xfb, 6], 48000), 5760);
    assert_eq!(opus_packet_samples(&[0xfb, 7], 48000), 0);
    assert_eq!(opus_packet_samples(&[0x19], 48000), 5760);
    assert_eq!(opus_packet_samples(&[0x1b, 3], 48000), 0);
    assert_eq!(opus_packet_samples(&[0x1b, 0], 48000), 0);
    assert_eq!(opus_packet_samples(&[0xfb, 63], u32::MAX), 0);
}

#[test]
fn audio_is_stamped() {
    let mut player = AudioPlayer::new();
    let first = player.push(0, 0, 1, 2, 48000, vec![0xf8]);
    assert_eq!(first.header, Some(opus_identification_header(2, 48000)));
    let chunk = first.chunk.unwrap();
    assert_eq!((chunk.timestamp, chunk.data), (0, vec![0xf8]));
    assert_eq!(player.next_sample, 960);
    // A packet of two frames in two fragments: it counts once it is complete, and once only.
    let half = player.push(1, 1, 2, 2, 48000, vec![7]);
    assert!(half.header.is_none() && half.chunk.is_none());
    assert_eq!(player.next_sample, 960);
    assert!(player.can_push(1, 0, 2, 48000, &[0xf9]) && !player.can_push(1, 0, 2, 0, &[0xf9]));
    assert!(player.can_push(1, 1, 2, 0, &[7]) && player.can_push(1, 9, 2, 0, &[7]));
    let chunk = player.push(1, 0, 2, 2, 48000, vec![0xf9]).chunk.unwrap();
    assert_eq!((chunk.timestamp, chunk.data), (20_000, vec![0xf9, 7]));
    assert_eq!(player.next_sample, 2880);
    assert_eq!(player.stamp(&[0xf8], 48000), 60_000);
    // A packet that is not valid takes no time.
    assert_eq!(player.stamp(&[0x1b, 3], 48000), 80_000);
    assert_eq!(player.stamp(&[0xf8], 48000), 80_000);
    assert!(!player.can_stamp(&[0xf8], 0));
    player.next_sample = u64::MAX / 1_000_000 + 1;
    assert!(!player.can_stamp(&[0xf8], 48000));
    assert!(playable(2, 960, false));
    assert!(!playable(0, 960, false) && !playable(2, 0, false) && !playable(2, 960, true));
    let mut ready = AudioReady::new();
    assert!(!ready.on_state(false) && ready.on_state(true) && !ready.on_state(true));
}

#[test]
fn fingers_have_slots() {
    let mut slots = TouchSlots::new();
    assert_eq!((slots.press(70), slots.press(71), slots.press(70)), (0, 1, 0));
    assert_eq!(slots.release(70), Some(0));
    assert_eq!(slots.release(70), None);
    assert_eq!(slots.press(72), 0);
    assert_eq!(slots.press(73), 2);
    assert_eq!(
        touch_messages(&mut slots, &[(73, 5, 6), (80, 7, 8)]),
        vec![
            ClientDatagram::Touchscreen { index: 2, x: 5, y: 6 },
            ClientDatagram::Touchscreen { index: 3, x: 7, y: 8 }
        ]
    );
    assert_eq!(
        release_messages(&mut slots, &[80, 99, 72]),
        vec![
            ClientDatagram::TouchscreenRelease { index: 3 },
            ClientDatagram::TouchscreenRelease { index: 0 }
        ]
    );
    assert_eq!((slots.press(1), slots.press(2)), (0, 3));
}

#[test]
fn slots_run_out_after_256_fingers() {
    let mut slots = TouchSlots::new();
    for id in 0..256 {
        assert_eq!(slots.press(id), id as u8);
    }
    assert_eq!(slots.release(9), Some(9));
    assert_eq!(slots.press(900), 9);
    assert_eq!(slots.press(901), 0);
}

#[test]
fn keys_carry_their_modifiers() {
    let message = key_message("KeyA".to_string(), false, true, false, true);
    assert_eq!(message.to_bytes(), vec![1, 10, b'K', b'e', b'y', b'A']);
    assert_eq!(button_message(false, 0, true), None);
    assert_eq!(
        button_message(true, -1, true),
        Some(ClientDatagram::MouseButton { button: 255, pressed: true })
    );
    assert_eq!(
        button_message(true, 258, false),
        Some(ClientDatagram::MouseButton { button: 2, pressed: false })
    );
    assert_eq!((scroll_factor(0), scroll_factor(1), scroll_factor(2)), (1, 40, 120));
    assert_eq!(scroll_message(true, 1, -2), Some(ClientDatagram::Scroll { dx: 1, dy: -2 }));
    assert_eq!(scroll_message(false, 1, -2), None);
}

#[test]
fn the_mouse_is_captured_and_released() {
    let mut mouse = MouseCapture::new();
    let enter = MouseSignal::Enter { mouse: true };
    let leave = MouseSignal::Leave { mouse: true };
    let moved = |since_lock_ms, dx| MouseSignal::Move { locked: true, since_lock_ms, dx, dy: 0 };
    assert_eq!(mouse.step(MouseSignal::Enter { mouse: false }), MouseAction::Nothing);
    assert_eq!(mouse.step(enter), MouseAction::RequestLock);
    assert_eq!(mouse.step(moved(10, 3)), MouseAction::SendMove { dx: 3, dy: 0 });
    assert_eq!(mouse.step(moved(10, 0)), MouseAction::Nothing);
    mouse.step(MouseSignal::ServerRelease);
    assert_eq!(mouse.step(moved(999, 3)), MouseAction::SendMove { dx: 3, dy: 0 });
    assert_eq!(mouse.step(moved(2000, 3)), MouseAction::SendMove { dx: 3, dy: 0 });
    mouse.step(MouseSignal::ServerRelease);
    assert_eq!(
        mouse.step(MouseSignal::Move { locked: false, since_lock_ms: 2000, dx: 1, dy: 1 }),
        MouseAction::Nothing
    );
    assert_eq!(mouse.step(moved(1000, 3)), MouseAction::ExitLock);
    assert_eq!(mouse.step(leave), MouseAction::Nothing);
    assert_eq!(mouse.step(enter), MouseAction::Nothing);
    assert_eq!(mouse.step(enter), MouseAction::Nothing);
    mouse.step(leave);
    assert_eq!(mouse.step(enter), MouseAction::RequestLock);
    mouse.step(MouseSignal::ServerRelease);
    mouse.step(moved(1000, 0));
    assert_eq!(mouse.step(MouseSignal::Down { mouse: false }), MouseAction::Nothing);
    assert_eq!(mouse.step(MouseSignal::Down { mouse: true }), MouseAction::RequestLockNow);
    assert_eq!(mouse.step(enter), MouseAction::RequestLock);
}

#[test]
fn gamepads_report_changes() {
    let mut pad = PadState::new();
    let reading = PadReading { buttons: 1, lx: 2, ly: 3, rx: 4, ry: -5, lt: 6, rt: 7 };
    assert_eq!(pad.poll(None), PadMessage::Nothing);
    let told = match pad.poll(Some(reading)) {
        PadMessage::Snapshot(told) => told,
        _ => panic!("no snapshot"),
    };
    assert_eq!((told.ly, told.ry, told.connected), (-3, 5, true));
    assert_eq!(pad.poll(Some(reading)), PadMessage::Nothing);
    assert_eq!(pad.poll(None), PadMessage::Disconnect);
    assert_eq!(pad.poll(None), PadMessage::Nothing);
    assert_eq!(buttons_mask(&[true, false, true, true], 3), 0b101);
    assert_eq!(buttons_mask(&[true; 40], 32), u32::MAX);
    assert_eq!(buttons_mask(&[], 17), 0);
}

#[test]
fn readers_get_everything() {
    let (mut receiver, first) = Receiver::new();
    receiver.push(ServerDatagram::ReleaseMouse);
    let second = first.subscribe(&mut receiver);
    let audio = ServerDatagram::AudioFrame {
        frame_id: 1,
        frag_idx: 0,
        num_frags: 1,
        channels: 2,
        rate: 48000,
        format: AudioFormat::Opus,
        payload: vec![1, 2],
    };
    assert!(on_read(&mut receiver, ReadOutcome::Data(audio.to_bytes())));
    assert!(on_read(&mut receiver, ReadOutcome::Data(vec![99])));
    assert!(!on_read(&mut receiver, ReadOutcome::Ended));
    assert_eq!(first.recv(&mut receiver), Some(ServerDatagram::ReleaseMouse));
    assert_eq!(first.recv(&mut receiver), Some(audio.clone()));
    assert_eq!(first.recv(&mut receiver), None);
    assert_eq!(second.recv(&mut receiver), Some(audio));
    assert_eq!(second.recv(&mut receiver), None);
}

#[test]
fn readers_do_not_disturb_each_other() {
    let (mut receiver, first) = Receiver::new();
    let second = first.subscribe(&mut receiver);
    receiver.push(ServerDatagram::ReleaseMouse);
    assert_eq!(first.recv(&mut receiver), Some(ServerDatagram::ReleaseMouse));
    assert_eq!(first.recv(&mut receiver), None);
    let third = second.subscribe(&mut receiver);
    receiver.push(ServerDatagram::ToggleFullscreen);
    assert_eq!(first.recv(&mut receiver), Some(ServerDatagram::ToggleFullscreen));
    assert_eq!(second.recv(&mut receiver), Some(ServerDatagram::ReleaseMouse));
    assert_eq!(third.recv(&mut receiver), Some(ServerDatagram::ToggleFullscreen));
    assert_eq!(second.recv(&mut receiver), Some(ServerDatagram::ToggleFullscreen));
    assert_eq!(second.recv(&mut receiver), None);
    assert_eq!(third.recv(&mut receiver), None);
}

#[test]
fn frames_may_arrive_mixed() {
    let mut frames = FrameAssembler::new();
    assert!(frames.push(7, 1, 2, false, vec![2]).is_none());
    assert!(frames.push(8, 0, 2, false, vec![3]).is_none());
    assert!(frames.push(6, 0, 1, false, vec![9]).is_some());
    assert!(frames.push(7, 1, 2, false, vec![2]).is_none());
    let frame = frames.push(7, 0, 2, true, vec![1]).unwrap();
    assert!(frame.is_keyframe);
    assert_eq!(frame.data, vec![1, 2]);
    assert_eq!(frames.push(8, 1, 2, false, vec![4]).unwrap().data, vec![3, 4]);
    // A frame that is complete drops those before it.
    assert!(frames.push(9, 0, 2, false, vec![5]).is_none());
    assert!(frames.push(10, 0, 1, false, vec![6]).is_some());
    assert!(frames.push(9, 1, 2, false, vec![7]).is_none());

    let mut packets = PacketAssembler::new();
    assert!(packets.push(1, 1, 2, vec![2]).is_none());
    assert!(packets.push(2, 0, 2, vec![3]).is_none());
    assert_eq!(packets.push(3, 0, 1, vec![9]), Some(vec![9]));
    assert_eq!(packets.push(1, 0, 2, vec![1]), Some(vec![1, 2]));
    assert_eq!(packets.push(2, 1, 2, vec![4]), Some(vec![3, 4]));
}

#[test]
fn the_decoder_is_set_up_for_each_codec() {
    let video = |codec| ServerDatagram::VideoFrame {
        frame_id: 0,
        frag_idx: 0,
        num_frags: 1,
        is_keyframe: true,
        codec,
        payload: vec![],
    };
    let mut setup = DecoderSetup::new();
    assert_eq!(setup.on_datagram(&ServerDatagram::ReleaseMouse), None);
    assert_eq!(setup.on_datagram(&video(Codec::Av1)), Some(Codec::Av1));
    assert_eq!(setup.on_datagram(&video(Codec::Av1)), None);
    assert_eq!(setup.on_datagram(&ServerDatagram::ReleaseMouse), None);
    let other = Codec::ALL.into_iter().find(|codec| *codec != Codec::Av1).unwrap();
    assert_eq!(setup.on_datagram(&video(other)), Some(other));
    assert_eq!(setup.on_datagram(&video(Codec::Av1)), Some(Codec::Av1));
}

#[test]
fn records_go_to_the_console() {
    assert_eq!(parse_level(Some("WARNING")), Level::Warn);
    assert_eq!(parse_level(Some("error")), Level::Error);
    assert_eq!(parse_level(Some("Debug")), Level::Debug);
    assert_eq!(parse_level(Some("trace")), Level::Trace);
    assert_eq!(parse_level(Some("other")), Level::Info);
    assert_eq!(parse_level(None), Level::Info);
    assert_eq!(level_name(Level::Warn), "WARN");
    let line = console_line(Level::Error, "t", "m", true);
    assert_eq!((line.kind, line.text.as_str()), (ConsoleKind::Error, "[ERROR] m"));
    let line = console_line(Level::Debug, "t", "m", true);
    assert_eq!((line.kind, line.text.as_str()), (ConsoleKind::Log, "[DEBUG] m"));
    let line = console_line(Level::Info, "t", "m", false);
    assert_eq!(
        (line.kind, line.text.as_str()),
        (ConsoleKind::Warn, "[INFO t] m (transport unavailable, not sent)")
    );
    let mut level = initial_level();
    assert_eq!(level, LevelFilter::Info);
    assert!(!apply_server_level(&mut level, LevelFilter::Info));
    assert!(apply_server_level(&mut level, LevelFilter::Trace));
    assert_eq!(level, LevelFilter::Trace);
    assert_eq!(encode_error("é"), vec![5, 0xc3, 0xa9]);
}

#[test]
fn large_messages_take_a_stream() {
    assert!(needs_stream(1200, 1200) && !needs_stream(1199, 1200));
    assert_eq!(session_url("https://h/s", "T"), "https://h/s?token=T");
}
