//! The messages between the browser and the server.
use webshooter::shared::client_datagram::{is_complete, ClientDatagram, Modifiers};
use webshooter::shared::codec::{select_codec, Codec};
use webshooter::shared::config::{
    default_session_ttl, is_default_session_ttl, Bytes64, Config,
};
use webshooter::shared::fragments::split_chunks;
use webshooter::shared::log_level::{
    enabled, filter_from_byte, filter_to_byte, level_from_byte, level_to_byte, Level, LevelFilter,
};
use webshooter::shared::server_datagram::{max_payload_size, AudioFormat, ServerDatagram};
use webshooter::shared::wire::WireError;
use webshooter::server::config::IpAddress;

fn client_messages() -> Vec<(ClientDatagram, Vec<u8>)> {
    vec![
        (ClientDatagram::KeepAlive, vec![0]),
        (
            ClientDatagram::Keyboard {
                keycode: "KeyÄ".to_string(),
                modifiers: Modifiers::from_keys(true, false, true, false),
            },
            vec![1, 5, b'K', b'e', b'y', 0xc3, 0x84],
        ),
        (
            ClientDatagram::ResizeDisplay { index: 2, width: 1920, height: 1080 },
            vec![2, 2, 7, 0x80, 4, 0x38],
        ),
        (ClientDatagram::Touchscreen { index: 9, x: 258, y: 772 }, vec![3, 1, 2, 3, 4, 9]),
        (ClientDatagram::TouchscreenRelease { index: 7 }, vec![4, 7]),
        (ClientDatagram::Error { message: "oh".to_string() }, vec![5, b'o', b'h']),
        (
            ClientDatagram::DecoderCapabilities { decoders: vec![Codec::Vp9, Codec::Av1] },
            vec![6, 2, 3, 0],
        ),
        (ClientDatagram::MouseMove { dx: -1, dy: 258 }, vec![7, 0xff, 0xff, 1, 2]),
        (ClientDatagram::MouseButton { button: 2, pressed: true }, vec![8, 2, 1]),
        (
            ClientDatagram::Scroll { dx: -2, dy: 0x01020304 },
            vec![9, 0xff, 0xff, 0xff, 0xfe, 1, 2, 3, 4],
        ),
    ]
}

#[test]
fn client_messages_arrive() {
    for (message, bytes) in client_messages() {
        assert_eq!(message.to_bytes(), bytes);
        assert!(is_complete(&bytes));
        assert_eq!(ClientDatagram::from_bytes(&bytes), Ok(message));
    }
}

#[test]
fn incomplete_client_messages_are_told() {
    for (_, bytes) in client_messages() {
        for n in 0..bytes.len() {
            let part = &bytes[..n];
            let whole = match part.first() {
                None | Some(0) | Some(5) => true,
                Some(1) => n >= 2,
                _ => false,
            };
            assert_eq!(is_complete(part), whole, "{part:?}");
        }
    }
    assert!(is_complete(&[77]));
}

#[test]
fn bad_client_messages_are_refused() {
    assert_eq!(ClientDatagram::from_bytes(&[]), Err(WireError::EmptyDatagram));
    assert_eq!(ClientDatagram::from_bytes(&[10]), Err(WireError::ClientDiscriminant(10)));
    assert_eq!(WireError::EmptyDatagram.message(), "Empty datagram");
    assert_eq!(
        WireError::ClientDiscriminant(10).message(),
        "Invalid datagram discriminant: 10"
    );
    assert_eq!(WireError::DatagramType.message(), "Invalid datagram type");
}

#[test]
fn client_messages_are_read_leniently() {
    let modifiers = Modifiers::from_bits_truncate(0xf3);
    assert_eq!(modifiers.bits, 3);
    assert_eq!(modifiers.keys(), (true, true, false, false));
    assert_eq!(
        ClientDatagram::from_bytes(&[1, 0xf3, b'A', 0xff]),
        Ok(ClientDatagram::Keyboard { keycode: "A\u{fffd}".to_string(), modifiers })
    );
    assert_eq!(
        ClientDatagram::from_bytes(&[6, 3, 9, 1, 200]),
        Ok(ClientDatagram::DecoderCapabilities { decoders: vec![Codec::H265] })
    );
    assert_eq!(
        ClientDatagram::from_bytes(&[8, 1, 9]),
        Ok(ClientDatagram::MouseButton { button: 1, pressed: true })
    );
    assert_eq!(Modifiers::empty().bits, 0);
}

#[test]
fn server_messages_arrive() {
    let messages = vec![
        (
            ServerDatagram::VideoFrame {
                frame_id: 1,
                frag_idx: 2,
                num_frags: 0x0304,
                is_keyframe: true,
                codec: Codec::H264,
                payload: vec![8, 9],
            },
            vec![0, 0, 1, 0, 2, 3, 4, 1, 2, 8, 9],
        ),
        (ServerDatagram::ReleaseMouse, vec![1]),
        (ServerDatagram::ToggleFullscreen, vec![2]),
        (
            ServerDatagram::AudioFrame {
                frame_id: 1,
                frag_idx: 0,
                num_frags: 1,
                channels: 2,
                rate: 48000,
                format: AudioFormat::Opus,
                payload: vec![5],
            },
            vec![3, 0, 1, 0, 0, 0, 1, 2, 0, 0, 0xbb, 0x80, 0, 5],
        ),
    ];
    for (message, bytes) in messages {
        assert_eq!(message.to_bytes(), bytes);
        assert_eq!(ServerDatagram::from_bytes(&bytes), Ok(message));
    }
    assert_eq!(ServerDatagram::header_size(), 9);
}

#[test]
fn bad_server_messages_are_refused() {
    assert_eq!(ServerDatagram::from_bytes(&[]), Err(WireError::EmptyDatagram));
    assert_eq!(ServerDatagram::from_bytes(&[4]), Err(WireError::ServerDiscriminant(4)));
    assert_eq!(ServerDatagram::from_bytes(&[0; 8]), Err(WireError::VideoFrameTooShort(8)));
    assert_eq!(
        ServerDatagram::from_bytes(&[0, 0, 0, 0, 0, 0, 0, 0, 4]),
        Err(WireError::Codec(4))
    );
    let mut audio = [0u8; 13];
    audio[0] = 3;
    assert_eq!(ServerDatagram::from_bytes(&audio[..12]), Err(WireError::AudioFrameTooShort(12)));
    audio[12] = 1;
    assert_eq!(ServerDatagram::from_bytes(&audio), Err(WireError::AudioFormat(1)));
    assert_eq!(AudioFormat::from_byte(0), Ok(AudioFormat::Opus));
    assert_eq!(AudioFormat::Opus.to_byte(), 0);
    assert_eq!(
        WireError::ServerDiscriminant(4).message(),
        "Invalid server datagram discriminant: 4"
    );
    assert_eq!(
        WireError::VideoFrameTooShort(8).message(),
        "VideoFrame datagram too short: 8 bytes"
    );
    assert_eq!(
        WireError::AudioFrameTooShort(12).message(),
        "AudioFrame datagram too short: 12 bytes"
    );
    assert_eq!(WireError::Codec(4).message(), "Invalid codec discriminant: 4");
    assert_eq!(WireError::AudioFormat(1).message(), "Invalid audio format discriminant: 1");
    assert_eq!(WireError::LogLevel(6).message(), "invalid log level byte: 6");
}

#[test]
fn payloads_leave_room_for_the_header() {
    assert_eq!(max_payload_size(1200), 1191);
    assert_eq!(max_payload_size(10), 1);
    assert_eq!(max_payload_size(9), 1);
    assert_eq!(max_payload_size(0), 1);
}

#[test]
fn the_best_codec_is_chosen() {
    assert_eq!(select_codec(&[Codec::Vp9, Codec::H264]), Codec::H264);
    assert_eq!(select_codec(&[Codec::Vp9]), Codec::Vp9);
    assert_eq!(select_codec(&[Codec::H264, Codec::H265, Codec::Av1]), Codec::Av1);
    assert_eq!(select_codec(&[]), Codec::Av1);
    let known = [
        (Codec::Av1, "vaav1enc", "av01.0.09M.08"),
        (Codec::H265, "vah265enc", "hvc1.1.6.L123.B0"),
        (Codec::H264, "vah264enc", "avc1.640028"),
        (Codec::Vp9, "vavp9enc", "vp09.00.10.08"),
    ];
    for (i, (codec, encoder, web)) in known.into_iter().enumerate() {
        assert_eq!(codec.to_byte(), i as u8);
        assert_eq!(Codec::from_byte(i as u8), Ok(codec));
        assert_eq!(codec.gst_encoder_element(), encoder);
        assert_eq!(codec.web_codec_string(), web);
    }
    assert_eq!(Codec::from_byte(4), Err(WireError::Codec(4)));
}

#[test]
fn log_levels_arrive() {
    let filters = [
        LevelFilter::Off,
        LevelFilter::Error,
        LevelFilter::Warn,
        LevelFilter::Info,
        LevelFilter::Debug,
        LevelFilter::Trace,
    ];
    for (i, filter) in filters.into_iter().enumerate() {
        assert_eq!(filter_to_byte(filter), i as u8);
        assert_eq!(filter_from_byte(i as u8), Ok(filter));
    }
    let levels = [Level::Error, Level::Warn, Level::Info, Level::Debug, Level::Trace];
    for (i, level) in levels.into_iter().enumerate() {
        assert_eq!(level_to_byte(level), i as u8 + 1);
        assert_eq!(level_from_byte(i as u8 + 1), Ok(level));
        assert!(enabled(level, LevelFilter::Trace));
        assert!(!enabled(level, LevelFilter::Off));
    }
    assert_eq!(filter_from_byte(6), Err(WireError::LogLevel(6)));
    assert_eq!(level_from_byte(0), Err(WireError::LogLevel(0)));
    assert!(enabled(Level::Info, LevelFilter::Info));
    assert!(!enabled(Level::Debug, LevelFilter::Info));
}

#[test]
fn chunks_make_up_the_data() {
    let data: Vec<u8> = (0..=20).collect();
    let pieces = split_chunks(&data, 8);
    assert_eq!(pieces.iter().map(Vec::len).collect::<Vec<_>>(), vec![8, 8, 5]);
    assert_eq!(pieces.concat(), data);
    assert_eq!(split_chunks(&data[..16], 8).len(), 2);
    assert!(split_chunks(&[], 8).is_empty());
}

#[test]
fn bytes_are_read_from_json() {
    assert_eq!(Bytes64::from_str("\"SGVsbG8=\"").unwrap().into_vec(), b"Hello".to_vec());
    assert_eq!(Bytes64::from_str(" \"SGVs\\u0062G8=\" ").unwrap().as_slice(), b"Hello");
    assert!(Bytes64::from_str("SGVsbG8=").is_err());
    assert!(Bytes64::from_str("\"SGVsbG8\"").is_err());
    assert!(Bytes64::from_str("\"SGVsbG8=\" 1").is_err());
    let bytes = Bytes64::new((0..=255).collect());
    let json = format!("\"{}\"", bytes.to_string());
    assert!(Bytes64::from_str(&json).unwrap() == bytes);
    assert!(Bytes64::from_base64(&bytes.to_string()).unwrap() == bytes);
    assert!(Bytes64::new(vec![1]) != Bytes64::new(vec![1, 2]));
    assert!(Bytes64::from_base64("?").is_err());
}

#[test]
fn a_new_configuration_lies_beside_its_file() {
    let config = Config::initialise_at("/etc/w/config.json", false, Some("/etc/w"), "1.0").unwrap();
    assert_eq!(config.version, "1.0");
    assert_eq!(config.http_config.ssl_conf.key, "/etc/w/server.key");
    assert_eq!(config.http_config.ssl_conf.certificate, "/etc/w/server.crt");
    assert_eq!(config.http_config.port, 443);
    assert_eq!(config.http_config.host, IpAddress::V4(0x7f000001));
    assert_eq!(config.session_ttl, 86400);
    assert!(config.authorised_keys.is_empty() && config.oidc.is_none());
    assert_eq!(config.auth_timeout, None);
    let config = Config::initialise_at("/etc/w/", true, None, "1.0").unwrap();
    assert_eq!(config.http_config.ssl_conf.key, "/etc/w/server.key");
    let error = Config::initialise_at("/", false, None, "1.0").unwrap_err();
    assert_eq!(error.message(), "The config path must be a file");
    assert!(is_default_session_ttl(default_session_ttl()));
    assert!(!is_default_session_ttl(1));
}
