//! What happens before the server listens.
use webshooter::server::cert_watcher::{connectable, sans_from_cert, AltName, San};
use webshooter::server::compositor_discovery::{
    compositor, compositor_running, current_desktop, desktop_from_compositor, desktop_property,
    is_seat_session, runtime_dir, session_ids, wayland_display, DesktopChoice, RuntimeDir,
    SeatSearch, SessionLookup, COMPOSITORS,
};
use webshooter::server::config::{Config, IpAddress};
use webshooter::server::extensions::{uncancelled, Interrupted};
use webshooter::server::logging::{init, set_level};
use webshooter::server::setup::{
    config_dir, config_file, config_format, dir_step, is_blank, ConfigFormat, DirState, DirStep,
};
use webshooter::server::sources::{
    chosen_source, last_token, set_virtual_token, virtual_token, CaptureSource,
};
use webshooter::shared::log_level::{Level, LevelFilter};

fn strings(v: &[&str]) -> Vec<String> {
    v.iter().map(|s| s.to_string()).collect()
}

const CERTIFICATE: &str = "some words first
-----BEGIN CERTIFICATE-----
MIIBLjCCAROgAwIBAgIBATAKBggqhkjOPQQDAjAVMRMwEQYDVQQDDAp3ZWJzaG9v
dGVyMB4XDTI1MDEwMTAwMDAwMFoXDTM1MDEwMTAwMDAwMFowFTETMBEGA1UEAwwK
d2Vic2hvb3RlcjBZMBMGByqGSM49AgEGCCqGSM49AwEHA0IABAECAwQFBgcICQoL
DA0ODxAREhMUFRYXGBkaGxwdHh8gISIjJCUmJygpKissLS4vMDEyMzQ1Njc4OTo7
PD0+P0CjVDBSMAkGA1UdEwQCMAAwRQYDVR0RBD4wPIIJbG9jYWxob3N0hwR/AAAB
hxAAAAAAAAAAAAAAAAAAAAABgQVhQGIuY4ILZXhhbXBsZS5vcmeHAwECAzAKBggq
hkjOPQQDAgMJADAGAgEBAgEB
-----END CERTIFICATE-----
";

const NAMELESS: &str = "-----BEGIN CERTIFICATE-----
MIHmMIHMoAMCAQICAQEwCgYIKoZIzj0EAwIwFTETMBEGA1UEAwwKd2Vic2hvb3Rl
cjAeFw0yNTAxMDEwMDAwMDBaFw0zNTAxMDEwMDAwMDBaMBUxEzARBgNVBAMMCndl
YnNob290ZXIwWTATBgcqhkjOPQIBBggqhkjOPQMBBwNCAAQBAgMEBQYHCAkKCwwN
Dg8QERITFBUWFxgZGhscHR4fICEiIyQlJicoKSorLC0uLzAxMjM0NTY3ODk6Ozw9
Pj9Aow0wCzAJBgNVHRMEAjAAMAoGCCqGSM49BAMCAwkAMAYCAQECAQE=
-----END CERTIFICATE-----
";

#[test]
fn certificates_name_their_hosts() {
    let names = sans_from_cert(CERTIFICATE.as_bytes()).unwrap();
    assert_eq!(names.len(), 4);
    assert!(matches!(&names[0], San::Dns(name) if name == "localhost"));
    assert!(matches!(names[1], San::Ip(IpAddress::V4(0x7f000001))));
    assert!(matches!(names[2], San::Ip(IpAddress::V6(1))));
    assert!(matches!(&names[3], San::Dns(name) if name == "example.org"));
    assert!(sans_from_cert(NAMELESS.as_bytes()).unwrap().is_empty());
    assert!(sans_from_cert(b"").is_err());
    assert!(sans_from_cert(&CERTIFICATE.as_bytes()[..300]).is_err());
    assert!(sans_from_cert(b"-----BEGIN CERTIFICATE-----\nAAAA\n-----END CERTIFICATE-----\n").is_err());
    assert!(sans_from_cert(CERTIFICATE.replace("MIIBLj", "MIIBLz").as_bytes()).is_err());
}

#[test]
fn addresses_have_four_or_sixteen_bytes() {
    let names = connectable(vec![
        AltName::Ip(vec![1, 2, 3]),
        AltName::Other,
        AltName::Ip(vec![255; 16]),
        AltName::Dns("a".to_string()),
        AltName::Ip(vec![255; 4]),
        AltName::Ip(vec![]),
    ]);
    assert_eq!(names.len(), 3);
    assert!(matches!(names[0], San::Ip(IpAddress::V6(u128::MAX))));
    assert!(matches!(&names[1], San::Dns(name) if name == "a"));
    assert!(matches!(names[2], San::Ip(IpAddress::V4(u32::MAX))));
}

#[test]
fn the_seat_of_the_user_is_found() {
    let output = b"  c1 1000 ann\n\n3 1001 bob seat0\r\n7 1000 ann seat0\n";
    assert_eq!(session_ids(output), vec!["c1", "3", "7"]);
    assert!(is_seat_session(b"UID=1000\nSeat=seat0\n", 1000));
    assert!(is_seat_session(b"UID=1\nSeat=\nSeat=seat0\nUID=1000\n", 1000));
    assert!(!is_seat_session(b"UID=1000\nSeat=\n", 1000));
    assert!(!is_seat_session(b"Seat=seat0\n", 1000));
    assert!(!is_seat_session(b"UID=1000\nUID=x\nSeat=seat0\n", 1000));
    assert!(!is_seat_session(b"UID=1001\nSeat=seat0\n", 1000));
    let mut search = SeatSearch::new(output);
    assert_eq!(search.current().as_deref(), Some("c1"));
    assert!(!search.answer(Some(b"UID=1000\nSeat=\n"), 1000));
    assert_eq!(search.current().as_deref(), Some("3"));
    assert!(!search.answer(None, 1000));
    assert_eq!(search.current().as_deref(), Some("7"));
    assert!(search.answer(Some(b"UID=1000\nSeat=seat0"), 1000));
    assert_eq!(search.current().as_deref(), Some("7"));
    assert!(!search.answer(None, 1000));
    assert_eq!(search.current(), None);
}

#[test]
fn the_runtime_directory_is_found() {
    let found = SessionLookup::Found("7".to_string());
    let none = SessionLookup::NoSession;
    let unavailable = SessionLookup::Unavailable;
    assert!(matches!(runtime_dir(true, 5, &none, false), RuntimeDir::Keep));
    assert!(matches!(
        runtime_dir(false, 1000, &found, false),
        RuntimeDir::Use(dir) if dir == "/run/user/1000"
    ));
    assert!(matches!(
        runtime_dir(false, 5, &unavailable, true),
        RuntimeDir::Use(dir) if dir == "/run/user/5"
    ));
    assert!(matches!(
        runtime_dir(false, 5, &none, true),
        RuntimeDir::Fail(s) if s == "No seat-bearing session found for uid 5; cannot determine \
            XDG_RUNTIME_DIR. A graphical session is required to capture a display."
    ));
    assert!(matches!(
        runtime_dir(false, 5, &unavailable, false),
        RuntimeDir::Fail(s) if s == "Could not determine XDG_RUNTIME_DIR: no logind session and \
            /run/user/5 does not exist. Set XDG_RUNTIME_DIR manually or start a graphical session."
    ));
}

#[test]
fn the_desktop_is_found() {
    assert_eq!(desktop_property(b"A=1\nDesktop= KDE \n").as_deref(), Some("KDE"));
    assert_eq!(desktop_property(b"Desktop=\nDesktop=KDE\n"), None);
    assert_eq!(desktop_property(b""), None);
    assert_eq!(desktop_property(b"Desktop=\xff\n").as_deref(), Some("\u{fffd}"));
    let found = SessionLookup::Found("7".to_string());
    let chosen = |choice| match choice {
        DesktopChoice::Keep => "keep".to_string(),
        DesktopChoice::Use(d) => d,
        DesktopChoice::Unknown => "unknown".to_string(),
        DesktopChoice::Fail => "fail".to_string(),
    };
    let desktop = Some(&b"Desktop=KDE"[..]);
    assert_eq!(chosen(current_desktop(true, &found, desktop, Some("sway"), None)), "keep");
    assert_eq!(chosen(current_desktop(false, &found, desktop, Some("sway"), None)), "KDE");
    assert_eq!(chosen(current_desktop(false, &found, None, Some("sway"), Some("x"))), "sway");
    assert_eq!(chosen(current_desktop(false, &found, None, None, Some("x"))), "x");
    assert_eq!(chosen(current_desktop(false, &found, None, None, Some(""))), "unknown");
    let none = SessionLookup::NoSession;
    assert_eq!(chosen(current_desktop(false, &none, desktop, None, None)), "unknown");
    let gone = SessionLookup::Unavailable;
    assert_eq!(chosen(current_desktop(false, &gone, desktop, Some("sway"), Some("x"))), "fail");
}

#[test]
fn the_compositor_is_found() {
    assert_eq!(compositor(0), ("kwin_wayland", "KDE"));
    assert_eq!(compositor(COMPOSITORS - 1), ("cosmic-comp", "COSMIC"));
    let mut pgrep: Vec<Option<Vec<u8>>> = vec![None; COMPOSITORS];
    let processes = strings(&["init\n", "weston\n", "sway\n"]);
    assert_eq!(desktop_from_compositor(&pgrep, &processes), Some("sway"));
    assert_eq!(desktop_from_compositor(&pgrep, &strings(&["swaybg\n"])), None);
    pgrep[2] = Some(vec![]);
    assert_eq!(desktop_from_compositor(&pgrep, &processes), Some("sway"));
    pgrep[2] = Some(b"123\n".to_vec());
    assert_eq!(desktop_from_compositor(&pgrep, &processes), Some("GNOME"));
    assert!(compositor_running("river", &Some(vec![1]), &vec![]));
    assert!(compositor_running("river", &None, &strings(&[" river\n"])));
    assert!(!compositor_running("river", &None, &strings(&["rivers"])));
}

#[test]
fn the_lowest_display_is_taken() {
    let sockets = strings(&["wayland-10", "bus", "wayland-2", "wayland-02", "wayland-x"]);
    assert_eq!(wayland_display(false, true, &sockets).as_deref(), Some("wayland-02"));
    assert_eq!(wayland_display(false, true, &strings(&["bus"])).as_deref(), Some("wayland-0"));
    assert_eq!(wayland_display(false, true, &vec![]).as_deref(), Some("wayland-0"));
    assert_eq!(wayland_display(true, true, &sockets), None);
    assert_eq!(wayland_display(false, false, &sockets), None);
}

#[test]
fn the_configuration_is_found() {
    for option in ["-c", "--config", "--config-path"] {
        let args = strings(&["webshooter", option, "/x"]);
        assert_eq!(config_dir(&args, Some("/home/a")).as_deref(), Some("/x"));
    }
    let home = Some("/home/a/.config/webshooter");
    assert_eq!(config_dir(&strings(&["w", "-c"]), Some("/home/a")).as_deref(), home);
    assert_eq!(config_dir(&strings(&["w", "-c", "/x", "y"]), Some("/home/a")).as_deref(), home);
    assert_eq!(config_dir(&strings(&["w", "-d", "/x"]), None), None);
    assert_eq!(dir_step(DirState::Directory), DirStep::Use);
    assert_eq!(dir_step(DirState::Missing), DirStep::Create);
    assert_eq!(dir_step(DirState::NotADirectory), DirStep::UseParent);
    assert_eq!(dir_step(DirState::Unreadable), DirStep::Fail);
    assert_eq!(config_file(&strings(&["a", "config.toml", "config.json"])), Some(1));
    assert_eq!(config_file(&strings(&["a", "my-config"])), None);
    assert!(is_blank(" \n\u{3000}") && !is_blank(" x "));
    assert_eq!(config_format("config.toml"), ConfigFormat::Toml);
    assert_eq!(config_format("config.yaml"), ConfigFormat::Yaml);
    assert_eq!(config_format("config.yml"), ConfigFormat::Yaml);
    assert_eq!(config_format("config.json"), ConfigFormat::Json);
    assert_eq!(config_format("config"), ConfigFormat::Json);
}

#[test]
fn a_new_configuration_lets_nobody_in() {
    let config = Config::initialise_at("/c/config.json", Some("/c"), "2").unwrap();
    assert_eq!(config.path, "/c/config.json");
    assert_eq!(config.version, "2");
    assert_eq!(config.authorised_keys.len(), 0);
    assert_eq!(config.http_config.port, 443);
    assert_eq!(config.http_config.ssl_conf.key, "/c/key.pem");
    assert_eq!(config.http_config.ssl_conf.certificate, "/c/cert.pem");
    assert_eq!(config.webtransport_permitted_domains, vec!["localhost", "127.0.0.1"]);
    assert_eq!(
        Config::initialise_at("/", None, "2").unwrap_err().message(),
        "The config path must be a file"
    );
}

#[test]
fn sources_keep_their_tokens() {
    let source = |is_virtual, token: &str| CaptureSource {
        is_virtual,
        session_token: token.to_string(),
    };
    let mut sources = vec![source(false, "a"), source(true, "b"), source(true, "c")];
    assert_eq!(last_token(&sources).as_deref(), Some("c"));
    assert_eq!(virtual_token(&sources).as_deref(), Some("b"));
    assert!(set_virtual_token(&mut sources, "d".to_string()));
    assert_eq!(
        sources.iter().map(|s| s.session_token.as_str()).collect::<Vec<_>>(),
        vec!["a", "d", "c"]
    );
    let mut plain = vec![source(false, "a")];
    assert!(!set_virtual_token(&mut plain, "d".to_string()));
    assert_eq!(virtual_token(&plain), None);
    assert_eq!(last_token(&vec![]), None);
    let chosen = chosen_source(Some("t".to_string())).unwrap();
    assert_eq!((chosen.len(), chosen[0].session_token.as_str()), (1, "t"));
    let message = chosen_source(None).unwrap_err().message();
    assert!(message.starts_with("Portal did not return a restore token. Ensure your portal"));
    assert!(message.contains("gnome-shell ≥ 43, KWin ≥ 5.27"));
}

#[test]
fn records_are_lined_up() {
    let mut logger = init(false);
    assert!(logger.enabled(Level::Info) && !logger.enabled(Level::Debug));
    assert!(init(true).enabled(Level::Debug));
    set_level(&mut logger, LevelFilter::Error);
    assert!(logger.enabled(Level::Error) && !logger.enabled(Level::Warn));
    for (level, name) in [
        (Level::Error, "ERROR"),
        (Level::Warn, "WARN"),
        (Level::Info, "INFO"),
        (Level::Debug, "DEBUG"),
        (Level::Trace, "TRACE"),
    ] {
        assert_eq!(logger.format(level, "a::b", "c"), format!("[{name:>5} a::b] c"));
    }
}

#[test]
fn cancelled_work_has_no_result() {
    assert!(matches!(uncancelled::<u8, u8>(Some(Ok(1))), Ok(1)));
    assert!(matches!(uncancelled::<u8, u8>(Some(Err(2))), Err(Interrupted::Failed(2))));
    assert!(matches!(uncancelled::<u8, u8>(None), Err(Interrupted::Cancelled)));
}
