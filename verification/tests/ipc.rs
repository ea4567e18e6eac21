//! Commands to the running server, and the clients that are connected.
use webshooter::server::id_table::IdTable;
use webshooter::server::ipc::{
    deauthorise, deauthorised_text, display_name, first_answer, format_id, handle, peer_allowed,
    remove_user, show, socket_name, socket_role, usage_text, Deauthorisation, FirstAnswer, Handling, IPCMessage,
    Registry, SocketRole, SocketState, User,
};
use webshooter::server::wt::session_name;
use webshooter::server::tray::{menu, tray_icon, MenuEntry};
use webshooter::shared::server_datagram::ServerDatagram;

fn words(line: &str) -> Vec<String> {
    line.split(' ').map(String::from).collect()
}

#[test]
fn commands_are_read() {
    let known = vec![
        ("exit", IPCMessage::Exit),
        ("authorise", IPCMessage::Authorise(None)),
        ("authorise 2", IPCMessage::Authorise(Some(2))),
        ("deauthorise", IPCMessage::Deauthorise(None)),
        ("deauthorise 0", IPCMessage::Deauthorise(Some(0))),
        ("release_mouse", IPCMessage::ReleaseMouse),
        ("mouse_release", IPCMessage::ReleaseMouse),
        ("fullscreen", IPCMessage::FullscreenToggle(None)),
        ("fullscreen 1", IPCMessage::FullscreenToggle(Some(1))),
        ("fullscreen_toggle", IPCMessage::FullscreenToggle(None)),
        ("fullscreen_toggle 1", IPCMessage::FullscreenToggle(Some(1))),
        ("toggle_fullscreen", IPCMessage::FullscreenToggle(None)),
        ("toggle_fullscreen +1", IPCMessage::FullscreenToggle(Some(1))),
        ("EXIT", IPCMessage::Exit),
        ("Authorise 3", IPCMessage::Authorise(Some(3))),
    ];
    for (line, message) in known {
        assert_eq!(IPCMessage::parse_args(&words(line)), Ok(message), "{line}");
        assert_eq!(IPCMessage::parse_line(line), Ok(message), "{line}");
    }
    for line in ["", "exit 1", "authorise x", "authorise 1 2", "authorise -1", "help", "exit "] {
        assert_eq!(IPCMessage::parse_args(&words(line)), Err(usage_text()), "{line}");
        assert_eq!(IPCMessage::parse_line(line), Err(usage_text()), "{line}");
    }
    assert_eq!(IPCMessage::parse_args(&vec![]), Err(usage_text()));
    assert!(usage_text().starts_with("Webshooter supports the following commands"));
    assert_eq!(IPCMessage::from_words(&words("EXIT")), None);
    assert_eq!(IPCMessage::parse_line("\u{212a}ELP"), Err(usage_text()));
}

#[test]
fn case_is_folded_as_in_unicode() {
    assert_eq!(IPCMessage::parse_line("fullscreen_toggle"), IPCMessage::parse_line("FULLSCREEN_TOGGLE"));
    // A capital I with a dot becomes two characters, so this is no `exit`.
    assert_eq!(IPCMessage::parse_line("EX\u{130}T"), Err(usage_text()));
}

#[test]
fn commands_are_shown() {
    for message in [
        IPCMessage::Exit,
        IPCMessage::ReleaseMouse,
        IPCMessage::Authorise(None),
        IPCMessage::Authorise(Some(12)),
        IPCMessage::Deauthorise(Some(0)),
        IPCMessage::FullscreenToggle(None),
    ] {
        assert_eq!(show(message), format!("{message:#?}"));
    }
}

#[test]
fn short_names_leave_out_padding() {
    let id: Vec<u8> = (0..40).collect();
    assert_eq!(format_id(&id), "GBkaGxwdHh8");
    assert_eq!(format_id(&id[..32]), "GBkaGxwdHh8");
    assert_eq!(format_id(&[1]), "AQ");
    assert_eq!(format_id(&[]), "");
}

#[test]
fn clients_get_the_lowest_free_number() {
    let mut registry = Registry::new();
    assert_eq!(registry.revision(), 0);
    assert_eq!(registry.register_session("a".to_string()), 1);
    assert_eq!(registry.register_session("b".to_string()), 2);
    assert_eq!(registry.register_session("c".to_string()), 3);
    assert!(registry.disconnect_client(2));
    assert!(!registry.send_client_control_to(2));
    assert!(registry.send_client_control_to(3));
    assert_eq!(registry.next_client_id(), 2);
    assert_eq!(registry.register_session("d".to_string()), 2);
    registry.remove_session(1);
    assert!(!registry.disconnect_client(1));
    let mut clients = registry.list_clients();
    clients.sort();
    assert_eq!(clients, vec![(2, "d".to_string()), (3, "c".to_string())]);
    let mut ids = registry.send_client_control();
    ids.sort();
    assert_eq!(ids, vec![2, 3]);
    assert_eq!(registry.revision(), 7);
}

#[test]
fn keys_are_revoked() {
    let a: Vec<u8> = vec![1; 40];
    let b: Vec<u8> = vec![2; 40];
    assert!(matches!(
        deauthorise(Some(0), &vec![]),
        Deauthorisation::Reply(s) if s == "No challenged sessions"
    ));
    assert!(matches!(
        deauthorise(Some(5), &vec![a.clone()]),
        Deauthorisation::Revoke(id) if id == a
    ));
    let two = vec![a.clone(), b.clone()];
    assert!(matches!(deauthorise(Some(1), &two), Deauthorisation::Revoke(id) if id == b));
    assert!(matches!(deauthorise(Some(2), &two), Deauthorisation::InvalidIndex));
    assert!(matches!(
        deauthorise(None, &two),
        Deauthorisation::Reply(s) if s == "Please select a session:\n0: AQEBAQEBAQE\n1: AgICAgICAgI"
    ));
    let user = |key: &Vec<u8>, name: &str| User { key: key.clone(), display_name: name.to_string() };
    let mut users = vec![user(&a, "x"), user(&b, "y"), user(&a, "z"), user(&b, "w")];
    let doomed = remove_user(&mut users, &a);
    assert_eq!(deauthorised_text(&doomed, &a), "Deauthorised \"z\"");
    assert_eq!(
        users.iter().map(|u| u.display_name.as_str()).collect::<Vec<_>>(),
        vec!["y", "w"]
    );
    let nobody = remove_user(&mut users, &a);
    assert_eq!(deauthorised_text(&nobody, &a), "No user matching key AQEBAQEBAQE");
    assert_eq!(users.len(), 2);
}

#[test]
fn commands_are_handled() {
    assert_eq!(handle(IPCMessage::Exit), Handling::Exit);
    assert_eq!(handle(IPCMessage::Authorise(Some(1))), Handling::Forward);
    assert_eq!(handle(IPCMessage::Deauthorise(Some(1))), Handling::Deauthorise(Some(1)));
    assert_eq!(handle(IPCMessage::ReleaseMouse), Handling::ReleaseMouse);
    assert_eq!(handle(IPCMessage::FullscreenToggle(Some(3))), Handling::ToggleFullscreen);
    assert_eq!(Handling::Exit.reply(), Some("Webshooter shutting down"));
    assert_eq!(Handling::ToggleFullscreen.reply(), Some("Fullscreen toggled"));
    assert_eq!(Handling::ReleaseMouse.reply(), Some("Mouse released"));
    assert_eq!(Handling::Forward.reply(), None);
    assert_eq!(Handling::ReleaseMouse.broadcast(), Some(ServerDatagram::ReleaseMouse));
    assert_eq!(Handling::ToggleFullscreen.broadcast(), Some(ServerDatagram::ToggleFullscreen));
    assert_eq!(Handling::Exit.broadcast(), None);
}

#[test]
fn first_answers_come_before_handling() {
    assert_eq!(first_answer(IPCMessage::Authorise(None), false), FirstAnswer::NoSessions);
    assert_eq!(first_answer(IPCMessage::Authorise(None), true), FirstAnswer::Handle);
    assert_eq!(first_answer(IPCMessage::Exit, true), FirstAnswer::Bye);
    assert_eq!(first_answer(IPCMessage::ReleaseMouse, false), FirstAnswer::Handle);
    assert_eq!(FirstAnswer::NoSessions.text(), Some("No challenged sessions"));
    assert_eq!(FirstAnswer::Bye.text(), Some("Bye!"));
    assert_eq!(FirstAnswer::Handle.text(), None);
}

#[test]
fn only_our_own_user_sends_commands() {
    assert!(peer_allowed(0, 1000, 1000));
    assert!(!peer_allowed(0, 0, 1000));
    assert!(!peer_allowed(-1, 1000, 1000));
    assert_eq!(socket_name("42"), "webshooter_42.sock");
    assert_eq!(socket_role(SocketState::Listening), SocketRole::Serve);
    assert_eq!(socket_role(SocketState::InUseAndRefused), SocketRole::Replace);
    assert_eq!(socket_role(SocketState::InUseAndConnected), SocketRole::Command);
    assert_eq!(socket_role(SocketState::InUseAndUnreachable), SocketRole::Fail);
    assert_eq!(socket_role(SocketState::Failed), SocketRole::Fail);
}

#[test]
fn tables_hold_each_identity_once() {
    let mut table: IdTable<u8> = IdTable::new();
    table.insert(vec![1], 10);
    table.insert(vec![2], 20);
    table.insert(vec![1], 11);
    assert_eq!(table.len(), 2);
    assert_eq!(table.get(&[1]), Some(&11));
    assert_eq!(table.get(&[1, 2]), None);
    assert_eq!(table.remove(&[1]), Some(11));
    assert_eq!(table.remove(&[1]), None);
    assert_eq!((table.id(0), table.value(0)), (&vec![2], &20));
}

#[test]
fn the_tray_lists_the_clients() {
    let entries = menu(&vec![(3, "ann".to_string()), (1, "bob".to_string())]);
    assert_eq!(entries.len(), 4);
    assert!(matches!(&entries[0], MenuEntry::Client { id: 3, label } if label == "ann-3"));
    assert!(matches!(&entries[1], MenuEntry::Client { id: 1, label } if label == "bob-1"));
    assert!(matches!(entries[2], MenuEntry::Separator));
    assert!(matches!(entries[3], MenuEntry::Quit));
}

#[test]
fn the_tray_icon_is_a_disc() {
    let data = tray_icon();
    assert_eq!(data.len(), 32 * 32 * 4);
    for y in 0..32usize {
        for x in 0..32usize {
            let (dx, dy) = (x as f32 - 16.0, y as f32 - 16.0);
            let alpha = if (dx * dx + dy * dy).sqrt() > 16.0 { 0 } else { 255 };
            let at = (y * 32 + x) * 4;
            assert_eq!(data[at..at + 4], [alpha, 200, 40, 180]);
        }
    }
}

#[test]
fn sessions_are_named_after_their_users() {
    let user = |key: u8, name: &str| User { key: vec![key; 4], display_name: name.to_string() };
    let users = vec![user(1, "ann"), user(2, "bob"), user(1, "eve")];
    assert_eq!(display_name(&users, &[1, 1, 1, 1]), "ann");
    assert_eq!(display_name(&users, &[2, 2, 2, 2]), "bob");
    assert_eq!(display_name(&users, &[2, 2, 2]), "");
    assert_eq!(display_name(&vec![], &[1, 1, 1, 1]), "");
    assert_eq!(session_name("ann", 1), "webshooter-ann-1");
    assert_eq!(session_name("", 12), "webshooter--12");
    assert_ne!(session_name("a-1", 2), session_name("a", 12));
}

#[test]
fn commands_are_read_in_any_case() {
    assert_eq!(IPCMessage::parse_line("AuThOrIsE 3"), Ok(IPCMessage::Authorise(Some(3))));
    assert_eq!(IPCMessage::parse_args(&words("EXIT")), Ok(IPCMessage::Exit));
}
