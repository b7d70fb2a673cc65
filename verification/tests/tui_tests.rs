use sutty::config::{SessionConfig, SessionManager};
use sutty::keys::{KeyCode, KeyEvent, KeyEventKind, KeyModifiers};
use sutty::tui::{
    dialog_connection, field_display, handle_key, mask_str, App, DialogResult, Field, KeyOutcome,
    Persist, Screen,
};

fn key(code: KeyCode) -> KeyEvent {
    KeyEvent { code, modifiers: KeyModifiers { control: false, shift: false, alt: false }, kind: KeyEventKind::Press }
}

fn ctrl(c: char) -> KeyEvent {
    KeyEvent { code: KeyCode::Char(c), modifiers: KeyModifiers { control: true, shift: false, alt: false }, kind: KeyEventKind::Press }
}

fn typ(app: &mut App, s: &str) {
    for c in s.chars() {
        assert!(matches!(handle_key(app, key(KeyCode::Char(c))), KeyOutcome::Continue));
    }
}

fn saved(name: &str, host: &str, port: u16, key_file: Option<&str>) -> SessionConfig {
    SessionConfig {
        name: name.to_string(),
        host: host.to_string(),
        port,
        username: "bob".to_string(),
        encrypted_password: None,
        key_file: key_file.map(|k| k.to_string()),
        last_used: 0,
    }
}

fn empty_app() -> App {
    App::new(SessionManager::new(vec![], None))
}

#[test]
fn new_app_defaults() {
    let app = empty_app();
    assert_eq!(app.screen, Screen::ConnectionDialog);
    assert_eq!(app.field, Field::Host);
    assert_eq!(app.port_str, "22");
    assert_eq!(app.port(), 22);
    assert!(app.result.is_none());
    assert_eq!(app.session_list_index, 0);
}

#[test]
fn port_falls_back_to_22() {
    let mut app = empty_app();
    app.port_str = "2222".to_string();
    assert_eq!(app.port(), 2222);
    app.port_str = "".to_string();
    assert_eq!(app.port(), 22);
    app.port_str = "70000".to_string();
    assert_eq!(app.port(), 22);
}

#[test]
fn field_cycle_both_ways() {
    let mut app = empty_app();
    let order = [Field::Port, Field::Username, Field::Password, Field::KeyFile, Field::SessionName, Field::Host];
    for f in order {
        app.next_field();
        assert_eq!(app.field, f);
    }
    app.prev_field();
    assert_eq!(app.field, Field::SessionName);
    app.next_field();
    assert_eq!(app.field, Field::Host);
}

#[test]
fn typing_fills_focused_field_and_port_takes_digits_only() {
    let mut app = empty_app();
    typ(&mut app, "example.org");
    assert_eq!(app.host, "example.org");
    handle_key(&mut app, key(KeyCode::Tab));
    assert_eq!(app.field, Field::Port);
    handle_key(&mut app, key(KeyCode::Backspace));
    handle_key(&mut app, key(KeyCode::Backspace));
    typ(&mut app, "2a2");
    assert_eq!(app.port_str, "22");
    handle_key(&mut app, key(KeyCode::BackTab));
    handle_key(&mut app, key(KeyCode::Backspace));
    assert_eq!(app.host, "example.or");
}

#[test]
fn enter_requires_host_and_username() {
    let mut app = empty_app();
    assert!(matches!(handle_key(&mut app, key(KeyCode::Enter)), KeyOutcome::Continue));
    assert_eq!(app.status_msg, "Hostname is required");
    assert!(app.status_is_error);
    typ(&mut app, "h");
    handle_key(&mut app, key(KeyCode::Enter));
    assert_eq!(app.status_msg, "Username is required");
    app.field = Field::Username;
    typ(&mut app, "u");
    app.field = Field::Password;
    typ(&mut app, "pw");
    assert!(matches!(handle_key(&mut app, key(KeyCode::Enter)), KeyOutcome::Exit));
    match &app.result {
        Some(DialogResult::Connect { host, port, username, password, key_file }) => {
            assert_eq!(host, "h");
            assert_eq!(*port, 22);
            assert_eq!(username, "u");
            assert_eq!(password, "pw");
            assert!(key_file.is_none());
        }
        _ => panic!("expected a connection"),
    }
    let params = dialog_connection(&app.result).unwrap();
    assert_eq!(params.password, Some("pw".to_string()));
}

#[test]
fn esc_quits() {
    let mut app = empty_app();
    assert!(matches!(handle_key(&mut app, key(KeyCode::Esc)), KeyOutcome::Exit));
    assert!(matches!(app.result, Some(DialogResult::Quit)));
    assert!(dialog_connection(&app.result).is_none());
    assert!(dialog_connection(&None).is_none());
}

#[test]
fn release_is_ignored() {
    let mut app = empty_app();
    let mut k = key(KeyCode::Char('x'));
    k.kind = KeyEventKind::Release;
    assert!(matches!(handle_key(&mut app, k), KeyOutcome::Continue));
    assert_eq!(app.host, "");
}

#[test]
fn ctrl_s_needs_session_name_then_saves() {
    let mut app = empty_app();
    typ(&mut app, "host1");
    assert!(matches!(handle_key(&mut app, ctrl('s')), KeyOutcome::Continue));
    assert_eq!(app.status_msg, "Session name is required to save");
    app.field = Field::SessionName;
    typ(&mut app, "work");
    app.field = Field::KeyFile;
    typ(&mut app, "/k");
    match handle_key(&mut app, ctrl('s')) {
        KeyOutcome::Persist(p) => {
            assert!(matches!(p, Persist::SaveSession));
            app.finish_persist(&p, Ok(()));
            assert_eq!(app.status_msg, "Session 'work' saved");
            assert!(!app.status_is_error);
            app.finish_persist(&p, Err("disk full".to_string()));
            assert_eq!(app.status_msg, "Save failed: disk full");
            assert!(app.status_is_error);
        }
        _ => panic!("expected a save"),
    }
    let s = app.sessions.find("work").unwrap();
    assert_eq!(s.host, "host1");
    assert_eq!(s.port, 22);
    assert_eq!(s.key_file.as_deref(), Some("/k"));
    assert!(s.encrypted_password.is_none());
}

#[test]
fn session_list_navigation_load_and_delete() {
    let mgr = SessionManager::new(vec![saved("a", "ha", 2200, Some("/ka")), saved("b", "hb", 22, None)], Some("b".to_string()));
    let mut app = App::new(mgr);
    handle_key(&mut app, ctrl('l'));
    assert_eq!(app.screen, Screen::SessionList);
    handle_key(&mut app, key(KeyCode::Up));
    assert_eq!(app.session_list_index, 0);
    handle_key(&mut app, key(KeyCode::Char('j')));
    assert_eq!(app.session_list_index, 1);
    handle_key(&mut app, key(KeyCode::Down));
    assert_eq!(app.session_list_index, 1);
    handle_key(&mut app, key(KeyCode::Char('k')));
    assert_eq!(app.session_list_index, 0);
    handle_key(&mut app, key(KeyCode::Enter));
    assert_eq!(app.screen, Screen::ConnectionDialog);
    assert_eq!(app.host, "ha");
    assert_eq!(app.port_str, "2200");
    assert_eq!(app.port(), 2200);
    assert_eq!(app.key_file, "/ka");
    assert_eq!(app.session_name, "a");
    assert_eq!(app.status_msg, "Loaded session 'a'");
    handle_key(&mut app, ctrl('l'));
    app.session_list_index = 1;
    match handle_key(&mut app, key(KeyCode::Char('d'))) {
        KeyOutcome::Persist(p) => {
            match &p {
                Persist::DeleteSession(n) => assert_eq!(n, "b"),
                _ => panic!("expected a deletion"),
            }
            app.finish_persist(&p, Ok(()));
            assert_eq!(app.session_list_index, 0);
            assert_eq!(app.status_msg, "Deleted session 'b'");
        }
        _ => panic!("expected a deletion"),
    }
    assert_eq!(app.sessions.sessions().len(), 1);
    assert!(app.sessions.last_session.is_none());
    handle_key(&mut app, key(KeyCode::Esc));
    assert_eq!(app.screen, Screen::ConnectionDialog);
}

#[test]
fn delete_failure_reports_error() {
    let mut app = App::new(SessionManager::new(vec![saved("a", "h", 22, None)], None));
    app.screen = Screen::SessionList;
    let out = handle_key(&mut app, key(KeyCode::Delete));
    if let KeyOutcome::Persist(p) = out {
        app.finish_persist(&p, Err("denied".to_string()));
        assert_eq!(app.status_msg, "Delete failed: denied");
        assert!(app.status_is_error);
    } else {
        panic!("expected a deletion");
    }
}

#[test]
fn empty_list_keys_do_nothing() {
    let mut app = empty_app();
    app.screen = Screen::SessionList;
    assert!(matches!(handle_key(&mut app, key(KeyCode::Delete)), KeyOutcome::Continue));
    handle_key(&mut app, key(KeyCode::Down));
    assert_eq!(app.session_list_index, 0);
    handle_key(&mut app, key(KeyCode::Enter));
    assert_eq!(app.screen, Screen::SessionList);
}

#[test]
fn save_then_load_gives_back_the_form() {
    let mut app = empty_app();
    app.host = "srv".to_string();
    app.port_str = "0080".to_string();
    app.username = "me".to_string();
    app.session_name = "s".to_string();
    let _ = app.save_current_session();
    app.host.clear();
    app.port_str.clear();
    app.load_session(0);
    assert_eq!(app.host, "srv");
    assert_eq!(app.port(), 80);
    assert_eq!(app.session_name, "s");
}

#[test]
fn display_helpers() {
    assert_eq!(mask_str("abc"), "***");
    assert_eq!(mask_str("é"), "**");
    assert_eq!(mask_str(""), "");
    assert_eq!(field_display("", false), "(empty)");
    assert_eq!(field_display("", true), "▌");
    assert_eq!(field_display("x", true), "x▌");
    assert_eq!(field_display("x", false), "x ");
}

#[test]
fn status_set_and_clear() {
    let mut app = empty_app();
    app.set_status("oops", true);
    assert_eq!(app.status_msg, "oops");
    assert!(app.status_is_error);
    app.clear_status();
    assert_eq!(app.status_msg, "");
    assert!(app.status_is_error);
}
