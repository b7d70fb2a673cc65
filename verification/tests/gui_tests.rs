use sutty::config::{SessionConfig, SessionManager};
use sutty::gui::{ConnState, ConnectionForm, RuttyApp, SaveRequest, StatusLine};
use sutty::ssh::SshEvent;

fn saved(name: &str, host: &str, last_used: u64) -> SessionConfig {
    SessionConfig {
        name: name.to_string(),
        host: host.to_string(),
        port: 2022,
        username: "carol".to_string(),
        encrypted_password: None,
        key_file: Some("/id".to_string()),
        last_used,
    }
}

#[test]
fn form_default_and_port() {
    let mut f = ConnectionForm::default();
    assert_eq!(f.port, "22");
    assert_eq!(f.port_u16(), 22);
    f.port = "8022".to_string();
    assert_eq!(f.port_u16(), 8022);
    f.port = "x".to_string();
    assert_eq!(f.port_u16(), 22);
}

#[test]
fn new_sorts_by_recency_and_loads_first() {
    let mut with_pw = saved("b", "hb", 30);
    assert!(with_pw.set_password("pw"));
    let app = RuttyApp::new(vec![saved("a", "ha", 10), with_pw, saved("c", "hc", 10), saved("d", "hd", 20)]);
    let names: Vec<&str> = app.saved_sessions.iter().map(|s| s.name.as_str()).collect();
    assert_eq!(names, vec!["b", "d", "a", "c"]);
    assert_eq!(app.form.host, "hb");
    assert_eq!(app.form.port, "2022");
    assert_eq!(app.form.username, "carol");
    assert_eq!(app.form.key_file, "/id");
    assert_eq!(app.form.password, "pw");
    assert_eq!(app.selected_session, "b");
    assert_eq!(app.conn_state, ConnState::Disconnected);
    assert_eq!(app.reconnect_max, 5);
    assert!(app.can_connect());
    assert!(!app.can_disconnect());
}

#[test]
fn new_without_sessions() {
    let app = RuttyApp::new(vec![]);
    assert_eq!(app.form.port, "22");
    assert_eq!(app.form.host, "");
    assert_eq!(app.selected_session, "");
}

#[test]
fn connect_validates_and_starts() {
    let mut app = RuttyApp::new(vec![]);
    assert!(app.connect().is_none());
    assert_eq!(app.form.status, "Host and username are required");
    assert!(app.form.status_error);
    app.form.host = "h".to_string();
    app.form.username = "u".to_string();
    app.form.port = "2200".to_string();
    let req = app.connect().unwrap();
    assert_eq!(req.host, "h");
    assert_eq!(req.port, 2200);
    assert_eq!(req.username, "u");
    assert!(req.password.is_none());
    assert!(req.key_file.is_none());
    assert_eq!(app.form.status, "Connecting to u@h:2200...");
    assert_eq!(app.conn_state, ConnState::Connecting);
    assert!(app.can_disconnect());
    assert!(!app.can_connect());
}

#[test]
fn first_data_connects_and_offers_save() {
    let mut app = RuttyApp::new(vec![]);
    app.form.host = "h".to_string();
    app.form.username = "u".to_string();
    app.connect().unwrap();
    assert!(app.needs_saved_check());
    let ended = app.on_ssh_event(&SshEvent::Data(b"hi".to_vec()), false);
    assert!(!ended);
    assert_eq!(app.conn_state, ConnState::Connected);
    assert_eq!(app.form.status, "Connected.");
    assert!(app.show_save_prompt);
    assert_eq!(app.save_session_name, "u@h");
    assert!(app.needs_scroll);
    let ended = app.on_ssh_event(&SshEvent::Eof, false);
    assert!(ended);
    assert_eq!(app.form.status, "Connection closed.");
    assert!(!app.form.status_error);
    assert_eq!(app.conn_state, ConnState::Disconnected);
}

#[test]
fn already_saved_connection_is_not_offered() {
    let mut app = RuttyApp::new(vec![]);
    app.form.host = "h".to_string();
    app.form.username = "u".to_string();
    app.connect().unwrap();
    app.on_ssh_event(&SshEvent::Data(vec![1]), true);
    assert!(!app.show_save_prompt);
}

#[test]
fn failure_and_reconnect_attempts() {
    let mut app = RuttyApp::new(vec![]);
    app.form.host = "h".to_string();
    app.form.username = "u".to_string();
    app.form.password = "pw".to_string();
    app.connect().unwrap();
    assert!(app.on_ssh_event(&SshEvent::ExitStatus(1), false));
    assert_eq!(app.form.status, "Connection failed.");
    assert!(app.form.status_error);
    assert!(app.reconnect_ready());
    assert_eq!(app.reconnect_attempt(), Some((1, 5)));
    app.form.host = "changed".to_string();
    let req = app.begin_reconnect().unwrap();
    assert_eq!(req.host, "h");
    assert_eq!(req.password, Some("pw".to_string()));
    assert_eq!(app.reconnect_count, 1);
    assert_eq!(app.form.status, "Connecting to u@h:22...");
    assert_eq!(app.conn_state, ConnState::Connecting);
    assert!(!app.reconnect_ready());
    assert!(app.begin_reconnect().is_none());
}

#[test]
fn reconnection_stops_at_the_limit() {
    let mut app = RuttyApp::new(vec![]);
    app.form.host = "h".to_string();
    app.form.username = "u".to_string();
    app.connect().unwrap();
    assert_eq!(app.reconnect_count, 0);
    for k in 1..=5u32 {
        assert!(app.on_ssh_event(&SshEvent::Eof, false));
        assert_eq!(app.reconnect_attempt(), Some((k, 5)));
        assert!(app.reconnect_ready());
        assert!(app.begin_reconnect().is_some());
        assert_eq!(app.reconnect_count, k);
    }
    assert!(app.on_ssh_event(&SshEvent::Eof, false));
    assert_eq!(app.form.status, "Connection failed (attempt 5).");
    assert_eq!(app.reconnect_attempt(), None);
    assert!(!app.reconnect_ready());
    assert!(app.begin_reconnect().is_none());
    assert_eq!(app.reconnect_count, 5);
    app.connect().unwrap();
    assert_eq!(app.reconnect_count, 0);
}

#[test]
fn failure_message_counts_attempts() {
    let mut app = RuttyApp::new(vec![]);
    app.form.host = "h".to_string();
    app.form.username = "u".to_string();
    app.connect().unwrap();
    app.reconnect_count = 2;
    app.on_ssh_event(&SshEvent::Eof, false);
    assert_eq!(app.form.status, "Connection failed (attempt 2).");
    assert_eq!(app.reconnect_attempt(), Some((3, 5)));
    app.reconnect_count = 5;
    assert_eq!(app.reconnect_attempt(), None);
    assert!(!app.reconnect_ready());
}

#[test]
fn reconnect_disabled_or_after_disconnect() {
    let mut app = RuttyApp::new(vec![]);
    app.form.host = "h".to_string();
    app.form.username = "u".to_string();
    app.connect().unwrap();
    app.on_ssh_event(&SshEvent::Eof, false);
    app.auto_reconnect = false;
    assert!(!app.reconnect_ready());
    assert!(app.begin_reconnect().is_none());
    app.auto_reconnect = true;
    app.disconnect();
    assert_eq!(app.form.status, "Disconnected.");
    assert!(!app.reconnect_ready());
    assert_eq!(app.reconnect_attempt(), None);
}

#[test]
fn apply_session_and_modification() {
    let mut app = RuttyApp::new(vec![saved("a", "ha", 1), saved("b", "hb", 2)]);
    assert!(!app.is_form_modified());
    app.apply_session("a");
    assert_eq!(app.form.host, "ha");
    assert_eq!(app.selected_session, "a");
    assert!(!app.is_form_modified());
    app.form.port = "1".to_string();
    assert!(app.is_form_modified());
    assert!(app.try_connect().is_none());
    assert!(app.show_modify_prompt);
    app.apply_session("nope");
    assert_eq!(app.selected_session, "a");
}

#[test]
fn try_connect_without_changes_connects() {
    let mut app = RuttyApp::new(vec![saved("a", "ha", 1)]);
    app.apply_session("a");
    let req = app.try_connect().unwrap();
    assert_eq!(req.host, "ha");
    assert_eq!(req.port, 2022);
    assert_eq!(req.key_file, Some("/id".to_string()));
}

#[test]
fn delete_selected_session_clears_form() {
    let mut app = RuttyApp::new(vec![saved("a", "ha", 1)]);
    let mut mgr = SessionManager::new(vec![saved("a", "ha", 1), saved("z", "hz", 0)], None);
    app.delete_session("a", &mut mgr);
    assert_eq!(app.saved_sessions.len(), 1);
    assert_eq!(app.saved_sessions[0].name, "z");
    assert_eq!(app.selected_session, "");
    assert_eq!(app.form.host, "");
    assert_eq!(app.form.port, "22");
}

#[test]
fn save_session_seals_password() {
    let mut app = RuttyApp::new(vec![]);
    let mut mgr = SessionManager::empty();
    assert_eq!(app.save_session(&mut mgr), SaveRequest::Unnamed);
    assert!(mgr.sessions().is_empty());
    app.form.host = "h".to_string();
    app.form.username = "u".to_string();
    app.form.password = "s3cret".to_string();
    app.save_session_name = "mine".to_string();
    app.show_save_prompt = true;
    assert_eq!(app.save_session(&mut mgr), SaveRequest::Stored);
    let cfg = mgr.find("mine").unwrap();
    assert_eq!(cfg.host, "h");
    assert!(cfg.key_file.is_none());
    assert_eq!(cfg.password(), Some("s3cret".to_string()));
    app.finish_save_session(&mgr, Ok(()));
    assert_eq!(app.form.status, "Session 'mine' saved.");
    assert_eq!(app.selected_session, "mine");
    assert_eq!(app.saved_sessions.len(), 1);
    assert!(!app.show_save_prompt);
    app.finish_save_session(&mgr, Err("io".to_string()));
    assert_eq!(app.form.status, "Save failed: io");
    assert!(app.form.status_error);
    app.report_load_failure("bad json");
    assert_eq!(app.form.status, "Failed to load sessions: bad json");
}

#[test]
fn status_line_choice() {
    let mut app = RuttyApp::new(vec![]);
    assert_eq!(app.status_line(), StatusLine::Info("Ready".to_string()));
    app.form.host = "h".to_string();
    app.form.username = "u".to_string();
    app.connect().unwrap();
    assert_eq!(app.status_line(), StatusLine::Info("Connecting to u@h:22...".to_string()));
    app.on_ssh_event(&SshEvent::Eof, false);
    assert_eq!(app.status_line(), StatusLine::Reconnecting(1, 5));
    app.auto_reconnect = false;
    assert_eq!(app.status_line(), StatusLine::Reconnecting(1, 5));
    app.disconnect();
    assert_eq!(app.status_line(), StatusLine::Info("Disconnected.".to_string()));
    app.form.status = "bad".to_string();
    app.form.status_error = true;
    assert_eq!(app.status_line(), StatusLine::Error("bad".to_string()));
}

#[test]
fn save_session_without_password_and_delete_clears_last() {
    let mut app = RuttyApp::new(vec![]);
    let mut mgr = SessionManager::new(vec![], Some("mine".to_string()));
    app.form.host = "h".to_string();
    app.form.username = "u".to_string();
    app.save_session_name = "mine".to_string();
    assert_eq!(app.save_session(&mut mgr), SaveRequest::Stored);
    assert!(mgr.find("mine").unwrap().encrypted_password.is_none());
    assert_eq!(mgr.last_session, Some("mine".to_string()));
    app.delete_session("mine", &mut mgr);
    assert!(mgr.sessions().is_empty());
    assert_eq!(mgr.last_session, None);
}
