use sutty::config::{SessionConfig, SessionManager};
use sutty::crypto::{can_seal, open_sealed, seal_with_nonce, OpenError};

fn session(name: &str, host: &str, port: u16, last_used: u64) -> SessionConfig {
    SessionConfig {
        name: name.to_string(),
        host: host.to_string(),
        port,
        username: "alice".to_string(),
        encrypted_password: None,
        key_file: None,
        last_used,
    }
}

const NONCE: [u8; 12] = [0, 1, 2, 3, 4, 5, 6, 7, 8, 9, 10, 11];
const HUNTER2_SEALED: &str = "AAECAwQFBgcICQoL5OCMXCOpS9/CmXVULgivKPXeJSJcfvo=";

#[test]
fn seal_with_known_nonce_matches_reference_vector() {
    let sealed = seal_with_nonce(b"hunter2", &NONCE).unwrap();
    assert_eq!(sealed, HUNTER2_SEALED);
}

#[test]
fn seal_non_ascii_password_matches_reference_vector() {
    let sealed = seal_with_nonce("pässwörd".as_bytes(), &NONCE).unwrap();
    assert_eq!(sealed, "AAECAwQFBgcICQoL/FZGWzWsuqGG/HbNVAGVKliV49MuCEp8bys=");
}

#[test]
fn open_reference_vector() {
    assert_eq!(open_sealed(HUNTER2_SEALED).unwrap(), b"hunter2".to_vec());
}

#[test]
fn open_rejects_bad_base64_short_and_tampered_text() {
    assert_eq!(open_sealed("not base64!"), Err(OpenError::BadBase64));
    assert_eq!(open_sealed("!!!"), Err(OpenError::BadBase64));
    assert_eq!(open_sealed("AAECAw=="), Err(OpenError::TooShort));
    let mut tampered = HUNTER2_SEALED.to_string();
    tampered.replace_range(20..21, "A");
    assert_eq!(open_sealed(&tampered), Err(OpenError::Rejected));
    assert_eq!(open_sealed(""), Err(OpenError::TooShort));
    assert_eq!(open_sealed("AAAA"), Err(OpenError::TooShort));
    // Twelve zero bytes: a nonce and no tag.
    assert_eq!(open_sealed("AAAAAAAAAAAAAAAA"), Err(OpenError::Rejected));
}

#[test]
fn sealed_text_is_not_the_plaintext() {
    let sealed = seal_with_nonce(b"secret", &NONCE).unwrap();
    assert!(!sealed.contains("secret"));
    // base64 of 12 + 6 + 16 = 34 bytes is 48 characters.
    assert_eq!(sealed.len(), 48);
}

#[test]
fn password_round_trip() {
    let mut c = session("box", "example.org", 22, 0);
    assert_eq!(c.password(), None);
    assert!(c.set_password("hunter2"));
    // base64 of 12 + 7 + 16 = 35 bytes is 48 characters.
    assert_eq!(c.encrypted_password.as_ref().unwrap().len(), 48);
    assert!(c.encrypted_password.is_some());
    assert_ne!(c.encrypted_password.as_deref(), Some("hunter2"));
    assert_eq!(c.password(), Some("hunter2".to_string()));
    assert_eq!(c.name, "box");
    assert_eq!(c.host, "example.org");
}

#[test]
fn password_from_stored_reference_text() {
    let mut c = session("box", "h", 22, 0);
    c.encrypted_password = Some(HUNTER2_SEALED.to_string());
    assert_eq!(c.password(), Some("hunter2".to_string()));
    c.encrypted_password = Some("garbage".to_string());
    assert_eq!(c.password(), None);
}

#[test]
fn password_empty_and_unicode() {
    let mut c = session("box", "h", 22, 0);
    assert!(c.set_password(""));
    assert_eq!(c.password(), Some(String::new()));
    assert!(c.set_password("日本語"));
    assert_eq!(c.password(), Some("日本語".to_string()));
}

#[test]
fn two_seals_differ_by_nonce() {
    let mut a = session("a", "h", 22, 0);
    let mut b = session("b", "h", 22, 0);
    assert!(a.set_password("same"));
    assert!(b.set_password("same"));
    assert_ne!(a.encrypted_password, b.encrypted_password);
}

#[test]
fn can_seal_small_lengths() {
    assert!(can_seal(0));
    assert!(can_seal(1000));
}

#[test]
fn upsert_inserts_then_replaces() {
    let mut m = SessionManager::new(vec![], None);
    m.upsert(session("a", "h1", 22, 0));
    m.upsert(session("b", "h2", 22, 0));
    assert_eq!(m.sessions().len(), 2);
    m.upsert(session("a", "h3", 2222, 0));
    assert_eq!(m.sessions().len(), 2);
    assert_eq!(m.sessions()[0].host, "h3");
    assert_eq!(m.sessions()[0].port, 2222);
    assert_eq!(m.find("a").unwrap().host, "h3");
    assert_eq!(m.find("b").unwrap().host, "h2");
    assert!(m.find("c").is_none());
}

#[test]
fn find_returns_first_of_duplicates() {
    let m = SessionManager::new(vec![session("a", "first", 22, 0), session("a", "second", 22, 0)], None);
    assert_eq!(m.find("a").unwrap().host, "first");
}

#[test]
fn delete_removes_all_with_name_and_clears_last() {
    let mut m = SessionManager::new(
        vec![session("a", "1", 22, 0), session("b", "2", 22, 0), session("a", "3", 22, 0)],
        Some("a".to_string()),
    );
    m.delete("a");
    assert_eq!(m.sessions().len(), 1);
    assert_eq!(m.sessions()[0].name, "b");
    assert_eq!(m.last_session, None);
    assert!(m.find("a").is_none());
}

#[test]
fn delete_keeps_other_last_session() {
    let mut m = SessionManager::new(vec![session("a", "1", 22, 0)], Some("b".to_string()));
    m.delete("a");
    assert_eq!(m.last_session, Some("b".to_string()));
    m.delete("zzz");
    assert_eq!(m.last_session, Some("b".to_string()));
}

#[test]
fn touch_last_used_marks_session() {
    let mut m = SessionManager::new(vec![session("a", "1", 22, 5), session("b", "2", 22, 6)], None);
    m.touch_last_used("b", 1234);
    assert_eq!(m.last_session, Some("b".to_string()));
    assert_eq!(m.find("b").unwrap().last_used, 1234);
    assert_eq!(m.find("a").unwrap().last_used, 5);
    m.touch_last_used("nobody", 99);
    assert_eq!(m.last_session, Some("nobody".to_string()));
    assert_eq!(m.sessions().len(), 2);
}

#[test]
fn upsert_twice_is_upsert_once() {
    let mut m1 = SessionManager::new(vec![session("x", "1", 22, 0)], None);
    let mut m2 = SessionManager::new(vec![session("x", "1", 22, 0)], None);
    m1.upsert(session("y", "2", 22, 0));
    m2.upsert(session("y", "2", 22, 0));
    m2.upsert(session("y", "2", 22, 0));
    assert_eq!(m1.sessions().len(), m2.sessions().len());
    assert_eq!(m2.find("y").unwrap().host, "2");
}

#[test]
fn empty_manager() {
    let m = SessionManager::empty();
    assert!(m.sessions().is_empty());
    assert!(m.last_session.is_none());
}

#[test]
fn has_login_matches_host_and_user() {
    let mut mgr = SessionManager::empty();
    mgr.upsert(session("a", "h1", 22, 0));
    assert!(mgr.has_login("h1", "alice"));
    assert!(!mgr.has_login("h1", "bob"));
    assert!(!mgr.has_login("h2", "alice"));
    assert!(!SessionManager::empty().has_login("h1", "alice"));
}
