use backend::session::{extract_token, SessionManager};

#[test]
fn extract_token_strips_bearer_scheme() {
    assert_eq!(extract_token(Some("Bearer abc123")), Some("abc123".to_string()));
    assert_eq!(extract_token(Some("Bearer ")), Some(String::new()));
}

#[test]
fn extract_token_refuses_other_headers() {
    assert_eq!(extract_token(None), None);
    assert_eq!(extract_token(Some("Basic abc")), None);
    assert_eq!(extract_token(Some("bearer abc")), None);
    assert_eq!(extract_token(Some("Bearer")), None);
}

#[test]
fn session_lookup_returns_creator() {
    let mut m = SessionManager::new();
    let t = m.create_session("alice".to_string());
    assert_eq!(t.len(), 64);
    assert_eq!(m.get_username(&t), Some(&"alice".to_string()));
    assert_eq!(m.get_username("unknown"), None);
}

#[test]
fn revoked_session_is_gone() {
    let mut m = SessionManager::new();
    let t1 = m.create_session("alice".to_string());
    let t2 = m.create_session("alice".to_string());
    assert_ne!(t1, t2);
    assert_eq!(m.remove_session(&t1), Some("alice".to_string()));
    assert_eq!(m.get_username(&t1), None);
    assert_eq!(m.get_username(&t2), Some(&"alice".to_string()));
    assert_eq!(m.remove_session(&t1), None);
}
