use backend::account::{
    authenticated_user, find_user, is_admin, login, login_at, logout, register_user, AuthError,
};
use backend::hasher::hash_password;
use backend::models::{Settings, User};
use backend::session::SessionManager;
use backend::throttle::{RateLimitError, RateLimiter};

// 10.0.0.5 as an IPv4-mapped IPv6 address
const IP: u128 = 0xffff_0a00_0005;

#[test]
fn end_to_end_register_login_ban() {
    let mut users: Vec<User> = Vec::new();
    let mut sessions = SessionManager::new();
    let mut limiter = RateLimiter::new();

    assert_eq!(register_user(&mut users, "alice", "secret1"), Ok(()));
    let t1 = sessions.create_session("alice".to_string());
    assert_eq!(sessions.get_username(&t1), Some(&"alice".to_string()));

    let timeouts: Vec<Result<String, AuthError>> = [1000u64, 1010, 1020, 1030]
        .iter()
        .map(|&t| login_at(&mut limiter, &users, &mut sessions, IP, "alice", "wrong!", t))
        .collect();
    assert_eq!(timeouts[0], Err(AuthError::InvalidCredentials(3)));
    assert_eq!(timeouts[3], Err(AuthError::InvalidCredentials(12)));

    let fifth = login_at(&mut limiter, &users, &mut sessions, IP, "alice", "wrong!", 1050);
    assert_eq!(fifth, Err(AuthError::InvalidCredentials(7200)));

    let during = login_at(&mut limiter, &users, &mut sessions, IP, "alice", "secret1", 1060);
    assert_eq!(during, Err(AuthError::RateLimited(RateLimitError::Banned(7190))));

    let after = login_at(&mut limiter, &users, &mut sessions, IP, "alice", "secret1", 1050 + 7200);
    let t2 = after.unwrap();
    assert_eq!(sessions.get_username(&t2), Some(&"alice".to_string()));
    // the success reset the address
    assert_eq!(limiter.check_and_wait_at(IP, 1050 + 7200), Ok(()));
}

#[test]
fn login_during_backoff_is_refused() {
    let mut users: Vec<User> = Vec::new();
    let mut sessions = SessionManager::new();
    let mut limiter = RateLimiter::new();
    register_user(&mut users, "bob", "hunter22").unwrap();
    assert_eq!(
        login_at(&mut limiter, &users, &mut sessions, IP, "bob", "nope!!", 500),
        Err(AuthError::InvalidCredentials(3))
    );
    assert_eq!(
        login_at(&mut limiter, &users, &mut sessions, IP, "bob", "hunter22", 501),
        Err(AuthError::RateLimited(RateLimitError::TooManyAttempts(2)))
    );
    assert!(login_at(&mut limiter, &users, &mut sessions, IP, "bob", "hunter22", 503).is_ok());
}

#[test]
fn unknown_user_counts_as_failure() {
    let users: Vec<User> = Vec::new();
    let mut sessions = SessionManager::new();
    let mut limiter = RateLimiter::new();
    assert_eq!(
        login_at(&mut limiter, &users, &mut sessions, IP, "ghost", "whatever", 10),
        Err(AuthError::InvalidCredentials(3))
    );
    assert!(matches!(
        login(&mut limiter, &users, &mut sessions, IP, "ghost", "whatever"),
        Err(AuthError::InvalidCredentials(_)) | Err(AuthError::RateLimited(_))
    ));
}

#[test]
fn register_validates_and_rejects_duplicates() {
    let mut users: Vec<User> = Vec::new();
    assert_eq!(register_user(&mut users, "al", "secret1"), Err(AuthError::InvalidUsername));
    let long = "x".repeat(51);
    assert_eq!(register_user(&mut users, &long, "secret1"), Err(AuthError::InvalidUsername));
    assert_eq!(register_user(&mut users, "alice", "short"), Err(AuthError::InvalidPassword));
    assert!(users.is_empty());
    assert_eq!(register_user(&mut users, &"y".repeat(50), "secret1"), Ok(()));
    assert_eq!(register_user(&mut users, "alice", "secret1"), Ok(()));
    assert_eq!(register_user(&mut users, "alice", "another1"), Err(AuthError::UsernameExists));
    assert_eq!(register_user(&mut users, "Alice", "another1"), Ok(()));
    assert_eq!(users.len(), 3);
    let u = &users[1];
    assert_eq!(u.username, "alice");
    assert_eq!(u.salt.len(), 64);
    assert_eq!(u.password_hash, hash_password("secret1", &u.salt));
    assert_eq!(find_user(&users, "alice"), Some(1));
    assert_eq!(find_user(&users, "nobody"), None);
}

#[test]
fn token_resolution_and_logout() {
    let mut sessions = SessionManager::new();
    let t = sessions.create_session("carol".to_string());
    let header = format!("Bearer {}", t);
    assert_eq!(authenticated_user(&sessions, Some(&header)), Ok("carol".to_string()));
    assert_eq!(authenticated_user(&sessions, None), Err(AuthError::NotAuthenticated));
    assert_eq!(authenticated_user(&sessions, Some("Token x")), Err(AuthError::NotAuthenticated));
    assert_eq!(authenticated_user(&sessions, Some("Bearer nope")), Err(AuthError::InvalidToken));
    assert_eq!(logout(&mut sessions, None), Err(AuthError::NotAuthenticated));
    assert_eq!(logout(&mut sessions, Some(&header)), Ok(()));
    assert_eq!(authenticated_user(&sessions, Some(&header)), Err(AuthError::InvalidToken));
    assert_eq!(logout(&mut sessions, Some(&header)), Ok(()));
}

#[test]
fn admin_lookup() {
    let settings = Settings {
        ap_name: "AscendoTrainBoard".to_string(),
        ap_password: "plezaj-gor".to_string(),
        admin_users: vec!["admin".to_string(), "root".to_string()],
    };
    assert!(is_admin(&settings, "admin"));
    assert!(is_admin(&settings, "root"));
    assert!(!is_admin(&settings, "Admin"));
    assert!(!is_admin(&settings, ""));
}

#[test]
fn length_limits_count_bytes() {
    let mut users: Vec<User> = Vec::new();
    assert_eq!(register_user(&mut users, "abc", "123456"), Ok(()));
    assert_eq!(register_user(&mut users, "abd", "12345"), Err(AuthError::InvalidPassword));
    // two characters, six bytes
    assert_eq!(register_user(&mut users, "日本", "123456"), Ok(()));
    // one character, two bytes
    assert_eq!(register_user(&mut users, "é", "123456"), Err(AuthError::InvalidUsername));
    assert_eq!(users.len(), 2);
}
