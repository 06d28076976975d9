//! Registration, login and token resolution over the user table, the
//! session store and the login throttle.
//!
//! Each function takes the collections it touches as separate references, so
//! that a caller holding each behind its own lock takes only the locks needed.
use vstd::prelude::*;
use crate::hasher::{generate_salt, hash_password, is_random_hex, password_digest, password_matches, verify_password};
use crate::models::{Settings, User};
use crate::session::{extract_token, token_of, SessionManager};
use crate::throttle::{
    admission, after_failure, next_count, swept, timeout_for, LoginAttempt, RateLimitError, RateLimiter, BAN_DURATION,
    BAN_THRESHOLD,
};

verus! {

/// Fewest bytes in a username.
pub const MIN_USERNAME_LEN: usize = 3;
/// Most bytes in a username.
pub const MAX_USERNAME_LEN: usize = 50;
/// Fewest bytes in a password.
pub const MIN_PASSWORD_LEN: usize = 6;

/// Why an authentication request is refused.
#[derive(Clone, Copy, Debug, PartialEq, Eq, Structural)]
pub enum AuthError {
    /// No bearer token was presented.
    NotAuthenticated,
    /// The token is not a live session.
    InvalidToken,
    /// Unknown user or wrong password, with the wait the throttle announced.
    InvalidCredentials(u64),
    /// The throttle refused the attempt.
    RateLimited(RateLimitError),
    UsernameExists,
    InvalidUsername,
    InvalidPassword,
}

/// Whether some user is called `name`.
pub open spec fn has_user(users: Seq<User>, name: Seq<char>) -> bool {
    exists|i: int| 0 <= i < users.len() && (#[trigger] users[i]).username@ == name
}

/// Whether `i` is the first user called `name`.
pub open spec fn is_first_match(users: Seq<User>, name: Seq<char>, i: int) -> bool {
    &&& 0 <= i < users.len()
    &&& users[i].username@ == name
    &&& forall|j: int| 0 <= j < i ==> (#[trigger] users[j]).username@ != name
}

/// No two users share a username.
pub open spec fn usernames_unique(users: Seq<User>) -> bool {
    forall|i: int, j: int| 0 <= i < j < users.len() ==> (#[trigger] users[i]).username@ != (#[trigger] users[j]).username@
}

/// Whether the first user called `name` has password `password`.
pub open spec fn credentials_ok(users: Seq<User>, name: Seq<char>, password: Seq<char>) -> bool {
    exists|i: int| #[trigger] is_first_match(users, name, i) && password_matches(password, users[i].salt@, users[i].password_hash@)
}

/// What registering `username` with `password` answers, given the users.
pub open spec fn registration_check(users: Seq<User>, username: &str, password: &str) -> Result<(), AuthError> {
    if username.len() < MIN_USERNAME_LEN || username.len() > MAX_USERNAME_LEN {
        Err(AuthError::InvalidUsername)
    } else if password.len() < MIN_PASSWORD_LEN {
        Err(AuthError::InvalidPassword)
    } else if has_user(users, username@) {
        Err(AuthError::UsernameExists)
    } else {
        Ok(())
    }
}

/// The token of an optional `Authorization` header value.
pub open spec fn header_token(auth_header: Option<&str>) -> Option<Seq<char>> {
    match auth_header {
        Some(h) => token_of(h@),
        None => None,
    }
}

/// The index of the first user called `username`, if any.
pub fn find_user(users: &Vec<User>, username: &str) -> (r: Option<usize>)
    ensures
        match r {
            Some(i) => is_first_match(users@, username@, i as int),
            None => !has_user(users@, username@),
        },
{
    let name = username.to_owned();
    let mut i: usize = 0;
    while i < users.len()
        invariant
            i <= users@.len(),
            name@ == username@,
            forall|j: int| 0 <= j < i ==> (#[trigger] users@[j]).username@ != username@,
        decreases users@.len() - i,
    {
        if users[i].username == name {
            return Some(i);
        }
        i = i + 1;
    }
    None
}

/// Registers `username` with `password` under a fresh salt, refusing a
/// username of the wrong length, a short password or a taken username.
pub fn register_user(users: &mut Vec<User>, username: &str, password: &str) -> (r: Result<(), AuthError>)
    ensures
        r == registration_check(old(users)@, username, password),
        r is Err ==> final(users)@ == old(users)@,
        r is Ok ==> {
            let u = final(users)@.last();
            &&& final(users)@ == old(users)@.push(u)
            &&& u.username@ == username@
            &&& is_random_hex(u.salt@)
            &&& u.password_hash@ == password_digest(password@, u.salt@)
        },
        usernames_unique(old(users)@) ==> usernames_unique(final(users)@),
{
    if username.len() < MIN_USERNAME_LEN || username.len() > MAX_USERNAME_LEN {
        return Err(AuthError::InvalidUsername);
    }
    if password.len() < MIN_PASSWORD_LEN {
        return Err(AuthError::InvalidPassword);
    }
    if find_user(users, username).is_some() {
        return Err(AuthError::UsernameExists);
    }
    let salt = generate_salt();
    let password_hash = hash_password(password, salt.as_str());
    let user = User { username: username.to_owned(), password_hash, salt };
    users.push(user);
    proof {
        assert(final(users)@.last() == user);
        if usernames_unique(old(users)@) {
            assert forall|i: int, j: int| 0 <= i < j < final(users)@.len() implies
                (#[trigger] final(users)@[i]).username@ != (#[trigger] final(users)@[j]).username@ by {
                assert(final(users)@[i] == old(users)@[i]);
                if j < final(users)@.len() - 1 {
                    assert(final(users)@[j] == old(users)@[j]);
                } else {
                    assert(final(users)@[j].username@ == username@);
                    assert(old(users)@[i].username@ != username@);
                }
            }
        }
    }
    Ok(())
}

/// How a login of `username` from `ip` at `now` went: `lim0`/`lim1` and
/// `s0`/`s1` are the throttle and the sessions before and after, `r` the answer.
///
/// The throttle is asked first, after its sweep. A refusal is passed on and
/// nothing else changes. Once admitted, a right password clears the address
/// and opens a session for the user; a wrong one, or an unknown user, records
/// a failure and announces its wait.
pub open spec fn login_spec(
    lim0: Map<u128, LoginAttempt>,
    lim1: Map<u128, LoginAttempt>,
    users: Seq<User>,
    s0: Map<Seq<char>, Seq<char>>,
    s1: Map<Seq<char>, Seq<char>>,
    ip: u128,
    username: Seq<char>,
    password: Seq<char>,
    now: u64,
    r: Result<String, AuthError>,
) -> bool {
    let m = swept(lim0, now);
    match admission(m, ip, now) {
        Err(e) => r == Err::<String, AuthError>(AuthError::RateLimited(e)) && lim1 == m && s1 == s0,
        Ok(_) => if credentials_ok(users, username, password) {
            &&& lim1 == m.remove(ip)
            &&& match r {
                Ok(token) => is_random_hex(token@) && s1 == s0.insert(token@, username),
                Err(_) => false,
            }
        } else {
            &&& r == Err::<String, AuthError>(AuthError::InvalidCredentials(timeout_for(next_count(m, ip))))
            &&& lim1 == after_failure(m, ip, now)
            &&& s1 == s0
        },
    }
}

/// Logs `username` in from `ip` at `now` and returns a new session token
/// (see `login_spec`).
pub fn login_at(
    limiter: &mut RateLimiter,
    users: &Vec<User>,
    sessions: &mut SessionManager,
    ip: u128,
    username: &str,
    password: &str,
    now: u64,
) -> (r: Result<String, AuthError>)
    requires
        old(limiter).wf(),
    ensures
        final(limiter).wf(),
        login_spec(old(limiter)@, final(limiter)@, users@, old(sessions)@, final(sessions)@, ip, username@, password@, now, r),
{
    match limiter.check_and_wait_at(ip, now) {
        Err(e) => {
            return Err(AuthError::RateLimited(e));
        },
        Ok(_) => {},
    }
    let ok = match find_user(users, username) {
        Some(i) => verify_password(password, users[i].salt.as_str(), users[i].password_hash.as_str()),
        None => false,
    };
    if !ok {
        let timeout = limiter.record_failed_attempt_at(ip, now);
        return Err(AuthError::InvalidCredentials(timeout));
    }
    limiter.record_successful_attempt(ip);
    let token = sessions.create_session(username.to_owned());
    Ok(token)
}

/// Logs `username` in from `ip` at the current time (see `login_spec`).
pub fn login(
    limiter: &mut RateLimiter,
    users: &Vec<User>,
    sessions: &mut SessionManager,
    ip: u128,
    username: &str,
    password: &str,
) -> (r: Result<String, AuthError>)
    requires
        old(limiter).wf(),
    ensures
        final(limiter).wf(),
        exists|t: u64| login_spec(old(limiter)@, final(limiter)@, users@, old(sessions)@, final(sessions)@, ip, username@, password@, t, r),
{
    let now = crate::throttle::unix_time_now();
    login_at(limiter, users, sessions, ip, username, password, now)
}

/// The user whose session the `Authorization` header names.
pub fn authenticated_user(sessions: &SessionManager, auth_header: Option<&str>) -> (r: Result<String, AuthError>)
    ensures
        match header_token(auth_header) {
            None => r == Err::<String, AuthError>(AuthError::NotAuthenticated),
            Some(t) => if sessions@.contains_key(t) {
                match r {
                    Ok(u) => u@ == sessions@[t],
                    Err(_) => false,
                }
            } else {
                r == Err::<String, AuthError>(AuthError::InvalidToken)
            },
        },
{
    let token = match extract_token(auth_header) {
        Some(t) => t,
        None => {
            return Err(AuthError::NotAuthenticated);
        },
    };
    match sessions.get_username(token.as_str()) {
        Some(u) => Ok(u.clone()),
        None => Err(AuthError::InvalidToken),
    }
}

/// Revokes the session that the `Authorization` header names; a token that
/// is not live is no error.
pub fn logout(sessions: &mut SessionManager, auth_header: Option<&str>) -> (r: Result<(), AuthError>)
    ensures
        match header_token(auth_header) {
            None => r == Err::<(), AuthError>(AuthError::NotAuthenticated) && final(sessions)@ == old(sessions)@,
            Some(t) => r is Ok && final(sessions)@ == old(sessions)@.remove(t),
        },
{
    let token = match extract_token(auth_header) {
        Some(t) => t,
        None => {
            return Err(AuthError::NotAuthenticated);
        },
    };
    sessions.remove_session(token.as_str());
    Ok(())
}

/// While an address is banned, a login from it is refused with the ban's
/// remaining seconds, even with the right password, and opens no session.
pub proof fn lemma_banned_login_refused(
    lim0: Map<u128, LoginAttempt>,
    lim1: Map<u128, LoginAttempt>,
    users: Seq<User>,
    s0: Map<Seq<char>, Seq<char>>,
    s1: Map<Seq<char>, Seq<char>>,
    ip: u128,
    username: Seq<char>,
    password: Seq<char>,
    now: u64,
    r: Result<String, AuthError>,
)
    requires
        lim0.contains_key(ip),
        lim0[ip].count >= BAN_THRESHOLD,
        lim0[ip].last_attempt <= now < lim0[ip].last_attempt + BAN_DURATION,
        login_spec(lim0, lim1, users, s0, s1, ip, username, password, now, r),
    ensures
        r == Err::<String, AuthError>(
            AuthError::RateLimited(RateLimitError::Banned((lim0[ip].last_attempt + BAN_DURATION - now) as u64)),
        ),
        s1 == s0,
{
    assert(swept(lim0, now).contains_key(ip));
}

/// Whether `username` is one of the administrators.
pub open spec fn is_admin_spec(settings: &Settings, username: Seq<char>) -> bool {
    exists|i: int| 0 <= i < settings.admin_users@.len() && (#[trigger] settings.admin_users@[i])@ == username
}

/// Whether `username` is one of the administrators named in the settings.
pub fn is_admin(settings: &Settings, username: &str) -> (r: bool)
    ensures
        r == is_admin_spec(settings, username@),
{
    let name = username.to_owned();
    let mut i: usize = 0;
    while i < settings.admin_users.len()
        invariant
            i <= settings.admin_users@.len(),
            name@ == username@,
            forall|j: int| 0 <= j < i ==> (#[trigger] settings.admin_users@[j])@ != username@,
        decreases settings.admin_users@.len() - i,
    {
        if settings.admin_users[i] == name {
            return true;
        }
        i = i + 1;
    }
    false
}

} // verus!
