//! Bearer tokens and the in-memory table of live sessions.
use vstd::prelude::*;
use vstd::hash_map::StringHashMap;
use crate::hasher::{generate_token, is_random_hex};

verus! {

/// The scheme that precedes a token in an `Authorization` header.
pub const TOKEN_PREFIX: &'static str = "Bearer ";

/// Whether `p` is a prefix of `s`.
pub open spec fn has_prefix(s: Seq<char>, p: Seq<char>) -> bool {
    p.len() <= s.len() && s.subrange(0, p.len() as int) == p
}

/// The token carried by a header value: what follows the scheme, if the
/// value starts with it.
pub open spec fn token_of(header: Seq<char>) -> Option<Seq<char>> {
    if has_prefix(header, TOKEN_PREFIX@) {
        Some(header.skip(TOKEN_PREFIX@.len() as int))
    } else {
        None
    }
}

/// Relies on str::strip_prefix: the rest of `s` after `p` when `s` starts
/// with `p`, and nothing otherwise.
#[verifier::external_body]
fn strip_prefix<'a>(s: &'a str, p: &str) -> (r: Option<&'a str>)
    ensures
        match r {
            Some(t) => has_prefix(s@, p@) && t@ == s@.skip(p@.len() as int),
            None => !has_prefix(s@, p@),
        },
{
    s.strip_prefix(p)
}

/// The bearer token of an `Authorization` header value, if it has one.
pub fn extract_token(auth_header: Option<&str>) -> (r: Option<String>)
    ensures
        match auth_header {
            Some(h) => match r {
                Some(t) => token_of(h@) == Some(t@),
                None => token_of(h@) is None,
            },
            None => r is None,
        },
{
    match auth_header {
        Some(h) => match strip_prefix(h, TOKEN_PREFIX) {
            Some(t) => Some(t.to_owned()),
            None => None,
        },
        None => None,
    }
}

/// The live sessions: each token maps to the user it was issued to.
///
/// Sessions do not expire: a token lives until it is revoked by logout, or
/// until the process ends, as the store is never written to disk.
pub struct SessionManager {
    sessions: StringHashMap<String>,
}

impl View for SessionManager {
    type V = Map<Seq<char>, Seq<char>>;

    closed spec fn view(&self) -> Map<Seq<char>, Seq<char>> {
        Map::new(|t: Seq<char>| self.sessions@.contains_key(t), |t: Seq<char>| self.sessions@[t]@)
    }
}

impl SessionManager {
    /// A store with no sessions.
    pub fn new() -> (r: SessionManager)
        ensures
            r@ == Map::<Seq<char>, Seq<char>>::empty(),
    {
        let r = SessionManager { sessions: StringHashMap::new() };
        assert(r@ =~= Map::<Seq<char>, Seq<char>>::empty());
        r
    }

    /// Issues a fresh random token to `username` and returns it.
    pub fn create_session(&mut self, username: String) -> (token: String)
        ensures
            is_random_hex(token@),
            final(self)@ == old(self)@.insert(token@, username@),
    {
        let token = generate_token();
        let key = token.clone();
        self.sessions.insert(key, username);
        assert(self@ =~= old(self)@.insert(token@, username@));
        token
    }

    /// The user that `token` was issued to, if it is live.
    pub fn get_username(&self, token: &str) -> (r: Option<&String>)
        ensures
            match r {
                Some(u) => self@.contains_key(token@) && u@ == self@[token@],
                None => !self@.contains_key(token@),
            },
    {
        self.sessions.get(token)
    }

    /// Revokes `token`; returns the user it was issued to, if it was live.
    pub fn remove_session(&mut self, token: &str) -> (r: Option<String>)
        ensures
            final(self)@ == old(self)@.remove(token@),
            match r {
                Some(u) => old(self)@.contains_key(token@) && u@ == old(self)@[token@],
                None => !old(self)@.contains_key(token@),
            },
    {
        let r = match self.sessions.get(token) {
            Some(u) => Some(u.clone()),
            None => None,
        };
        self.sessions.remove(token);
        assert(self@ =~= old(self)@.remove(token@));
        r
    }
}

/// A session answers its lookups with the user it was created for, until it
/// is revoked; after that the token finds nothing.
pub proof fn lemma_session_lifecycle(m: Map<Seq<char>, Seq<char>>, token: Seq<char>, username: Seq<char>)
    ensures
        m.insert(token, username).contains_key(token),
        m.insert(token, username)[token] == username,
        !m.insert(token, username).remove(token).contains_key(token),
{
}

} // verus!
