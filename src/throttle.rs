//! Per-address login throttle: progressive backoff after failed logins and a
//! temporary ban once failures reach a threshold.
//!
//! Times are whole seconds since the Unix epoch. A ban lapses by time alone:
//! its count is kept, so one more failure after a lapsed ban bans again at
//! once. Only a successful login, or the sweep of records a day old, clears it.
use vstd::prelude::*;
use std::collections::HashMap;

verus! {

broadcast use vstd::std_specs::hash::group_hash_axioms;

/// Seconds of backoff per recorded failure.
pub const WAIT_MULTIPLIER: u64 = 3;
/// Failures at which an address is banned.
pub const BAN_THRESHOLD: u32 = 5;
/// Length of a ban, in seconds.
pub const BAN_DURATION: u64 = 2 * 60 * 60;
/// Age, in seconds, at which a record is swept away.
pub const CLEANUP_AGE: u64 = 24 * 60 * 60;

/// The failures recorded against one address.
#[derive(Clone, Copy, Debug, PartialEq, Eq, Structural)]
pub struct LoginAttempt {
    pub count: u32,
    pub last_attempt: u64,
}

/// Why a login attempt is refused, with the seconds left to wait.
#[derive(Clone, Copy, Debug, PartialEq, Eq, Structural)]
pub enum RateLimitError {
    Banned(u64),
    TooManyAttempts(u64),
}

/// A non-negative amount capped at the largest `u64`.
pub open spec fn clamp_u64(x: int) -> u64 {
    if x > u64::MAX {
        u64::MAX
    } else {
        x as u64
    }
}

/// A record is stale once a full `CLEANUP_AGE` has passed since its last failure.
pub open spec fn is_stale(a: LoginAttempt, now: u64) -> bool {
    now >= a.last_attempt + CLEANUP_AGE
}

/// The table without its stale records.
pub open spec fn swept(m: Map<u128, LoginAttempt>, now: u64) -> Map<u128, LoginAttempt> {
    Map::new(|ip: u128| m.contains_key(ip) && !is_stale(m[ip], now), |ip: u128| m[ip])
}

/// Whether `ip` may attempt a login at `now`, given the table.
pub open spec fn admission(m: Map<u128, LoginAttempt>, ip: u128, now: u64) -> Result<(), RateLimitError> {
    if !m.contains_key(ip) {
        Ok(())
    } else if m[ip].count >= BAN_THRESHOLD {
        let until = m[ip].last_attempt + BAN_DURATION;
        if now < until {
            Err(RateLimitError::Banned(clamp_u64(until - now)))
        } else {
            Ok(())
        }
    } else if m[ip].count > 0 {
        let at = m[ip].last_attempt + WAIT_MULTIPLIER * m[ip].count;
        if now < at {
            Err(RateLimitError::TooManyAttempts(clamp_u64(at - now)))
        } else {
            Ok(())
        }
    } else {
        Ok(())
    }
}

/// The count of `ip` after one more failure (it stops at the largest `u32`).
pub open spec fn next_count(m: Map<u128, LoginAttempt>, ip: u128) -> u32 {
    if !m.contains_key(ip) {
        1
    } else if m[ip].count == u32::MAX {
        u32::MAX
    } else {
        (m[ip].count + 1) as u32
    }
}

/// The table after a failure of `ip` at `now`.
pub open spec fn after_failure(m: Map<u128, LoginAttempt>, ip: u128, now: u64) -> Map<u128, LoginAttempt> {
    m.insert(ip, LoginAttempt { count: next_count(m, ip), last_attempt: now })
}

/// The wait announced after a failure that brought the count to `count`.
pub open spec fn timeout_for(count: u32) -> u64 {
    if count >= BAN_THRESHOLD {
        BAN_DURATION
    } else {
        (WAIT_MULTIPLIER * count) as u64
    }
}

/// No record holds a count of zero: absence stands for zero.
pub open spec fn counts_positive(m: Map<u128, LoginAttempt>) -> bool {
    forall|ip: u128| #[trigger] m.contains_key(ip) ==> m[ip].count >= 1
}

/// The failed-login records, one per address.
pub struct RateLimiter {
    attempts: HashMap<u128, LoginAttempt>,
    /// The addresses that have a record, each once.
    addrs: Vec<u128>,
}

impl View for RateLimiter {
    type V = Map<u128, LoginAttempt>;

    closed spec fn view(&self) -> Map<u128, LoginAttempt> {
        self.attempts@
    }
}

impl RateLimiter {
    /// The table and its list of addresses agree, and no count is zero.
    pub closed spec fn wf(&self) -> bool {
        &&& self.addrs@.no_duplicates()
        &&& forall|ip: u128| #[trigger] self.addrs@.contains(ip) <==> self.attempts@.contains_key(ip)
        &&& counts_positive(self.attempts@)
    }

    /// A throttle with no records.
    pub fn new() -> (r: RateLimiter)
        ensures
            r.wf(),
            r@ == Map::<u128, LoginAttempt>::empty(),
    {
        let r = RateLimiter { attempts: HashMap::new(), addrs: Vec::new() };
        assert(r.attempts@ =~= Map::<u128, LoginAttempt>::empty());
        r
    }

    /// The address list with `ip` taken out.
    proof fn lemma_remove_addr(old_addrs: Seq<u128>, i: int, ip: u128)
        requires
            old_addrs.no_duplicates(),
            0 <= i < old_addrs.len(),
            old_addrs[i] == ip,
        ensures
            old_addrs.remove(i).no_duplicates(),
            forall|x: u128| #[trigger] old_addrs.remove(i).contains(x) <==> (old_addrs.contains(x) && x != ip),
    {
        let r = old_addrs.remove(i);
        assert forall|x: u128| #[trigger] r.contains(x) <==> (old_addrs.contains(x) && x != ip) by {
            if r.contains(x) {
                let k = choose|k: int| 0 <= k < r.len() && r[k] == x;
                if k < i {
                    assert(old_addrs[k] == x);
                } else {
                    assert(old_addrs[k + 1] == x);
                }
            }
            if old_addrs.contains(x) && x != ip {
                let k = choose|k: int| 0 <= k < old_addrs.len() && old_addrs[k] == x;
                if k < i {
                    assert(r[k] == x);
                } else {
                    assert(k != i);
                    assert(r[k - 1] == x);
                }
            }
        }
    }

    /// Records a failed login of `ip` at `now` and returns the wait to announce:
    /// `BAN_DURATION` once the count reaches `BAN_THRESHOLD`, else
    /// `WAIT_MULTIPLIER` seconds per failure.
    pub fn record_failed_attempt_at(&mut self, ip: u128, now: u64) -> (r: u64)
        requires
            old(self).wf(),
        ensures
            final(self).wf(),
            final(self)@ == after_failure(old(self)@, ip, now),
            r == timeout_for(next_count(old(self)@, ip)),
    {
        let existing: Option<LoginAttempt> = match self.attempts.get(&ip) {
            Some(a) => Some(*a),
            None => None,
        };
        let count: u32 = match existing {
            Some(a) => if a.count == u32::MAX {
                u32::MAX
            } else {
                a.count + 1
            },
            None => {
                self.addrs.push(ip);
                1
            },
        };
        self.attempts.insert(ip, LoginAttempt { count, last_attempt: now });
        proof {
            assert(self.attempts@ == old(self).attempts@.insert(ip, LoginAttempt { count, last_attempt: now }));
            if existing is None {
                assert(!old(self).attempts@.contains_key(ip));
                assert(!old(self).addrs@.contains(ip));
            } else {
                assert(old(self).attempts@.contains_key(ip));
                assert(old(self).addrs@.contains(ip));
            }
            assert forall|x: u128| #[trigger] self.addrs@.contains(x) <==> self.attempts@.contains_key(x) by {
                if existing is None {
                    assert(self.addrs@ == old(self).addrs@.push(ip));
                    if x != ip && self.addrs@.contains(x) {
                        let k = choose|k: int| 0 <= k < self.addrs@.len() && self.addrs@[k] == x;
                        assert(old(self).addrs@[k] == x);
                    }
                    if x == ip {
                        assert(self.addrs@[self.addrs@.len() - 1] == ip);
                    }
                    if old(self).addrs@.contains(x) {
                        let k = choose|k: int| 0 <= k < old(self).addrs@.len() && old(self).addrs@[k] == x;
                        assert(self.addrs@[k] == x);
                    }
                }
            }
            if existing is None {
                assert forall|a: int, b: int| 0 <= a < b < self.addrs@.len() implies self.addrs@[a] != self.addrs@[b] by {
                    if b == self.addrs@.len() - 1 {
                        assert(old(self).addrs@[a] == self.addrs@[a]);
                    }
                }
            }
        }
        if count >= BAN_THRESHOLD {
            BAN_DURATION
        } else {
            WAIT_MULTIPLIER * count as u64
        }
    }

    /// Clears the record of `ip` after a successful login.
    pub fn record_successful_attempt(&mut self, ip: u128)
        requires
            old(self).wf(),
        ensures
            final(self).wf(),
            final(self)@ == old(self)@.remove(ip),
    {
        let removed = self.attempts.remove(&ip);
        if removed.is_some() {
            assert(old(self).addrs@.contains(ip));
            let mut i: usize = 0;
            while i < self.addrs.len() && self.addrs[i] != ip
                invariant
                    self.addrs@ == old(self).addrs@,
                    old(self).addrs@.contains(ip),
                    i <= self.addrs@.len(),
                    forall|j: int| 0 <= j < i ==> self.addrs@[j] != ip,
                decreases self.addrs@.len() - i,
            {
                i = i + 1;
            }
            proof {
                if i == self.addrs@.len() {
                    let k = choose|k: int| 0 <= k < self.addrs@.len() && self.addrs@[k] == ip;
                    assert(self.addrs@[k] != ip);
                }
                Self::lemma_remove_addr(old(self).addrs@, i as int, ip);
            }
            self.addrs.remove(i);
        } else {
            assert(old(self).attempts@.remove(ip) =~= old(self).attempts@);
        }
    }

    /// Drops the records that are stale at `now`.
    fn cleanup_old_entries(&mut self, now: u64)
        requires
            old(self).wf(),
        ensures
            final(self).wf(),
            final(self)@ == swept(old(self)@, now),
    {
        let mut kept: Vec<u128> = Vec::new();
        let mut i: usize = 0;
        while i < self.addrs.len()
            invariant
                self.addrs@ == old(self).addrs@,
                old(self).wf(),
                i <= self.addrs@.len(),
                kept@.no_duplicates(),
                forall|x: u128| #[trigger] kept@.contains(x) <==> (self.addrs@.take(i as int).contains(x)
                    && !is_stale(old(self)@[x], now)),
                forall|x: u128| #[trigger] self.attempts@.contains_key(x) <==> (old(self)@.contains_key(x)
                    && !(self.addrs@.take(i as int).contains(x) && is_stale(old(self)@[x], now))),
                forall|x: u128| #[trigger] self.attempts@.contains_key(x) ==> self.attempts@[x] == old(self)@[x],
            decreases self.addrs@.len() - i,
        {
            let ip = self.addrs[i];
            let ghost prefix = self.addrs@.take(i as int);
            assert(self.addrs@.take(i as int + 1) == prefix.push(ip));
            assert(!prefix.contains(ip)) by {
                if prefix.contains(ip) {
                    let k = choose|k: int| 0 <= k < prefix.len() && prefix[k] == ip;
                    assert(self.addrs@[k] == self.addrs@[i as int]);
                }
            }
            assert(self.addrs@.contains(ip));
            let a: LoginAttempt = match self.attempts.get(&ip) {
                Some(a) => *a,
                None => {
                    assert(false);
                    LoginAttempt { count: 0, last_attempt: 0 }
                },
            };
            let stale = now >= a.last_attempt && now - a.last_attempt >= CLEANUP_AGE;
            assert(self.attempts@.contains_key(ip));
            assert(a == old(self)@[ip]);
            assert(stale == is_stale(old(self)@[ip], now));
            let ghost before = kept@;
            if stale {
                self.attempts.remove(&ip);
            } else {
                kept.push(ip);
                proof {
                    assert forall|p: int, q: int| 0 <= p < q < kept@.len() implies kept@[p] != kept@[q] by {
                        if q == kept@.len() - 1 {
                            assert(before.contains(kept@[p]));
                        }
                    }
                }
            }
            proof {
                let np = self.addrs@.take(i as int + 1);
                assert forall|x: u128| #[trigger] kept@.contains(x) <==> (np.contains(x) && !is_stale(old(self)@[x], now)) by {
                    assert(np[i as int] == ip);
                    if !stale {
                        assert(kept@ == before.push(ip));
                        if kept@.contains(x) && x != ip {
                            let k = choose|k: int| 0 <= k < kept@.len() && kept@[k] == x;
                            assert(before[k] == x);
                        }
                        if x == ip {
                            assert(kept@[kept@.len() - 1] == ip);
                        }
                        if before.contains(x) {
                            let k = choose|k: int| 0 <= k < before.len() && before[k] == x;
                            assert(kept@[k] == x);
                        }
                    }
                    if np.contains(x) && x != ip {
                        let k = choose|k: int| 0 <= k < np.len() && np[k] == x;
                        assert(prefix[k] == x);
                    }
                    if prefix.contains(x) {
                        let k = choose|k: int| 0 <= k < prefix.len() && prefix[k] == x;
                        assert(np[k] == x);
                    }
                }
                assert forall|x: u128| #[trigger] self.attempts@.contains_key(x) <==> (old(self)@.contains_key(x)
                    && !(np.contains(x) && is_stale(old(self)@[x], now))) by {
                    if np.contains(x) && x != ip {
                        let k = choose|k: int| 0 <= k < np.len() && np[k] == x;
                        assert(prefix[k] == x);
                    }
                    if prefix.contains(x) {
                        let k = choose|k: int| 0 <= k < prefix.len() && prefix[k] == x;
                        assert(np[k] == x);
                    }
                    if x == ip {
                        assert(np[i as int] == ip);
                    }
                }
            }
            i = i + 1;
        }
        proof {
            assert(self.addrs@.take(i as int) == self.addrs@);
            assert(self.attempts@ =~= swept(old(self)@, now));
        }
        self.addrs = kept;
    }

    /// The admission check at `now`: sweeps stale records, then refuses `ip`
    /// while it is banned or within its backoff, with the seconds left.
    pub fn check_and_wait_at(&mut self, ip: u128, now: u64) -> (r: Result<(), RateLimitError>)
        requires
            old(self).wf(),
        ensures
            final(self).wf(),
            final(self)@ == swept(old(self)@, now),
            r == admission(swept(old(self)@, now), ip, now),
    {
        self.cleanup_old_entries(now);
        match self.attempts.get(&ip) {
            Some(a) => {
                let a = *a;
                if a.count >= BAN_THRESHOLD {
                    let until: u128 = a.last_attempt as u128 + BAN_DURATION as u128;
                    if (now as u128) < until {
                        return Err(RateLimitError::Banned(clamp_remaining(until - now as u128)));
                    }
                } else if a.count > 0 {
                    let at: u128 = a.last_attempt as u128 + (WAIT_MULTIPLIER * a.count as u64) as u128;
                    if (now as u128) < at {
                        return Err(RateLimitError::TooManyAttempts(clamp_remaining(at - now as u128)));
                    }
                }
                Ok(())
            },
            None => Ok(()),
        }
    }

    /// The admission check at the current time (see `check_and_wait_at`).
    pub fn check_and_wait(&mut self, ip: u128) -> (r: Result<(), RateLimitError>)
        requires
            old(self).wf(),
        ensures
            final(self).wf(),
            exists|t: u64| final(self)@ == swept(old(self)@, t) && r == admission(swept(old(self)@, t), ip, t),
    {
        let now = unix_time_now();
        self.check_and_wait_at(ip, now)
    }

    /// Records a failed login of `ip` at the current time (see
    /// `record_failed_attempt_at`).
    pub fn record_failed_attempt(&mut self, ip: u128) -> (r: u64)
        requires
            old(self).wf(),
        ensures
            final(self).wf(),
            exists|t: u64| final(self)@ == after_failure(old(self)@, ip, t),
            r == timeout_for(next_count(old(self)@, ip)),
    {
        let now = unix_time_now();
        self.record_failed_attempt_at(ip, now)
    }
}

impl RateLimitError {
    /// The message shown to the client.
    pub fn message(&self) -> (r: &'static str)
        ensures
            r@ == match self {
                RateLimitError::Banned(_) => "Too many failed login attempts. Account temporarily banned."@,
                RateLimitError::TooManyAttempts(_) => "Please wait before trying again"@,
            },
    {
        match self {
            RateLimitError::Banned(_) => "Too many failed login attempts. Account temporarily banned.",
            RateLimitError::TooManyAttempts(_) => "Please wait before trying again",
        }
    }

    /// The machine-readable code.
    pub fn code(&self) -> (r: &'static str)
        ensures
            r@ == match self {
                RateLimitError::Banned(_) => "BANNED"@,
                RateLimitError::TooManyAttempts(_) => "RATE_LIMIT"@,
            },
    {
        match self {
            RateLimitError::Banned(_) => "BANNED",
            RateLimitError::TooManyAttempts(_) => "RATE_LIMIT",
        }
    }

    /// The seconds left to wait.
    pub fn timeout(&self) -> (r: u64)
        ensures
            r == match self {
                RateLimitError::Banned(secs) => *secs,
                RateLimitError::TooManyAttempts(secs) => *secs,
            },
    {
        match self {
            RateLimitError::Banned(secs) => *secs,
            RateLimitError::TooManyAttempts(secs) => *secs,
        }
    }
}

/// A login from `ip` at `t` that passes the admission check and then fails:
/// the sweep of the check, then the failure.
pub open spec fn failed_login(m: Map<u128, LoginAttempt>, ip: u128, t: u64) -> Map<u128, LoginAttempt> {
    after_failure(swept(m, t), ip, t)
}

/// After a failure at `t` that leaves `ip` below the ban threshold with count
/// `c`, the address is refused until `t + WAIT_MULTIPLIER * c`, with the
/// seconds left, and admitted from then on.
pub proof fn lemma_backoff_after_failure(m: Map<u128, LoginAttempt>, ip: u128, t: u64, now: u64)
    requires
        next_count(m, ip) < BAN_THRESHOLD,
        t <= now,
    ensures
        ({
            let c = next_count(m, ip);
            admission(swept(after_failure(m, ip, t), now), ip, now) == if now < t + WAIT_MULTIPLIER * c {
                Err(RateLimitError::TooManyAttempts((t + WAIT_MULTIPLIER * c - now) as u64))
            } else {
                Ok(())
            }
        }),
{
}

/// After a failure at `t` that brings `ip` to the ban threshold or beyond,
/// the failure announces `BAN_DURATION`, and the address is banned until
/// exactly `t + BAN_DURATION`, with the seconds left, and admitted from then on.
pub proof fn lemma_ban_after_failure(m: Map<u128, LoginAttempt>, ip: u128, t: u64, now: u64)
    requires
        next_count(m, ip) >= BAN_THRESHOLD,
        t <= now,
    ensures
        timeout_for(next_count(m, ip)) == BAN_DURATION,
        admission(swept(after_failure(m, ip, t), now), ip, now) == if now < t + BAN_DURATION {
            Err(RateLimitError::Banned((t + BAN_DURATION - now) as u64))
        } else {
            Ok(())
        },
{
}

/// From an address with no record, four failed logins within `CLEANUP_AGE` of
/// one another leave a count of four, whose backoff is `4 * WAIT_MULTIPLIER`
/// seconds; the fifth brings the count to `BAN_THRESHOLD` and announces a ban
/// of `BAN_DURATION`.
pub proof fn lemma_fifth_failure_bans(
    m: Map<u128, LoginAttempt>,
    ip: u128,
    t1: u64,
    t2: u64,
    t3: u64,
    t4: u64,
    t5: u64,
)
    requires
        !m.contains_key(ip),
        t1 <= t2 <= t3 <= t4 <= t5,
        t2 < t1 + CLEANUP_AGE,
        t3 < t2 + CLEANUP_AGE,
        t4 < t3 + CLEANUP_AGE,
        t5 < t4 + CLEANUP_AGE,
    ensures
        ({
            let m4 = failed_login(failed_login(failed_login(failed_login(m, ip, t1), ip, t2), ip, t3), ip, t4);
            let m5 = failed_login(m4, ip, t5);
            &&& m4[ip] == LoginAttempt { count: 4, last_attempt: t4 }
            &&& timeout_for(4) == 4 * WAIT_MULTIPLIER
            &&& next_count(swept(m4, t5), ip) == BAN_THRESHOLD
            &&& m5[ip] == LoginAttempt { count: BAN_THRESHOLD, last_attempt: t5 }
            &&& timeout_for(m5[ip].count) == BAN_DURATION
        }),
{
    let m1 = failed_login(m, ip, t1);
    assert(!swept(m, t1).contains_key(ip));
    assert(m1[ip].count == 1);
    let m2 = failed_login(m1, ip, t2);
    assert(swept(m1, t2).contains_key(ip));
    assert(m2[ip].count == 2);
    let m3 = failed_login(m2, ip, t3);
    assert(swept(m2, t3).contains_key(ip));
    assert(m3[ip].count == 3);
    let m4 = failed_login(m3, ip, t4);
    assert(swept(m3, t4).contains_key(ip));
    assert(m4[ip].count == 4);
    assert(swept(m4, t5).contains_key(ip));
}

/// A successful login clears the address entirely: it holds no record, the
/// very next check admits it at any time, and its next failure counts one.
pub proof fn lemma_success_resets(m: Map<u128, LoginAttempt>, ip: u128, now: u64)
    ensures
        !m.remove(ip).contains_key(ip),
        admission(swept(m.remove(ip), now), ip, now) == Ok::<(), RateLimitError>(()),
        next_count(swept(m.remove(ip), now), ip) == 1,
{
}

/// A remaining wait, capped at the largest `u64`.
fn clamp_remaining(x: u128) -> (r: u64)
    ensures
        r == clamp_u64(x as int),
{
    if x > u64::MAX as u128 {
        u64::MAX
    } else {
        x as u64
    }
}

/// Relies on std::time::SystemTime::now: the wall clock, read as whole seconds
/// since the Unix epoch (0 for a clock set before it).
#[verifier::external_body]
pub(crate) fn unix_time_now() -> (r: u64) {
    match std::time::SystemTime::now().duration_since(std::time::UNIX_EPOCH) {
        Ok(d) => d.as_secs(),
        Err(_) => 0,
    }
}

} // verus!
