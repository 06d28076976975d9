use backend::throttle::{RateLimitError, RateLimiter, BAN_DURATION, CLEANUP_AGE, WAIT_MULTIPLIER};

const A: u128 = 0xffff_0a00_0005;
const B: u128 = 0xffff_0a00_0006;

#[test]
fn new_address_is_admitted() {
    let mut r = RateLimiter::new();
    assert_eq!(r.check_and_wait_at(A, 1000), Ok(()));
    assert_eq!(r.check_and_wait(A), Ok(()));
}

#[test]
fn failure_timeouts_grow_then_ban() {
    let mut r = RateLimiter::new();
    assert_eq!(r.record_failed_attempt_at(A, 1000), 3);
    assert_eq!(r.record_failed_attempt_at(A, 1010), 6);
    assert_eq!(r.record_failed_attempt_at(A, 1020), 9);
    assert_eq!(r.record_failed_attempt_at(A, 1030), 12);
    assert_eq!(r.record_failed_attempt_at(A, 1040), BAN_DURATION);
    assert_eq!(r.record_failed_attempt_at(A, 1050), 7200);
}

#[test]
fn backoff_after_four_failures() {
    let mut r = RateLimiter::new();
    for t in [1000u64, 1010, 1020, 1030] {
        assert_eq!(r.check_and_wait_at(A, t), Ok(()));
        r.record_failed_attempt_at(A, t);
    }
    assert_eq!(r.check_and_wait_at(A, 1030), Err(RateLimitError::TooManyAttempts(12)));
    assert_eq!(r.check_and_wait_at(A, 1035), Err(RateLimitError::TooManyAttempts(7)));
    assert_eq!(r.check_and_wait_at(A, 1041), Err(RateLimitError::TooManyAttempts(1)));
    assert_eq!(r.check_and_wait_at(A, 1030 + 4 * WAIT_MULTIPLIER), Ok(()));
    assert_eq!(r.check_and_wait_at(B, 1031), Ok(()));
}

#[test]
fn fifth_failure_bans_for_ban_duration() {
    let mut r = RateLimiter::new();
    for t in [1000u64, 1010, 1020, 1030, 1050] {
        r.record_failed_attempt_at(A, t);
    }
    assert_eq!(r.check_and_wait_at(A, 1050), Err(RateLimitError::Banned(7200)));
    assert_eq!(r.check_and_wait_at(A, 1050 + 7199), Err(RateLimitError::Banned(1)));
    assert_eq!(r.check_and_wait_at(A, 1050 + BAN_DURATION), Ok(()));
}

#[test]
fn lapsed_ban_keeps_its_count() {
    let mut r = RateLimiter::new();
    for t in [0u64, 10, 20, 30, 40] {
        r.record_failed_attempt_at(A, t);
    }
    assert_eq!(r.check_and_wait_at(A, 40 + BAN_DURATION), Ok(()));
    assert_eq!(r.record_failed_attempt_at(A, 8000), BAN_DURATION);
    assert_eq!(r.check_and_wait_at(A, 8001), Err(RateLimitError::Banned(7199)));
}

#[test]
fn success_resets_record() {
    let mut r = RateLimiter::new();
    for t in [1000u64, 1001, 1002] {
        r.record_failed_attempt_at(A, t);
    }
    assert_eq!(r.check_and_wait_at(A, 1003), Err(RateLimitError::TooManyAttempts(8)));
    r.record_successful_attempt(A);
    assert_eq!(r.check_and_wait_at(A, 1003), Ok(()));
    assert_eq!(r.record_failed_attempt_at(A, 1004), 3);
    r.record_successful_attempt(B);
}

#[test]
fn stale_records_are_swept() {
    let mut r = RateLimiter::new();
    for t in [0u64, 1, 2, 3, 4] {
        r.record_failed_attempt_at(A, t);
    }
    r.record_failed_attempt_at(B, 100);
    assert_eq!(r.check_and_wait_at(A, 4 + CLEANUP_AGE - 1), Ok(()));
    assert_eq!(r.check_and_wait_at(A, 4 + CLEANUP_AGE), Ok(()));
    // swept: the next failure starts over at one
    assert_eq!(r.record_failed_attempt_at(A, 4 + CLEANUP_AGE), 3);
    // B failed later and is kept
    assert_eq!(r.record_failed_attempt_at(B, 4 + CLEANUP_AGE), 6);
}

#[test]
fn clock_running_backwards_still_waits() {
    let mut r = RateLimiter::new();
    r.record_failed_attempt_at(A, 1000);
    assert_eq!(r.check_and_wait_at(A, 990), Err(RateLimitError::TooManyAttempts(13)));
}

#[test]
fn error_fields() {
    let b = RateLimitError::Banned(42);
    let w = RateLimitError::TooManyAttempts(7);
    assert_eq!(b.code(), "BANNED");
    assert_eq!(w.code(), "RATE_LIMIT");
    assert_eq!(b.message(), "Too many failed login attempts. Account temporarily banned.");
    assert_eq!(w.message(), "Please wait before trying again");
    assert_eq!(b.timeout(), 42);
    assert_eq!(w.timeout(), 7);
}

#[test]
fn clocked_failure_then_check_waits() {
    let mut r = RateLimiter::new();
    assert_eq!(r.record_failed_attempt(A), 3);
    match r.check_and_wait(A) {
        Err(RateLimitError::TooManyAttempts(s)) => assert!(s <= 3),
        Ok(()) => {}
        Err(e) => panic!("unexpected {:?}", e),
    }
}
