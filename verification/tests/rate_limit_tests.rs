use user_service::models::{IpRateLimiter, RateLimitStatus, RateLimiter};

const NOW: i64 = 1_700_000_000_000;
const MINUTE: i64 = 60_000;

fn make_limiter() -> RateLimiter {
    RateLimiter::new(5, 15)
}

#[test]
fn allowed_until_threshold() {
    let mut rl = make_limiter();
    for _ in 0..4 {
        rl.record_fail("a@b.com", NOW);
    }
    assert_eq!(rl.check("a@b.com", NOW), RateLimitStatus::Allowed);
}

#[test]
fn locked_after_threshold() {
    let mut rl = make_limiter();
    for _ in 0..5 {
        rl.record_fail("a@b.com", NOW);
    }
    let status = rl.check("a@b.com", NOW);
    assert!(matches!(status, RateLimitStatus::Locked(_)));
}

#[test]
fn reset_clears_counter() {
    let mut rl = make_limiter();
    for _ in 0..4 {
        rl.record_fail("a@b.com", NOW);
    }
    rl.reset("a@b.com");
    assert_eq!(rl.check("a@b.com", NOW), RateLimitStatus::Allowed);
    // After reset, 1 fail should not lock.
    rl.record_fail("a@b.com", NOW);
    assert_eq!(rl.check("a@b.com", NOW), RateLimitStatus::Allowed);
}

#[test]
fn lockout_expires() {
    let mut rl = make_limiter();
    for _ in 0..5 {
        rl.record_fail("a@b.com", NOW);
    }
    // 16 minutes later
    let later = NOW + 16 * MINUTE;
    assert_eq!(rl.check("a@b.com", later), RateLimitStatus::Allowed);
}

#[test]
fn case_insensitive_email() {
    let mut rl = make_limiter();
    for _ in 0..5 {
        rl.record_fail("A@B.COM", NOW);
    }
    assert!(matches!(rl.check("a@b.com", NOW), RateLimitStatus::Locked(_)));
}

#[test]
fn locked_until_is_now_plus_lockout() {
    let mut rl = make_limiter();
    for _ in 0..5 {
        rl.record_fail("a@b.com", NOW);
    }
    assert_eq!(rl.check("a@b.com", NOW), RateLimitStatus::Locked(NOW + 15 * MINUTE));
    // Still locked one millisecond before the end, free at the end.
    assert_eq!(
        rl.check("a@b.com", NOW + 15 * MINUTE - 1),
        RateLimitStatus::Locked(NOW + 15 * MINUTE)
    );
    assert_eq!(rl.check("a@b.com", NOW + 15 * MINUTE), RateLimitStatus::Allowed);
    assert_eq!(rl.lockout(), 15 * MINUTE);
}

#[test]
fn failures_while_locked_do_not_extend_lockout() {
    let mut rl = make_limiter();
    for _ in 0..5 {
        rl.record_fail("a@b.com", NOW);
    }
    rl.record_fail("a@b.com", NOW + MINUTE);
    assert_eq!(
        rl.check("a@b.com", NOW + MINUTE),
        RateLimitStatus::Locked(NOW + 15 * MINUTE)
    );
}

#[test]
fn failures_are_per_email() {
    let mut rl = make_limiter();
    for _ in 0..5 {
        rl.record_fail("x@b.com", NOW);
    }
    assert_eq!(rl.check("y@b.com", NOW), RateLimitStatus::Allowed);
}

#[test]
fn ip_limiter_admits_up_to_max_per_window() {
    let mut ip = IpRateLimiter::new(3);
    assert!(ip.check("1.1.1.1", NOW));
    assert!(ip.check("1.1.1.1", NOW + 1));
    assert!(ip.check("1.1.1.1", NOW + 2));
    assert!(!ip.check("1.1.1.1", NOW + 3));
    // Another IP has its own window.
    assert!(ip.check("2.2.2.2", NOW + 3));
}

#[test]
fn ip_limiter_window_resets_after_a_minute() {
    let mut ip = IpRateLimiter::new(1);
    assert!(ip.check("1.1.1.1", NOW));
    assert!(!ip.check("1.1.1.1", NOW + MINUTE - 1));
    assert!(ip.check("1.1.1.1", NOW + MINUTE));
    assert!(!ip.check("1.1.1.1", NOW + MINUTE + 1));
}

#[test]
fn ip_limiter_with_zero_max_refuses_all() {
    let mut ip = IpRateLimiter::new(0);
    assert!(!ip.check("1.1.1.1", NOW));
}

#[test]
fn would_lock_only_at_threshold() {
    let mut rl = make_limiter();
    for _ in 0..4 {
        assert!(!rl.would_lock("a@b.com", NOW));
        rl.record_fail("a@b.com", NOW);
    }
    assert!(rl.would_lock("A@B.com", NOW));
    rl.record_fail("a@b.com", NOW);
    // Locked: a further failure changes nothing, so it sets no lockout.
    assert!(!rl.would_lock("a@b.com", NOW + 1));
    // After the lockout ends the count starts afresh.
    assert!(!rl.would_lock("a@b.com", NOW + 15 * MINUTE));
}
