use transaction_service::api::middleware::rate_limit::{RateLimitError, RateLimiter};

const MS: u64 = 1_000_000;

#[test]
fn burst_then_refusal_at_one_instant() {
    let mut limiter = RateLimiter::new(100, 3);
    assert!(limiter.try_acquire("key", 0));
    assert!(limiter.try_acquire("key", 0));
    assert!(limiter.try_acquire("key", 0));
    assert!(!limiter.try_acquire("key", 0));
    assert!(!limiter.try_acquire("key", 0));
}

#[test]
fn tokens_refill_with_time() {
    let mut limiter = RateLimiter::new(100, 2);
    assert!(limiter.try_acquire("key", 0));
    assert!(limiter.try_acquire("key", 0));
    assert!(!limiter.try_acquire("key", 0));
    // 100 tokens per second: one token every 10 ms.
    assert!(!limiter.try_acquire("key", 9 * MS));
    assert!(limiter.try_acquire("key", 10 * MS));
    // A long pause refills only up to the burst size.
    assert!(limiter.try_acquire("key", 10_000 * MS));
    assert!(limiter.try_acquire("key", 10_000 * MS));
    assert!(!limiter.try_acquire("key", 10_000 * MS));
}

#[test]
fn keys_are_independent() {
    let mut limiter = RateLimiter::new(1, 1);
    assert!(limiter.try_acquire("a", 0));
    assert!(!limiter.try_acquire("a", 0));
    assert!(limiter.try_acquire("b", 0));
    assert!(!limiter.try_acquire("b", 0));
}

#[test]
fn zero_burst_admits_nothing() {
    let mut limiter = RateLimiter::new(100, 0);
    assert!(!limiter.try_acquire("key", 0));
    assert!(!limiter.try_acquire("key", 1_000 * MS));
}

#[test]
fn requests_without_key_pass() {
    let mut limiter = RateLimiter::new(1, 0);
    assert!(limiter.check_request(None, 0));
    assert!(!limiter.check_request(Some("k"), 0));
}

#[test]
fn cleanup_drops_stale_buckets() {
    let mut limiter = RateLimiter::new(1, 1);
    assert!(limiter.try_acquire("old", 0));
    assert!(limiter.try_acquire("new", 50 * MS));
    limiter.cleanup(30 * MS, 60 * MS);
    // "old" starts over with a full bucket; "new" kept its empty one.
    assert!(limiter.try_acquire("old", 60 * MS));
    assert!(!limiter.try_acquire("new", 60 * MS));
}

#[test]
fn refusal_body() {
    let body = RateLimitError::too_many_requests();
    assert_eq!(body.error.code, "rate_limit_exceeded");
    assert_eq!(body.error.message, "Too many requests. Please slow down.");
}

#[test]
fn admissions_over_a_second_stay_within_burst_plus_rate() {
    // Burst 3, 10 tokens per second: over one second at most 3 + 10 pass,
    // whatever requests for other keys come in between.
    let mut limiter = RateLimiter::new(10, 3);
    let mut admitted = 0;
    for step in 0..=1000u64 {
        if limiter.try_acquire("key", step * MS) {
            admitted += 1;
        }
        limiter.try_acquire("other", step * MS);
    }
    assert_eq!(admitted, 13);
}

#[test]
fn a_keys_admissions_ignore_other_keys() {
    let mut alone = RateLimiter::new(5, 2);
    let mut mixed = RateLimiter::new(5, 2);
    for step in 0..50u64 {
        let now = step * 37 * MS;
        let a = alone.try_acquire("key", now);
        mixed.try_acquire("noisy", now);
        mixed.try_acquire("noisy", now);
        let b = mixed.try_acquire("key", now);
        assert_eq!(a, b);
    }
}
