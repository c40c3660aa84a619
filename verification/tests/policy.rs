use tickstream::policy::{ReconnectionPolicy, BASE_DELAY_SECS, MAX_DELAY_SECS, MAX_RECONNECT_ATTEMPTS};

#[test]
fn delays_double_then_hold_at_cap() {
    let mut p = ReconnectionPolicy::new();
    let mut seen = Vec::new();
    for _ in 0..5 {
        seen.push(p.calculate_delay());
        p.increment();
    }
    assert_eq!(seen, vec![2, 4, 8, 16, 32]);
    assert_eq!(p.calculate_delay(), 32);
}

#[test]
fn cap_is_reached_at_attempt_four() {
    let mut p = ReconnectionPolicy::new();
    for _ in 0..4 {
        p.increment();
    }
    assert_eq!(p.current_attempt, 4);
    assert_eq!(p.calculate_delay(), MAX_DELAY_SECS);
}

#[test]
fn total_backoff_is_bounded_by_62_seconds() {
    let mut p = ReconnectionPolicy::new();
    let mut total: u64 = 0;
    while p.should_retry() {
        total += p.calculate_delay();
        p.increment();
    }
    assert_eq!(total, 62);
}

#[test]
fn retry_budget_is_five_attempts() {
    let mut p = ReconnectionPolicy::new();
    assert_eq!(p.max_attempts, MAX_RECONNECT_ATTEMPTS);
    assert_eq!(p.base_delay_secs, BASE_DELAY_SECS);
    for n in 0..5 {
        assert_eq!(p.current_attempt, n);
        assert!(p.should_retry());
        p.increment();
    }
    assert_eq!(p.current_attempt, 5);
    assert!(!p.should_retry());
}

#[test]
fn reset_restores_the_budget() {
    let mut p = ReconnectionPolicy::new();
    for _ in 0..5 {
        p.increment();
    }
    assert!(!p.should_retry());
    p.reset();
    assert_eq!(p.current_attempt, 0);
    assert!(p.should_retry());
    assert_eq!(p.calculate_delay(), 2);
}
