use tickstream::throttle::UpdateThrottle;

#[test]
fn fires_then_blocks_within_the_interval() {
    let mut t = UpdateThrottle::new(500);
    assert!(t.should_update_at(10_000));
    assert!(!t.should_update_at(10_499));
    assert!(t.should_update_at(10_500));
}

#[test]
fn first_call_always_fires() {
    let mut t = UpdateThrottle::new(500);
    assert!(t.should_update_at(0));
}

#[test]
fn blocked_call_does_not_move_the_clock() {
    let mut t = UpdateThrottle::new(500);
    assert!(t.should_update_at(1_000));
    assert!(!t.should_update_at(1_400));
    // Had the blocked call at 1400 moved the clock, 1500 would be blocked.
    assert!(t.should_update_at(1_500));
}

#[test]
fn fires_again_after_each_full_interval() {
    let mut t = UpdateThrottle::new(100);
    assert!(t.should_update_at(0));
    assert!(t.should_update_at(100));
    assert!(!t.should_update_at(199));
    assert!(t.should_update_at(200));
}

#[test]
fn wall_clock_calls_with_zero_interval_always_fire() {
    let mut t = UpdateThrottle::new(0);
    assert!(t.should_update());
    assert!(t.should_update());
}
