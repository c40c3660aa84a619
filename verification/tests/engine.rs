use tickstream::engine::{
    Action, ConnectionStatus, Event, Phase, SessionOutcome, StreamManager, WebSocketStatus,
};

fn session_error(m: &str) -> Event {
    Event::SessionEnded { outcome: SessionOutcome::Error { message: m.to_string() } }
}

#[test]
fn missing_credential_is_a_fatal_configuration_error() {
    let mut m = StreamManager::new(false);
    let r = m.step(Event::Start, false);
    assert_eq!(r.action, Action::Halt);
    assert_eq!(r.emits.len(), 1);
    match &r.emits[0] {
        WebSocketStatus::Error { message, recoverable } => {
            assert!(message.contains("No API key configured"));
            assert!(!recoverable);
        }
        other => panic!("expected a fatal error status, got {:?}", other),
    }
    assert_eq!(m.phase, Phase::Halted);
}

#[test]
fn unauthorized_error_never_reconnects() {
    let mut m = StreamManager::new(true);
    m.step(Event::Start, false);
    m.step(Event::ConnectSucceeded { since_millis: 7 }, false);
    m.step(Event::SubscribeSucceeded, false);
    let r = m.step(session_error("unauthorized access"), false);
    assert_eq!(r.action, Action::Halt);
    assert!(r.emits.iter().all(|e| !matches!(e, WebSocketStatus::Reconnecting { .. })));
    match &r.emits[0] {
        WebSocketStatus::Error { message, recoverable } => {
            assert_eq!(message, "unauthorized access");
            assert!(!recoverable);
        }
        other => panic!("expected a fatal error status, got {:?}", other),
    }
    assert!(matches!(m.status, ConnectionStatus::Error(_)));
}

#[test]
fn connection_reset_reconnects_with_increasing_attempts() {
    let mut m = StreamManager::new(true);
    m.step(Event::Start, false);
    for expected_attempt in 1..=5u32 {
        let r = m.step(
            Event::ConnectFailed { message: "connection reset".to_string() },
            false,
        );
        assert_eq!(r.emits.len(), 1);
        match r.emits[0] {
            WebSocketStatus::Reconnecting { attempt, next_retry_secs } => {
                assert_eq!(attempt, expected_attempt);
                assert_eq!(next_retry_secs, [2u64, 4, 8, 16, 32][(attempt - 1) as usize]);
            }
            ref other => panic!("expected a reconnecting status, got {:?}", other),
        }
        assert!(matches!(r.action, Action::Sleep { .. }));
        m.step(Event::SleepFinished, false);
    }
    // The budget is spent: the sixth failure is terminal.
    let r = m.step(
        Event::ConnectFailed { message: "connection reset".to_string() },
        false,
    );
    assert_eq!(r.action, Action::Halt);
    match &r.emits[0] {
        WebSocketStatus::Error { message, recoverable } => {
            assert_eq!(message, "Failed to connect after 5 attempts");
            assert!(!recoverable);
        }
        other => panic!("expected the terminal error, got {:?}", other),
    }
}

#[test]
fn failure_then_success_yields_the_expected_status_sequence() {
    let mut m = StreamManager::new(true);
    let mut statuses: Vec<WebSocketStatus> = Vec::new();

    let r = m.step(Event::Start, false);
    statuses.extend(r.emits);
    assert_eq!(r.action, Action::Connect);

    let r = m.step(Event::ConnectFailed { message: "broken pipe".to_string() }, false);
    statuses.extend(r.emits);
    assert_eq!(r.action, Action::Sleep { delay_secs: 2 });

    let r = m.step(Event::SleepFinished, false);
    statuses.extend(r.emits);
    assert_eq!(r.action, Action::Connect);

    let r = m.step(Event::ConnectSucceeded { since_millis: 123_456 }, false);
    statuses.extend(r.emits);
    assert_eq!(r.action, Action::Subscribe);

    assert_eq!(statuses.len(), 4);
    assert!(matches!(statuses[0], WebSocketStatus::Connecting));
    assert!(
        matches!(statuses[1], WebSocketStatus::Reconnecting { attempt: 1, next_retry_secs: 2 })
    );
    assert!(matches!(statuses[2], WebSocketStatus::Connecting));
    assert!(matches!(statuses[3], WebSocketStatus::Connected { since_millis: 123_456 }));

    // Success cleared the retry budget.
    assert_eq!(m.policy.current_attempt, 0);
}

#[test]
fn stop_while_connected_ends_with_a_clean_disconnect() {
    let mut m = StreamManager::new(true);
    m.step(Event::Start, false);
    m.step(Event::ConnectSucceeded { since_millis: 1 }, false);
    m.step(Event::SubscribeSucceeded, false);
    let r = m.step(
        Event::SessionEnded { outcome: SessionOutcome::Disconnected },
        true,
    );
    assert_eq!(r.action, Action::UnsubscribeThenHalt);
    assert_eq!(r.emits.len(), 1);
    assert!(matches!(r.emits[0], WebSocketStatus::Disconnected));
    assert!(matches!(m.status, ConnectionStatus::Disconnected));
    assert_eq!(m.phase, Phase::Halted);
}

#[test]
fn stop_observed_before_connecting_halts_cleanly() {
    let mut m = StreamManager::new(true);
    let r = m.step(Event::Start, true);
    assert_eq!(r.action, Action::Halt);
    assert_eq!(r.emits.len(), 1);
    assert!(matches!(r.emits[0], WebSocketStatus::Disconnected));
}

#[test]
fn subscribe_failure_enters_backoff_and_spends_the_budget() {
    let mut m = StreamManager::new(true);
    m.step(Event::Start, false);
    m.step(Event::ConnectSucceeded { since_millis: 1 }, false);
    let r = m.step(Event::SubscribeFailed, false);
    assert_eq!(r.emits.len(), 2);
    match &r.emits[0] {
        WebSocketStatus::Error { message, recoverable } => {
            assert_eq!(message, "Subscription failed");
            assert!(recoverable);
        }
        other => panic!("expected the subscription error, got {:?}", other),
    }
    assert!(
        matches!(r.emits[1], WebSocketStatus::Reconnecting { attempt: 1, next_retry_secs: 2 })
    );
    assert_eq!(r.action, Action::Sleep { delay_secs: 2 });
    assert_eq!(m.policy.current_attempt, 1);
    assert_eq!(m.phase, Phase::Backoff);
}

#[test]
fn repeated_subscribe_failures_always_back_off() {
    // An endpoint that accepts connections but rejects every subscribe is
    // never retried in a tight loop: each retry waits out the backoff.
    // Each successful connect resets the budget, so the attempt count
    // starts over at one each cycle.
    let mut m = StreamManager::new(true);
    m.step(Event::Start, false);
    for _ in 0..3 {
        m.step(Event::ConnectSucceeded { since_millis: 1 }, false);
        let r = m.step(Event::SubscribeFailed, false);
        assert!(
            matches!(
                r.emits[1],
                WebSocketStatus::Reconnecting { attempt: 1, next_retry_secs: 2 }
            )
        );
        assert_eq!(r.action, Action::Sleep { delay_secs: 2 });
        m.step(Event::SleepFinished, false);
    }
}

#[test]
fn subscribe_failures_without_a_reconnect_exhaust_the_budget() {
    // Without an intervening successful connect, consecutive recoverable
    // failures — a subscribe failure among them — spend the budget.
    let mut m = StreamManager::new(true);
    m.step(Event::Start, false);
    m.step(Event::ConnectSucceeded { since_millis: 1 }, false);
    let r = m.step(Event::SubscribeFailed, false);
    assert!(matches!(r.emits[1], WebSocketStatus::Reconnecting { attempt: 1, .. }));
    m.step(Event::SleepFinished, false);
    for expected_attempt in 2..=5u32 {
        let r = m.step(
            Event::ConnectFailed { message: "connection reset".to_string() },
            false,
        );
        match r.emits[0] {
            WebSocketStatus::Reconnecting { attempt, .. } => {
                assert_eq!(attempt, expected_attempt)
            }
            ref other => panic!("expected a reconnecting status, got {:?}", other),
        }
        m.step(Event::SleepFinished, false);
    }
    let r = m.step(
        Event::ConnectFailed { message: "connection reset".to_string() },
        false,
    );
    assert_eq!(r.action, Action::Halt);
    match &r.emits[0] {
        WebSocketStatus::Error { message, recoverable } => {
            assert_eq!(message, "Failed to connect after 5 attempts");
            assert!(!recoverable);
        }
        other => panic!("expected the terminal error, got {:?}", other),
    }
}

#[test]
fn subscribe_failure_with_stop_requested_halts_cleanly() {
    let mut m = StreamManager::new(true);
    m.step(Event::Start, false);
    m.step(Event::ConnectSucceeded { since_millis: 1 }, false);
    let r = m.step(Event::SubscribeFailed, true);
    assert_eq!(r.action, Action::Halt);
    assert_eq!(r.emits.len(), 2);
    assert!(matches!(r.emits[1], WebSocketStatus::Disconnected));
    assert_eq!(m.phase, Phase::Halted);
}

#[test]
fn clean_disconnect_without_stop_enters_backoff() {
    let mut m = StreamManager::new(true);
    m.step(Event::Start, false);
    m.step(Event::ConnectSucceeded { since_millis: 1 }, false);
    m.step(Event::SubscribeSucceeded, false);
    let r = m.step(
        Event::SessionEnded { outcome: SessionOutcome::Disconnected },
        false,
    );
    assert!(matches!(r.emits[0], WebSocketStatus::Reconnecting { attempt: 1, .. }));
    assert_eq!(r.action, Action::Sleep { delay_secs: 2 });
    assert_eq!(m.phase, Phase::Backoff);
}

#[test]
fn fatal_connect_error_reports_an_authentication_failure() {
    let mut m = StreamManager::new(true);
    m.step(Event::Start, false);
    let r = m.step(
        Event::ConnectFailed { message: "server said 401".to_string() },
        false,
    );
    assert_eq!(r.action, Action::Halt);
    match &r.emits[0] {
        WebSocketStatus::Error { message, recoverable } => {
            assert_eq!(message, "Authentication failed");
            assert!(!recoverable);
        }
        other => panic!("expected the authentication error, got {:?}", other),
    }
}
