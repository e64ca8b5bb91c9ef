use nwws_oi::{
    plan_attempt_start, plan_connect_outcome, plan_drain_failure, ConnectOutcome, ConnectionState,
    Error, StreamEvent, CHANNEL_CAPACITY, CONNECT_TIMEOUT_SECONDS, LONG_COOLDOWN_SECONDS,
    RETRY_FLOOR_SECONDS, SHORT_COOLDOWN_SECONDS,
};

#[test]
fn attempt_start_announces_connecting() {
    let events = plan_attempt_start();
    assert_eq!(events.len(), 1);
    assert!(matches!(
        events[0],
        StreamEvent::ConnectionState(ConnectionState::Connecting)
    ));
}

#[test]
fn policy_constants() {
    assert_eq!(CONNECT_TIMEOUT_SECONDS, 75);
    assert_eq!(LONG_COOLDOWN_SECONDS, 300);
    assert_eq!(SHORT_COOLDOWN_SECONDS, 10);
    assert_eq!(RETRY_FLOOR_SECONDS, 5);
    assert_eq!(CHANNEL_CAPACITY, 32);
}

#[test]
fn credentials_failure_cools_down_long() {
    let plan = plan_connect_outcome(ConnectOutcome::Failed(Error::Credentials(
        "denied".to_string(),
    )));
    assert_eq!(plan.events.len(), 2);
    assert!(matches!(
        &plan.events[0],
        StreamEvent::Error(Error::Credentials(d)) if d == "denied"
    ));
    assert!(matches!(
        plan.events[1],
        StreamEvent::ConnectionState(ConnectionState::Disconnected)
    ));
    assert!(plan.cooldown_seconds >= 300);
    assert_eq!(plan.cooldown_seconds, LONG_COOLDOWN_SECONDS);
}

#[test]
fn configuration_failure_cools_down_long() {
    let plan = plan_connect_outcome(ConnectOutcome::Failed(Error::Configuration(
        "bad jid".to_string(),
    )));
    assert!(matches!(&plan.events[0], StreamEvent::Error(_)));
    assert_eq!(plan.cooldown_seconds, LONG_COOLDOWN_SECONDS);
}

#[test]
fn transient_failures_cool_down_short() {
    let plan = plan_connect_outcome(ConnectOutcome::Failed(Error::Network("reset".to_string())));
    assert_eq!(plan.cooldown_seconds, SHORT_COOLDOWN_SECONDS);

    let plan = plan_connect_outcome(ConnectOutcome::Failed(Error::XmppParseError(
        "garbled".to_string(),
    )));
    assert_eq!(plan.cooldown_seconds, SHORT_COOLDOWN_SECONDS);

    let plan = plan_connect_outcome(ConnectOutcome::Failed(Error::StreamEnded));
    assert_eq!(plan.cooldown_seconds, SHORT_COOLDOWN_SECONDS);
}

#[test]
fn timeout_emits_only_disconnected() {
    let plan = plan_connect_outcome(ConnectOutcome::TimedOut);
    assert_eq!(plan.events.len(), 1);
    assert!(matches!(
        plan.events[0],
        StreamEvent::ConnectionState(ConnectionState::Disconnected)
    ));
    assert!(!plan
        .events
        .iter()
        .any(|e| matches!(e, StreamEvent::Error(_))));
    assert_eq!(plan.cooldown_seconds, 0);
}

#[test]
fn success_announces_connected() {
    let plan = plan_connect_outcome(ConnectOutcome::Connected);
    assert_eq!(plan.events.len(), 1);
    assert!(matches!(
        plan.events[0],
        StreamEvent::ConnectionState(ConnectionState::Connected)
    ));
    assert_eq!(plan.cooldown_seconds, 0);
}

#[test]
fn drain_failure_emits_error_then_disconnected() {
    let events = plan_drain_failure(Error::StreamEnded);
    assert_eq!(events.len(), 2);
    assert!(matches!(events[0], StreamEvent::Error(Error::StreamEnded)));
    assert!(matches!(
        events[1],
        StreamEvent::ConnectionState(ConnectionState::Disconnected)
    ));
}

#[test]
fn channel_backpressure_at_capacity() {
    // The outward channel suspends the producer once CHANNEL_CAPACITY events
    // are pending; consuming one frees exactly one slot, in FIFO order.
    let (tx, mut rx) = tokio::sync::mpsc::channel::<usize>(CHANNEL_CAPACITY);
    for i in 0..CHANNEL_CAPACITY {
        tx.try_send(i).expect("the first 32 publishes must fit");
    }
    // The 33rd publish would suspend: the channel reports itself full.
    assert!(matches!(
        tx.try_send(CHANNEL_CAPACITY),
        Err(tokio::sync::mpsc::error::TrySendError::Full(_))
    ));

    // Consuming one event unblocks exactly one pending publish.
    assert_eq!(rx.try_recv(), Ok(0));
    tx.try_send(CHANNEL_CAPACITY).expect("one slot was freed");
    assert!(matches!(
        tx.try_send(CHANNEL_CAPACITY + 1),
        Err(tokio::sync::mpsc::error::TrySendError::Full(_))
    ));

    // FIFO order is preserved end to end.
    for i in 1..=CHANNEL_CAPACITY {
        assert_eq!(rx.try_recv(), Ok(i));
    }
}
