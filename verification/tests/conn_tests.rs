use jean::conn::{ConnDirective, ConnectionManager, ConnectionStatus, RECONNECT_DELAY};

#[test]
fn reconnect_cycle() {
    let mut m = ConnectionManager::new();
    assert!(matches!(m.status, ConnectionStatus::Disconnected));

    let step = m.on_attempt();
    assert!(matches!(m.status, ConnectionStatus::Connecting));
    assert_eq!(step.announce.len(), 1);
    assert!(matches!(step.announce[0], ConnectionStatus::Connecting));
    assert!(matches!(step.directive, ConnDirective::RunSession));

    let step = m.on_connected();
    assert!(matches!(m.status, ConnectionStatus::Connected));
    assert!(matches!(step.announce[0], ConnectionStatus::Connected));

    // the transport closes mid-stream: back to disconnected, then retry
    let step = m.on_session_closed();
    assert!(matches!(m.status, ConnectionStatus::Disconnected));
    assert_eq!(step.announce.len(), 1);
    assert!(matches!(step.announce[0], ConnectionStatus::Disconnected));
    assert!(matches!(step.directive, ConnDirective::RetryAfterDelay));

    // and the next attempt begins a fresh session
    let step = m.on_attempt();
    assert!(matches!(m.status, ConnectionStatus::Connecting));
    assert!(matches!(step.directive, ConnDirective::RunSession));
}

#[test]
fn failed_handshake_announces_error_then_disconnected() {
    let mut m = ConnectionManager::new();
    m.on_attempt();
    let step = m.on_connect_failed("connection refused".to_string());
    assert_eq!(step.announce.len(), 2);
    match &step.announce[0] {
        ConnectionStatus::Error(reason) => assert_eq!(reason, "connection refused"),
        _ => panic!("expected the error status first"),
    }
    assert!(matches!(step.announce[1], ConnectionStatus::Disconnected));
    assert!(matches!(step.directive, ConnDirective::RetryAfterDelay));
    assert!(matches!(m.status, ConnectionStatus::Disconnected));
}

#[test]
fn fixed_delay_is_two_units() {
    assert_eq!(RECONNECT_DELAY, 2);
}
