use alice::{ConnectionStatus, StatusEvent, Supervisor, TickAction};

#[test]
fn failed_attempts_publish_nothing_and_success_publishes_one_reconnect() {
    let mut s = Supervisor::new();
    for _ in 0..10 {
        assert_eq!(s.tick(), TickAction::Connect);
        assert_eq!(s.on_attempt(false), None);
        assert_eq!(s.status(), ConnectionStatus::Disconnected);
    }
    assert_eq!(s.on_attempt(true), Some(StatusEvent::Reconnected));
    assert_eq!(s.status(), ConnectionStatus::Connected);
    assert_eq!(s.tick(), TickAction::CheckAlive);
}

#[test]
fn connect_lose_reconnect_scenario() {
    let mut s = Supervisor::new();
    assert_eq!(s.status(), ConnectionStatus::Disconnected);
    assert_eq!(s.on_connect(true), Some(StatusEvent::Connected));
    assert_eq!(s.status(), ConnectionStatus::Connected);
    assert_eq!(s.tick(), TickAction::CheckAlive);
    assert_eq!(s.on_probe(false), Some(StatusEvent::Lost));
    assert_eq!(s.status(), ConnectionStatus::Disconnected);
    assert_eq!(s.tick(), TickAction::Connect);
    assert_eq!(s.on_attempt(true), Some(StatusEvent::Reconnected));
    assert_eq!(s.status(), ConnectionStatus::Connected);
}

#[test]
fn live_connection_stays_up_quietly() {
    let mut s = Supervisor::new();
    s.on_connect(true);
    for _ in 0..5 {
        assert_eq!(s.on_probe(true), None);
        assert_eq!(s.status(), ConnectionStatus::Connected);
    }
}

#[test]
fn explicit_disconnect_and_failed_connect() {
    let mut s = Supervisor::new();
    assert_eq!(s.on_connect(false), None);
    assert_eq!(s.status(), ConnectionStatus::Disconnected);
    assert_eq!(s.on_disconnect(), None);
    s.on_connect(true);
    assert_eq!(s.on_connect(true), None);
    assert_eq!(s.on_disconnect(), Some(StatusEvent::Disconnected));
    assert_eq!(s.status(), ConnectionStatus::Disconnected);
    assert_eq!(s.on_probe(false), None);
}
