use chat_relay::heartbeat::{Heartbeat, Tick, CLIENT_TIMEOUT_MS, HEARTBEAT_INTERVAL_MS};

#[test]
fn constants() {
    assert_eq!(HEARTBEAT_INTERVAL_MS, 5_000);
    assert_eq!(CLIENT_TIMEOUT_MS, 10_000);
}

#[test]
fn probes_within_window() {
    let mut h = Heartbeat::new(0);
    assert_eq!(h.tick(5_000), Tick::Probe);
    assert_eq!(h.tick(10_000), Tick::Probe);
    assert!(h.is_alive());
}

#[test]
fn closes_after_window() {
    let mut h = Heartbeat::new(0);
    assert_eq!(h.tick(10_001), Tick::Close);
    assert!(!h.is_alive());
    h.beat(10_002);
    assert_eq!(h.last_seen_at(), 0);
    assert_eq!(h.tick(10_003), Tick::Close);
}

#[test]
fn beats_extend_the_window() {
    let mut h = Heartbeat::new(0);
    h.beat(8_000);
    assert_eq!(h.tick(15_000), Tick::Probe);
    h.beat(3_000);
    assert_eq!(h.last_seen_at(), 8_000);
    assert_eq!(h.tick(18_001), Tick::Close);
}

#[test]
fn clock_behind_last_seen_is_not_a_timeout() {
    let mut h = Heartbeat::new(50_000);
    assert_eq!(h.tick(10), Tick::Probe);
}

#[test]
fn failed_probe_is_terminal() {
    let mut h = Heartbeat::new(0);
    h.probe_failed();
    assert!(!h.is_alive());
    assert_eq!(h.tick(1), Tick::Close);
}
