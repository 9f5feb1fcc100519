use gaggle::api::rest::rest_agents::agent_status;
use gaggle::api::session::{
    quiet_wait, session_start, session_step, ConnectionTable, SessionAction, SessionEvent,
    DEFAULT_MAX_CONNS_PER_AGENT, DEFAULT_WS_RATE_MAX, HEARTBEAT_TIMEOUT_MILLIS,
};

#[test]
fn connection_limit_per_agent() {
    let mut t = ConnectionTable::new();
    for id in 0..5u64 {
        t.connect("a", id, 100, DEFAULT_MAX_CONNS_PER_AGENT).unwrap();
    }
    let e = t.connect("a", 9, 100, DEFAULT_MAX_CONNS_PER_AGENT).unwrap_err();
    assert_eq!(e.code, "TOO_MANY_CONNECTIONS");
    assert_eq!(e.message, "Max 5 concurrent connections per agent");
    assert_eq!(t.count_for("a"), 5);
    t.connect("b", 10, 100, DEFAULT_MAX_CONNS_PER_AGENT).unwrap();
    assert_eq!(t.count_for("b"), 1);
}

#[test]
fn disconnect_keeps_other_connections() {
    let mut t = ConnectionTable::new();
    t.connect("a", 1, 10, 5).unwrap();
    t.connect("b", 2, 20, 5).unwrap();
    t.connect("a", 3, 30, 5).unwrap();
    t.disconnect("a", 1);
    assert_eq!(t.count_for("a"), 1);
    assert_eq!(t.online_agents(), vec!["b".to_string(), "a".to_string()]);
    t.disconnect("a", 2);
    assert_eq!(t.count_for("b"), 1);
    t.disconnect("a", 3);
    assert_eq!(t.online_agents(), vec!["b".to_string()]);
}

#[test]
fn pings_feed_the_agent_status() {
    let mut t = ConnectionTable::new();
    t.connect("a", 1, 10, 5).unwrap();
    t.connect("a", 2, 20, 5).unwrap();
    t.record_ping("a", 1, 95);
    t.record_ping("b", 2, 99);
    let status = agent_status(&t.stamps("a"));
    assert!(status.online);
    assert_eq!((status.connection_count, status.connected_since, status.last_ping), (2, Some(10), Some(95)));
    assert!(!agent_status(&t.stamps("b")).online);
}

#[test]
fn rate_limit_per_window() {
    let mut s = session_start(0);
    let mut dispatched = 0;
    for i in 0..35u64 {
        let (next, action) = session_step(s, SessionEvent::Text, i * 10, DEFAULT_WS_RATE_MAX);
        s = next;
        if action == SessionAction::Dispatch {
            dispatched += 1;
        } else {
            assert_eq!(action, SessionAction::RateLimited);
        }
    }
    assert_eq!(dispatched, 30);
    let (_, action) = session_step(s, SessionEvent::Text, 1000, DEFAULT_WS_RATE_MAX);
    assert_eq!(action, SessionAction::Dispatch);
}

#[test]
fn quiet_peer_is_probed_then_dropped() {
    let s = session_start(1000);
    assert_eq!(quiet_wait(&s, 1000), HEARTBEAT_TIMEOUT_MILLIS);
    assert_eq!(quiet_wait(&s, 31000), 60000);
    assert_eq!(quiet_wait(&s, 200000), 0);
    let (s, action) = session_step(s, SessionEvent::Quiet, 91000, 30);
    assert_eq!(action, SessionAction::SendPing);
    assert!(s.ping_sent);
    let (_, action) = session_step(s, SessionEvent::Quiet, 91000, 30);
    assert_eq!(action, SessionAction::Close);
    let (s, action) = session_step(s, SessionEvent::Ping, 92000, 30);
    assert_eq!(action, SessionAction::Nothing);
    assert!(!s.ping_sent);
    let (_, action) = session_step(s, SessionEvent::Quiet, 152000, 30);
    assert_eq!(action, SessionAction::SendPing);
    let early = session_start(0);
    let (_, action) = session_step(early, SessionEvent::Quiet, 10, 30);
    assert_eq!(action, SessionAction::Close);
}
