use gaggle::agents::registry::AgentRegistry;
use gaggle::agents::types::{AgentType, RegisterRequest};
use gaggle::api::ws::{
    authorize_ws, check_connection_limit, check_content_size, check_idempotency_key, inject_event_seq,
    inject_space_version, IdempotencyCache, WsAuthQuery, MAX_CONTENT_LEN, MAX_IDEMPOTENCY_KEY_LEN,
};

#[test]
fn test_inject_event_seq_adds_top_level_field() {
    let payload = r#"{"type":"new_message","space_id":"s1","payload":{"content":"hi"}}"#;
    let result = inject_event_seq(payload, 42);
    let parsed: serde_json::Value = serde_json::from_str(&result).unwrap();
    assert_eq!(parsed["event_seq"], 42);
    assert_eq!(parsed["type"], "new_message");
    assert_eq!(parsed["space_id"], "s1");
}

#[test]
fn test_inject_event_seq_handles_invalid_json() {
    let result = inject_event_seq("not json", 1);
    assert_eq!(result, "not json");
}

#[test]
fn test_inject_event_seq_preserves_existing_fields() {
    let payload = r#"{"type":"pong","timestamp":123}"#;
    let result = inject_event_seq(payload, 99);
    let parsed: serde_json::Value = serde_json::from_str(&result).unwrap();
    assert_eq!(parsed["event_seq"], 99);
    assert_eq!(parsed["type"], "pong");
    assert_eq!(parsed["timestamp"], 123);
}

#[test]
fn inject_space_version_adds_field_and_keeps_non_objects() {
    let r = inject_space_version(r#"{"a":1}"#, 7);
    let v: serde_json::Value = serde_json::from_str(&r).unwrap();
    assert_eq!(v["space_version"], 7);
    assert_eq!(inject_space_version("[1, 2]", 7), "[1,2]");
    assert_eq!(inject_space_version("{oops", 7), "{oops");
}

#[test]
fn idempotency_replays_within_ttl_and_forgets_after() {
    let mut c = IdempotencyCache::new();
    c.store_idempotency_at("k".to_string(), "resp".to_string(), 1_000);
    assert_eq!(c.check_idempotency_at("k", 1_000 + 299_999), Some("resp".to_string()));
    assert_eq!(c.check_idempotency_at("k", 1_000 + 300_000), None);
    assert_eq!(c.check_idempotency_at("k", 1_000), None);
    assert_eq!(c.check_idempotency_at("missing", 0), None);
}

#[test]
fn idempotency_with_the_clock() {
    let mut c = IdempotencyCache::new();
    c.store_idempotency("key".to_string(), "first".to_string());
    assert_eq!(c.check_idempotency("key"), Some("first".to_string()));
    c.store_idempotency("key".to_string(), "second".to_string());
    assert_eq!(c.check_idempotency("key"), Some("second".to_string()));
}

#[test]
fn idempotency_key_length_limit() {
    assert!(check_idempotency_key(&"k".repeat(MAX_IDEMPOTENCY_KEY_LEN)).is_ok());
    let e = check_idempotency_key(&"k".repeat(MAX_IDEMPOTENCY_KEY_LEN + 1)).unwrap_err();
    assert_eq!(e.code, "PAYLOAD_TOO_LARGE");
    assert_eq!(e.message, "idempotency_key exceeds 128 bytes");
}

#[test]
fn content_size_limit_counts_bytes() {
    assert!(check_content_size(&"x".repeat(MAX_CONTENT_LEN)).is_ok());
    let e = check_content_size(&"x".repeat(MAX_CONTENT_LEN + 1)).unwrap_err();
    assert_eq!(e.code, "PAYLOAD_TOO_LARGE");
    assert_eq!(e.message, "message content exceeds 32768 bytes (got 32769)");
    // Four bytes per character.
    assert!(check_content_size(&"\u{1F600}".repeat(8193)).is_err());
}

#[test]
fn connection_limit() {
    assert!(check_connection_limit(4, 5).is_ok());
    let e = check_connection_limit(5, 5).unwrap_err();
    assert_eq!(e.code, "TOO_MANY_CONNECTIONS");
    assert_eq!(e.message, "Max 5 concurrent connections per agent");
}

fn provider(name: &str) -> RegisterRequest {
    RegisterRequest {
        agent_type: AgentType::Provider,
        name: name.to_string(),
        metadata: "{}".to_string(),
        public_key: None,
        organization: None,
        callback_url: None,
    }
}

#[test]
fn websocket_authorization() {
    let mut reg = AgentRegistry::new();
    let a = reg.register(provider("p"), None).unwrap();
    let b = reg.register(provider("q"), None).unwrap();

    let none = WsAuthQuery { token: None };
    let rej = authorize_ws(&reg, &none, &a.id).err().unwrap();
    assert_eq!((rej.status, rej.message.as_str()), (401, "API key token is required"));
    let empty = WsAuthQuery { token: Some(String::new()) };
    let rej = authorize_ws(&reg, &empty, &a.id).err().unwrap();
    assert_eq!((rej.status, rej.message.as_str()), (401, "API key token is required"));
    let wrong = WsAuthQuery { token: Some("gag_nope".to_string()) };
    let rej = authorize_ws(&reg, &wrong, &a.id).err().unwrap();
    assert_eq!((rej.status, rej.message.as_str()), (401, "Invalid API key"));
    let other = WsAuthQuery { token: Some(b.api_key.clone()) };
    let rej = authorize_ws(&reg, &other, &a.id).err().unwrap();
    assert_eq!((rej.status, rej.message.as_str()), (403, "Token does not match agent_id"));
    let good = WsAuthQuery { token: Some(a.api_key.clone()) };
    assert_eq!(authorize_ws(&reg, &good, &a.id).unwrap().id, a.id);
}
