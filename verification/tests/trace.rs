use gaggle::api::trace::{ActionCategory, AuditAction, TraceStats, TraceStore};

fn count_of(pairs: &[(String, i64)], key: &str) -> i64 {
    pairs.iter().find(|(k, _)| k == key).map(|(_, v)| *v).unwrap_or(0)
}

fn json_field(details: &str, key: &str) -> serde_json::Value {
    let v: serde_json::Value = serde_json::from_str(details).unwrap();
    v[key].clone()
}

#[test]
fn test_log_and_query_trace() {
    let mut store = TraceStore::new();

    store
        .log_action(
            "space_1",
            "agent_a",
            AuditAction::MessageSent,
            Some("message"),
            Some("msg_001"),
            Some(r#"{"content":"hello"}"#),
        )
        .unwrap();

    store
        .log_action(
            "space_1",
            "agent_b",
            AuditAction::StateSet,
            Some("state_key"),
            Some("price"),
            Some(r#"{"key":"price","value":"100","old_value":null}"#),
        )
        .unwrap();

    store
        .log_action(
            "space_1",
            "agent_a",
            AuditAction::ProposalSubmitted,
            Some("proposal"),
            Some("prop_001"),
            None,
        )
        .unwrap();

    let entries = store.query_trace("space_1", 10, None, None).unwrap();
    assert_eq!(entries.len(), 3);
    assert_eq!(entries[0].action, "proposal_submitted");
    assert_eq!(entries[1].action, "state_set");
    assert_eq!(entries[2].action, "message_sent");

    let state_entries = store.query_trace("space_1", 10, None, Some("state_set")).unwrap();
    assert_eq!(state_entries.len(), 1);
    assert_eq!(state_entries[0].agent_id, "agent_b");

    let page = store.query_trace("space_1", 10, Some(entries[1].id), None).unwrap();
    assert_eq!(page.len(), 1);
    assert_eq!(page[0].action, "message_sent");
}

#[test]
fn test_query_empty_space() {
    let store = TraceStore::new();
    let entries = store.query_trace("nonexistent", 10, None, None).unwrap();
    assert!(entries.is_empty());
}

#[test]
fn test_details_json_preserved() {
    let mut store = TraceStore::new();

    let details =
        r#"{"key":"price","value":"100","old_value":"80","version_before":3,"version_after":4}"#.to_string();

    store
        .log_action("s1", "a1", AuditAction::StateSet, Some("state_key"), Some("price"), Some(&details))
        .unwrap();

    let entries = store.query_trace("s1", 10, None, None).unwrap();
    assert_eq!(entries.len(), 1);
    assert_eq!(json_field(entries[0].details.as_ref().unwrap(), "version_before"), 3);
    assert_eq!(json_field(entries[0].details.as_ref().unwrap(), "version_after"), 4);
}

#[test]
fn test_log_action_ex_with_correlation() {
    let mut store = TraceStore::new();

    let corr_id = "corr-001";
    store
        .log_action_ex(
            "s1",
            "agent_a",
            AuditAction::RuleCheckDenied,
            Some("state_key"),
            Some("price"),
            Some(r#"{"role":"observer","reason":"no_write_state"}"#),
            Some(corr_id),
            Some(5),
        )
        .unwrap();

    store
        .log_action_ex(
            "s1",
            "agent_a",
            AuditAction::StateSet,
            Some("state_key"),
            Some("price"),
            Some(r#"{"value":"200"}"#),
            Some(corr_id),
            Some(6),
        )
        .unwrap();

    let entries = store.query_trace("s1", 10, None, None).unwrap();
    assert_eq!(entries.len(), 2);
    assert_eq!(entries[0].correlation_id.as_deref(), Some(corr_id));
    assert_eq!(entries[0].state_version, Some(6));
    assert_eq!(entries[1].correlation_id.as_deref(), Some(corr_id));
    assert_eq!(entries[1].state_version, Some(5));
}

#[test]
fn test_agent_filter() {
    let mut store = TraceStore::new();

    store.log_action("s1", "agent_a", AuditAction::MessageSent, None, None, None).unwrap();
    store.log_action("s1", "agent_b", AuditAction::MessageSent, None, None, None).unwrap();
    store.log_action("s1", "agent_a", AuditAction::ProposalSubmitted, None, None, None).unwrap();

    let a_entries = store.query_trace_ex("s1", 10, None, None, Some("agent_a")).unwrap();
    assert_eq!(a_entries.len(), 2);
    assert!(a_entries.iter().all(|e| e.agent_id == "agent_a"));

    let b_entries = store.query_trace_ex("s1", 10, None, None, Some("agent_b")).unwrap();
    assert_eq!(b_entries.len(), 1);
    assert_eq!(b_entries[0].agent_id, "agent_b");
}

#[test]
fn test_trace_stats() {
    let mut store = TraceStore::new();

    store.log_action("s1", "a1", AuditAction::MessageSent, None, None, None).unwrap();
    store.log_action("s1", "a1", AuditAction::MessageSent, None, None, None).unwrap();
    store.log_action("s1", "a1", AuditAction::StateSet, None, None, None).unwrap();
    store.log_action("s1", "a1", AuditAction::RulesUpdated, None, None, None).unwrap();

    let stats: TraceStats = store.trace_stats("s1").unwrap();
    assert_eq!(stats.total, 4);
    assert_eq!(count_of(&stats.by_action, "message_sent"), 2);
    assert_eq!(count_of(&stats.by_action, "state_set"), 1);
    assert_eq!(count_of(&stats.by_category, "negotiation"), 2);
    assert_eq!(count_of(&stats.by_category, "state"), 1);
    assert_eq!(count_of(&stats.by_category, "institution"), 1);
}

#[test]
fn test_action_category() {
    assert_eq!(AuditAction::MessageSent.category(), ActionCategory::Negotiation);
    assert_eq!(AuditAction::StateSet.category(), ActionCategory::State);
    assert_eq!(AuditAction::ContractCreated.category(), ActionCategory::Execution);
    assert_eq!(AuditAction::RulesUpdated.category(), ActionCategory::Institution);
    assert_eq!(AuditAction::RuleCheckDenied.category(), ActionCategory::Security);
    assert_eq!(AuditAction::ChainVerified.category(), ActionCategory::Security);
}

#[test]
fn action_names_read_back() {
    assert_eq!(AuditAction::from_str("message_sent"), Some(AuditAction::MessageSent));
    assert_eq!(AuditAction::from_str(AuditAction::ContractCreated.as_str()), Some(AuditAction::ContractCreated));
    assert_eq!(AuditAction::from_str("no_such_action"), None);
    assert_eq!(ActionCategory::Security.as_str(), "security");
}

#[test]
fn limit_keeps_the_most_recent() {
    let mut store = TraceStore::new();
    for _ in 0..5 {
        store.log_action("s", "a", AuditAction::MessageSent, None, None, None).unwrap();
    }
    let latest = store.query_trace("s", 2, None, None).unwrap();
    assert_eq!(latest.len(), 2);
    assert!(latest[0].id > latest[1].id);
    let other = store.query_trace("other", 10, None, None).unwrap();
    assert!(other.is_empty());
}
