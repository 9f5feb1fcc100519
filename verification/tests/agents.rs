use gaggle::agents::auth::{api_key_auth, extract_agent, extract_any_auth, extract_bearer, verify_agent_ownership};
use gaggle::agents::registry::AgentRegistry;
use gaggle::agents::secret::hash_secret;
use gaggle::agents::types::{AgentType, ProviderPricing, RegisterRequest, UpdateAgentRequest};
use gaggle::error::GaggleError;

fn request(kind: AgentType, name: &str) -> RegisterRequest {
    RegisterRequest {
        agent_type: kind,
        name: name.to_string(),
        metadata: r#"{"v":1}"#.to_string(),
        public_key: None,
        organization: Some("acme".to_string()),
        callback_url: None,
    }
}

#[test]
fn secret_hash_is_sha256_hex() {
    assert_eq!(hash_secret("abc"), "ba7816bf8f01cfea414140de5dae2223b00361a396177a9cb410ff61f20015ad");
    assert_eq!(hash_secret(""), "e3b0c44298fc1c149afbf4c8996fb92427ae41e4649b934ca495991b7852b855");
}

#[test]
fn registration_hands_out_keys_and_stores_the_digest() {
    let mut reg = AgentRegistry::new();
    let r = reg.register(request(AgentType::Consumer, "buyer"), Some("u1".to_string())).unwrap();
    assert!(r.api_key.starts_with("gag_") && r.api_key.len() == 36);
    assert!(r.api_secret.starts_with("gas_") && r.api_secret.len() == 36);
    assert_eq!(r.id.len(), 36);
    assert_eq!(r.organization.as_deref(), Some("acme"));
    let a = reg.get_by_api_key(&r.api_key).unwrap().unwrap();
    assert_eq!(a.id, r.id);
    assert_eq!(a.api_secret_hash, hash_secret(&r.api_secret));
    assert_eq!(a.user_id.as_deref(), Some("u1"));
    assert_eq!(reg.count().unwrap(), 1);
}

#[test]
fn same_owner_same_name_returns_the_existing_agent_without_secret() {
    let mut reg = AgentRegistry::new();
    let first = reg.register(request(AgentType::Consumer, "bot"), Some("u1".to_string())).unwrap();
    let again = reg.register(request(AgentType::Consumer, "bot"), Some("u1".to_string())).unwrap();
    assert_eq!(again.id, first.id);
    assert_eq!(again.api_key, first.api_key);
    assert_eq!(again.api_secret, "");
    assert_eq!(reg.count().unwrap(), 1);
    // Another owner, or no owner, registers a new agent.
    let other = reg.register(request(AgentType::Consumer, "bot"), Some("u2".to_string())).unwrap();
    assert_ne!(other.id, first.id);
    let legacy = reg.register(request(AgentType::Consumer, "bot"), None).unwrap();
    assert_ne!(legacy.id, first.id);
    assert_eq!(reg.count().unwrap(), 3);
}

#[test]
fn register_with_given_ids_refuses_taken_ones() {
    let mut reg = AgentRegistry::new();
    let ok = reg.register_with(
        request(AgentType::Provider, "p"),
        None,
        "id1".to_string(),
        "gag_k1".to_string(),
        "gas_s1".to_string(),
        100,
    );
    assert_eq!(ok.unwrap().created_at, 100);
    let dup_id = reg.register_with(
        request(AgentType::Provider, "q"),
        None,
        "id1".to_string(),
        "gag_k2".to_string(),
        "gas_s2".to_string(),
        101,
    );
    assert!(matches!(dup_id, Err(GaggleError::DatabaseError(_))));
    let dup_key = reg.register_with(
        request(AgentType::Provider, "q"),
        None,
        "id2".to_string(),
        "gag_k1".to_string(),
        "gas_s2".to_string(),
        101,
    );
    assert!(matches!(dup_key, Err(GaggleError::DatabaseError(_))));
    let profile = reg.get_provider_profile("id1").unwrap().unwrap();
    assert!(matches!(profile.pricing_model, ProviderPricing::Negotiated));
    assert!(profile.team.is_empty() && profile.skills.is_empty());
    assert!(reg.get_provider_profile("id2").unwrap().is_none());
}

#[test]
fn listing_is_newest_first_and_skips_disabled() {
    let mut reg = AgentRegistry::new();
    for (i, t) in [(1, 10), (2, 30), (3, 20)] {
        reg.register_with(
            request(AgentType::Consumer, &format!("a{i}")),
            Some("u".to_string()),
            format!("id{i}"),
            format!("gag_{i}"),
            format!("gas_{i}"),
            t,
        )
        .unwrap();
    }
    let ids: Vec<String> = reg.list_agents().unwrap().into_iter().map(|a| a.id).collect();
    assert_eq!(ids, vec!["id2", "id3", "id1"]);
    let d = reg.disable_at("id3", 50).unwrap();
    assert_eq!(d.disabled_at, Some(50));
    let ids: Vec<String> = reg.list_user_agents("u").unwrap().into_iter().map(|a| a.id).collect();
    assert_eq!(ids, vec!["id2", "id1"]);
    assert!(reg.list_user_agents("nobody").unwrap().is_empty());
    assert_eq!(reg.count().unwrap(), 3);
}

#[test]
fn disable_errors() {
    let mut reg = AgentRegistry::new();
    assert!(matches!(reg.disable("missing"), Err(GaggleError::NotFound(_))));
    let r = reg.register(request(AgentType::Consumer, "x"), None).unwrap();
    assert!(reg.disable(&r.id).is_ok());
    assert!(matches!(reg.disable(&r.id), Err(GaggleError::ValidationError(_))));
}

#[test]
fn update_replaces_given_fields_only() {
    let mut reg = AgentRegistry::new();
    let r = reg.register(request(AgentType::Consumer, "x"), None).unwrap();
    let upd = UpdateAgentRequest {
        name: Some("y".to_string()),
        metadata: None,
        organization: None,
        callback_url: Some("https://example.com/cb".to_string()),
    };
    let a = reg.update(&r.id, &upd).unwrap();
    assert_eq!(a.name, "y");
    assert_eq!(a.metadata, r#"{"v":1}"#);
    assert_eq!(a.organization.as_deref(), Some("acme"));
    assert_eq!(a.callback_url.as_deref(), Some("https://example.com/cb"));
    assert!(matches!(reg.update("missing", &upd), Err(GaggleError::NotFound(_))));
    reg.disable(&r.id).unwrap();
    assert!(matches!(reg.update(&r.id, &upd), Err(GaggleError::ValidationError(_))));
}

#[test]
fn bearer_and_agent_extraction() {
    let mut reg = AgentRegistry::new();
    let r = reg.register(request(AgentType::Consumer, "x"), None).unwrap();
    let header = format!("Bearer {}", r.api_key);
    assert_eq!(extract_bearer(Some(&header)).unwrap(), r.api_key);
    assert!(matches!(extract_bearer(Some("Basic abc")), Err(GaggleError::Unauthorized(_))));
    assert!(matches!(extract_bearer(None), Err(GaggleError::Unauthorized(_))));
    assert_eq!(extract_agent(&reg, Some(&header)).unwrap().id, r.id);
    assert!(matches!(extract_agent(&reg, Some("Bearer usr_abc")), Err(GaggleError::Unauthorized(_))));
    assert!(matches!(extract_agent(&reg, Some("Bearer gag_unknown")), Err(GaggleError::Unauthorized(_))));
    assert_eq!(extract_any_auth(&reg, Some(&header), false).unwrap(), r.api_key);
    assert_eq!(extract_any_auth(&reg, Some("Bearer usr_1"), true).unwrap(), "usr_1");
    assert!(extract_any_auth(&reg, Some("Bearer usr_1"), false).is_err());
    assert!(extract_any_auth(&reg, Some("Bearer xyz"), true).is_err());
}

#[test]
fn middleware_strips_repeated_bearer_prefixes() {
    let mut reg = AgentRegistry::new();
    let r = reg.register(request(AgentType::Consumer, "x"), None).unwrap();
    let header = format!("Bearer Bearer {}", r.api_key);
    assert_eq!(api_key_auth(&reg, Some(&header)).unwrap().id, r.id);
    assert!(matches!(api_key_auth(&reg, Some(&r.api_key)), Err(GaggleError::Unauthorized(_))));
    assert!(matches!(api_key_auth(&reg, Some("Bearer gag_x")), Err(GaggleError::Unauthorized(_))));
}

#[test]
fn ownership_rules() {
    let mut reg = AgentRegistry::new();
    let mine = reg.register(request(AgentType::Consumer, "mine"), Some("u1".to_string())).unwrap();
    let other = reg.register(request(AgentType::Consumer, "other"), Some("u2".to_string())).unwrap();
    let own_key = format!("Bearer {}", mine.api_key);
    let other_key = format!("Bearer {}", other.api_key);
    assert_eq!(verify_agent_ownership(&reg, Some(&own_key), &mine.id, None).unwrap().id, mine.id);
    assert!(matches!(verify_agent_ownership(&reg, Some(&other_key), &mine.id, None), Err(GaggleError::Forbidden(_))));
    assert!(verify_agent_ownership(&reg, Some("Bearer usr_a"), &mine.id, Some("u1")).is_ok());
    assert!(matches!(
        verify_agent_ownership(&reg, Some("Bearer usr_a"), &mine.id, Some("u2")),
        Err(GaggleError::Forbidden(_))
    ));
    assert!(matches!(
        verify_agent_ownership(&reg, Some("Bearer usr_a"), &mine.id, None),
        Err(GaggleError::Unauthorized(_))
    ));
    assert!(matches!(verify_agent_ownership(&reg, Some(&own_key), "nope", None), Err(GaggleError::NotFound(_))));
    assert!(matches!(verify_agent_ownership(&reg, None, &mine.id, None), Err(GaggleError::Unauthorized(_))));
    reg.disable(&mine.id).unwrap();
    assert!(matches!(
        verify_agent_ownership(&reg, Some(&own_key), &mine.id, None),
        Err(GaggleError::ValidationError(_))
    ));
}
