use gaggle::agents::registry::AgentRegistry;
use gaggle::agents::types::{AgentType, RegisterRequest};
use gaggle::api::health::health_report;
use gaggle::api::openclaw::{check_connect, connected, handshake_failed, parse_msg_type, MessageType, OpenClawOutgoing};
use gaggle::api::rest::rest_agents::{
    agent_status, check_agent_limit, get_agent_public, registration_client_ip, ConnectionStamp, IpRegistrationLimiter,
    IP_REG_WINDOW_MILLIS,
};
use gaggle::api::rest::rest_institution::{
    dead_letter_limit, default_cleanup_days, default_limit, default_recruit_role, listing_limit_of,
    retry_dead_letter_reply, ListDeadLettersQuery,
};
use gaggle::api::rest::rest_market::{EvidenceResponse, SIMULATED_SLOT};
use gaggle::api::rest::rest_spaces::{check_need_to_rfp, rfp_name, MessagesQuery};
use gaggle::discovery::types::{Need, NeedStatus};
use gaggle::error::GaggleError;

#[test]
fn registration_limit_per_address_per_hour() {
    let mut l = IpRegistrationLimiter::new();
    for i in 0..5 {
        assert!(l.check_ip_reg_limit_at("1.2.3.4", 1_000 + i).is_ok());
    }
    match l.check_ip_reg_limit_at("1.2.3.4", 2_000) {
        Err(GaggleError::ValidationError(m)) => {
            assert_eq!(m, "Registration rate limit exceeded for this IP (max 5/hour)")
        }
        other => panic!("expected refusal, got {:?}", other),
    }
    assert!(l.check_ip_reg_limit_at("5.6.7.8", 2_000).is_ok());
    // Once the hour has passed, counting starts over.
    assert!(l.check_ip_reg_limit_at("1.2.3.4", 1_000 + IP_REG_WINDOW_MILLIS + 1).is_ok());
    assert!(l.check_ip_reg_limit("9.9.9.9").is_ok());
}

#[test]
fn registration_address_and_agent_limit() {
    assert_eq!(registration_client_ip(Some(" 10.0.0.9 , 1.1.1.1")), "10.0.0.9");
    assert_eq!(registration_client_ip(None), "unknown");
    assert!(check_agent_limit(9, 10).is_ok());
    match check_agent_limit(10, 10) {
        Err(GaggleError::Forbidden(m)) => assert_eq!(m, "Agent limit reached (max 10)"),
        other => panic!("unexpected {:?}", other),
    }
}

fn consumer(name: &str) -> RegisterRequest {
    RegisterRequest {
        agent_type: AgentType::Consumer,
        name: name.to_string(),
        metadata: "{}".to_string(),
        public_key: Some("pk".to_string()),
        organization: None,
        callback_url: Some("https://secret.example/cb".to_string()),
    }
}

#[test]
fn public_agent_view() {
    let mut reg = AgentRegistry::new();
    let r = reg.register(consumer("c"), None).unwrap();
    let p = get_agent_public(&reg, &r.id, true).unwrap();
    assert_eq!(p.id, r.id);
    assert_eq!(p.name, "c");
    assert_eq!(p.public_key.as_deref(), Some("pk"));
    assert!(p.online);
    reg.disable(&r.id).unwrap();
    assert!(matches!(get_agent_public(&reg, &r.id, false), Err(GaggleError::NotFound(_))));
    assert!(matches!(get_agent_public(&reg, "none", false), Err(GaggleError::NotFound(_))));
}

#[test]
fn openclaw_handshake_and_message_types() {
    let mut reg = AgentRegistry::new();
    let r = reg.register(consumer("c"), None).unwrap();
    assert_eq!(check_connect(&reg, &r.id, &r.api_key).unwrap().id, r.id);
    assert_eq!(check_connect(&reg, &r.id, "gag_x").unwrap_err(), "Invalid api_key");
    assert_eq!(check_connect(&reg, "someone", &r.api_key).unwrap_err(), "agent_id does not match api_key");
    let a = reg.get_by_id(&r.id).unwrap().unwrap();
    match connected(&a) {
        OpenClawOutgoing::Connected { agent_id, status } => {
            assert_eq!(agent_id, r.id);
            assert_eq!(status, "ok");
        }
        _ => panic!("expected connected"),
    }
    match handshake_failed("boom".to_string()) {
        OpenClawOutgoing::Error { code, message, space_id } => {
            assert_eq!(code, "HANDSHAKE_FAILED");
            assert_eq!(message, "boom");
            assert!(space_id.is_none());
        }
        _ => panic!("expected error"),
    }
    assert_eq!(parse_msg_type("proposal"), MessageType::Proposal);
    assert_eq!(parse_msg_type("counter_proposal"), MessageType::CounterProposal);
    assert_eq!(parse_msg_type("attachment"), MessageType::Attachment);
    assert_eq!(parse_msg_type("Proposal"), MessageType::Text);
    assert_eq!(parse_msg_type(""), MessageType::Text);
}

#[test]
fn institution_query_defaults() {
    assert_eq!(listing_limit_of(None), 50);
    assert_eq!(listing_limit_of(Some(500)), 200);
    assert_eq!(listing_limit_of(Some(7)), 7);
    assert_eq!(default_limit(), 50);
    assert_eq!(default_cleanup_days(), 7);
    assert_eq!(default_recruit_role(), "participant");
    assert_eq!(dead_letter_limit(&ListDeadLettersQuery { agent_id: None, limit: 1000 }), 200);
    assert_eq!(dead_letter_limit(&ListDeadLettersQuery { agent_id: None, limit: 3 }), 3);
    assert!(retry_dead_letter_reply(true, 5).is_ok());
    match retry_dead_letter_reply(false, -12) {
        Err(GaggleError::NotFound(m)) => assert_eq!(m, "Dead letter event not found: -12"),
        other => panic!("unexpected {:?}", other),
    }
}

#[test]
fn spaces_rules() {
    assert_eq!(MessagesQuery { after: None, limit: None }.effective_limit(), 200);
    assert_eq!(MessagesQuery { after: Some(1), limit: Some(5000) }.effective_limit(), 1000);
    assert_eq!(rfp_name("Solar"), "RFP: Solar");
    let mut need = Need {
        id: "n1".to_string(),
        creator_id: "me".to_string(),
        title: "t".to_string(),
        description: "d".to_string(),
        category: "other".to_string(),
        required_skills: vec![],
        budget_min_bits: None,
        budget_max_bits: None,
        deadline: None,
        status: NeedStatus::Open,
        created_at: 0,
        updated_at: 0,
        matched_provider_count: 0,
    };
    assert!(check_need_to_rfp(Some(&need), "n1", "me").is_ok());
    assert!(matches!(check_need_to_rfp(Some(&need), "n1", "you"), Err(GaggleError::Forbidden(_))));
    assert!(matches!(check_need_to_rfp(None, "n1", "me"), Err(GaggleError::NotFound(_))));
    need.status = NeedStatus::Matched;
    match check_need_to_rfp(Some(&need), "n1", "me") {
        Err(GaggleError::ValidationError(m)) => assert_eq!(m, "Need is not open (status: Matched)"),
        other => panic!("unexpected {:?}", other),
    }
}

#[test]
fn evidence_and_health() {
    let e = EvidenceResponse::simulated_at("sp", "delivery", 1700, 1800);
    assert_eq!(e.tx_signature, "simulated_tx_sp_delivery_1700");
    assert_eq!(e.slot, SIMULATED_SLOT);
    assert_eq!(e.confirmed_at, 1800);
    assert!(EvidenceResponse::simulated("sp", "x").tx_signature.starts_with("simulated_tx_sp_x_"));
    let h = health_report(Some(100), 160, 2, 3, 1);
    assert_eq!(h.status, "ok");
    assert_eq!(h.uptime_seconds, 60);
    assert_eq!((h.spaces_count, h.agents_count, h.online_agents), (2, 3, 1));
    assert_eq!(health_report(None, 160, 0, 0, 0).uptime_seconds, 0);
}

#[test]
fn agent_presence_summarises_connections() {
    let none = agent_status(&vec![]);
    assert!(!none.online);
    assert_eq!((none.connection_count, none.connected_since, none.last_ping), (0, None, None));
    let conns = vec![
        ConnectionStamp { connected_since: 10, last_ping: 50 },
        ConnectionStamp { connected_since: 20, last_ping: 70 },
        ConnectionStamp { connected_since: 30, last_ping: 60 },
    ];
    let s = agent_status(&conns);
    assert!(s.online);
    assert_eq!((s.connection_count, s.connected_since, s.last_ping), (3, Some(10), Some(70)));
}
