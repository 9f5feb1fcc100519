use gaggle::agents::registry::AgentRegistry;
use gaggle::agents::types::{Agent, AgentType, RegisterRequest};
use gaggle::api::delivery::{push_event_at, webhook_next, Delivery, WebhookOutcome, WebhookStep};
use gaggle::api::event_queue::EventQueue;
use gaggle::api::middleware::RateLimitState;
use gaggle::api::rest::rest_spaces::{contract_from_terms, TermsMilestone};
use gaggle::api::session::ConnectionTable;
use gaggle::api::webhook::{check_url_parts, UrlParts};
use gaggle::api::ws::IdempotencyCache;
use gaggle::api::ws_core::{ws_step, WsCore, WsReply, WsRequest};
use gaggle::discovery::needs::NeedBoard;
use gaggle::discovery::profiles::{ProviderDirectory, UpdateProfileRequest};
use gaggle::discovery::types::{
    AvailabilityStatus, NeedSearchQuery, NeedStatus, PricingModel, ProviderCapabilities, PublishNeedRequest,
};
use gaggle::error::GaggleError;
use gaggle::execution::store::ExecutionStore;
use gaggle::execution::types::{CreateContractRequest, CreateMilestoneRequest};

fn agent(id: &str) -> Agent {
    Agent {
        id: id.to_string(),
        agent_type: AgentType::Consumer,
        name: id.to_string(),
        api_key: format!("gag_{}", id),
        api_secret_hash: String::new(),
        public_key: None,
        metadata: "{}".to_string(),
        created_at: 0,
        user_id: None,
        disabled_at: None,
        organization: None,
        callback_url: None,
    }
}

fn fresh_core() -> WsCore {
    WsCore {
        queue: EventQueue::new(),
        needs: NeedBoard::new(),
        conns: ConnectionTable::new(),
        profiles: ProviderDirectory::new(),
    }
}

fn need_req() -> PublishNeedRequest {
    PublishNeedRequest {
        title: "Ship".to_string(),
        description: "ship goods".to_string(),
        category: "logistics".to_string(),
        required_skills: vec![],
        budget_min_bits: None,
        budget_max_bits: Some(100.0f64.to_bits()),
        deadline: None,
    }
}

fn provider(min: f64) -> UpdateProfileRequest {
    UpdateProfileRequest {
        display_name: "p".to_string(),
        description: None,
        skills: vec![],
        capabilities: ProviderCapabilities { category: "logistics".to_string(), tags: vec![] },
        pricing_model: PricingModel::Negotiated,
        availability_status: AvailabilityStatus::Available,
        min_price_bits: Some(min.to_bits()),
        max_price_bits: None,
    }
}

#[test]
fn ping_and_ack_and_resume() {
    let mut c = fresh_core();
    let a = agent("a");
    match ws_step(&mut c, &a, WsRequest::Ping { request_id: Some("r1".to_string()), timestamp: Some(5) }, 77) {
        WsReply::Pong { request_id, timestamp, server_time } => {
            assert_eq!((request_id.as_deref(), timestamp, server_time), (Some("r1"), Some(5), 77));
        }
        other => panic!("unexpected {:?}", other),
    }
    c.queue.enqueue_at("a", "t", "{}", 0).unwrap();
    c.queue.enqueue_at("a", "t", "{}", 0).unwrap();
    match ws_step(&mut c, &a, WsRequest::Resume { last_event_seq: None }, 10) {
        WsReply::Replay { events, replayed_count, last_event_seq } => {
            assert_eq!((events.len(), replayed_count, last_event_seq), (2, 2, 2));
        }
        other => panic!("unexpected {:?}", other),
    }
    assert!(matches!(ws_step(&mut c, &a, WsRequest::EventAck { event_seq: 1 }, 20), WsReply::Silent));
    match ws_step(&mut c, &a, WsRequest::Resume { last_event_seq: Some(0) }, 30) {
        WsReply::Replay { events, replayed_count, last_event_seq } => {
            assert_eq!((events[0].event_seq, replayed_count, last_event_seq), (2, 1, 2));
        }
        other => panic!("unexpected {:?}", other),
    }
    match ws_step(&mut c, &a, WsRequest::Resume { last_event_seq: Some(9) }, 30) {
        WsReply::Replay { replayed_count, last_event_seq, .. } => assert_eq!((replayed_count, last_event_seq), (0, 9)),
        other => panic!("unexpected {:?}", other),
    }
}

#[test]
fn online_check_through_the_protocol() {
    let mut c = fresh_core();
    c.conns.connect("b", 1, 0, 5).unwrap();
    let a = agent("a");
    let req = WsRequest::CheckOnline { request_id: None, agent_ids: vec!["b".to_string(), "c".to_string()] };
    match ws_step(&mut c, &a, req, 0) {
        WsReply::OnlineStatus { statuses, .. } => {
            assert_eq!(statuses, vec![("b".to_string(), true), ("c".to_string(), false)]);
        }
        other => panic!("unexpected {:?}", other),
    }
    let many: Vec<String> = (0..101).map(|i| i.to_string()).collect();
    let req = WsRequest::CheckOnline { request_id: None, agent_ids: many };
    assert!(matches!(ws_step(&mut c, &a, req, 0), WsReply::Failed(GaggleError::ValidationError(_))));
}

#[test]
fn needs_through_the_protocol() {
    let mut c = fresh_core();
    c.profiles.upsert_profile_at("p1", provider(40.0), 1).unwrap();
    c.profiles.upsert_profile_at("p2", provider(400.0), 2).unwrap();
    let a = agent("a");
    let req = WsRequest::PublishNeed {
        request_id: Some("r".to_string()),
        request: need_req(),
        fts_matches: vec!["p1".to_string(), "p2".to_string()],
    };
    let need_id = match ws_step(&mut c, &a, req, 0) {
        WsReply::NeedPublished { request_id, need, providers } => {
            assert_eq!(request_id.as_deref(), Some("r"));
            assert_eq!(providers, vec!["p1".to_string()]);
            assert_eq!(need.matched_provider_count, 1);
            assert_eq!(need.creator_id, "a");
            need.id
        }
        other => panic!("unexpected {:?}", other),
    };
    assert_eq!(c.needs.get_need(&need_id).unwrap().unwrap().matched_provider_count, 1);
    let list = WsRequest::ListNeeds {
        request_id: None,
        query: NeedSearchQuery { category: None, skills: None, query: None, status: None, page: None, page_size: None },
        fts_matches: vec![],
    };
    match ws_step(&mut c, &a, list, 0) {
        WsReply::NeedsList { page, .. } => assert_eq!(page.total, 1),
        other => panic!("unexpected {:?}", other),
    }
    let b = agent("b");
    let cancel = WsRequest::CancelNeed { request_id: None, need_id: need_id.clone() };
    assert!(matches!(ws_step(&mut c, &b, cancel, 0), WsReply::Failed(GaggleError::Forbidden(_))));
    let cancel = WsRequest::CancelNeed { request_id: None, need_id: "nope".to_string() };
    assert!(matches!(ws_step(&mut c, &a, cancel, 0), WsReply::Failed(GaggleError::NotFound(_))));
    let cancel = WsRequest::CancelNeed { request_id: Some("x".to_string()), need_id: need_id.clone() };
    assert!(matches!(ws_step(&mut c, &a, cancel, 0), WsReply::NeedCancelled { .. }));
    assert_eq!(c.needs.get_need(&need_id).unwrap().unwrap().status, NeedStatus::Cancelled);
}

fn entry(title: Option<&str>, amount: Option<f64>) -> TermsMilestone {
    TermsMilestone {
        title: title.map(|t| t.to_string()),
        description: None,
        amount_bits: amount.map(f64::to_bits),
        due_date: Some(9),
    }
}

#[test]
fn concluded_space_with_milestones_calls_for_a_contract() {
    let terms = Some(vec![entry(Some("design"), Some(10.0)), entry(None, None), entry(Some("build"), None)]);
    let req = contract_from_terms("concluded", &terms).unwrap();
    let titles: Vec<&str> = req.milestones.iter().map(|m| m.title.as_str()).collect();
    assert_eq!(titles, vec!["design", "build"]);
    assert_eq!(req.milestones[0].amount_bits, Some(10.0f64.to_bits()));
    assert_eq!(req.milestones[1].due_date, Some(9));
    assert!(contract_from_terms("cancelled", &terms).is_none());
    assert!(contract_from_terms("concluded", &None).is_none());
    assert!(contract_from_terms("concluded", &Some(vec![entry(None, Some(1.0))])).is_none());
}

#[test]
fn contract_ids_have_their_prefixes() {
    let mut store = ExecutionStore::new();
    let req = CreateContractRequest {
        milestones: vec![CreateMilestoneRequest {
            title: "m".to_string(),
            description: None,
            amount_bits: None,
            due_date: None,
        }],
    };
    let c = store.create_contract("s1", "b", "s", "{}", &req, None).unwrap();
    let hex = |s: &str| s.len() == 32 && s.chars().all(|c| c.is_ascii_digit() || ('a'..='f').contains(&c));
    assert!(c.id.starts_with("ctr_") && hex(&c.id[4..]));
    assert!(c.milestones[0].id.starts_with("mst_") && hex(&c.milestones[0].id[4..]));
}

#[test]
fn parsed_url_parts_decide_the_callback() {
    let parts = |scheme: &str, host: Option<&str>, ip: Option<Vec<u16>>| UrlParts {
        scheme: scheme.to_string(),
        host: host.map(|h| h.to_string()),
        ip,
    };
    assert!(check_url_parts(&parts("https", Some("example.com"), None)).is_ok());
    assert_eq!(check_url_parts(&parts("ftp", Some("example.com"), None)), Err("unsupported scheme: ftp".to_string()));
    assert_eq!(check_url_parts(&parts("http", None, None)), Err("URL must have a host".to_string()));
    assert!(check_url_parts(&parts("http", Some("10.1.2.3"), Some(vec![10, 1, 2, 3]))).is_err());
    assert!(check_url_parts(&parts("http", Some("[::1]"), Some(vec![0, 0, 0, 0, 0, 0, 0, 1]))).is_err());
}

#[test]
fn refused_address_stays_refused_whatever_others_do() {
    let mut s = RateLimitState::new();
    assert!(s.check_and_update_at("a", 1, 2, 0).is_ok());
    let first = s.check_and_update_at("a", 1, 2, 100).unwrap_err();
    assert_eq!(first, 2);
    assert!(s.check_and_update_at("b", 1, 2, 500).is_ok());
    let second = s.check_and_update_at("a", 1, 2, 1500).unwrap_err();
    assert_eq!(second, 1);
    assert!(s.check_and_update_at("b", 1, 2, 1600).is_err());
    assert!(s.check_and_update_at("a", 1, 2, 2000).is_ok());
}

#[test]
fn cached_response_survives_other_requests() {
    let mut c = IdempotencyCache::new();
    c.store_idempotency_at("k".to_string(), "first".to_string(), 0);
    for i in 0..250u64 {
        c.store_idempotency_at(format!("other{}", i), "x".to_string(), 1_000 + i);
        assert_eq!(c.check_idempotency_at(&format!("other{}", i), 1_000 + i), Some("x".to_string()));
    }
    assert_eq!(c.check_idempotency_at("k", 299_999), Some("first".to_string()));
    assert_eq!(c.check_idempotency_at("k", 300_000), None);
    assert_eq!(c.check_idempotency_at("k", 1), None);
}

#[test]
fn pushed_events_go_to_connections_or_wake_the_agent() {
    let mut queue = EventQueue::new();
    let mut conns = ConnectionTable::new();
    let mut reg = AgentRegistry::new();
    let woken = reg
        .register(
            RegisterRequest {
                agent_type: AgentType::Consumer,
                name: "w".to_string(),
                metadata: "{}".to_string(),
                public_key: None,
                organization: None,
                callback_url: Some("https://example.com/hook".to_string()),
            },
            None,
        )
        .unwrap();
    conns.connect("live", 7, 0, 5).unwrap();
    let (seq, d) = push_event_at(&mut queue, &conns, &reg, "live", "tick", "{\"a\":1}", 10).unwrap();
    assert_eq!(seq, 1);
    match d {
        Delivery::Connections { conn_ids, message } => {
            assert_eq!(conn_ids, vec![7]);
            assert_eq!(message, "{\"a\":1,\"event_seq\":1}");
        }
        other => panic!("unexpected {:?}", other),
    }
    match push_event_at(&mut queue, &conns, &reg, &woken.id, "tick", "{}", 10).unwrap() {
        (1, Delivery::Wake { callback_url }) => assert_eq!(callback_url, "https://example.com/hook"),
        other => panic!("unexpected {:?}", other),
    }
    assert!(matches!(push_event_at(&mut queue, &conns, &reg, "ghost", "tick", "{}", 10).unwrap(), (1, Delivery::Held)));
    assert_eq!(queue.get_pending("live", 0).unwrap().len(), 1);
}

#[test]
fn wake_up_calls_are_tried_three_times() {
    assert_eq!(webhook_next(0, WebhookOutcome::Delivered), WebhookStep::Done);
    assert_eq!(webhook_next(0, WebhookOutcome::Failed), WebhookStep::RetryAfter(500));
    assert_eq!(webhook_next(1, WebhookOutcome::Failed), WebhookStep::RetryAfter(1000));
    assert_eq!(webhook_next(2, WebhookOutcome::Failed), WebhookStep::GiveUp);
}
