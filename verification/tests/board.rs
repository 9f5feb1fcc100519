use gaggle::api::event_queue::QueuedEvent;
use gaggle::api::scheduler::{housekeeping_due, plan_retries};
use gaggle::api::ws::{check_online, resume_reply};
use gaggle::discovery::needs::NeedBoard;
use gaggle::discovery::profiles::{ProviderDirectory, ProviderSearchQuery, UpdateProfileRequest};
use gaggle::discovery::types::{
    AvailabilityStatus, NeedSearchQuery, NeedStatus, PricingModel, ProviderCapabilities, PublishNeedRequest,
};
use gaggle::error::GaggleError;

fn need_request(title: &str) -> PublishNeedRequest {
    PublishNeedRequest {
        title: title.to_string(),
        description: "moving boxes".to_string(),
        category: "logistics".to_string(),
        required_skills: vec!["trucks".to_string()],
        budget_min_bits: Some(100.0f64.to_bits()),
        budget_max_bits: None,
        deadline: None,
    }
}

fn profile_request(name: &str) -> UpdateProfileRequest {
    UpdateProfileRequest {
        display_name: name.to_string(),
        description: None,
        skills: vec!["rust".to_string()],
        capabilities: ProviderCapabilities { category: "software".to_string(), tags: vec![] },
        pricing_model: PricingModel::Negotiated,
        availability_status: AvailabilityStatus::Available,
        min_price_bits: None,
        max_price_bits: None,
    }
}

fn event(id: i64, agent: &str, seq: i64) -> QueuedEvent {
    QueuedEvent {
        id,
        agent_id: agent.to_string(),
        event_type: "tick".to_string(),
        payload: "{}".to_string(),
        event_seq: seq,
        created_at: 0,
        retry_count: 1,
        next_retry_at: Some(5),
        is_dead_letter: false,
    }
}

#[test]
fn published_need_is_open_and_found() {
    let mut board = NeedBoard::new();
    let n = board.publish_need_with("c1", need_request("Move"), "n1".to_string(), 1000).unwrap();
    assert_eq!(n.status, NeedStatus::Open);
    assert_eq!((n.created_at, n.updated_at, n.matched_provider_count), (1000, 1000, 0));
    assert_eq!(n.creator_id, "c1");
    let got = board.get_need("n1").unwrap().unwrap();
    assert_eq!(got.title, "Move");
    assert_eq!(got.required_skills, vec!["trucks".to_string()]);
    assert!(board.get_need("missing").unwrap().is_none());
}

#[test]
fn taken_need_id_is_refused() {
    let mut board = NeedBoard::new();
    board.publish_need_with("c1", need_request("A"), "n1".to_string(), 1).unwrap();
    let r = board.publish_need_with("c2", need_request("B"), "n1".to_string(), 2);
    assert!(matches!(r, Err(GaggleError::DatabaseError(_))));
    assert_eq!(board.get_need("n1").unwrap().unwrap().title, "A");
}

#[test]
fn random_need_ids_differ() {
    let mut board = NeedBoard::new();
    let a = board.publish_need("c1", need_request("A")).unwrap();
    let b = board.publish_need("c1", need_request("B")).unwrap();
    assert_ne!(a.id, b.id);
    assert_eq!(a.id.len(), 36);
}

#[test]
fn my_needs_are_newest_first() {
    let mut board = NeedBoard::new();
    board.publish_need_with("c1", need_request("old"), "n1".to_string(), 10).unwrap();
    board.publish_need_with("c2", need_request("other"), "n2".to_string(), 20).unwrap();
    board.publish_need_with("c1", need_request("new"), "n3".to_string(), 30).unwrap();
    let mine = board.get_my_needs("c1").unwrap();
    let titles: Vec<&str> = mine.iter().map(|n| n.title.as_str()).collect();
    assert_eq!(titles, vec!["new", "old"]);
    assert!(board.get_my_needs("nobody").unwrap().is_empty());
}

#[test]
fn status_and_matched_count_updates() {
    let mut board = NeedBoard::new();
    board.publish_need_with("c1", need_request("A"), "n1".to_string(), 10).unwrap();
    assert_eq!(board.update_need_status_at("n1", NeedStatus::Matched, 50).unwrap(), true);
    assert_eq!(board.update_need_status_at("zz", NeedStatus::Matched, 50).unwrap(), false);
    let n = board.get_need("n1").unwrap().unwrap();
    assert_eq!((n.status, n.updated_at, n.created_at), (NeedStatus::Matched, 50, 10));
    board.update_matched_count("n1", 4).unwrap();
    assert_eq!(board.get_need("n1").unwrap().unwrap().matched_provider_count, 4);
    board.update_matched_count("zz", 4).unwrap();
}

#[test]
fn needs_listed_by_status_and_paged() {
    let mut board = NeedBoard::new();
    for (i, id) in ["a", "b", "c"].iter().enumerate() {
        board.publish_need_with("c1", need_request(id), id.to_string(), (i as i64 + 1) * 100).unwrap();
    }
    board.update_need_status_at("b", NeedStatus::Expired, 999).unwrap();
    let open = board.list_needs("open", None, None).unwrap();
    assert_eq!((open.total, open.page, open.page_size, open.total_pages), (2, 1, 20, 1));
    let ids: Vec<&str> = open.items.iter().map(|n| n.id.as_str()).collect();
    assert_eq!(ids, vec!["c", "a"]);
    let second = board.list_needs("open", Some(2), Some(1)).unwrap();
    assert_eq!((second.total, second.page, second.page_size, second.total_pages), (2, 2, 1, 2));
    assert_eq!(second.items[0].id, "a");
    let beyond = board.list_needs("open", Some(9), Some(1)).unwrap();
    assert!(beyond.items.is_empty());
    assert_eq!(board.list_needs("expired", None, None).unwrap().total, 1);
}

#[test]
fn only_the_creator_cancels_a_need() {
    let mut board = NeedBoard::new();
    board.publish_need_with("c1", need_request("A"), "n1".to_string(), 10).unwrap();
    assert!(matches!(board.cancel_need_for("c1", "zz"), Err(GaggleError::NotFound(_))));
    assert!(matches!(board.cancel_need_for("c2", "n1"), Err(GaggleError::Forbidden(_))));
    assert_eq!(board.get_need("n1").unwrap().unwrap().status, NeedStatus::Open);
    board.cancel_need_for("c1", "n1").unwrap();
    assert_eq!(board.get_need("n1").unwrap().unwrap().status, NeedStatus::Cancelled);
}

#[test]
fn upsert_replaces_a_profile() {
    let mut dir = ProviderDirectory::new();
    let p = dir.upsert_profile_at("p1", profile_request("First"), 100).unwrap();
    assert_eq!((p.agent_id.as_str(), p.display_name.as_str(), p.updated_at), ("p1", "First", 100));
    dir.upsert_profile_at("p1", profile_request("Second"), 200).unwrap();
    let all = dir.list_all().unwrap();
    assert_eq!(all.len(), 1);
    assert_eq!(all[0].display_name, "Second");
    assert_eq!(all[0].updated_at, 200);
}

#[test]
fn profiles_listed_most_recent_first() {
    let mut dir = ProviderDirectory::new();
    dir.upsert_profile_at("p1", profile_request("One"), 100).unwrap();
    dir.upsert_profile_at("p2", profile_request("Two"), 300).unwrap();
    dir.upsert_profile_at("p3", profile_request("Three"), 200).unwrap();
    let names: Vec<String> = dir.list_all().unwrap().into_iter().map(|p| p.display_name).collect();
    assert_eq!(names, vec!["Two", "Three", "One"]);
}

#[test]
fn profile_get_and_delete() {
    let mut dir = ProviderDirectory::new();
    dir.upsert_profile("p1", profile_request("One")).unwrap();
    let got = dir.get_profile("p1").unwrap().unwrap();
    assert_eq!(got.skills, vec!["rust".to_string()]);
    assert_eq!(got.availability_status, AvailabilityStatus::Available);
    assert!(dir.get_profile("p2").unwrap().is_none());
    assert_eq!(dir.delete_profile("p1").unwrap(), true);
    assert_eq!(dir.delete_profile("p1").unwrap(), false);
    assert!(dir.get_profile("p1").unwrap().is_none());
}

#[test]
fn retries_split_by_presence() {
    let groups = vec![
        ("a1".to_string(), vec![event(1, "a1", 1), event(2, "a1", 2)]),
        ("a2".to_string(), vec![event(3, "a2", 1)]),
        ("a3".to_string(), vec![event(4, "a3", 7)]),
    ];
    let online = vec!["a3".to_string(), "a1".to_string()];
    let plan = plan_retries(&groups, &online);
    let ids: Vec<i64> = plan.redeliver.iter().map(|e| e.id).collect();
    assert_eq!(ids, vec![1, 2, 4]);
    assert_eq!(plan.redeliver[2].event_seq, 7);
    assert_eq!(plan.reset, vec![3]);
    let nobody = plan_retries(&groups, &vec![]);
    assert!(nobody.redeliver.is_empty());
    assert_eq!(nobody.reset, vec![1, 2, 3, 4]);
}

#[test]
fn housekeeping_every_sixth_round() {
    let due: Vec<u64> = (0..14).filter(|c| housekeeping_due(*c)).collect();
    assert_eq!(due, vec![0, 6, 12]);
}

#[test]
fn online_check_answers_in_order() {
    let asked = vec!["a".to_string(), "b".to_string(), "a".to_string()];
    let online = vec!["a".to_string()];
    let r = check_online(&asked, &online).unwrap();
    assert_eq!(r, vec![("a".to_string(), true), ("b".to_string(), false), ("a".to_string(), true)]);
    let too_many: Vec<String> = (0..101).map(|i| i.to_string()).collect();
    assert!(matches!(check_online(&too_many, &online), Err(GaggleError::ValidationError(_))));
    let exactly: Vec<String> = (0..100).map(|i| i.to_string()).collect();
    assert_eq!(check_online(&exactly, &online).unwrap().len(), 100);
}

#[test]
fn resume_reports_last_replayed_sequence() {
    assert_eq!(resume_reply(&vec![], 5), (0, 5));
    assert_eq!(resume_reply(&vec![event(1, "a", 6), event(2, "a", 9)], 5), (2, 9));
}

fn search(category: Option<&str>, text: Option<&str>, status: Option<&str>) -> NeedSearchQuery {
    NeedSearchQuery {
        category: category.map(|c| c.to_string()),
        skills: None,
        query: text.map(|t| t.to_string()),
        status: status.map(|s| s.to_string()),
        page: None,
        page_size: None,
    }
}

#[test]
fn need_search_uses_index_matches_or_status() {
    let mut board = NeedBoard::new();
    board.publish_need_with("c1", need_request("a"), "a".to_string(), 100).unwrap();
    board.publish_need_with("c1", need_request("b"), "b".to_string(), 200).unwrap();
    board.publish_need_with("c1", need_request("c"), "c".to_string(), 300).unwrap();
    board.update_need_status_at("c", NeedStatus::Cancelled, 400).unwrap();
    let hits = vec!["a".to_string(), "c".to_string(), "zz".to_string()];
    let found = board.search_needs(&search(Some("logistics"), None, None), &hits).unwrap();
    let ids: Vec<&str> = found.items.iter().map(|n| n.id.as_str()).collect();
    assert_eq!(ids, vec!["a"]);
    assert_eq!(found.total, 1);
    let plain = board.search_needs(&search(None, Some(""), None), &hits).unwrap();
    let ids: Vec<&str> = plain.items.iter().map(|n| n.id.as_str()).collect();
    assert_eq!(ids, vec!["b", "a"]);
    let cancelled = board.search_needs(&search(None, None, Some("cancelled")), &vec![]).unwrap();
    assert_eq!(cancelled.items[0].id, "c");
}

fn provider_query(skills: Option<&str>, text: Option<&str>, availability: Option<&str>) -> ProviderSearchQuery {
    ProviderSearchQuery {
        query: text.map(|t| t.to_string()),
        skills: skills.map(|t| t.to_string()),
        min_price_bits: None,
        max_price_bits: None,
        category: None,
        availability: availability.map(|t| t.to_string()),
        sort_by: None,
        page: None,
        page_size: None,
    }
}

fn names(v: Vec<gaggle::discovery::profiles::DiscoveryProfile>) -> Vec<String> {
    v.into_iter().map(|p| p.display_name).collect()
}

#[test]
fn profile_search_by_index_matches_and_availability() {
    let mut dir = ProviderDirectory::new();
    dir.upsert_profile_at("p1", profile_request("One"), 100).unwrap();
    let mut busy = profile_request("Two");
    busy.availability_status = AvailabilityStatus::Busy;
    dir.upsert_profile_at("p2", busy, 300).unwrap();
    dir.upsert_profile_at("p3", profile_request("Three"), 200).unwrap();
    let hits = vec!["p1".to_string(), "p2".to_string()];
    let r = dir.search_profiles(&provider_query(Some("rust"), None, None), &hits).unwrap();
    assert_eq!((r.total, r.page, r.page_size, r.total_pages), (2, 1, 20, 1));
    assert_eq!(names(r.items), vec!["Two", "One"]);
    let r = dir.search_profiles(&provider_query(Some("rust"), None, Some("available")), &hits).unwrap();
    assert_eq!(names(r.items), vec!["One"]);
    let r = dir.search_profiles(&provider_query(None, Some(""), None), &hits).unwrap();
    assert_eq!(names(r.items), vec!["Two", "Three", "One"]);
    let r = dir.search_profiles(&provider_query(None, None, Some("busy")), &vec![]).unwrap();
    assert_eq!(names(r.items), vec!["Two"]);
}

fn priced(name: &str, min: Option<f64>, max: Option<f64>) -> UpdateProfileRequest {
    let mut r = profile_request(name);
    r.capabilities.category = "logistics".to_string();
    r.min_price_bits = min.map(f64::to_bits);
    r.max_price_bits = max.map(f64::to_bits);
    r
}

#[test]
fn profile_search_pages_sorts_and_bounds_prices() {
    let mut dir = ProviderDirectory::new();
    dir.upsert_profile_at("a", priced("A", Some(50.0), Some(80.0)), 10).unwrap();
    dir.upsert_profile_at("b", priced("B", Some(10.0), Some(20.0)), 20).unwrap();
    dir.upsert_profile_at("c", priced("C", None, None), 30).unwrap();
    dir.upsert_profile_at("d", priced("D", Some(-5.0), Some(30.0)), 40).unwrap();
    let mut q = provider_query(None, None, None);
    q.sort_by = Some("price_asc".to_string());
    assert_eq!(names(dir.search_profiles(&q, &vec![]).unwrap().items), vec!["D", "B", "A", "C"]);
    q.sort_by = Some("price_desc".to_string());
    assert_eq!(names(dir.search_profiles(&q, &vec![]).unwrap().items), vec!["A", "B", "D", "C"]);
    q.sort_by = Some("updated".to_string());
    q.page = Some(2);
    q.page_size = Some(3);
    let r = dir.search_profiles(&q, &vec![]).unwrap();
    assert_eq!((r.total, r.page, r.page_size, r.total_pages), (4, 2, 3, 2));
    assert_eq!(names(r.items), vec!["A"]);
    let mut bounded = provider_query(None, None, None);
    bounded.min_price_bits = Some(25.0f64.to_bits());
    bounded.max_price_bits = Some(60.0f64.to_bits());
    assert_eq!(names(dir.search_profiles(&bounded, &vec![]).unwrap().items), vec!["D", "C", "A"]);
}

#[test]
fn providers_for_a_need_skip_offline_and_over_budget() {
    let mut dir = ProviderDirectory::new();
    dir.upsert_profile_at("a", priced("A", Some(50.0), Some(80.0)), 10).unwrap();
    let mut off = priced("B", Some(10.0), Some(20.0));
    off.availability_status = AvailabilityStatus::Offline;
    dir.upsert_profile_at("b", off, 20).unwrap();
    dir.upsert_profile_at("c", priced("C", Some(200.0), None), 30).unwrap();
    dir.upsert_profile_at("d", priced("D", None, None), 40).unwrap();
    let mut elsewhere = priced("E", Some(50.0), Some(80.0));
    elsewhere.capabilities.category = "logistics-software".to_string();
    dir.upsert_profile_at("e", elsewhere, 50).unwrap();
    let mut board = NeedBoard::new();
    let mut req = need_request("n");
    req.budget_min_bits = Some(40.0f64.to_bits());
    req.budget_max_bits = Some(100.0f64.to_bits());
    let need = board.publish_need_with("c1", req, "n1".to_string(), 1).unwrap();
    let hits = vec!["a".to_string(), "b".to_string(), "c".to_string(), "e".to_string()];
    assert_eq!(names(dir.find_matching_providers(&need, &hits).unwrap()), vec!["A"]);
}
