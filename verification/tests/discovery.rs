use gaggle::discovery::query::{
    availability_matches, escape_fts5, need_match_query, need_providers_query, page_offset, page_params, paginate,
    provider_match_query, skill_terms_of, total_pages,
};
use gaggle::discovery::types::{AvailabilityStatus, NeedStatus, PricingModel};

#[test]
fn escape_fts5_escapes_query_syntax() {
    assert_eq!(escape_fts5("a-b"), "a\\-b");
    assert_eq!(escape_fts5("\"x\" (y)"), "\\\"x\\\" \\(y\\)");
    assert_eq!(escape_fts5("plain text"), "plain text");
    assert_eq!(escape_fts5(""), "");
}

#[test]
fn provider_queries() {
    assert_eq!(provider_match_query(None, None, None), None);
    assert_eq!(provider_match_query(None, None, Some("")), None);
    assert_eq!(
        provider_match_query(Some(" rust , go,, "), None, None).as_deref(),
        Some("skills:rust OR go")
    );
    assert_eq!(
        provider_match_query(Some("rust"), Some("software_dev"), Some("fast-api")).as_deref(),
        Some("skills:rust OR category:software_dev OR fast\\-api")
    );
    assert_eq!(provider_match_query(Some(", ,"), None, None).as_deref(), Some(""));
}

#[test]
fn need_queries() {
    assert_eq!(need_match_query(None, None, None), None);
    assert_eq!(
        need_match_query(Some("finance"), Some("a,b"), Some("x")).as_deref(),
        Some("category:finance OR a OR b OR x")
    );
}

#[test]
fn providers_for_a_need() {
    assert_eq!(need_providers_query("logistics", &vec![]), "category:logistics");
    assert_eq!(
        need_providers_query("logistics", &vec!["cold-chain".to_string(), "trucks".to_string()]),
        "category:logistics AND skills:(cold\\-chain OR trucks)"
    );
}

#[test]
fn skill_terms() {
    assert_eq!(skill_terms_of(" a ,b,, c "), vec!["a", "b", "c"]);
    assert!(skill_terms_of("").is_empty());
}

#[test]
fn availability_filter_matches_json_text() {
    assert!(availability_matches(AvailabilityStatus::Available, "available"));
    assert!(availability_matches(AvailabilityStatus::Available, "avail"));
    assert!(availability_matches(AvailabilityStatus::Busy, "\"busy\""));
    assert!(!availability_matches(AvailabilityStatus::Offline, "available"));
    assert!(availability_matches(AvailabilityStatus::Unknown, ""));
}

#[test]
fn paging() {
    assert_eq!(page_params(None, None), (1, 20));
    assert_eq!(page_params(Some(0), Some(0)), (1, 1));
    assert_eq!(page_params(Some(3), Some(500)), (3, 100));
    assert_eq!(page_offset(3, 20), 40);
    assert_eq!(total_pages(0, 20), 0);
    assert_eq!(total_pages(41, 20), 3);
    let p = paginate(vec![1, 2], 41, 3, 20);
    assert_eq!(p.items, vec![1, 2]);
    assert_eq!((p.total, p.page, p.page_size, p.total_pages), (41, 3, 20, 3));
}

#[test]
fn need_status_names() {
    assert_eq!(NeedStatus::Open.as_str(), "open");
    assert_eq!(NeedStatus::Cancelled.as_str(), "cancelled");
    assert_eq!(NeedStatus::read("matched"), NeedStatus::Matched);
    assert_eq!(NeedStatus::read("whatever"), NeedStatus::Open);
    assert_eq!(NeedStatus::read(NeedStatus::Expired.as_str()), NeedStatus::Expired);
}

#[test]
fn defaults() {
    assert!(matches!(PricingModel::default(), PricingModel::Unknown));
    assert_eq!(AvailabilityStatus::default(), AvailabilityStatus::Unknown);
    assert_eq!(AvailabilityStatus::Busy.name(), "busy");
}
