use gaggle::api::rest::rest_institution::{
    accept_milestone_for, create_contract_for, dispute_contract_for, get_agent_contracts_for, get_contract_for,
    submit_milestone_for,
};
use gaggle::error::GaggleError;
use gaggle::execution::store::ExecutionStore;
use gaggle::execution::types::{ContractStatus, CreateContractRequest, CreateMilestoneRequest, MilestoneStatus};

fn two_milestones() -> CreateContractRequest {
    CreateContractRequest {
        milestones: vec![
            CreateMilestoneRequest {
                title: "design".to_string(),
                description: None,
                amount_bits: Some(100.0f64.to_bits()),
                due_date: None,
            },
            CreateMilestoneRequest {
                title: "build".to_string(),
                description: Some("the thing".to_string()),
                amount_bits: None,
                due_date: Some(5),
            },
        ],
    }
}

#[test]
fn status_names_round_trip() {
    for s in [
        ContractStatus::Active,
        ContractStatus::Completed,
        ContractStatus::Disputed,
        ContractStatus::Cancelled,
        ContractStatus::Expired,
    ] {
        assert_eq!(ContractStatus::from_str(s.as_str()), Some(s));
    }
    for s in [
        MilestoneStatus::Pending,
        MilestoneStatus::Submitted,
        MilestoneStatus::Accepted,
        MilestoneStatus::Rejected,
        MilestoneStatus::Disputed,
    ] {
        assert_eq!(MilestoneStatus::from_str(s.as_str()), Some(s));
    }
    assert_eq!(ContractStatus::from_str("nope"), None);
    assert_eq!(MilestoneStatus::from_str(""), None);
}

#[test]
fn contract_lifecycle_completes_after_all_acceptances() {
    let mut store = ExecutionStore::new();
    let (c, announced) =
        create_contract_for(&mut store, "buyer", "space1", Some("buyer"), Some("seller"), &two_milestones()).unwrap();
    assert_eq!(announced.milestone_count, 2);
    assert_eq!(announced.contract_id, c.id);
    assert!(c.id.starts_with("ctr_") && c.id.len() == 36);
    assert_eq!(c.terms, "{}");
    assert_eq!(c.status, ContractStatus::Active);
    assert_eq!(c.milestones.len(), 2);
    assert!(c.milestones.iter().all(|m| m.status == MilestoneStatus::Pending));
    let m1 = c.milestones[0].id.clone();
    let m2 = c.milestones[1].id.clone();

    // Only the seller submits, only the buyer accepts.
    assert!(matches!(
        submit_milestone_for(&mut store, "buyer", &c.id, &m1, "https://x"),
        Err(GaggleError::Forbidden(_))
    ));
    let (sub, p) = submit_milestone_for(&mut store, "seller", &c.id, &m1, "https://x").unwrap();
    assert_eq!(sub.status, MilestoneStatus::Submitted);
    assert_eq!(p.deliverable_url, "https://x");
    assert_eq!(p.milestone_title, "design");
    assert!(matches!(
        accept_milestone_for(&mut store, "seller", &c.id, &m1, true),
        Err(GaggleError::Forbidden(_))
    ));
    let (acc, ap, done) = accept_milestone_for(&mut store, "buyer", &c.id, &m1, true).unwrap();
    assert_eq!(acc.status, MilestoneStatus::Accepted);
    assert!(ap.accepted && acc.accepted_at.is_some());
    assert!(!done);

    // A rejected milestone can be submitted again.
    submit_milestone_for(&mut store, "seller", &c.id, &m2, "v1").unwrap();
    let (rej, rp, done) = accept_milestone_for(&mut store, "buyer", &c.id, &m2, false).unwrap();
    assert_eq!(rej.status, MilestoneStatus::Rejected);
    assert_eq!(rp.accepted_at, 0);
    assert!(!done);
    submit_milestone_for(&mut store, "seller", &c.id, &m2, "v2").unwrap();
    let (_, _, done) = accept_milestone_for(&mut store, "buyer", &c.id, &m2, true).unwrap();
    assert!(done);
    assert_eq!(get_contract_for(&store, "seller", &c.id).unwrap().status, ContractStatus::Completed);
}

#[test]
fn milestone_state_errors() {
    let mut store = ExecutionStore::new();
    let c = store.create_contract("s", "b", "v", "{}", &two_milestones(), None).unwrap();
    let m = c.milestones[0].id.clone();
    assert!(matches!(store.accept_milestone(&m, true), Err(GaggleError::ValidationError(_))));
    store.submit_milestone(&m, "u").unwrap();
    assert!(matches!(store.submit_milestone(&m, "u"), Err(GaggleError::ValidationError(_))));
    assert!(matches!(store.submit_milestone("mst_missing", "u"), Err(GaggleError::NotFound(_))));
    assert!(matches!(store.accept_milestone("mst_missing", true), Err(GaggleError::NotFound(_))));
    store.accept_milestone(&m, true).unwrap();
    assert!(matches!(store.submit_milestone(&m, "u"), Err(GaggleError::ValidationError(_))));
}

#[test]
fn one_contract_per_space_and_party_checks() {
    let mut store = ExecutionStore::new();
    assert!(matches!(
        create_contract_for(&mut store, "stranger", "sp", Some("b"), Some("s"), &two_milestones()),
        Err(GaggleError::Forbidden(_))
    ));
    let (c, _) = create_contract_for(&mut store, "s", "sp", Some("b"), Some("s"), &two_milestones()).unwrap();
    match create_contract_for(&mut store, "b", "sp", Some("b"), Some("s"), &two_milestones()) {
        Err(GaggleError::ValidationError(m)) => {
            assert_eq!(m, format!("Contract already exists for this space: {}", c.id))
        }
        other => panic!("unexpected: {:?}", other.map(|x| x.0.id)),
    }
    assert!(matches!(get_contract_for(&store, "stranger", &c.id), Err(GaggleError::Forbidden(_))));
    assert!(matches!(get_contract_for(&store, "b", "ctr_missing"), Err(GaggleError::NotFound(_))));
    assert_eq!(store.get_contract_by_space("sp").unwrap().unwrap().id, c.id);
    assert!(store.get_contract_by_space("other").unwrap().is_none());
}

#[test]
fn disputes_and_listings() {
    let mut store = ExecutionStore::new();
    let (c, _) = create_contract_for(&mut store, "b", "sp", Some("b"), Some("s"), &two_milestones()).unwrap();
    assert!(matches!(dispute_contract_for(&mut store, "x", &c.id), Err(GaggleError::Forbidden(_))));
    assert!(matches!(dispute_contract_for(&mut store, "b", "nope"), Err(GaggleError::NotFound(_))));
    let d = dispute_contract_for(&mut store, "s", &c.id).unwrap();
    assert_eq!(d.status, ContractStatus::Disputed);
    assert_eq!(d.milestones.len(), 2);
    assert_eq!(get_agent_contracts_for(&store, "b", "b").unwrap().len(), 1);
    assert_eq!(get_agent_contracts_for(&store, "x", "x").unwrap().len(), 0);
    assert!(matches!(get_agent_contracts_for(&store, "b", "s"), Err(GaggleError::Forbidden(_))));
    assert_eq!(store.get_milestones(&c.id).unwrap().len(), 2);
}

#[test]
fn agent_contracts_most_recently_updated_first() {
    let mut store = ExecutionStore::new();
    let req = CreateContractRequest { milestones: vec![] };
    let a = store
        .create_contract_with("s1", "b", "v", "{}", &req, None, 10, "ctr_a".to_string(), vec![])
        .unwrap();
    let b = store
        .create_contract_with("s2", "b", "w", "{}", &req, None, 20, "ctr_b".to_string(), vec![])
        .unwrap();
    let listed: Vec<String> = store.get_agent_contracts("b").unwrap().into_iter().map(|c| c.id).collect();
    assert_eq!(listed, vec![b.id.clone(), a.id.clone()]);
    store.dispute_contract_at("ctr_a", 30).unwrap();
    let listed: Vec<String> = store.get_agent_contracts("b").unwrap().into_iter().map(|c| c.id).collect();
    assert_eq!(listed, vec![a.id, b.id]);
    assert!(matches!(
        store.create_contract_with("s3", "b", "v", "{}", &req, None, 40, "ctr_a".to_string(), vec![]),
        Err(GaggleError::DatabaseError(_))
    ));
}
