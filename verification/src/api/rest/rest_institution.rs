//! The contract endpoints' rules (who may create, read, deliver, accept and
//! dispute), the events they announce, and the queries of the trace and
//! dead-letter endpoints.

use vstd::prelude::*;
use vstd::string::*;
use crate::api::ws::{ContractCreatedPayload, MilestoneAcceptedPayload, MilestoneSubmittedPayload};
use crate::error::GaggleError;
use crate::execution::store::{
    contract_of_space, contract_with_id, has_contract, has_space_contract, ids_cannot_clash, milestone_view,
    ContractRecord, ExecutionStore,
};
use crate::execution::types::{Contract, ContractStatus, CreateContractRequest, Milestone};
use crate::text::{push_signed_decimal, signed_decimal, str_eq};

verus! {

/// The view of an optional string slice.
pub open spec fn party(o: Option<&str>) -> Option<Seq<char>> {
    match o {
        Some(s) => Some(s@),
        None => None,
    }
}

/// Whether `agent` is the buyer or the seller of a space.
pub open spec fn is_space_party(agent: Seq<char>, buyer: Option<Seq<char>>, seller: Option<Seq<char>>) -> bool {
    buyer == Some(agent) || seller == Some(agent)
}

/// Whether `agent` is a party to contract `c`.
pub open spec fn is_contract_party(agent: Seq<char>, c: ContractRecord) -> bool {
    c.buyer_id == agent || c.seller_id == agent
}

/// The announcement of a new contract.
pub open spec fn announces_contract(p: ContractCreatedPayload, c: Contract) -> bool {
    &&& p.contract_id@ == c.id@
    &&& p.buyer_id@ == c.buyer_id@
    &&& p.seller_id@ == c.seller_id@
    &&& p.milestone_count == c.milestones@.len()
}

fn or_empty(o: Option<&str>) -> (r: &str)
    ensures
        r@ == match o {
            Some(s) => s@,
            None => Seq::empty(),
        },
{
    match o {
        Some(s) => s,
        None => {
            proof {
                reveal_strlit("");
            }
            ""
        },
    }
}

/// Creates the contract of space `space_id` for `agent_id`, one of the
/// space's parties, with terms `{}` and no deadline, and announces it. An
/// agent that is neither buyer nor seller is Forbidden; a space that
/// already has a contract is a ValidationError.
pub fn create_contract_for(
    store: &mut ExecutionStore,
    agent_id: &str,
    space_id: &str,
    buyer_id: Option<&str>,
    seller_id: Option<&str>,
    req: &CreateContractRequest,
) -> (r: Result<(Contract, ContractCreatedPayload), GaggleError>)
    requires
        old(store).wf(),
    ensures
        final(store).wf(),
        !is_space_party(agent_id@, party(buyer_id), party(seller_id)) ==> r is Err && r->Err_0 is Forbidden
            && final(store).contracts() == old(store).contracts(),
        is_space_party(agent_id@, party(buyer_id), party(seller_id)) && has_space_contract(
            old(store).contracts(),
            space_id@,
        ) ==> r is Err && r->Err_0 is ValidationError && final(store).contracts() == old(store).contracts(),
        is_space_party(agent_id@, party(buyer_id), party(seller_id)) && !has_space_contract(
            old(store).contracts(),
            space_id@,
        ) && r is Err ==> r->Err_0 is DatabaseError && final(store).contracts() == old(store).contracts(),
        is_space_party(agent_id@, party(buyer_id), party(seller_id)) && !has_space_contract(
            old(store).contracts(),
            space_id@,
        ) && ids_cannot_clash(old(store).contracts(), old(store).milestones(), req.milestones@.len()) ==> r is Ok,
        r is Ok ==> {
            let c = r->Ok_0.0;
            &&& is_space_party(agent_id@, party(buyer_id), party(seller_id))
            &&& !has_space_contract(old(store).contracts(), space_id@)
            &&& final(store).contracts() == old(store).contracts().push(final(store).contracts().last())
            &&& c.space_id@ == space_id@ && c.terms@ == "{}"@ && c.deadline is None
            &&& c.buyer_id@ == (match buyer_id {
                Some(b) => b@,
                None => Seq::empty(),
            })
            &&& c.seller_id@ == (match seller_id {
                Some(s) => s@,
                None => Seq::empty(),
            })
            &&& c.status == ContractStatus::Active
            &&& c.milestones@.len() == req.milestones@.len()
            &&& announces_contract(r->Ok_0.1, c)
        },
{
    let is_buyer = match buyer_id {
        Some(b) => str_eq(b, agent_id),
        None => false,
    };
    let is_seller = match seller_id {
        Some(s) => str_eq(s, agent_id),
        None => false,
    };
    if !is_buyer && !is_seller {
        return Err(GaggleError::Forbidden(String::from_str("Not a member of this space")));
    }
    match store.get_contract_by_space(space_id) {
        Ok(Some(existing)) => {
            let mut m = String::from_str("Contract already exists for this space: ");
            m.append(existing.id.as_str());
            return Err(GaggleError::ValidationError(m));
        },
        _ => {},
    }
    let contract = store.create_contract(space_id, or_empty(buyer_id), or_empty(seller_id), "{}", req, None)?;
    let payload = ContractCreatedPayload {
        contract_id: contract.id.clone(),
        buyer_id: contract.buyer_id.clone(),
        seller_id: contract.seller_id.clone(),
        milestone_count: contract.milestones.len(),
    };
    Ok((contract, payload))
}

/// Contract `contract_id`, for one of its parties. A missing contract is
/// NotFound; an agent that is not a party is Forbidden.
pub fn get_contract_for(store: &ExecutionStore, agent_id: &str, contract_id: &str) -> (r: Result<
    Contract,
    GaggleError,
>)
    requires
        store.wf(),
    ensures
        !has_contract(store.contracts(), contract_id@) ==> r is Err && r->Err_0 is NotFound,
        has_contract(store.contracts(), contract_id@) ==> {
            let c = contract_with_id(store.contracts(), contract_id@);
            &&& !is_contract_party(agent_id@, c) ==> r is Err && r->Err_0 is Forbidden
            &&& is_contract_party(agent_id@, c) ==> r is Ok && r->Ok_0.id@ == contract_id@
                && r->Ok_0.status == c.status
        },
{
    let contract = match store.get_contract(contract_id) {
        Ok(Some(c)) => c,
        _ => {
            let mut m = String::from_str("Contract not found: ");
            m.append(contract_id);
            return Err(GaggleError::NotFound(m));
        },
    };
    if !str_eq(contract.buyer_id.as_str(), agent_id) && !str_eq(contract.seller_id.as_str(), agent_id) {
        return Err(GaggleError::Forbidden(String::from_str("Not a party to this contract")));
    }
    Ok(contract)
}

/// The contracts of `agent_id`, for that agent only: any other is Forbidden.
pub fn get_agent_contracts_for(store: &ExecutionStore, agent_id: &str, owner_id: &str) -> (r: Result<
    Vec<Contract>,
    GaggleError,
>)
    requires
        store.wf(),
    ensures
        agent_id@ != owner_id@ ==> r is Err && r->Err_0 is Forbidden,
        agent_id@ == owner_id@ ==> r is Ok,
{
    if !str_eq(agent_id, owner_id) {
        return Err(GaggleError::Forbidden(String::from_str("Can only view own contracts")));
    }
    store.get_agent_contracts(owner_id)
}

/// Submits a milestone's deliverable for the seller of contract
/// `contract_id`, and announces it. A missing contract is NotFound; an
/// agent that is not the seller is Forbidden; then as `submit_milestone`.
pub fn submit_milestone_for(
    store: &mut ExecutionStore,
    agent_id: &str,
    contract_id: &str,
    milestone_id: &str,
    deliverable_url: &str,
) -> (r: Result<(Milestone, MilestoneSubmittedPayload), GaggleError>)
    requires
        old(store).wf(),
    ensures
        final(store).wf(),
        final(store).contracts() == old(store).contracts(),
        !has_contract(old(store).contracts(), contract_id@) ==> r is Err && r->Err_0 is NotFound
            && final(store).milestones() == old(store).milestones(),
        has_contract(old(store).contracts(), contract_id@) && contract_with_id(old(store).contracts(), contract_id@).seller_id
            != agent_id@ ==> r is Err && r->Err_0 is Forbidden && final(store).milestones() == old(store).milestones(),
        r is Ok ==> {
            let m = r->Ok_0.0;
            let p = r->Ok_0.1;
            &&& contract_with_id(old(store).contracts(), contract_id@).seller_id == agent_id@
            &&& m.id@ == milestone_id@
            &&& m.deliverable_url matches Some(u) && u@ == deliverable_url@
            &&& p.milestone_id@ == m.id@ && p.milestone_title@ == m.title@
            &&& p.deliverable_url@ == deliverable_url@
            &&& m.submitted_at matches Some(t) && p.submitted_at == t
        },
{
    let contract = match store.get_contract(contract_id) {
        Ok(Some(c)) => c,
        _ => {
            let mut m = String::from_str("Contract not found: ");
            m.append(contract_id);
            return Err(GaggleError::NotFound(m));
        },
    };
    if !str_eq(contract.seller_id.as_str(), agent_id) {
        return Err(GaggleError::Forbidden(String::from_str("Only the seller can submit milestones")));
    }
    let ghost old_ms = store.milestones();
    let milestone = store.submit_milestone(milestone_id, deliverable_url)?;
    proof {
        let k = crate::execution::store::milestone_pos(old_ms, milestone_id@);
        assert(old_ms[k].id == milestone_id@);
    }
    let url = match &milestone.deliverable_url {
        Some(u) => u.clone(),
        None => String::new(),
    };
    let at = match milestone.submitted_at {
        Some(t) => t,
        None => 0,
    };
    let payload = MilestoneSubmittedPayload {
        milestone_id: milestone.id.clone(),
        milestone_title: milestone.title.clone(),
        deliverable_url: url,
        submitted_at: at,
    };
    Ok((milestone, payload))
}

/// Accepts or rejects a milestone for the buyer of contract `contract_id`,
/// and announces it; the flag tells whether the contract is now completed.
/// A missing contract is NotFound; an agent that is not the buyer is
/// Forbidden; then as `accept_milestone`.
pub fn accept_milestone_for(
    store: &mut ExecutionStore,
    agent_id: &str,
    contract_id: &str,
    milestone_id: &str,
    accepted: bool,
) -> (r: Result<(Milestone, MilestoneAcceptedPayload, bool), GaggleError>)
    requires
        old(store).wf(),
    ensures
        final(store).wf(),
        !has_contract(old(store).contracts(), contract_id@) ==> r is Err && r->Err_0 is NotFound
            && final(store).milestones() == old(store).milestones() && final(store).contracts() == old(
            store,
        ).contracts(),
        has_contract(old(store).contracts(), contract_id@) && contract_with_id(old(store).contracts(), contract_id@).buyer_id
            != agent_id@ ==> r is Err && r->Err_0 is Forbidden && final(store).milestones() == old(store).milestones()
            && final(store).contracts() == old(store).contracts(),
        r is Ok ==> {
            let m = r->Ok_0.0;
            let p = r->Ok_0.1;
            &&& contract_with_id(old(store).contracts(), contract_id@).buyer_id == agent_id@
            &&& m.id@ == milestone_id@
            &&& p.milestone_id@ == m.id@ && p.milestone_title@ == m.title@ && p.accepted == accepted
            &&& p.accepted_at == (match m.accepted_at {
                Some(t) => t,
                None => 0,
            })
            &&& r->Ok_0.2 == (has_contract(final(store).contracts(), contract_id@) && contract_with_id(
                final(store).contracts(),
                contract_id@,
            ).status == ContractStatus::Completed)
        },
{
    let contract = match store.get_contract(contract_id) {
        Ok(Some(c)) => c,
        _ => {
            let mut m = String::from_str("Contract not found: ");
            m.append(contract_id);
            return Err(GaggleError::NotFound(m));
        },
    };
    if !str_eq(contract.buyer_id.as_str(), agent_id) {
        return Err(GaggleError::Forbidden(String::from_str("Only the buyer can accept milestones")));
    }
    let ghost old_ms = store.milestones();
    let milestone = store.accept_milestone(milestone_id, accepted)?;
    proof {
        let k = crate::execution::store::milestone_pos(old_ms, milestone_id@);
        assert(old_ms[k].id == milestone_id@);
    }
    let at = match milestone.accepted_at {
        Some(t) => t,
        None => 0,
    };
    let payload = MilestoneAcceptedPayload {
        milestone_id: milestone.id.clone(),
        milestone_title: milestone.title.clone(),
        accepted,
        accepted_at: at,
    };
    let completed = match store.get_contract(contract_id) {
        Ok(Some(c)) => c.status == ContractStatus::Completed,
        _ => false,
    };
    Ok((milestone, payload, completed))
}

/// Puts contract `contract_id` under dispute for one of its parties. A
/// missing contract is NotFound; an agent that is not a party is Forbidden.
pub fn dispute_contract_for(store: &mut ExecutionStore, agent_id: &str, contract_id: &str) -> (r: Result<
    Contract,
    GaggleError,
>)
    requires
        old(store).wf(),
    ensures
        final(store).wf(),
        final(store).milestones() == old(store).milestones(),
        !has_contract(old(store).contracts(), contract_id@) ==> r is Err && r->Err_0 is NotFound
            && final(store).contracts() == old(store).contracts(),
        has_contract(old(store).contracts(), contract_id@) && !is_contract_party(
            agent_id@,
            contract_with_id(old(store).contracts(), contract_id@),
        ) ==> r is Err && r->Err_0 is Forbidden && final(store).contracts() == old(store).contracts(),
        r is Ok ==> r->Ok_0.id@ == contract_id@ && r->Ok_0.status == ContractStatus::Disputed,
{
    let contract = match store.get_contract(contract_id) {
        Ok(Some(c)) => c,
        _ => {
            let mut m = String::from_str("Contract not found: ");
            m.append(contract_id);
            return Err(GaggleError::NotFound(m));
        },
    };
    if !str_eq(contract.buyer_id.as_str(), agent_id) && !str_eq(contract.seller_id.as_str(), agent_id) {
        return Err(GaggleError::Forbidden(String::from_str("Not a party to this contract")));
    }
    let ghost cs = store.contracts();
    let r = store.dispute_contract(contract_id);
    proof {
        let q = choose|q: int| 0 <= q < cs.len() && cs[q].id == contract_id@;
        assert(contract_with_id(cs, contract_id@).id == contract_id@);
    }
    r
}

/// The query of the state-events endpoint.
pub struct StateEventsQuery {
    pub limit: Option<usize>,
    pub before_version: Option<u64>,
}

/// The query of the trace endpoint.
pub struct TraceQuery {
    pub limit: Option<usize>,
    pub before_id: Option<i64>,
    pub action: Option<String>,
    pub agent: Option<String>,
}

/// The page size of a trace or state-events request: 50 unless asked, at most 200.
pub open spec fn listing_limit(limit: Option<usize>) -> usize {
    match limit {
        Some(l) => if l > 200 {
            200
        } else {
            l
        },
        None => 50,
    }
}

/// The page size of a trace or state-events request; see `listing_limit`.
pub fn listing_limit_of(limit: Option<usize>) -> (r: usize)
    ensures
        r == listing_limit(limit),
{
    match limit {
        Some(l) => if l > 200 { 200 } else { l },
        None => 50,
    }
}

/// The query of the dead-letter listing.
pub struct ListDeadLettersQuery {
    pub agent_id: Option<String>,
    pub limit: u32,
}

/// The number of dead letters listed when the query does not say.
pub fn default_limit() -> (r: u32)
    ensures
        r == 50,
{
    50
}

/// The number of dead letters listed for a query: at most 200.
pub fn dead_letter_limit(query: &ListDeadLettersQuery) -> (r: u32)
    ensures
        r == if query.limit > 200 {
            200
        } else {
            query.limit
        },
{
    if query.limit > 200 {
        200
    } else {
        query.limit
    }
}

/// A request to drop old dead letters.
pub struct CleanupDeadLettersRequest {
    pub older_than_days: i64,
}

/// How old dead letters must be to be dropped when the request does not say.
pub fn default_cleanup_days() -> (r: i64)
    ensures
        r == 7,
{
    7
}

/// The answer to a dead-letter retry: NotFound when no dead letter had that id.
pub fn retry_dead_letter_reply(retried: bool, event_id: i64) -> (r: Result<(), GaggleError>)
    ensures
        retried ==> r is Ok,
        !retried ==> r is Err && r->Err_0 == GaggleError::NotFound(r->Err_0->NotFound_0) && r->Err_0->NotFound_0@
            == "Dead letter event not found: "@ + signed_decimal(event_id as int),
{
    if retried {
        Ok(())
    } else {
        let mut m = String::from_str("Dead letter event not found: ");
        push_signed_decimal(&mut m, event_id);
        Err(GaggleError::NotFound(m))
    }
}

/// A request to close a sub-space.
pub struct RestCloseSubSpaceRequest {
    pub conclusion: String,
}

/// A request to recruit an agent into a space.
pub struct RestCreateRecruitmentRequest {
    pub target_id: String,
    pub role: String,
    pub pitch: String,
}

/// The role a recruit is offered when the request does not say.
pub fn default_recruit_role() -> (r: String)
    ensures
        r@ == "participant"@,
{
    String::from_str("participant")
}

} // verus!
