//! Properties of contract execution that span several operations.

use vstd::prelude::*;
use crate::execution::store::{
    all_accepted, contract_with_id, drafts_of, exec_wf, has_contract, new_milestones, ov, reviewed,
    submittable, submitted, with_contract_status, ContractRecord, MilestoneRecord,
};
use crate::execution::types::{ContractStatus, CreateContractRequest, MilestoneStatus};

verus! {

/// A milestone moves forward one step at a time: a submitted milestone can
/// be reviewed but not submitted again, and a rejected one can be submitted
/// again; an accepted one can be neither submitted nor reviewed.
pub proof fn law_milestone_lifecycle(m: MilestoneRecord, url: Seq<char>, now: i64)
    requires
        submittable(m.status),
    ensures
        submitted(m, url, now).status == MilestoneStatus::Submitted,
        !submittable(submitted(m, url, now).status),
        submittable(reviewed(submitted(m, url, now), false, now).status),
        !submittable(reviewed(submitted(m, url, now), true, now).status),
        reviewed(submitted(m, url, now), true, now).status != MilestoneStatus::Submitted,
        reviewed(submitted(m, url, now), false, now).status != MilestoneStatus::Submitted,
{
}

/// Reviewing a milestone keeps its identity, its contract and its
/// deliverable; only an acceptance records an acceptance time.
pub proof fn law_review_keeps_identity(m: MilestoneRecord, accepted: bool, now: i64)
    ensures
        reviewed(m, accepted, now).id == m.id,
        reviewed(m, accepted, now).contract_id == m.contract_id,
        reviewed(m, accepted, now).deliverable_url == m.deliverable_url,
        reviewed(m, accepted, now).submitted_at == m.submitted_at,
        (reviewed(m, accepted, now).accepted_at is Some) == accepted,
{
}

/// Accepting the last milestone of a contract that is not yet accepted makes
/// every milestone of that contract accepted, and so completes the contract;
/// while another milestone of the contract is unaccepted, an acceptance does
/// not complete it.
pub proof fn law_last_acceptance_completes_contract(
    ms: Seq<MilestoneRecord>,
    k: int,
    now: i64,
)
    requires
        0 <= k < ms.len(),
        ms[k].status == MilestoneStatus::Submitted,
    ensures
        all_accepted(ms.update(k, reviewed(ms[k], true, now)), ms[k].contract_id) <==> (forall|j: int|
            0 <= j < ms.len() && j != k && ms[j].contract_id == ms[k].contract_id ==> #[trigger] ms[j].status
                == MilestoneStatus::Accepted),
{
    let ms2 = ms.update(k, reviewed(ms[k], true, now));
    let cid = ms[k].contract_id;
    if forall|j: int|
        0 <= j < ms.len() && j != k && ms[j].contract_id == cid ==> #[trigger] ms[j].status
            == MilestoneStatus::Accepted {
        assert forall|j: int| 0 <= j < ms2.len() && ms2[j].contract_id == cid implies #[trigger] ms2[j].status
            == MilestoneStatus::Accepted by {
            if j != k {
                assert(ms2[j] == ms[j]);
            }
        }
    } else {
        let j = choose|j: int|
            0 <= j < ms.len() && j != k && ms[j].contract_id == cid && #[trigger] ms[j].status
                != MilestoneStatus::Accepted;
        assert(ms2[j] == ms[j]);
        assert(ms2[j].status != MilestoneStatus::Accepted);
    }
}

/// Setting the status of an existing contract changes that contract's status
/// and last update and nothing else: every other contract is as it was.
pub proof fn law_status_change_touches_one_contract(
    cs: Seq<ContractRecord>,
    ms: Seq<MilestoneRecord>,
    cid: Seq<char>,
    status: ContractStatus,
    now: i64,
)
    requires
        exec_wf(cs, ms),
        has_contract(cs, cid),
    ensures
        has_contract(with_contract_status(cs, cid, status, now), cid),
        contract_with_id(with_contract_status(cs, cid, status, now), cid) == (ContractRecord {
            status,
            updated_at: now,
            ..contract_with_id(cs, cid)
        }),
        forall|i: int|
            0 <= i < cs.len() && cs[i].id != cid ==> #[trigger] with_contract_status(cs, cid, status, now)[i]
                == cs[i],
        with_contract_status(cs, cid, status, now).len() == cs.len(),
{
    let cs2 = with_contract_status(cs, cid, status, now);
    let q = choose|q: int| 0 <= q < cs.len() && cs[q].id == cid;
    assert(cs2[q].id == cid);
    let k2 = choose|k2: int| 0 <= k2 < cs2.len() && cs2[k2].id == cid;
    if k2 != q {
        assert(cs2[k2].id == cs[k2].id);
        if k2 < q {
            assert(cs[k2].id != cs[q].id);
        } else {
            assert(cs[q].id != cs[k2].id);
        }
    }
}


/// A created contract's milestones are its request's milestones, in order:
/// the `i`-th new milestone (as `create_contract_with` returns it and as the
/// contract's milestones read back) has the `i`-th requested title,
/// description, amount and due date, belongs to the new contract, bears the
/// `i`-th id, and starts pending, with nothing delivered, submitted or
/// accepted, created and updated at the time of creation.
pub proof fn law_created_milestones_follow_request(
    mids: Seq<Seq<char>>,
    cid: Seq<char>,
    req: CreateContractRequest,
    now: i64,
)
    requires
        mids.len() == req.milestones@.len(),
    ensures
        ({
            let nm = new_milestones(mids, cid, drafts_of(req), now);
            &&& nm.len() == req.milestones@.len()
            &&& forall|i: int|
                0 <= i < nm.len() ==> {
                    let m = #[trigger] nm[i];
                    let q = req.milestones@[i];
                    &&& m.title == q.title@
                    &&& m.description == ov(q.description)
                    &&& m.amount_bits == q.amount_bits
                    &&& m.due_date == q.due_date
                    &&& m.id == mids[i]
                    &&& m.contract_id == cid
                    &&& m.status == MilestoneStatus::Pending
                    &&& m.deliverable_url is None
                    &&& m.submitted_at is None
                    &&& m.accepted_at is None
                    &&& m.created_at == now
                    &&& m.updated_at == now
                }
        }),
{
}

} // verus!
