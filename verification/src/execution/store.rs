//! The execution store: contracts and their milestones, and the rules by
//! which milestones move from pending to submitted to accepted, and a
//! contract to completed.

use vstd::prelude::*;
use vstd::string::*;
use crate::error::GaggleError;
use crate::execution::types::{
    Contract, ContractStatus, CreateContractRequest, CreateMilestoneRequest, Milestone,
    MilestoneStatus,
};
use crate::seqs::{count, keep, lemma_keep_none, lemma_keep_take_step, lemma_take_full};
use crate::sys::{credential_shaped, now_seconds, random_credential, MAX_CLOCK_SECONDS};
use crate::text::str_eq;

verus! {

/// The mathematical view of a contract, without its milestones.
pub struct ContractRecord {
    pub id: Seq<char>,
    pub space_id: Seq<char>,
    pub buyer_id: Seq<char>,
    pub seller_id: Seq<char>,
    pub terms: Seq<char>,
    pub status: ContractStatus,
    pub deadline: Option<i64>,
    pub created_at: i64,
    pub updated_at: i64,
}

/// The mathematical view of a milestone.
pub struct MilestoneRecord {
    pub id: Seq<char>,
    pub contract_id: Seq<char>,
    pub title: Seq<char>,
    pub description: Option<Seq<char>>,
    pub status: MilestoneStatus,
    pub deliverable_url: Option<Seq<char>>,
    pub amount_bits: Option<u64>,
    pub due_date: Option<i64>,
    pub submitted_at: Option<i64>,
    pub accepted_at: Option<i64>,
    pub created_at: i64,
    pub updated_at: i64,
}

/// The view of an optional string.
pub open spec fn ov(o: Option<String>) -> Option<Seq<char>> {
    match o {
        Some(s) => Some(s@),
        None => None,
    }
}

fn oclone(o: &Option<String>) -> (r: Option<String>)
    ensures
        ov(r) == ov(*o),
{
    match o {
        Some(s) => Some(s.clone()),
        None => None,
    }
}

struct ContractRow {
    id: String,
    space_id: String,
    buyer_id: String,
    seller_id: String,
    terms: String,
    status: ContractStatus,
    deadline: Option<i64>,
    created_at: i64,
    updated_at: i64,
}

impl ContractRow {
    spec fn view(&self) -> ContractRecord {
        ContractRecord {
            id: self.id@,
            space_id: self.space_id@,
            buyer_id: self.buyer_id@,
            seller_id: self.seller_id@,
            terms: self.terms@,
            status: self.status,
            deadline: self.deadline,
            created_at: self.created_at,
            updated_at: self.updated_at,
        }
    }

    fn duplicate(&self) -> (r: ContractRow)
        ensures
            r.view() == self.view(),
    {
        ContractRow {
            id: self.id.clone(),
            space_id: self.space_id.clone(),
            buyer_id: self.buyer_id.clone(),
            seller_id: self.seller_id.clone(),
            terms: self.terms.clone(),
            status: self.status,
            deadline: self.deadline,
            created_at: self.created_at,
            updated_at: self.updated_at,
        }
    }
}

/// The view of a milestone.
pub open spec fn milestone_view(m: Milestone) -> MilestoneRecord {
    MilestoneRecord {
        id: m.id@,
        contract_id: m.contract_id@,
        title: m.title@,
        description: ov(m.description),
        status: m.status,
        deliverable_url: ov(m.deliverable_url),
        amount_bits: m.amount_bits,
        due_date: m.due_date,
        submitted_at: m.submitted_at,
        accepted_at: m.accepted_at,
        created_at: m.created_at,
        updated_at: m.updated_at,
    }
}

fn dup_milestone(m: &Milestone) -> (r: Milestone)
    ensures
        milestone_view(r) == milestone_view(*m),
{
    Milestone {
        id: m.id.clone(),
        contract_id: m.contract_id.clone(),
        title: m.title.clone(),
        description: oclone(&m.description),
        status: m.status,
        deliverable_url: oclone(&m.deliverable_url),
        amount_bits: m.amount_bits,
        due_date: m.due_date,
        submitted_at: m.submitted_at,
        accepted_at: m.accepted_at,
        created_at: m.created_at,
        updated_at: m.updated_at,
    }
}

/// Whether the handed-out milestones show exactly `ms`, in order.
pub open spec fn milestones_are(out: Seq<Milestone>, ms: Seq<MilestoneRecord>) -> bool {
    &&& out.len() == ms.len()
    &&& forall|i: int| 0 <= i < out.len() ==> milestone_view(#[trigger] out[i]) == ms[i]
}

/// Whether a handed-out contract shows the record `c` with the milestones `ms`.
pub open spec fn contract_is(out: Contract, c: ContractRecord, ms: Seq<MilestoneRecord>) -> bool {
    &&& out.id@ == c.id
    &&& out.space_id@ == c.space_id
    &&& out.buyer_id@ == c.buyer_id
    &&& out.seller_id@ == c.seller_id
    &&& out.terms@ == c.terms
    &&& out.status == c.status
    &&& out.deadline == c.deadline
    &&& out.created_at == c.created_at
    &&& out.updated_at == c.updated_at
    &&& milestones_are(out.milestones@, ms)
}

/// The milestones of contract `id`, in the order they were created.
pub open spec fn milestones_of(ms: Seq<MilestoneRecord>, id: Seq<char>) -> Seq<MilestoneRecord> {
    keep(ms, |m: MilestoneRecord| m.contract_id == id)
}

/// Contract ids are distinct, as are their spaces and the milestone ids.
pub open spec fn exec_wf(cs: Seq<ContractRecord>, ms: Seq<MilestoneRecord>) -> bool {
    &&& forall|i: int, j: int| 0 <= i < j < cs.len() ==> (#[trigger] cs[i]).id != (#[trigger] cs[j]).id
    &&& forall|i: int, j: int|
        0 <= i < j < cs.len() ==> (#[trigger] cs[i]).space_id != (#[trigger] cs[j]).space_id
    &&& forall|i: int, j: int| 0 <= i < j < ms.len() ==> (#[trigger] ms[i]).id != (#[trigger] ms[j]).id
    &&& forall|k: int| 0 <= k < ms.len() ==> has_contract(cs, (#[trigger] ms[k]).contract_id)
}

/// Whether a contract with id `id` exists.
pub open spec fn has_contract(cs: Seq<ContractRecord>, id: Seq<char>) -> bool {
    exists|k: int| 0 <= k < cs.len() && cs[k].id == id
}

/// The contract with id `id` (meaningful when it exists).
pub open spec fn contract_with_id(cs: Seq<ContractRecord>, id: Seq<char>) -> ContractRecord {
    cs[choose|k: int| 0 <= k < cs.len() && cs[k].id == id]
}

/// Whether space `space` already has a contract.
pub open spec fn has_space_contract(cs: Seq<ContractRecord>, space: Seq<char>) -> bool {
    exists|k: int| 0 <= k < cs.len() && cs[k].space_id == space
}

/// The contract of space `space` (meaningful when it exists).
pub open spec fn contract_of_space(cs: Seq<ContractRecord>, space: Seq<char>) -> ContractRecord {
    cs[choose|k: int| 0 <= k < cs.len() && cs[k].space_id == space]
}

/// Whether a milestone with id `id` exists.
pub open spec fn has_milestone(ms: Seq<MilestoneRecord>, id: Seq<char>) -> bool {
    exists|k: int| 0 <= k < ms.len() && ms[k].id == id
}

/// The position of milestone `id` (meaningful when it exists).
pub open spec fn milestone_pos(ms: Seq<MilestoneRecord>, id: Seq<char>) -> int {
    choose|k: int| 0 <= k < ms.len() && ms[k].id == id
}

/// A milestone draft as requested.
pub struct MilestoneDraft {
    pub title: Seq<char>,
    pub description: Option<Seq<char>>,
    pub amount_bits: Option<u64>,
    pub due_date: Option<i64>,
}

pub open spec fn draft_view(r: CreateMilestoneRequest) -> MilestoneDraft {
    MilestoneDraft {
        title: r.title@,
        description: ov(r.description),
        amount_bits: r.amount_bits,
        due_date: r.due_date,
    }
}

/// The record of a new contract.
pub open spec fn new_contract(
    id: Seq<char>,
    space: Seq<char>,
    buyer: Seq<char>,
    seller: Seq<char>,
    terms: Seq<char>,
    deadline: Option<i64>,
    now: i64,
) -> ContractRecord {
    ContractRecord {
        id,
        space_id: space,
        buyer_id: buyer,
        seller_id: seller,
        terms,
        status: ContractStatus::Active,
        deadline,
        created_at: now,
        updated_at: now,
    }
}

/// The record of a new milestone of contract `cid`.
pub open spec fn new_milestone(id: Seq<char>, cid: Seq<char>, d: MilestoneDraft, now: i64) -> MilestoneRecord {
    MilestoneRecord {
        id,
        contract_id: cid,
        title: d.title,
        description: d.description,
        status: MilestoneStatus::Pending,
        deliverable_url: None,
        amount_bits: d.amount_bits,
        due_date: d.due_date,
        submitted_at: None,
        accepted_at: None,
        created_at: now,
        updated_at: now,
    }
}

/// The new milestones, one per draft, with the given ids.
pub open spec fn new_milestones(
    ids: Seq<Seq<char>>,
    cid: Seq<char>,
    drafts: Seq<MilestoneDraft>,
    now: i64,
) -> Seq<MilestoneRecord> {
    Seq::new(drafts.len(), |i: int| new_milestone(ids[i], cid, drafts[i], now))
}

/// Whether a contract can be created with these ids: the contract id and the
/// space are not taken, and the milestone ids are distinct and not taken.
pub open spec fn creation_allowed(
    cs: Seq<ContractRecord>,
    ms: Seq<MilestoneRecord>,
    cid: Seq<char>,
    space: Seq<char>,
    mids: Seq<Seq<char>>,
) -> bool {
    &&& !has_contract(cs, cid)
    &&& !has_space_contract(cs, space)
    &&& forall|i: int, j: int| 0 <= i < j < mids.len() ==> mids[i] != mids[j]
    &&& forall|i: int| 0 <= i < mids.len() ==> !has_milestone(ms, #[trigger] mids[i])
}

/// Whether the random ids of a new contract with `n` milestones cannot clash:
/// no stored contract id has the `ctr_` shape, no stored milestone id has
/// the `mst_` shape, and at most one milestone id is drawn.
pub open spec fn ids_cannot_clash(cs: Seq<ContractRecord>, ms: Seq<MilestoneRecord>, n: nat) -> bool {
    &&& forall|k: int| 0 <= k < cs.len() ==> !credential_shaped(#[trigger] cs[k].id, "ctr_"@)
    &&& forall|k: int| 0 <= k < ms.len() ==> !credential_shaped(#[trigger] ms[k].id, "mst_"@)
    &&& n <= 1
}

/// A milestone may be submitted only while pending or after a rejection.
pub open spec fn submittable(s: MilestoneStatus) -> bool {
    s == MilestoneStatus::Pending || s == MilestoneStatus::Rejected
}

/// The milestone after its deliverable `url` is submitted at `now`.
pub open spec fn submitted(m: MilestoneRecord, url: Seq<char>, now: i64) -> MilestoneRecord {
    MilestoneRecord {
        status: MilestoneStatus::Submitted,
        deliverable_url: Some(url),
        submitted_at: Some(now),
        updated_at: now,
        ..m
    }
}

/// The milestone after the buyer accepts (or rejects) it at `now`.
pub open spec fn reviewed(m: MilestoneRecord, accepted: bool, now: i64) -> MilestoneRecord {
    MilestoneRecord {
        status: if accepted { MilestoneStatus::Accepted } else { MilestoneStatus::Rejected },
        accepted_at: if accepted { Some(now) } else { None },
        updated_at: now,
        ..m
    }
}

/// Every milestone of contract `cid` is accepted.
pub open spec fn all_accepted(ms: Seq<MilestoneRecord>, cid: Seq<char>) -> bool {
    forall|k: int| 0 <= k < ms.len() && ms[k].contract_id == cid ==> #[trigger] ms[k].status
        == MilestoneStatus::Accepted
}

/// The contracts after contract `cid` is set to `status` at `now`.
pub open spec fn with_contract_status(
    cs: Seq<ContractRecord>,
    cid: Seq<char>,
    status: ContractStatus,
    now: i64,
) -> Seq<ContractRecord> {
    cs.map_values(
        |c: ContractRecord|
            if c.id == cid {
                ContractRecord { status, updated_at: now, ..c }
            } else {
                c
            },
    )
}

/// Ordered by last update, most recent first; equal times keep their order.
pub open spec fn insert_by_update(s: Seq<ContractRecord>, x: ContractRecord) -> Seq<ContractRecord>
    decreases s.len(),
{
    if s.len() == 0 {
        seq![x]
    } else if s[0].updated_at < x.updated_at {
        seq![x] + s
    } else {
        seq![s[0]] + insert_by_update(s.drop_first(), x)
    }
}

pub open spec fn recently_updated_first(s: Seq<ContractRecord>) -> Seq<ContractRecord>
    decreases s.len(),
{
    if s.len() == 0 {
        Seq::empty()
    } else {
        insert_by_update(recently_updated_first(s.drop_last()), s.last())
    }
}

/// The contracts in which agent `a` is buyer or seller.
pub open spec fn party_pred(a: Seq<char>) -> spec_fn(ContractRecord) -> bool {
    |c: ContractRecord| c.buyer_id == a || c.seller_id == a
}

proof fn lemma_insert_by_update_at(s: Seq<ContractRecord>, x: ContractRecord, j: int)
    requires
        0 <= j <= s.len(),
        forall|k: int| 0 <= k < j ==> s[k].updated_at >= x.updated_at,
        j < s.len() ==> s[j].updated_at < x.updated_at,
    ensures
        insert_by_update(s, x) == s.insert(j, x),
    decreases s.len(),
{
    if s.len() == 0 {
        assert(s.insert(j, x) =~= seq![x]);
    } else if j == 0 {
        assert(s.insert(0, x) =~= seq![x] + s);
    } else {
        let t = s.drop_first();
        assert forall|k: int| 0 <= k < j - 1 implies t[k].updated_at >= x.updated_at by {
            assert(t[k] == s[k + 1]);
        }
        if j < s.len() {
            assert(t[j - 1] == s[j]);
        }
        lemma_insert_by_update_at(t, x, j - 1);
        assert(s.insert(j, x) =~= seq![s[0]] + t.insert(j - 1, x));
    }
}

/// The contract store.
pub struct ExecutionStore {
    contracts: Vec<ContractRow>,
    milestones: Vec<Milestone>,
}

impl ExecutionStore {
    /// The stored contracts, oldest first.
    pub closed spec fn contracts(&self) -> Seq<ContractRecord> {
        self.contracts@.map_values(|c: ContractRow| c.view())
    }

    /// The stored milestones, oldest first.
    pub closed spec fn milestones(&self) -> Seq<MilestoneRecord> {
        self.milestones@.map_values(|m: Milestone| milestone_view(m))
    }

    pub open spec fn wf(&self) -> bool {
        exec_wf(self.contracts(), self.milestones())
    }

    /// An empty store.
    pub fn new() -> (s: ExecutionStore)
        ensures
            s.wf(),
            s.contracts() == Seq::<ContractRecord>::empty(),
            s.milestones() == Seq::<MilestoneRecord>::empty(),
    {
        let s = ExecutionStore { contracts: Vec::new(), milestones: Vec::new() };
        proof {
            assert(s.contracts() =~= Seq::<ContractRecord>::empty());
            assert(s.milestones() =~= Seq::<MilestoneRecord>::empty());
        }
        s
    }

    fn find_contract(&self, id: &str) -> (r: Option<usize>)
        requires
            self.wf(),
        ensures
            r is Some <==> has_contract(self.contracts(), id@),
            r matches Some(k) ==> k < self.contracts().len() && self.contracts()[k as int]
                == contract_with_id(self.contracts(), id@),
    {
        let ghost cs = self.contracts();
        let mut i: usize = 0;
        while i < self.contracts.len()
            invariant
                self.wf(),
                cs == self.contracts(),
                0 <= i <= self.contracts@.len(),
                cs.len() == self.contracts@.len(),
                forall|j: int| 0 <= j < i ==> cs[j].id != id@,
            decreases self.contracts@.len() - i,
        {
            assert(cs[i as int] == self.contracts@[i as int].view());
            if str_eq(self.contracts[i].id.as_str(), id) {
                proof {
                    let k = choose|k: int| 0 <= k < cs.len() && cs[k].id == id@;
                    if k < i {
                    } else if k > i {
                        assert(cs[i as int].id != cs[k].id);
                    }
                }
                return Some(i);
            }
            i = i + 1;
        }
        None
    }

    fn find_space(&self, space: &str) -> (r: Option<usize>)
        requires
            self.wf(),
        ensures
            r is Some <==> has_space_contract(self.contracts(), space@),
            r matches Some(k) ==> k < self.contracts().len() && self.contracts()[k as int]
                == contract_of_space(self.contracts(), space@),
    {
        let ghost cs = self.contracts();
        let mut i: usize = 0;
        while i < self.contracts.len()
            invariant
                self.wf(),
                cs == self.contracts(),
                0 <= i <= self.contracts@.len(),
                cs.len() == self.contracts@.len(),
                forall|j: int| 0 <= j < i ==> cs[j].space_id != space@,
            decreases self.contracts@.len() - i,
        {
            assert(cs[i as int] == self.contracts@[i as int].view());
            if str_eq(self.contracts[i].space_id.as_str(), space) {
                proof {
                    let k = choose|k: int| 0 <= k < cs.len() && cs[k].space_id == space@;
                    if k < i {
                    } else if k > i {
                        assert(cs[i as int].space_id != cs[k].space_id);
                    }
                }
                return Some(i);
            }
            i = i + 1;
        }
        None
    }

    fn find_milestone(&self, id: &str) -> (r: Option<usize>)
        requires
            self.wf(),
        ensures
            r is Some <==> has_milestone(self.milestones(), id@),
            r matches Some(k) ==> k == milestone_pos(self.milestones(), id@) && k
                < self.milestones().len(),
    {
        let ghost ms = self.milestones();
        let mut i: usize = 0;
        while i < self.milestones.len()
            invariant
                self.wf(),
                ms == self.milestones(),
                0 <= i <= self.milestones@.len(),
                ms.len() == self.milestones@.len(),
                forall|j: int| 0 <= j < i ==> ms[j].id != id@,
            decreases self.milestones@.len() - i,
        {
            assert(ms[i as int] == milestone_view(self.milestones@[i as int]));
            if str_eq(self.milestones[i].id.as_str(), id) {
                proof {
                    let k = choose|k: int| 0 <= k < ms.len() && ms[k].id == id@;
                    if k < i {
                    } else if k > i {
                        assert(ms[i as int].id != ms[k].id);
                    }
                }
                return Some(i);
            }
            i = i + 1;
        }
        None
    }

    /// The milestones of contract `contract_id`, in the order they were created.
    pub fn get_milestones(&self, contract_id: &str) -> (r: Result<Vec<Milestone>, GaggleError>)
        ensures
            r matches Ok(v) && milestones_are(v@, milestones_of(self.milestones(), contract_id@)),
    {
        let ghost ms = self.milestones();
        let ghost p = |m: MilestoneRecord| m.contract_id == contract_id@;
        let mut out: Vec<Milestone> = Vec::new();
        let mut i: usize = 0;
        while i < self.milestones.len()
            invariant
                0 <= i <= self.milestones@.len(),
                ms == self.milestones(),
                ms.len() == self.milestones@.len(),
                p == (|m: MilestoneRecord| m.contract_id == contract_id@),
                milestones_are(out@, keep(ms.take(i as int), p)),
            decreases self.milestones@.len() - i,
        {
            proof {
                assert(ms[i as int] == milestone_view(self.milestones@[i as int]));
                lemma_keep_take_step(ms, i as int, p);
            }
            let m = &self.milestones[i];
            if str_eq(m.contract_id.as_str(), contract_id) {
                out.push(dup_milestone(m));
            }
            i = i + 1;
        }
        proof {
            lemma_take_full(ms);
        }
        Ok(out)
    }

    fn contract_at(&self, k: usize) -> (r: Contract)
        requires
            k < self.contracts@.len(),
        ensures
            contract_is(r, self.contracts()[k as int], milestones_of(self.milestones(), self.contracts()[k as int].id)),
    {
        let c = &self.contracts[k];
        let ms = match self.get_milestones(c.id.as_str()) {
            Ok(v) => v,
            Err(_) => Vec::new(),
        };
        Contract {
            id: c.id.clone(),
            space_id: c.space_id.clone(),
            buyer_id: c.buyer_id.clone(),
            seller_id: c.seller_id.clone(),
            terms: c.terms.clone(),
            milestones: ms,
            status: c.status,
            deadline: c.deadline,
            created_at: c.created_at,
            updated_at: c.updated_at,
        }
    }

    /// The contract with id `id`, with its milestones, if there is one.
    pub fn get_contract(&self, id: &str) -> (r: Result<Option<Contract>, GaggleError>)
        requires
            self.wf(),
        ensures
            r matches Ok(o) && (o is Some <==> has_contract(self.contracts(), id@)),
            r matches Ok(Some(c)) ==> contract_is(
                c,
                contract_with_id(self.contracts(), id@),
                milestones_of(self.milestones(), id@),
            ),
    {
        match self.find_contract(id) {
            Some(k) => Ok(Some(self.contract_at(k))),
            None => Ok(None),
        }
    }

    /// The contract of space `space_id`, with its milestones, if there is one.
    pub fn get_contract_by_space(&self, space_id: &str) -> (r: Result<Option<Contract>, GaggleError>)
        requires
            self.wf(),
        ensures
            r matches Ok(o) && (o is Some <==> has_space_contract(self.contracts(), space_id@)),
            r matches Ok(Some(c)) ==> contract_is(
                c,
                contract_of_space(self.contracts(), space_id@),
                milestones_of(self.milestones(), contract_of_space(self.contracts(), space_id@).id),
            ),
    {
        match self.find_space(space_id) {
            Some(k) => Ok(Some(self.contract_at(k))),
            None => Ok(None),
        }
    }

    /// The contracts in which `agent_id` is buyer or seller, most recently
    /// updated first, each with its milestones.
    pub fn get_agent_contracts(&self, agent_id: &str) -> (r: Result<Vec<Contract>, GaggleError>)
        requires
            self.wf(),
        ensures
            r matches Ok(v) && v.len() == recently_updated_first(
                keep(self.contracts(), party_pred(agent_id@)),
            ).len() && forall|i: int|
                0 <= i < v.len() ==> contract_is(
                    #[trigger] v@[i],
                    recently_updated_first(keep(self.contracts(), party_pred(agent_id@)))[i],
                    milestones_of(
                        self.milestones(),
                        recently_updated_first(keep(self.contracts(), party_pred(agent_id@)))[i].id,
                    ),
                ),
    {
        let ghost cs = self.contracts();
        let ghost p = party_pred(agent_id@);
        let mut out: Vec<Contract> = Vec::new();
        let mut i: usize = 0;
        while i < self.contracts.len()
            invariant
                0 <= i <= self.contracts@.len(),
                cs == self.contracts(),
                cs.len() == self.contracts@.len(),
                p == party_pred(agent_id@),
                out.len() == recently_updated_first(keep(cs.take(i as int), p)).len(),
                forall|k: int|
                    0 <= k < out.len() ==> contract_is(
                        #[trigger] out@[k],
                        recently_updated_first(keep(cs.take(i as int), p))[k],
                        milestones_of(self.milestones(), recently_updated_first(keep(cs.take(i as int), p))[k].id),
                    ),
            decreases self.contracts@.len() - i,
        {
            proof {
                assert(cs[i as int] == self.contracts@[i as int].view());
                lemma_keep_take_step(cs, i as int, p);
            }
            let c = &self.contracts[i];
            if str_eq(c.buyer_id.as_str(), agent_id) || str_eq(c.seller_id.as_str(), agent_id) {
                let ghost sorted = recently_updated_first(keep(cs.take(i as int), p));
                let ghost x = cs[i as int];
                let mut j: usize = 0;
                while j < out.len() && out[j].updated_at >= c.updated_at
                    invariant
                        0 <= j <= out@.len(),
                        out.len() == sorted.len(),
                        forall|k: int| 0 <= k < out.len() ==> (#[trigger] out@[k]).updated_at == sorted[k].updated_at,
                        x.updated_at == c.updated_at,
                        forall|k: int| 0 <= k < j ==> sorted[k].updated_at >= x.updated_at,
                    decreases out@.len() - j,
                {
                    j = j + 1;
                }
                proof {
                    lemma_insert_by_update_at(sorted, x, j as int);
                    assert(keep(cs.take(i + 1), p).drop_last() =~= keep(cs.take(i as int), p));
                }
                let ghost before = out@;
                let full = self.contract_at(i);
                out.insert(j, full);
                proof {
                    let t = sorted.insert(j as int, x);
                    assert forall|k: int| 0 <= k < out.len() implies contract_is(
                        #[trigger] out@[k],
                        t[k],
                        milestones_of(self.milestones(), t[k].id),
                    ) by {
                        if k < j {
                            assert(out@[k] == before[k] && t[k] == sorted[k]);
                        } else if k > j {
                            assert(out@[k] == before[k - 1] && t[k] == sorted[k - 1]);
                        }
                    }
                }
            }
            i = i + 1;
        }
        proof {
            lemma_take_full(cs);
        }
        Ok(out)
    }
}


/// The views of a list of strings.
pub open spec fn strs_view(v: Seq<String>) -> Seq<Seq<char>> {
    v.map_values(|s: String| s@)
}

/// The drafts of a creation request.
pub open spec fn drafts_of(req: CreateContractRequest) -> Seq<MilestoneDraft> {
    req.milestones@.map_values(|m: CreateMilestoneRequest| draft_view(m))
}

impl ExecutionStore {
    fn ids_fresh(&self, ids: &Vec<String>) -> (r: bool)
        requires
            self.wf(),
        ensures
            r == ((forall|i: int, j: int| 0 <= i < j < ids@.len() ==> strs_view(ids@)[i] != strs_view(ids@)[j])
                && forall|i: int| 0 <= i < ids@.len() ==> !has_milestone(self.milestones(), #[trigger] strs_view(ids@)[i])),
    {
        let ghost v = strs_view(ids@);
        let mut i: usize = 0;
        while i < ids.len()
            invariant
                self.wf(),
                v == strs_view(ids@),
                0 <= i <= ids@.len(),
                forall|a: int, b: int| 0 <= a < b < i ==> v[a] != v[b],
                forall|a: int| 0 <= a < i ==> !has_milestone(self.milestones(), #[trigger] v[a]),
            decreases ids@.len() - i,
        {
            assert(v[i as int] == ids@[i as int]@);
            if self.find_milestone(ids[i].as_str()).is_some() {
                assert(has_milestone(self.milestones(), strs_view(ids@)[i as int]));
                return false;
            }
            let mut j: usize = 0;
            while j < i
                invariant
                    v == strs_view(ids@),
                    0 <= j <= i < ids@.len(),
                    forall|a: int| 0 <= a < j ==> v[a] != v[i as int],
                decreases i - j,
            {
                if str_eq(ids[j].as_str(), ids[i].as_str()) {
                    assert(strs_view(ids@)[j as int] == strs_view(ids@)[i as int]);
                    return false;
                }
                j = j + 1;
            }
            i = i + 1;
        }
        true
    }

    /// Creates a contract for `space_id` with id `contract_id` and one
    /// pending milestone per requested one, with the given ids, at time `now`.
    /// Fails, creating nothing, when the contract id or the space is taken or
    /// a milestone id is repeated or taken.
    pub fn create_contract_with(
        &mut self,
        space_id: &str,
        buyer_id: &str,
        seller_id: &str,
        terms: &str,
        req: &CreateContractRequest,
        deadline: Option<i64>,
        now: i64,
        contract_id: String,
        milestone_ids: Vec<String>,
    ) -> (r: Result<Contract, GaggleError>)
        requires
            old(self).wf(),
            milestone_ids.len() == req.milestones.len(),
        ensures
            final(self).wf(),
            r is Ok <==> creation_allowed(
                old(self).contracts(),
                old(self).milestones(),
                contract_id@,
                space_id@,
                strs_view(milestone_ids@),
            ),
            r matches Ok(c) ==> {
                let nc = new_contract(contract_id@, space_id@, buyer_id@, seller_id@, terms@, deadline, now);
                let nm = new_milestones(strs_view(milestone_ids@), contract_id@, drafts_of(*req), now);
                &&& final(self).contracts() == old(self).contracts().push(nc)
                &&& final(self).milestones() == old(self).milestones() + nm
                &&& contract_is(c, nc, nm)
                &&& milestones_of(final(self).milestones(), contract_id@) == nm
            },
            r matches Err(e) ==> e is DatabaseError && final(self).contracts() == old(self).contracts()
                && final(self).milestones() == old(self).milestones(),
    {
        if self.find_contract(contract_id.as_str()).is_some() {
            return Err(GaggleError::DatabaseError(String::from_str("UNIQUE constraint failed: contracts.id")));
        }
        if self.find_space(space_id).is_some() {
            return Err(GaggleError::DatabaseError(String::from_str("UNIQUE constraint failed: contracts.space_id")));
        }
        if !self.ids_fresh(&milestone_ids) {
            return Err(GaggleError::DatabaseError(String::from_str("UNIQUE constraint failed: milestones.id")));
        }
        let ghost old_cs = self.contracts();
        let ghost old_ms = self.milestones();
        let ghost ids = strs_view(milestone_ids@);
        let ghost drafts = drafts_of(*req);
        let ghost nc = new_contract(contract_id@, space_id@, buyer_id@, seller_id@, terms@, deadline, now);
        let ghost nm = new_milestones(ids, contract_id@, drafts, now);
        let row = ContractRow {
            id: contract_id.clone(),
            space_id: String::from_str(space_id),
            buyer_id: String::from_str(buyer_id),
            seller_id: String::from_str(seller_id),
            terms: String::from_str(terms),
            status: ContractStatus::Active,
            deadline,
            created_at: now,
            updated_at: now,
        };
        self.contracts.push(row);
        proof {
            assert(self.contracts() =~= old_cs.push(nc));
        }
        let mut out: Vec<Milestone> = Vec::new();
        let mut i: usize = 0;
        while i < req.milestones.len()
            invariant
                0 <= i <= req.milestones@.len(),
                milestone_ids@.len() == req.milestones@.len(),
                ids == strs_view(milestone_ids@),
                drafts == drafts_of(*req),
                nm == new_milestones(ids, contract_id@, drafts, now),
                self.contracts() == old_cs.push(nc),
                self.milestones() == old_ms + nm.take(i as int),
                milestones_are(out@, nm.take(i as int)),
            decreases req.milestones@.len() - i,
        {
            let d = &req.milestones[i];
            let m = Milestone {
                id: milestone_ids[i].clone(),
                contract_id: contract_id.clone(),
                title: d.title.clone(),
                description: oclone(&d.description),
                status: MilestoneStatus::Pending,
                deliverable_url: None,
                amount_bits: d.amount_bits,
                due_date: d.due_date,
                submitted_at: None,
                accepted_at: None,
                created_at: now,
                updated_at: now,
            };
            proof {
                assert(milestone_view(m) == nm[i as int]);
            }
            let ghost before_out = out@;
            let ghost before_ms = self.milestones@;
            out.push(dup_milestone(&m));
            self.milestones.push(m);
            proof {
                assert(self.milestones@ == before_ms.push(m));
                assert(self.milestones() =~= (old_ms + nm.take(i as int)).push(nm[i as int]));
                assert(nm.take(i + 1) =~= nm.take(i as int).push(nm[i as int]));
                assert(self.milestones() =~= old_ms + nm.take(i + 1));
                assert forall|k: int| 0 <= k < out@.len() implies milestone_view(#[trigger] out@[k]) == nm.take(i + 1)[k] by {
                    if k < i {
                        assert(out@[k] == before_out[k]);
                    }
                }
            }
            i = i + 1;
        }
        proof {
            assert(nm.take(nm.len() as int) =~= nm);
            let cs = self.contracts();
            let ms = self.milestones();
            // ids stay distinct
            assert forall|a: int, b: int| 0 <= a < b < cs.len() implies (#[trigger] cs[a]).id != (#[trigger] cs[b]).id
                && cs[a].space_id != cs[b].space_id by {
                if b == cs.len() - 1 {
                    assert(cs[a] == old_cs[a]);
                } else {
                    assert(cs[a] == old_cs[a] && cs[b] == old_cs[b]);
                }
            }
            assert forall|a: int, b: int| 0 <= a < b < ms.len() implies (#[trigger] ms[a]).id != (#[trigger] ms[b]).id by {
                if b < old_ms.len() {
                    assert(ms[a] == old_ms[a] && ms[b] == old_ms[b]);
                } else if a < old_ms.len() {
                    assert(ms[a] == old_ms[a]);
                    assert(ms[b] == nm[b - old_ms.len()]);
                    assert(!has_milestone(old_ms, ids[b - old_ms.len()]));
                } else {
                    assert(ms[a] == nm[a - old_ms.len()] && ms[b] == nm[b - old_ms.len()]);
                }
            }
            assert forall|k: int| 0 <= k < ms.len() implies has_contract(cs, (#[trigger] ms[k]).contract_id) by {
                if k < old_ms.len() {
                    assert(ms[k] == old_ms[k]);
                    let q = choose|q: int| 0 <= q < old_cs.len() && old_cs[q].id == old_ms[k].contract_id;
                    assert(cs[q] == old_cs[q]);
                } else {
                    assert(ms[k] == nm[k - old_ms.len()]);
                    assert(cs[cs.len() - 1] == nc);
                }
            }
            // the new contract's milestones are exactly the new ones
            let p = |m: MilestoneRecord| m.contract_id == contract_id@;
            assert forall|k: int| 0 <= k < old_ms.len() implies !p(#[trigger] old_ms[k]) by {
                if old_ms[k].contract_id == contract_id@ {
                    assert(has_contract(old_cs, old_ms[k].contract_id));
                }
            }
            lemma_keep_none(old_ms, p);
            lemma_keep_append_all(old_ms, nm, p);
        }
        let c = Contract {
            id: contract_id,
            space_id: String::from_str(space_id),
            buyer_id: String::from_str(buyer_id),
            seller_id: String::from_str(seller_id),
            terms: String::from_str(terms),
            milestones: out,
            status: ContractStatus::Active,
            deadline,
            created_at: now,
            updated_at: now,
        };
        Ok(c)
    }

    /// Creates a contract for `space_id` now, with fresh random ids
    /// (`ctr_` and `mst_` followed by 32 hex digits); see `create_contract_with`.
    pub fn create_contract(
        &mut self,
        space_id: &str,
        buyer_id: &str,
        seller_id: &str,
        terms: &str,
        req: &CreateContractRequest,
        deadline: Option<i64>,
    ) -> (r: Result<Contract, GaggleError>)
        requires
            old(self).wf(),
        ensures
            final(self).wf(),
            has_space_contract(old(self).contracts(), space_id@) ==> r is Err,
            r matches Ok(c) ==> exists|now: i64, cid: Seq<char>, mids: Seq<Seq<char>>|
                #![trigger new_contract(cid, space_id@, buyer_id@, seller_id@, terms@, deadline, now), new_milestones(mids, cid, drafts_of(*req), now)]
                {
                let nc = new_contract(cid, space_id@, buyer_id@, seller_id@, terms@, deadline, now);
                let nm = new_milestones(mids, cid, drafts_of(*req), now);
                &&& 0 <= now <= MAX_CLOCK_SECONDS
                &&& credential_shaped(cid, "ctr_"@)
                &&& mids.len() == req.milestones@.len()
                &&& forall|i: int| 0 <= i < mids.len() ==> credential_shaped(#[trigger] mids[i], "mst_"@)
                &&& final(self).contracts() == old(self).contracts().push(nc)
                &&& final(self).milestones() == old(self).milestones() + nm
                &&& contract_is(c, nc, nm)
            },
            r matches Err(e) ==> e is DatabaseError && final(self).contracts() == old(self).contracts()
                && final(self).milestones() == old(self).milestones(),
            !has_space_contract(old(self).contracts(), space_id@) && ids_cannot_clash(
                old(self).contracts(),
                old(self).milestones(),
                req.milestones@.len(),
            ) ==> r is Ok,
    {
        let now = now_seconds();
        let cid = random_credential("ctr_");
        let mut mids: Vec<String> = Vec::new();
        let mut i: usize = 0;
        while i < req.milestones.len()
            invariant
                0 <= i <= req.milestones@.len(),
                mids@.len() == i,
                forall|k: int| 0 <= k < i ==> credential_shaped(#[trigger] mids@[k]@, "mst_"@),
            decreases req.milestones@.len() - i,
        {
            let mid = random_credential("mst_");
            mids.push(mid);
            i = i + 1;
        }
        proof {
            reveal_strlit("ctr_");
            reveal_strlit("mst_");
            let cs = self.contracts();
            let ms = self.milestones();
            if ids_cannot_clash(cs, ms, req.milestones@.len()) {
                if has_contract(cs, cid@) {
                    let k = choose|k: int| 0 <= k < cs.len() && cs[k].id == cid@;
                    assert(!credential_shaped(cs[k].id, "ctr_"@));
                }
                let v = strs_view(mids@);
                assert forall|i: int| 0 <= i < v.len() implies !has_milestone(ms, #[trigger] v[i]) by {
                    assert(v[i] == mids@[i]@);
                    if has_milestone(ms, v[i]) {
                        let k = choose|k: int| 0 <= k < ms.len() && ms[k].id == v[i];
                        assert(!credential_shaped(ms[k].id, "mst_"@));
                    }
                }
            }
        }
        self.create_contract_with(space_id, buyer_id, seller_id, terms, req, deadline, now, cid, mids)
    }

    /// Submits the deliverable `url` of milestone `milestone_id` at `now`.
    /// A missing milestone is NotFound; one that is neither pending nor
    /// rejected is a ValidationError; otherwise it becomes submitted.
    pub fn submit_milestone_at(&mut self, milestone_id: &str, deliverable_url: &str, now: i64) -> (r:
        Result<Milestone, GaggleError>)
        requires
            old(self).wf(),
        ensures
            final(self).wf(),
            final(self).contracts() == old(self).contracts(),
            !has_milestone(old(self).milestones(), milestone_id@) ==> r is Err && r->Err_0 is NotFound
                && final(self).milestones() == old(self).milestones(),
            has_milestone(old(self).milestones(), milestone_id@) ==> {
                let k = milestone_pos(old(self).milestones(), milestone_id@);
                let m = old(self).milestones()[k];
                &&& !submittable(m.status) ==> r is Err && r->Err_0 is ValidationError
                    && final(self).milestones() == old(self).milestones()
                &&& submittable(m.status) ==> r is Ok && final(self).milestones() == old(
                    self,
                ).milestones().update(k, submitted(m, deliverable_url@, now)) && milestone_view(r->Ok_0)
                    == submitted(m, deliverable_url@, now)
            },
    {
        let k = match self.find_milestone(milestone_id) {
            Some(k) => k,
            None => {
                return Err(GaggleError::NotFound(String::from_str("Milestone not found")));
            },
        };
        let st = self.milestones[k].status;
        if st != MilestoneStatus::Pending && st != MilestoneStatus::Rejected {
            return Err(
                GaggleError::ValidationError(
                    String::from_str("Milestone can only be submitted from pending or rejected state"),
                ),
            );
        }
        let ghost old_ms = self.milestones();
        let mut m = dup_milestone(&self.milestones[k]);
        m.status = MilestoneStatus::Submitted;
        m.deliverable_url = Some(String::from_str(deliverable_url));
        m.submitted_at = Some(now);
        m.updated_at = now;
        let out = dup_milestone(&m);
        self.milestones.set(k, m);
        proof {
            assert(old_ms[k as int] == milestone_view(old(self).milestones@[k as int]));
            let ms = self.milestones();
            assert(ms =~= old_ms.update(k as int, milestone_view(out)));
            lemma_update_keeps_exec_wf(self.contracts(), old_ms, k as int, milestone_view(out));
        }
        Ok(out)
    }

    /// Submits a milestone's deliverable now; see `submit_milestone_at`.
    pub fn submit_milestone(&mut self, milestone_id: &str, deliverable_url: &str) -> (r: Result<
        Milestone,
        GaggleError,
    >)
        requires
            old(self).wf(),
        ensures
            final(self).wf(),
            final(self).contracts() == old(self).contracts(),
            !has_milestone(old(self).milestones(), milestone_id@) ==> r is Err && r->Err_0 is NotFound
                && final(self).milestones() == old(self).milestones(),
            has_milestone(old(self).milestones(), milestone_id@) ==> {
                let k = milestone_pos(old(self).milestones(), milestone_id@);
                let m = old(self).milestones()[k];
                &&& !submittable(m.status) ==> r is Err && r->Err_0 is ValidationError
                    && final(self).milestones() == old(self).milestones()
                &&& submittable(m.status) ==> r is Ok && exists|now: i64|
                    0 <= now <= MAX_CLOCK_SECONDS && final(self).milestones() == old(self).milestones().update(
                        k,
                        #[trigger] submitted(m, deliverable_url@, now),
                    ) && milestone_view(r->Ok_0) == submitted(m, deliverable_url@, now)
            },
    {
        let now = now_seconds();
        self.submit_milestone_at(milestone_id, deliverable_url, now)
    }

    /// Accepts (`accepted`) or rejects milestone `milestone_id` at `now`.
    /// A missing milestone is NotFound; one that is not submitted is a
    /// ValidationError. When an acceptance leaves every milestone of the
    /// contract accepted, the contract becomes completed.
    pub fn accept_milestone_at(&mut self, milestone_id: &str, accepted: bool, now: i64) -> (r: Result<
        Milestone,
        GaggleError,
    >)
        requires
            old(self).wf(),
        ensures
            final(self).wf(),
            !has_milestone(old(self).milestones(), milestone_id@) ==> r is Err && r->Err_0 is NotFound
                && final(self).milestones() == old(self).milestones() && final(self).contracts()
                == old(self).contracts(),
            has_milestone(old(self).milestones(), milestone_id@) ==> {
                let k = milestone_pos(old(self).milestones(), milestone_id@);
                let m = old(self).milestones()[k];
                let ms2 = old(self).milestones().update(k, reviewed(m, accepted, now));
                &&& m.status != MilestoneStatus::Submitted ==> r is Err && r->Err_0 is ValidationError
                    && final(self).milestones() == old(self).milestones() && final(self).contracts()
                    == old(self).contracts()
                &&& m.status == MilestoneStatus::Submitted ==> {
                    &&& r is Ok && milestone_view(r->Ok_0) == reviewed(m, accepted, now)
                    &&& final(self).milestones() == ms2
                    &&& final(self).contracts() == if accepted && all_accepted(ms2, m.contract_id) {
                        with_contract_status(old(self).contracts(), m.contract_id, ContractStatus::Completed, now)
                    } else {
                        old(self).contracts()
                    }
                }
            },
    {
        let k = match self.find_milestone(milestone_id) {
            Some(k) => k,
            None => {
                return Err(GaggleError::NotFound(String::from_str("Milestone not found")));
            },
        };
        let st = self.milestones[k].status;
        if st != MilestoneStatus::Submitted {
            return Err(
                GaggleError::ValidationError(
                    String::from_str("Milestone must be in submitted state to accept/reject"),
                ),
            );
        }
        let ghost old_ms = self.milestones();
        let mut m = dup_milestone(&self.milestones[k]);
        m.status = if accepted { MilestoneStatus::Accepted } else { MilestoneStatus::Rejected };
        m.accepted_at = if accepted { Some(now) } else { None };
        m.updated_at = now;
        let out = dup_milestone(&m);
        self.milestones.set(k, m);
        proof {
            assert(old_ms[k as int] == milestone_view(old(self).milestones@[k as int]));
            assert(self.milestones() =~= old_ms.update(k as int, milestone_view(out)));
            lemma_update_keeps_exec_wf(self.contracts(), old_ms, k as int, milestone_view(out));
        }
        if accepted {
            let all = self.all_accepted_exec(out.contract_id.as_str());
            if all {
                self.set_contract_status(out.contract_id.as_str(), ContractStatus::Completed, now);
            }
        }
        Ok(out)
    }

    /// Accepts or rejects a milestone now; see `accept_milestone_at`.
    pub fn accept_milestone(&mut self, milestone_id: &str, accepted: bool) -> (r: Result<
        Milestone,
        GaggleError,
    >)
        requires
            old(self).wf(),
        ensures
            final(self).wf(),
            !has_milestone(old(self).milestones(), milestone_id@) ==> r is Err && r->Err_0 is NotFound
                && final(self).milestones() == old(self).milestones() && final(self).contracts()
                == old(self).contracts(),
            has_milestone(old(self).milestones(), milestone_id@) ==> {
                let k = milestone_pos(old(self).milestones(), milestone_id@);
                let m = old(self).milestones()[k];
                &&& m.status != MilestoneStatus::Submitted ==> r is Err && r->Err_0 is ValidationError
                    && final(self).milestones() == old(self).milestones() && final(self).contracts()
                    == old(self).contracts()
                &&& m.status == MilestoneStatus::Submitted ==> r is Ok && exists|now: i64| {
                    let ms2 = old(self).milestones().update(k, reviewed(m, accepted, now));
                    &&& 0 <= now <= MAX_CLOCK_SECONDS
                    &&& milestone_view(r->Ok_0) == #[trigger] reviewed(m, accepted, now)
                    &&& final(self).milestones() == ms2
                    &&& final(self).contracts() == if accepted && all_accepted(ms2, m.contract_id) {
                        with_contract_status(old(self).contracts(), m.contract_id, ContractStatus::Completed, now)
                    } else {
                        old(self).contracts()
                    }
                }
            },
    {
        let now = now_seconds();
        self.accept_milestone_at(milestone_id, accepted, now)
    }

    fn all_accepted_exec(&self, contract_id: &str) -> (r: bool)
        ensures
            r == all_accepted(self.milestones(), contract_id@),
    {
        let ghost ms = self.milestones();
        let mut i: usize = 0;
        while i < self.milestones.len()
            invariant
                0 <= i <= self.milestones@.len(),
                ms == self.milestones(),
                ms.len() == self.milestones@.len(),
                forall|k: int| 0 <= k < i && ms[k].contract_id == contract_id@ ==> #[trigger] ms[k].status
                    == MilestoneStatus::Accepted,
            decreases self.milestones@.len() - i,
        {
            assert(ms[i as int] == milestone_view(self.milestones@[i as int]));
            let m = &self.milestones[i];
            if str_eq(m.contract_id.as_str(), contract_id) && m.status != MilestoneStatus::Accepted {
                assert(ms[i as int].status != MilestoneStatus::Accepted);
                return false;
            }
            i = i + 1;
        }
        true
    }

    fn set_contract_status(&mut self, contract_id: &str, status: ContractStatus, now: i64)
        requires
            old(self).wf(),
        ensures
            final(self).wf(),
            final(self).milestones() == old(self).milestones(),
            final(self).contracts() == with_contract_status(old(self).contracts(), contract_id@, status, now),
    {
        let ghost cs = self.contracts();
        let n = self.contracts.len();
        let mut i: usize = 0;
        while i < n
            invariant
                0 <= i <= n,
                n == self.contracts@.len(),
                cs.len() == n,
                cs == old(self).contracts(),
                self.milestones@ == old(self).milestones@,
                forall|j: int| 0 <= j < i ==> #[trigger] self.contracts@[j].view() == (if cs[j].id == contract_id@ {
                    ContractRecord { status, updated_at: now, ..cs[j] }
                } else {
                    cs[j]
                }),
                forall|j: int| i <= j < n ==> #[trigger] self.contracts@[j].view() == cs[j],
            decreases n - i,
        {
            if str_eq(self.contracts[i].id.as_str(), contract_id) {
                let mut c = self.contracts[i].duplicate();
                c.status = status;
                c.updated_at = now;
                self.contracts.set(i, c);
            }
            i = i + 1;
        }
        proof {
            let new_cs = self.contracts();
            assert(new_cs =~= with_contract_status(cs, contract_id@, status, now));
            let ms = self.milestones();
            assert(ms == old(self).milestones());
            assert forall|a: int, b: int| 0 <= a < b < new_cs.len() implies (#[trigger] new_cs[a]).id != (#[trigger] new_cs[b]).id
                && new_cs[a].space_id != new_cs[b].space_id by {
                assert(new_cs[a].id == cs[a].id && new_cs[b].id == cs[b].id);
                assert(new_cs[a].space_id == cs[a].space_id && new_cs[b].space_id == cs[b].space_id);
            }
            assert forall|k: int| 0 <= k < ms.len() implies has_contract(new_cs, (#[trigger] ms[k]).contract_id) by {
                let q = choose|q: int| 0 <= q < cs.len() && cs[q].id == ms[k].contract_id;
                assert(new_cs[q].id == cs[q].id);
            }
        }
    }

    /// Puts contract `contract_id` under dispute at `now` and returns it; a
    /// missing contract is NotFound.
    pub fn dispute_contract_at(&mut self, contract_id: &str, now: i64) -> (r: Result<Contract, GaggleError>)
        requires
            old(self).wf(),
        ensures
            final(self).wf(),
            final(self).milestones() == old(self).milestones(),
            final(self).contracts() == with_contract_status(old(self).contracts(), contract_id@, ContractStatus::Disputed, now),
            r is Ok <==> has_contract(old(self).contracts(), contract_id@),
            r matches Err(e) ==> e is NotFound,
            r matches Ok(c) ==> contract_is(
                c,
                ContractRecord {
                    status: ContractStatus::Disputed,
                    updated_at: now,
                    ..contract_with_id(old(self).contracts(), contract_id@)
                },
                milestones_of(old(self).milestones(), contract_id@),
            ),
    {
        let ghost old_cs = self.contracts();
        self.set_contract_status(contract_id, ContractStatus::Disputed, now);
        match self.find_contract(contract_id) {
            Some(k) => {
                proof {
                    let cs = self.contracts();
                    let q = choose|q: int| 0 <= q < old_cs.len() && old_cs[q].id == contract_id@;
                    assert(cs[q].id == contract_id@);
                    let k2 = choose|k2: int| 0 <= k2 < cs.len() && cs[k2].id == contract_id@;
                    let q2 = choose|q2: int| 0 <= q2 < old_cs.len() && old_cs[q2].id == contract_id@;
                    if k2 != q2 {
                        assert(cs[k2].id == old_cs[k2].id);
                        if k2 < q2 {
                            assert(old_cs[k2].id != old_cs[q2].id);
                        } else {
                            assert(old_cs[q2].id != old_cs[k2].id);
                        }
                    }
                }
                Ok(self.contract_at(k))
            },
            None => {
                proof {
                    if has_contract(old_cs, contract_id@) {
                        let q = choose|q: int| 0 <= q < old_cs.len() && old_cs[q].id == contract_id@;
                        assert(self.contracts()[q].id == contract_id@);
                    }
                }
                Err(GaggleError::NotFound(String::from_str("Contract not found")))
            },
        }
    }

    /// Puts a contract under dispute now; see `dispute_contract_at`.
    pub fn dispute_contract(&mut self, contract_id: &str) -> (r: Result<Contract, GaggleError>)
        requires
            old(self).wf(),
        ensures
            final(self).wf(),
            final(self).milestones() == old(self).milestones(),
            r is Ok <==> has_contract(old(self).contracts(), contract_id@),
            r matches Err(e) ==> e is NotFound,
            exists|now: i64|
                0 <= now <= MAX_CLOCK_SECONDS && final(self).contracts() == #[trigger] with_contract_status(
                    old(self).contracts(),
                    contract_id@,
                    ContractStatus::Disputed,
                    now,
                ) && (r is Ok ==> contract_is(
                    r->Ok_0,
                    ContractRecord {
                        status: ContractStatus::Disputed,
                        updated_at: now,
                        ..contract_with_id(old(self).contracts(), contract_id@)
                    },
                    milestones_of(old(self).milestones(), contract_id@),
                )),
    {
        let now = now_seconds();
        self.dispute_contract_at(contract_id, now)
    }
}

/// Replacing one milestone by one with the same id and contract keeps the invariant.
proof fn lemma_update_keeps_exec_wf(cs: Seq<ContractRecord>, ms: Seq<MilestoneRecord>, k: int, m: MilestoneRecord)
    requires
        exec_wf(cs, ms),
        0 <= k < ms.len(),
        m.id == ms[k].id,
        m.contract_id == ms[k].contract_id,
    ensures
        exec_wf(cs, ms.update(k, m)),
{
    let ms2 = ms.update(k, m);
    assert forall|a: int, b: int| 0 <= a < b < ms2.len() implies (#[trigger] ms2[a]).id != (#[trigger] ms2[b]).id by {
        assert(ms2[a].id == ms[a].id && ms2[b].id == ms[b].id);
    }
    assert forall|q: int| 0 <= q < ms2.len() implies has_contract(cs, (#[trigger] ms2[q]).contract_id) by {
        assert(ms2[q].contract_id == ms[q].contract_id);
    }
}

/// When nothing of `a` is selected, selecting from `a + b` selects from `b` only.
proof fn lemma_keep_append_all(a: Seq<MilestoneRecord>, b: Seq<MilestoneRecord>, p: spec_fn(MilestoneRecord) -> bool)
    requires
        keep(a, p).len() == 0,
        forall|i: int| 0 <= i < b.len() ==> p(#[trigger] b[i]),
    ensures
        keep(a + b, p) == b,
    decreases b.len(),
{
    if b.len() == 0 {
        assert(a + b =~= a);
    } else {
        let b0 = b.drop_last();
        assert forall|i: int| 0 <= i < b0.len() implies p(#[trigger] b0[i]) by {
            assert(b0[i] == b[i]);
        }
        lemma_keep_append_all(a, b0, p);
        assert(a + b =~= (a + b0).push(b.last()));
        crate::seqs::lemma_keep_push(a + b0, b.last(), p);
        assert(b0.push(b.last()) =~= b);
    }
}

} // verus!
