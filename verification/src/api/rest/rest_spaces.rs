//! The space endpoints' rules that stand apart from the negotiation engine:
//! message paging, join decisions, turning a need into a request for
//! proposals, and the contract that a concluded space's final terms call for.

use vstd::prelude::*;
use vstd::string::*;
use crate::discovery::types::{Need, NeedStatus};
use crate::error::GaggleError;
use crate::execution::store::{drafts_of, MilestoneDraft};
use crate::execution::types::{CreateContractRequest, CreateMilestoneRequest};
use crate::seqs::{keep, lemma_keep_take_step, lemma_take_full};
use crate::text::{clone_opt_string, opt_string_view, str_eq};

verus! {

/// The query of the message listing.
pub struct MessagesQuery {
    pub after: Option<i64>,
    pub limit: Option<u32>,
}

/// How many messages a listing returns: 200 unless asked, at most 1000.
pub open spec fn messages_limit(q: MessagesQuery) -> u32 {
    match q.limit {
        Some(l) => if l > 1000 {
            1000
        } else {
            l
        },
        None => 200,
    }
}

impl MessagesQuery {
    /// How many messages the listing returns; see `messages_limit`.
    pub fn effective_limit(&self) -> (r: u32)
        ensures
            r == messages_limit(*self),
    {
        match self.limit {
            Some(l) => if l > 1000 { 1000 } else { l },
            None => 200,
        }
    }
}

/// Approves an agent's request to join a space.
pub struct RestJoinApproveRequest {
    pub agent_id: String,
}

/// Rejects an agent's request to join a space.
pub struct RestJoinRejectRequest {
    pub agent_id: String,
}

/// Turns a need into a request for proposals to the given providers.
pub struct RestNeedToRfpRequest {
    pub provider_ids: Vec<String>,
    pub allowed_rounds: Option<u32>,
    pub evaluation_criteria: Option<Vec<String>>,
    pub deadline: Option<i64>,
    pub share_best_terms: Option<bool>,
}

/// The name `{:?}` gives a need status.
pub open spec fn need_status_debug(s: NeedStatus) -> Seq<char> {
    match s {
        NeedStatus::Open => "Open"@,
        NeedStatus::Matched => "Matched"@,
        NeedStatus::Expired => "Expired"@,
        NeedStatus::Cancelled => "Cancelled"@,
    }
}

fn need_status_debug_str(s: NeedStatus) -> (r: &'static str)
    ensures
        r@ == need_status_debug(s),
{
    match s {
        NeedStatus::Open => "Open",
        NeedStatus::Matched => "Matched",
        NeedStatus::Expired => "Expired",
        NeedStatus::Cancelled => "Cancelled",
    }
}

/// Whether agent `agent_id` may turn need `need` into a request for
/// proposals: a missing need is NotFound, a need of another agent is
/// Forbidden, a need that is not open is a ValidationError.
pub fn check_need_to_rfp(need: Option<&Need>, need_id: &str, agent_id: &str) -> (r: Result<(), GaggleError>)
    ensures
        need is None ==> r is Err && r->Err_0 is NotFound,
        need matches Some(n) ==> {
            &&& n.creator_id@ != agent_id@ ==> r is Err && r->Err_0 is Forbidden
            &&& n.creator_id@ == agent_id@ && n.status != NeedStatus::Open ==> r is Err && r->Err_0
                == GaggleError::ValidationError(r->Err_0->ValidationError_0) && r->Err_0->ValidationError_0@
                == "Need is not open (status: "@ + need_status_debug(n.status) + ")"@
            &&& n.creator_id@ == agent_id@ && n.status == NeedStatus::Open ==> r is Ok
        },
{
    let n = match need {
        Some(n) => n,
        None => {
            let mut m = String::from_str("Need not found: ");
            m.append(need_id);
            return Err(GaggleError::NotFound(m));
        },
    };
    if !str_eq(n.creator_id.as_str(), agent_id) {
        return Err(GaggleError::Forbidden(String::from_str("Only the need creator can create RFP")));
    }
    if n.status != NeedStatus::Open {
        let mut m = String::from_str("Need is not open (status: ");
        m.append(need_status_debug_str(n.status));
        m.append(")");
        return Err(GaggleError::ValidationError(m));
    }
    Ok(())
}

/// The name of the request for proposals made from a need titled `title`.
pub fn rfp_name(title: &str) -> (r: String)
    ensures
        r@ == "RFP: "@ + title@,
{
    let mut s = String::from_str("RFP: ");
    s.append(title);
    s
}

/// One entry of the `milestones` array of a space's final terms, as far as
/// it holds values of the right kind: a `title` that is text, a
/// `description` that is text, an `amount` that is a number (its IEEE-754
/// bits) and a `due_date` that is an integer.
#[derive(Debug)]
pub struct TermsMilestone {
    pub title: Option<String>,
    pub description: Option<String>,
    pub amount_bits: Option<u64>,
    pub due_date: Option<i64>,
}

/// The entries that make milestones: those with a title.
pub open spec fn has_title() -> spec_fn(TermsMilestone) -> bool {
    |e: TermsMilestone| e.title is Some
}

/// The milestone an entry with a title makes.
pub open spec fn entry_draft(e: TermsMilestone) -> MilestoneDraft {
    MilestoneDraft {
        title: e.title->Some_0@,
        description: opt_string_view(e.description),
        amount_bits: e.amount_bits,
        due_date: e.due_date,
    }
}

/// The milestones that entries `ms` make, in order.
pub open spec fn terms_drafts(ms: Seq<TermsMilestone>) -> Seq<MilestoneDraft> {
    keep(ms, has_title()).map_values(|e: TermsMilestone| entry_draft(e))
}

/// The contract that closing a space with `conclusion` and final terms whose
/// `milestones` are `ms` calls for: one only when the space is concluded and
/// at least one entry has a title, with a milestone for each such entry.
pub open spec fn closing_contract(conclusion: Seq<char>, ms: Option<Seq<TermsMilestone>>) -> Option<
    Seq<MilestoneDraft>,
> {
    match ms {
        Some(m) => if conclusion == "concluded"@ && terms_drafts(m).len() > 0 {
            Some(terms_drafts(m))
        } else {
            None
        },
        None => None,
    }
}

/// The request for the contract that closing a space calls for; see
/// `closing_contract`.
pub fn contract_from_terms(conclusion: &str, milestones: &Option<Vec<TermsMilestone>>) -> (r: Option<
    CreateContractRequest,
>)
    ensures
        match closing_contract(
            conclusion@,
            match milestones {
                Some(v) => Some(v@),
                None => None,
            },
        ) {
            None => r is None,
            Some(d) => r is Some && drafts_of(r->Some_0) == d,
        },
{
    if !str_eq(conclusion, "concluded") {
        return None;
    }
    let ms = match milestones {
        Some(v) => v,
        None => {
            return None;
        },
    };
    let ghost p = has_title();
    let mut out: Vec<CreateMilestoneRequest> = Vec::new();
    let mut i: usize = 0;
    while i < ms.len()
        invariant
            0 <= i <= ms@.len(),
            p == has_title(),
            out@.map_values(|m: CreateMilestoneRequest| crate::execution::store::draft_view(m)) == keep(
                ms@.take(i as int),
                p,
            ).map_values(|e: TermsMilestone| entry_draft(e)),
        decreases ms@.len() - i,
    {
        proof {
            lemma_keep_take_step(ms@, i as int, p);
        }
        let e = &ms[i];
        match &e.title {
            Some(t) => {
                let ghost before = out@;
                out.push(
                    CreateMilestoneRequest {
                        title: t.clone(),
                        description: clone_opt_string(&e.description),
                        amount_bits: e.amount_bits,
                        due_date: e.due_date,
                    },
                );
                proof {
                    let k = keep(ms@.take(i as int), p);
                    assert(k.push(ms@[i as int]).map_values(|e: TermsMilestone| entry_draft(e)) =~= k.map_values(
                        |e: TermsMilestone| entry_draft(e),
                    ).push(entry_draft(ms@[i as int])));
                    assert(out@.map_values(|m: CreateMilestoneRequest| crate::execution::store::draft_view(m))
                        =~= before.map_values(|m: CreateMilestoneRequest| crate::execution::store::draft_view(m)).push(
                        entry_draft(ms@[i as int]),
                    ));
                }
            },
            None => {},
        }
        i = i + 1;
    }
    proof {
        lemma_take_full(ms@);
    }
    if out.len() == 0 {
        return None;
    }
    Some(CreateContractRequest { milestones: out })
}

} // verus!
