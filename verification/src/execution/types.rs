//! The contract and milestone types.

use vstd::prelude::*;
use crate::text::str_eq;

verus! {

/// The state of a contract.
#[derive(Debug, Clone, Copy, PartialEq, Eq, Structural)]
pub enum ContractStatus {
    /// Being executed.
    Active,
    /// Every milestone accepted.
    Completed,
    /// Under dispute.
    Disputed,
    Cancelled,
    Expired,
}

/// The stored name of a contract status.
pub open spec fn contract_status_name(s: ContractStatus) -> Seq<char> {
    match s {
        ContractStatus::Active => "active"@,
        ContractStatus::Completed => "completed"@,
        ContractStatus::Disputed => "disputed"@,
        ContractStatus::Cancelled => "cancelled"@,
        ContractStatus::Expired => "expired"@,
    }
}

/// The contract status a stored name stands for, if any.
pub open spec fn contract_status_of(s: Seq<char>) -> Option<ContractStatus> {
    if s == "active"@ {
        Some(ContractStatus::Active)
    } else if s == "completed"@ {
        Some(ContractStatus::Completed)
    } else if s == "disputed"@ {
        Some(ContractStatus::Disputed)
    } else if s == "cancelled"@ {
        Some(ContractStatus::Cancelled)
    } else if s == "expired"@ {
        Some(ContractStatus::Expired)
    } else {
        None
    }
}

impl ContractStatus {
    /// The stored name of the status.
    pub fn as_str(&self) -> (r: &'static str)
        ensures
            r@ == contract_status_name(*self),
    {
        match self {
            ContractStatus::Active => "active",
            ContractStatus::Completed => "completed",
            ContractStatus::Disputed => "disputed",
            ContractStatus::Cancelled => "cancelled",
            ContractStatus::Expired => "expired",
        }
    }

    /// The status a stored name stands for, if any.
    pub fn from_str(s: &str) -> (r: Option<ContractStatus>)
        ensures
            r == contract_status_of(s@),
    {
        if str_eq(s, "active") {
            Some(ContractStatus::Active)
        } else if str_eq(s, "completed") {
            Some(ContractStatus::Completed)
        } else if str_eq(s, "disputed") {
            Some(ContractStatus::Disputed)
        } else if str_eq(s, "cancelled") {
            Some(ContractStatus::Cancelled)
        } else if str_eq(s, "expired") {
            Some(ContractStatus::Expired)
        } else {
            None
        }
    }
}

/// The state of a milestone.
#[derive(Debug, Clone, Copy, PartialEq, Eq, Structural)]
pub enum MilestoneStatus {
    /// Awaiting delivery.
    Pending,
    /// Delivered by the seller.
    Submitted,
    /// Accepted by the buyer.
    Accepted,
    /// Rejected by the buyer; to be submitted again.
    Rejected,
    /// Under dispute.
    Disputed,
}

/// The stored name of a milestone status.
pub open spec fn milestone_status_name(s: MilestoneStatus) -> Seq<char> {
    match s {
        MilestoneStatus::Pending => "pending"@,
        MilestoneStatus::Submitted => "submitted"@,
        MilestoneStatus::Accepted => "accepted"@,
        MilestoneStatus::Rejected => "rejected"@,
        MilestoneStatus::Disputed => "disputed"@,
    }
}

/// The milestone status a stored name stands for, if any.
pub open spec fn milestone_status_of(s: Seq<char>) -> Option<MilestoneStatus> {
    if s == "pending"@ {
        Some(MilestoneStatus::Pending)
    } else if s == "submitted"@ {
        Some(MilestoneStatus::Submitted)
    } else if s == "accepted"@ {
        Some(MilestoneStatus::Accepted)
    } else if s == "rejected"@ {
        Some(MilestoneStatus::Rejected)
    } else if s == "disputed"@ {
        Some(MilestoneStatus::Disputed)
    } else {
        None
    }
}

impl MilestoneStatus {
    /// The stored name of the status.
    pub fn as_str(&self) -> (r: &'static str)
        ensures
            r@ == milestone_status_name(*self),
    {
        match self {
            MilestoneStatus::Pending => "pending",
            MilestoneStatus::Submitted => "submitted",
            MilestoneStatus::Accepted => "accepted",
            MilestoneStatus::Rejected => "rejected",
            MilestoneStatus::Disputed => "disputed",
        }
    }

    /// The status a stored name stands for, if any.
    pub fn from_str(s: &str) -> (r: Option<MilestoneStatus>)
        ensures
            r == milestone_status_of(s@),
    {
        if str_eq(s, "pending") {
            Some(MilestoneStatus::Pending)
        } else if str_eq(s, "submitted") {
            Some(MilestoneStatus::Submitted)
        } else if str_eq(s, "accepted") {
            Some(MilestoneStatus::Accepted)
        } else if str_eq(s, "rejected") {
            Some(MilestoneStatus::Rejected)
        } else if str_eq(s, "disputed") {
            Some(MilestoneStatus::Disputed)
        } else {
            None
        }
    }
}

/// Every contract status's stored name reads back as that status.
pub proof fn law_contract_status_round_trip(s: ContractStatus)
    ensures
        contract_status_of(contract_status_name(s)) == Some(s),
{
    reveal_strlit("active");
    reveal_strlit("completed");
    reveal_strlit("disputed");
    reveal_strlit("cancelled");
    reveal_strlit("expired");
    assert("active"@.len() == 6);
    assert("completed"@.len() == 9);
    assert("disputed"@.len() == 8);
    assert("cancelled"@.len() == 9);
    assert("expired"@.len() == 7);
    assert("completed"@[1] != "cancelled"@[1]);
}

/// Every milestone status's stored name reads back as that status.
pub proof fn law_milestone_status_round_trip(s: MilestoneStatus)
    ensures
        milestone_status_of(milestone_status_name(s)) == Some(s),
{
    reveal_strlit("pending");
    reveal_strlit("submitted");
    reveal_strlit("accepted");
    reveal_strlit("rejected");
    reveal_strlit("disputed");
    assert("pending"@.len() == 7);
    assert("submitted"@.len() == 9);
    assert("accepted"@.len() == 8);
    assert("rejected"@.len() == 8);
    assert("disputed"@.len() == 8);
    assert("accepted"@[0] != "rejected"@[0]);
    assert("accepted"@[0] != "disputed"@[0]);
    assert("rejected"@[0] != "disputed"@[0]);
}

/// A contract, with its milestones. `terms` is the agreed terms as JSON text.
#[derive(Debug)]
pub struct Contract {
    pub id: String,
    pub space_id: String,
    pub buyer_id: String,
    pub seller_id: String,
    pub terms: String,
    pub milestones: Vec<Milestone>,
    pub status: ContractStatus,
    pub deadline: Option<i64>,
    pub created_at: i64,
    pub updated_at: i64,
}

/// A milestone. `amount_bits` is the IEEE-754 bit pattern of the amount.
#[derive(Debug)]
pub struct Milestone {
    pub id: String,
    pub contract_id: String,
    pub title: String,
    pub description: Option<String>,
    pub status: MilestoneStatus,
    pub deliverable_url: Option<String>,
    pub amount_bits: Option<u64>,
    pub due_date: Option<i64>,
    pub submitted_at: Option<i64>,
    pub accepted_at: Option<i64>,
    pub created_at: i64,
    pub updated_at: i64,
}

/// A request to create a contract with milestones.
#[derive(Debug)]
pub struct CreateContractRequest {
    pub milestones: Vec<CreateMilestoneRequest>,
}

/// One milestone of a contract to be created.
#[derive(Debug)]
pub struct CreateMilestoneRequest {
    pub title: String,
    pub description: Option<String>,
    pub amount_bits: Option<u64>,
    pub due_date: Option<i64>,
}

/// A request to submit a milestone's deliverable.
#[derive(Debug)]
pub struct SubmitMilestoneRequest {
    pub deliverable_url: String,
}

/// A request to accept (`accepted`) or reject a submitted milestone.
#[derive(Debug)]
pub struct AcceptMilestoneRequest {
    pub accepted: bool,
    pub comment: Option<String>,
}

/// A request to dispute a contract.
#[derive(Debug)]
pub struct DisputeContractRequest {
    pub reason: String,
}

} // verus!
