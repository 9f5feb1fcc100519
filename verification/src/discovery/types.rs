//! The discovery types: provider profiles, needs and their states.

use vstd::prelude::*;
use crate::text::str_eq;

verus! {

/// What a provider can do.
#[derive(Debug, Clone)]
pub struct ProviderCapabilities {
    /// Its category.
    pub category: String,
    /// Free-form tags.
    pub tags: Vec<String>,
}

/// How a provider prices its work.
#[derive(Debug, Clone)]
pub enum PricingModel {
    Fixed,
    Negotiated,
    Custom(String),
    Unknown,
}

impl Default for PricingModel {
    fn default() -> (r: PricingModel)
        ensures
            r is Unknown,
    {
        PricingModel::Unknown
    }
}

/// Whether a provider takes work.
#[derive(Debug, Clone, Copy, PartialEq, Eq, Structural)]
pub enum AvailabilityStatus {
    Available,
    Busy,
    Offline,
    Unknown,
}

impl Default for AvailabilityStatus {
    fn default() -> (r: AvailabilityStatus)
        ensures
            r == AvailabilityStatus::Unknown,
    {
        AvailabilityStatus::Unknown
    }
}

/// The name of an availability status in stored and sent JSON.
pub open spec fn availability_name(s: AvailabilityStatus) -> Seq<char> {
    match s {
        AvailabilityStatus::Available => "available"@,
        AvailabilityStatus::Busy => "busy"@,
        AvailabilityStatus::Offline => "offline"@,
        AvailabilityStatus::Unknown => "unknown"@,
    }
}

impl AvailabilityStatus {
    /// The name of the status in stored and sent JSON.
    pub fn name(&self) -> (r: &'static str)
        ensures
            r@ == availability_name(*self),
    {
        match self {
            AvailabilityStatus::Available => "available",
            AvailabilityStatus::Busy => "busy",
            AvailabilityStatus::Offline => "offline",
            AvailabilityStatus::Unknown => "unknown",
        }
    }
}

/// One page of results, with the total over all pages.
#[derive(Debug)]
pub struct PaginatedResult<T> {
    pub items: Vec<T>,
    pub total: u32,
    pub page: u32,
    pub page_size: u32,
    pub total_pages: u32,
}

/// The state of a need.
#[derive(Debug, Clone, Copy, PartialEq, Eq, Structural)]
pub enum NeedStatus {
    /// Open to responses.
    Open,
    /// Matched; in negotiation.
    Matched,
    /// Past its deadline.
    Expired,
    /// Withdrawn by its creator.
    Cancelled,
}

/// The stored name of a need status.
pub open spec fn need_status_name(s: NeedStatus) -> Seq<char> {
    match s {
        NeedStatus::Open => "open"@,
        NeedStatus::Matched => "matched"@,
        NeedStatus::Expired => "expired"@,
        NeedStatus::Cancelled => "cancelled"@,
    }
}

/// The status a stored name is read as; a name that is not one of the
/// others reads as open.
pub open spec fn need_status_read(s: Seq<char>) -> NeedStatus {
    if s == "matched"@ {
        NeedStatus::Matched
    } else if s == "expired"@ {
        NeedStatus::Expired
    } else if s == "cancelled"@ {
        NeedStatus::Cancelled
    } else {
        NeedStatus::Open
    }
}

impl NeedStatus {
    /// The stored name of the status.
    pub fn as_str(&self) -> (r: &'static str)
        ensures
            r@ == need_status_name(*self),
    {
        match self {
            NeedStatus::Open => "open",
            NeedStatus::Matched => "matched",
            NeedStatus::Expired => "expired",
            NeedStatus::Cancelled => "cancelled",
        }
    }

    /// Reads a stored status name; see `need_status_read`.
    pub fn read(s: &str) -> (r: NeedStatus)
        ensures
            r == need_status_read(s@),
    {
        if str_eq(s, "matched") {
            NeedStatus::Matched
        } else if str_eq(s, "expired") {
            NeedStatus::Expired
        } else if str_eq(s, "cancelled") {
            NeedStatus::Cancelled
        } else {
            NeedStatus::Open
        }
    }
}

/// Every need status's stored name reads back as that status.
pub proof fn law_need_status_round_trip(s: NeedStatus)
    ensures
        need_status_read(need_status_name(s)) == s,
{
    reveal_strlit("open");
    reveal_strlit("matched");
    reveal_strlit("expired");
    reveal_strlit("cancelled");
    assert("open"@.len() == 4);
    assert("matched"@.len() == 7);
    assert("expired"@.len() == 7);
    assert("cancelled"@.len() == 9);
    assert("matched"@[0] != "expired"@[0]);
}

/// A need broadcast by a consumer. The budget bounds are the IEEE-754 bit
/// patterns of the amounts.
#[derive(Debug)]
pub struct Need {
    pub id: String,
    pub creator_id: String,
    pub title: String,
    pub description: String,
    pub category: String,
    pub required_skills: Vec<String>,
    pub budget_min_bits: Option<u64>,
    pub budget_max_bits: Option<u64>,
    /// Unix time in milliseconds.
    pub deadline: Option<i64>,
    pub status: NeedStatus,
    pub created_at: i64,
    pub updated_at: i64,
    pub matched_provider_count: i32,
}

/// A request to publish a need.
#[derive(Debug)]
pub struct PublishNeedRequest {
    pub title: String,
    pub description: String,
    pub category: String,
    pub required_skills: Vec<String>,
    pub budget_min_bits: Option<u64>,
    pub budget_max_bits: Option<u64>,
    pub deadline: Option<i64>,
}

/// A search over needs.
#[derive(Debug)]
pub struct NeedSearchQuery {
    pub category: Option<String>,
    pub skills: Option<String>,
    pub query: Option<String>,
    pub status: Option<String>,
    pub page: Option<u32>,
    pub page_size: Option<u32>,
}

} // verus!
