//! The evidence and market endpoints' values.

use vstd::prelude::*;
use vstd::string::*;
use crate::sys::{now_millis, MAX_CLOCK_MILLIS};
use crate::text::{push_signed_decimal, signed_decimal};

verus! {

/// The record of a piece of evidence: the transaction that anchors it.
pub struct EvidenceResponse {
    pub tx_signature: String,
    pub slot: u64,
    pub confirmed_at: i64,
}

/// The slot reported for simulated evidence.
pub const SIMULATED_SLOT: u64 = 123456789;

/// The signature of simulated evidence of kind `kind` for space `space`, signed at `at`.
pub open spec fn simulated_signature(space: Seq<char>, kind: Seq<char>, at: i64) -> Seq<char> {
    "simulated_tx_"@ + space + "_"@ + kind + "_"@ + signed_decimal(at as int)
}

impl EvidenceResponse {
    /// Simulated evidence of kind `evidence_type` for space `space_id`,
    /// signed at `signed_at` and confirmed at `confirmed_at` (milliseconds).
    pub fn simulated_at(space_id: &str, evidence_type: &str, signed_at: i64, confirmed_at: i64) -> (r:
        EvidenceResponse)
        ensures
            r.tx_signature@ == simulated_signature(space_id@, evidence_type@, signed_at),
            r.slot == SIMULATED_SLOT,
            r.confirmed_at == confirmed_at,
    {
        let mut sig = String::from_str("simulated_tx_");
        sig.append(space_id);
        sig.append("_");
        sig.append(evidence_type);
        sig.append("_");
        push_signed_decimal(&mut sig, signed_at);
        EvidenceResponse { tx_signature: sig, slot: SIMULATED_SLOT, confirmed_at }
    }

    /// Simulated evidence now; see `simulated_at`.
    pub fn simulated(space_id: &str, evidence_type: &str) -> (r: EvidenceResponse)
        ensures
            exists|signed_at: i64|
                0 <= signed_at <= MAX_CLOCK_MILLIS && r.tx_signature@ == #[trigger] simulated_signature(
                    space_id@,
                    evidence_type@,
                    signed_at,
                ),
            0 <= r.confirmed_at <= MAX_CLOCK_MILLIS,
            r.slot == SIMULATED_SLOT,
    {
        let signed_at = now_millis();
        let confirmed_at = now_millis();
        EvidenceResponse::simulated_at(space_id, evidence_type, signed_at, confirmed_at)
    }
}

/// The query of the market price endpoints.
pub struct MarketQueryParams {
    pub period: Option<String>,
}

} // verus!
