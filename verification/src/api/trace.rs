//! The append-only audit trail of everything that happens in a space:
//! who did what, when, and to which target.

use vstd::prelude::*;
use crate::error::GaggleError;
use crate::seqs::{count, keep, lemma_keep_push, lemma_keep_take_step, lemma_take_full};
use crate::sys::{now_millis, MAX_CLOCK_MILLIS};
use crate::text::str_eq;
use vstd::string::*;

verus! {

/// The kinds of action the audit trail records.
#[derive(Debug, Clone, Copy, PartialEq, Eq, Structural)]
pub enum AuditAction {
    // negotiation core
    SpaceCreated,
    SpaceJoined,
    SpaceLeft,
    SpaceClosed,
    SpaceStatusTransition,
    MessageSent,
    ProposalSubmitted,
    ProposalResponded,
    BestTermsShared,
    RoundAdvanced,
    // shared reality
    StateSet,
    StateDeleted,
    // execution
    ContractCreated,
    MilestoneSubmitted,
    MilestoneAccepted,
    // institutions
    RulesUpdated,
    CoalitionCreated,
    CoalitionJoined,
    CoalitionLeft,
    DelegationCreated,
    DelegationRevoked,
    RecruitmentCreated,
    RecruitmentAccepted,
    // requests for proposals
    RfpCreated,
    ProposalsEvaluated,
    // security and verification
    RuleCheckDenied,
    ChainVerified,
}

/// The category of an action, for filtering.
#[derive(Debug, Clone, Copy, PartialEq, Eq, Structural)]
pub enum ActionCategory {
    Negotiation,
    State,
    Execution,
    Institution,
    Security,
}

/// The stored name of an action.
pub open spec fn action_name(a: AuditAction) -> Seq<char> {
    match a {
        AuditAction::SpaceCreated => "space_created"@,
        AuditAction::SpaceJoined => "space_joined"@,
        AuditAction::SpaceLeft => "space_left"@,
        AuditAction::SpaceClosed => "space_closed"@,
        AuditAction::SpaceStatusTransition => "space_status_transition"@,
        AuditAction::MessageSent => "message_sent"@,
        AuditAction::ProposalSubmitted => "proposal_submitted"@,
        AuditAction::ProposalResponded => "proposal_responded"@,
        AuditAction::BestTermsShared => "best_terms_shared"@,
        AuditAction::RoundAdvanced => "round_advanced"@,
        AuditAction::StateSet => "state_set"@,
        AuditAction::StateDeleted => "state_deleted"@,
        AuditAction::ContractCreated => "contract_created"@,
        AuditAction::MilestoneSubmitted => "milestone_submitted"@,
        AuditAction::MilestoneAccepted => "milestone_accepted"@,
        AuditAction::RulesUpdated => "rules_updated"@,
        AuditAction::CoalitionCreated => "coalition_created"@,
        AuditAction::CoalitionJoined => "coalition_joined"@,
        AuditAction::CoalitionLeft => "coalition_left"@,
        AuditAction::DelegationCreated => "delegation_created"@,
        AuditAction::DelegationRevoked => "delegation_revoked"@,
        AuditAction::RecruitmentCreated => "recruitment_created"@,
        AuditAction::RecruitmentAccepted => "recruitment_accepted"@,
        AuditAction::RfpCreated => "rfp_created"@,
        AuditAction::ProposalsEvaluated => "proposals_evaluated"@,
        AuditAction::RuleCheckDenied => "rule_check_denied"@,
        AuditAction::ChainVerified => "chain_verified"@,
    }
}

/// The action a stored name stands for, if any.
pub open spec fn action_of(s: Seq<char>) -> Option<AuditAction> {
    if s == "space_created"@ {
        Some(AuditAction::SpaceCreated)
    } else if s == "space_joined"@ {
        Some(AuditAction::SpaceJoined)
    } else if s == "space_left"@ {
        Some(AuditAction::SpaceLeft)
    } else if s == "space_closed"@ {
        Some(AuditAction::SpaceClosed)
    } else if s == "space_status_transition"@ {
        Some(AuditAction::SpaceStatusTransition)
    } else if s == "message_sent"@ {
        Some(AuditAction::MessageSent)
    } else if s == "proposal_submitted"@ {
        Some(AuditAction::ProposalSubmitted)
    } else if s == "proposal_responded"@ {
        Some(AuditAction::ProposalResponded)
    } else if s == "best_terms_shared"@ {
        Some(AuditAction::BestTermsShared)
    } else if s == "round_advanced"@ {
        Some(AuditAction::RoundAdvanced)
    } else if s == "state_set"@ {
        Some(AuditAction::StateSet)
    } else if s == "state_deleted"@ {
        Some(AuditAction::StateDeleted)
    } else if s == "contract_created"@ {
        Some(AuditAction::ContractCreated)
    } else if s == "milestone_submitted"@ {
        Some(AuditAction::MilestoneSubmitted)
    } else if s == "milestone_accepted"@ {
        Some(AuditAction::MilestoneAccepted)
    } else if s == "rules_updated"@ {
        Some(AuditAction::RulesUpdated)
    } else if s == "coalition_created"@ {
        Some(AuditAction::CoalitionCreated)
    } else if s == "coalition_joined"@ {
        Some(AuditAction::CoalitionJoined)
    } else if s == "coalition_left"@ {
        Some(AuditAction::CoalitionLeft)
    } else if s == "delegation_created"@ {
        Some(AuditAction::DelegationCreated)
    } else if s == "delegation_revoked"@ {
        Some(AuditAction::DelegationRevoked)
    } else if s == "recruitment_created"@ {
        Some(AuditAction::RecruitmentCreated)
    } else if s == "recruitment_accepted"@ {
        Some(AuditAction::RecruitmentAccepted)
    } else if s == "rfp_created"@ {
        Some(AuditAction::RfpCreated)
    } else if s == "proposals_evaluated"@ {
        Some(AuditAction::ProposalsEvaluated)
    } else if s == "rule_check_denied"@ {
        Some(AuditAction::RuleCheckDenied)
    } else if s == "chain_verified"@ {
        Some(AuditAction::ChainVerified)
    } else {
        None
    }
}

/// The category of an action.
pub open spec fn action_category(a: AuditAction) -> ActionCategory {
    match a {
        AuditAction::SpaceCreated => ActionCategory::Negotiation,
        AuditAction::SpaceJoined => ActionCategory::Negotiation,
        AuditAction::SpaceLeft => ActionCategory::Negotiation,
        AuditAction::SpaceClosed => ActionCategory::Negotiation,
        AuditAction::SpaceStatusTransition => ActionCategory::Negotiation,
        AuditAction::MessageSent => ActionCategory::Negotiation,
        AuditAction::ProposalSubmitted => ActionCategory::Negotiation,
        AuditAction::ProposalResponded => ActionCategory::Negotiation,
        AuditAction::BestTermsShared => ActionCategory::Negotiation,
        AuditAction::RoundAdvanced => ActionCategory::Negotiation,
        AuditAction::StateSet => ActionCategory::State,
        AuditAction::StateDeleted => ActionCategory::State,
        AuditAction::ContractCreated => ActionCategory::Execution,
        AuditAction::MilestoneSubmitted => ActionCategory::Execution,
        AuditAction::MilestoneAccepted => ActionCategory::Execution,
        AuditAction::RulesUpdated => ActionCategory::Institution,
        AuditAction::CoalitionCreated => ActionCategory::Institution,
        AuditAction::CoalitionJoined => ActionCategory::Institution,
        AuditAction::CoalitionLeft => ActionCategory::Institution,
        AuditAction::DelegationCreated => ActionCategory::Institution,
        AuditAction::DelegationRevoked => ActionCategory::Institution,
        AuditAction::RecruitmentCreated => ActionCategory::Institution,
        AuditAction::RecruitmentAccepted => ActionCategory::Institution,
        AuditAction::RfpCreated => ActionCategory::Negotiation,
        AuditAction::ProposalsEvaluated => ActionCategory::Negotiation,
        AuditAction::RuleCheckDenied => ActionCategory::Security,
        AuditAction::ChainVerified => ActionCategory::Security,
    }
}

/// The name of a category, as it is reported.
pub open spec fn category_name(c: ActionCategory) -> Seq<char> {
    match c {
        ActionCategory::Negotiation => "negotiation"@,
        ActionCategory::State => "state"@,
        ActionCategory::Execution => "execution"@,
        ActionCategory::Institution => "institution"@,
        ActionCategory::Security => "security"@,
    }
}

impl AuditAction {
    /// The stored name of the action.
    pub fn as_str(&self) -> (r: &'static str)
        ensures
            r@ == action_name(*self),
    {
        match self {
            AuditAction::SpaceCreated => "space_created",
            AuditAction::SpaceJoined => "space_joined",
            AuditAction::SpaceLeft => "space_left",
            AuditAction::SpaceClosed => "space_closed",
            AuditAction::SpaceStatusTransition => "space_status_transition",
            AuditAction::MessageSent => "message_sent",
            AuditAction::ProposalSubmitted => "proposal_submitted",
            AuditAction::ProposalResponded => "proposal_responded",
            AuditAction::BestTermsShared => "best_terms_shared",
            AuditAction::RoundAdvanced => "round_advanced",
            AuditAction::StateSet => "state_set",
            AuditAction::StateDeleted => "state_deleted",
            AuditAction::ContractCreated => "contract_created",
            AuditAction::MilestoneSubmitted => "milestone_submitted",
            AuditAction::MilestoneAccepted => "milestone_accepted",
            AuditAction::RulesUpdated => "rules_updated",
            AuditAction::CoalitionCreated => "coalition_created",
            AuditAction::CoalitionJoined => "coalition_joined",
            AuditAction::CoalitionLeft => "coalition_left",
            AuditAction::DelegationCreated => "delegation_created",
            AuditAction::DelegationRevoked => "delegation_revoked",
            AuditAction::RecruitmentCreated => "recruitment_created",
            AuditAction::RecruitmentAccepted => "recruitment_accepted",
            AuditAction::RfpCreated => "rfp_created",
            AuditAction::ProposalsEvaluated => "proposals_evaluated",
            AuditAction::RuleCheckDenied => "rule_check_denied",
            AuditAction::ChainVerified => "chain_verified",
        }
    }

    /// The category of the action.
    pub fn category(&self) -> (r: ActionCategory)
        ensures
            r == action_category(*self),
    {
        match self {
            AuditAction::SpaceCreated => ActionCategory::Negotiation,
            AuditAction::SpaceJoined => ActionCategory::Negotiation,
            AuditAction::SpaceLeft => ActionCategory::Negotiation,
            AuditAction::SpaceClosed => ActionCategory::Negotiation,
            AuditAction::SpaceStatusTransition => ActionCategory::Negotiation,
            AuditAction::MessageSent => ActionCategory::Negotiation,
            AuditAction::ProposalSubmitted => ActionCategory::Negotiation,
            AuditAction::ProposalResponded => ActionCategory::Negotiation,
            AuditAction::BestTermsShared => ActionCategory::Negotiation,
            AuditAction::RoundAdvanced => ActionCategory::Negotiation,
            AuditAction::StateSet => ActionCategory::State,
            AuditAction::StateDeleted => ActionCategory::State,
            AuditAction::ContractCreated => ActionCategory::Execution,
            AuditAction::MilestoneSubmitted => ActionCategory::Execution,
            AuditAction::MilestoneAccepted => ActionCategory::Execution,
            AuditAction::RulesUpdated => ActionCategory::Institution,
            AuditAction::CoalitionCreated => ActionCategory::Institution,
            AuditAction::CoalitionJoined => ActionCategory::Institution,
            AuditAction::CoalitionLeft => ActionCategory::Institution,
            AuditAction::DelegationCreated => ActionCategory::Institution,
            AuditAction::DelegationRevoked => ActionCategory::Institution,
            AuditAction::RecruitmentCreated => ActionCategory::Institution,
            AuditAction::RecruitmentAccepted => ActionCategory::Institution,
            AuditAction::RfpCreated => ActionCategory::Negotiation,
            AuditAction::ProposalsEvaluated => ActionCategory::Negotiation,
            AuditAction::RuleCheckDenied => ActionCategory::Security,
            AuditAction::ChainVerified => ActionCategory::Security,
        }
    }

    /// The action a stored name stands for, if any.
    pub fn from_str(s: &str) -> (r: Option<AuditAction>)
        ensures
            r == action_of(s@),
    {
        if str_eq(s, "space_created") {
            Some(AuditAction::SpaceCreated)
        } else if str_eq(s, "space_joined") {
            Some(AuditAction::SpaceJoined)
        } else if str_eq(s, "space_left") {
            Some(AuditAction::SpaceLeft)
        } else if str_eq(s, "space_closed") {
            Some(AuditAction::SpaceClosed)
        } else if str_eq(s, "space_status_transition") {
            Some(AuditAction::SpaceStatusTransition)
        } else if str_eq(s, "message_sent") {
            Some(AuditAction::MessageSent)
        } else if str_eq(s, "proposal_submitted") {
            Some(AuditAction::ProposalSubmitted)
        } else if str_eq(s, "proposal_responded") {
            Some(AuditAction::ProposalResponded)
        } else if str_eq(s, "best_terms_shared") {
            Some(AuditAction::BestTermsShared)
        } else if str_eq(s, "round_advanced") {
            Some(AuditAction::RoundAdvanced)
        } else if str_eq(s, "state_set") {
            Some(AuditAction::StateSet)
        } else if str_eq(s, "state_deleted") {
            Some(AuditAction::StateDeleted)
        } else if str_eq(s, "contract_created") {
            Some(AuditAction::ContractCreated)
        } else if str_eq(s, "milestone_submitted") {
            Some(AuditAction::MilestoneSubmitted)
        } else if str_eq(s, "milestone_accepted") {
            Some(AuditAction::MilestoneAccepted)
        } else if str_eq(s, "rules_updated") {
            Some(AuditAction::RulesUpdated)
        } else if str_eq(s, "coalition_created") {
            Some(AuditAction::CoalitionCreated)
        } else if str_eq(s, "coalition_joined") {
            Some(AuditAction::CoalitionJoined)
        } else if str_eq(s, "coalition_left") {
            Some(AuditAction::CoalitionLeft)
        } else if str_eq(s, "delegation_created") {
            Some(AuditAction::DelegationCreated)
        } else if str_eq(s, "delegation_revoked") {
            Some(AuditAction::DelegationRevoked)
        } else if str_eq(s, "recruitment_created") {
            Some(AuditAction::RecruitmentCreated)
        } else if str_eq(s, "recruitment_accepted") {
            Some(AuditAction::RecruitmentAccepted)
        } else if str_eq(s, "rfp_created") {
            Some(AuditAction::RfpCreated)
        } else if str_eq(s, "proposals_evaluated") {
            Some(AuditAction::ProposalsEvaluated)
        } else if str_eq(s, "rule_check_denied") {
            Some(AuditAction::RuleCheckDenied)
        } else if str_eq(s, "chain_verified") {
            Some(AuditAction::ChainVerified)
        } else {
            None
        }
    }
}

impl ActionCategory {
    /// The name of the category, as it is reported.
    pub fn as_str(&self) -> (r: &'static str)
        ensures
            r@ == category_name(*self),
    {
        match self {
            ActionCategory::Negotiation => "negotiation",
            ActionCategory::State => "state",
            ActionCategory::Execution => "execution",
            ActionCategory::Institution => "institution",
            ActionCategory::Security => "security",
        }
    }
}

/// Every action's stored name reads back as that action, so distinct actions
/// have distinct names.
pub proof fn law_action_name_round_trip(a: AuditAction)
    ensures
        action_of(action_name(a)) == Some(a),
{
    match a {
        AuditAction::SpaceCreated => {
            reveal_strlit("space_created");
            assert("space_created"@.len() == 13);
        },
        AuditAction::SpaceJoined => {
            reveal_strlit("space_joined");
            assert("space_joined"@.len() == 12);
            reveal_strlit("space_created");
            assert("space_created"@.len() == 13);
        },
        AuditAction::SpaceLeft => {
            reveal_strlit("space_left");
            assert("space_left"@.len() == 10);
            reveal_strlit("space_created");
            assert("space_created"@.len() == 13);
            reveal_strlit("space_joined");
            assert("space_joined"@.len() == 12);
        },
        AuditAction::SpaceClosed => {
            reveal_strlit("space_closed");
            assert("space_closed"@.len() == 12);
            reveal_strlit("space_created");
            assert("space_created"@.len() == 13);
            reveal_strlit("space_joined");
            assert("space_joined"@[6] != "space_closed"@[6]);
            reveal_strlit("space_left");
            assert("space_left"@.len() == 10);
        },
        AuditAction::SpaceStatusTransition => {
            reveal_strlit("space_status_transition");
            assert("space_status_transition"@.len() == 23);
            reveal_strlit("space_created");
            assert("space_created"@.len() == 13);
            reveal_strlit("space_joined");
            assert("space_joined"@.len() == 12);
            reveal_strlit("space_left");
            assert("space_left"@.len() == 10);
            reveal_strlit("space_closed");
            assert("space_closed"@.len() == 12);
        },
        AuditAction::MessageSent => {
            reveal_strlit("message_sent");
            assert("message_sent"@.len() == 12);
            reveal_strlit("space_created");
            assert("space_created"@.len() == 13);
            reveal_strlit("space_joined");
            assert("space_joined"@[0] != "message_sent"@[0]);
            reveal_strlit("space_left");
            assert("space_left"@.len() == 10);
            reveal_strlit("space_closed");
            assert("space_closed"@[0] != "message_sent"@[0]);
            reveal_strlit("space_status_transition");
            assert("space_status_transition"@.len() == 23);
        },
        AuditAction::ProposalSubmitted => {
            reveal_strlit("proposal_submitted");
            assert("proposal_submitted"@.len() == 18);
            reveal_strlit("space_created");
            assert("space_created"@.len() == 13);
            reveal_strlit("space_joined");
            assert("space_joined"@.len() == 12);
            reveal_strlit("space_left");
            assert("space_left"@.len() == 10);
            reveal_strlit("space_closed");
            assert("space_closed"@.len() == 12);
            reveal_strlit("space_status_transition");
            assert("space_status_transition"@.len() == 23);
            reveal_strlit("message_sent");
            assert("message_sent"@.len() == 12);
        },
        AuditAction::ProposalResponded => {
            reveal_strlit("proposal_responded");
            assert("proposal_responded"@.len() == 18);
            reveal_strlit("space_created");
            assert("space_created"@.len() == 13);
            reveal_strlit("space_joined");
            assert("space_joined"@.len() == 12);
            reveal_strlit("space_left");
            assert("space_left"@.len() == 10);
            reveal_strlit("space_closed");
            assert("space_closed"@.len() == 12);
            reveal_strlit("space_status_transition");
            assert("space_status_transition"@.len() == 23);
            reveal_strlit("message_sent");
            assert("message_sent"@.len() == 12);
            reveal_strlit("proposal_submitted");
            assert("proposal_submitted"@[9] != "proposal_responded"@[9]);
        },
        AuditAction::BestTermsShared => {
            reveal_strlit("best_terms_shared");
            assert("best_terms_shared"@.len() == 17);
            reveal_strlit("space_created");
            assert("space_created"@.len() == 13);
            reveal_strlit("space_joined");
            assert("space_joined"@.len() == 12);
            reveal_strlit("space_left");
            assert("space_left"@.len() == 10);
            reveal_strlit("space_closed");
            assert("space_closed"@.len() == 12);
            reveal_strlit("space_status_transition");
            assert("space_status_transition"@.len() == 23);
            reveal_strlit("message_sent");
            assert("message_sent"@.len() == 12);
            reveal_strlit("proposal_submitted");
            assert("proposal_submitted"@.len() == 18);
            reveal_strlit("proposal_responded");
            assert("proposal_responded"@.len() == 18);
        },
        AuditAction::RoundAdvanced => {
            reveal_strlit("round_advanced");
            assert("round_advanced"@.len() == 14);
            reveal_strlit("space_created");
            assert("space_created"@.len() == 13);
            reveal_strlit("space_joined");
            assert("space_joined"@.len() == 12);
            reveal_strlit("space_left");
            assert("space_left"@.len() == 10);
            reveal_strlit("space_closed");
            assert("space_closed"@.len() == 12);
            reveal_strlit("space_status_transition");
            assert("space_status_transition"@.len() == 23);
            reveal_strlit("message_sent");
            assert("message_sent"@.len() == 12);
            reveal_strlit("proposal_submitted");
            assert("proposal_submitted"@.len() == 18);
            reveal_strlit("proposal_responded");
            assert("proposal_responded"@.len() == 18);
            reveal_strlit("best_terms_shared");
            assert("best_terms_shared"@.len() == 17);
        },
        AuditAction::StateSet => {
            reveal_strlit("state_set");
            assert("state_set"@.len() == 9);
            reveal_strlit("space_created");
            assert("space_created"@.len() == 13);
            reveal_strlit("space_joined");
            assert("space_joined"@.len() == 12);
            reveal_strlit("space_left");
            assert("space_left"@.len() == 10);
            reveal_strlit("space_closed");
            assert("space_closed"@.len() == 12);
            reveal_strlit("space_status_transition");
            assert("space_status_transition"@.len() == 23);
            reveal_strlit("message_sent");
            assert("message_sent"@.len() == 12);
            reveal_strlit("proposal_submitted");
            assert("proposal_submitted"@.len() == 18);
            reveal_strlit("proposal_responded");
            assert("proposal_responded"@.len() == 18);
            reveal_strlit("best_terms_shared");
            assert("best_terms_shared"@.len() == 17);
            reveal_strlit("round_advanced");
            assert("round_advanced"@.len() == 14);
        },
        AuditAction::StateDeleted => {
            reveal_strlit("state_deleted");
            assert("state_deleted"@.len() == 13);
            reveal_strlit("space_created");
            assert("space_created"@[1] != "state_deleted"@[1]);
            reveal_strlit("space_joined");
            assert("space_joined"@.len() == 12);
            reveal_strlit("space_left");
            assert("space_left"@.len() == 10);
            reveal_strlit("space_closed");
            assert("space_closed"@.len() == 12);
            reveal_strlit("space_status_transition");
            assert("space_status_transition"@.len() == 23);
            reveal_strlit("message_sent");
            assert("message_sent"@.len() == 12);
            reveal_strlit("proposal_submitted");
            assert("proposal_submitted"@.len() == 18);
            reveal_strlit("proposal_responded");
            assert("proposal_responded"@.len() == 18);
            reveal_strlit("best_terms_shared");
            assert("best_terms_shared"@.len() == 17);
            reveal_strlit("round_advanced");
            assert("round_advanced"@.len() == 14);
            reveal_strlit("state_set");
            assert("state_set"@.len() == 9);
        },
        AuditAction::ContractCreated => {
            reveal_strlit("contract_created");
            assert("contract_created"@.len() == 16);
            reveal_strlit("space_created");
            assert("space_created"@.len() == 13);
            reveal_strlit("space_joined");
            assert("space_joined"@.len() == 12);
            reveal_strlit("space_left");
            assert("space_left"@.len() == 10);
            reveal_strlit("space_closed");
            assert("space_closed"@.len() == 12);
            reveal_strlit("space_status_transition");
            assert("space_status_transition"@.len() == 23);
            reveal_strlit("message_sent");
            assert("message_sent"@.len() == 12);
            reveal_strlit("proposal_submitted");
            assert("proposal_submitted"@.len() == 18);
            reveal_strlit("proposal_responded");
            assert("proposal_responded"@.len() == 18);
            reveal_strlit("best_terms_shared");
            assert("best_terms_shared"@.len() == 17);
            reveal_strlit("round_advanced");
            assert("round_advanced"@.len() == 14);
            reveal_strlit("state_set");
            assert("state_set"@.len() == 9);
            reveal_strlit("state_deleted");
            assert("state_deleted"@.len() == 13);
        },
        AuditAction::MilestoneSubmitted => {
            reveal_strlit("milestone_submitted");
            assert("milestone_submitted"@.len() == 19);
            reveal_strlit("space_created");
            assert("space_created"@.len() == 13);
            reveal_strlit("space_joined");
            assert("space_joined"@.len() == 12);
            reveal_strlit("space_left");
            assert("space_left"@.len() == 10);
            reveal_strlit("space_closed");
            assert("space_closed"@.len() == 12);
            reveal_strlit("space_status_transition");
            assert("space_status_transition"@.len() == 23);
            reveal_strlit("message_sent");
            assert("message_sent"@.len() == 12);
            reveal_strlit("proposal_submitted");
            assert("proposal_submitted"@.len() == 18);
            reveal_strlit("proposal_responded");
            assert("proposal_responded"@.len() == 18);
            reveal_strlit("best_terms_shared");
            assert("best_terms_shared"@.len() == 17);
            reveal_strlit("round_advanced");
            assert("round_advanced"@.len() == 14);
            reveal_strlit("state_set");
            assert("state_set"@.len() == 9);
            reveal_strlit("state_deleted");
            assert("state_deleted"@.len() == 13);
            reveal_strlit("contract_created");
            assert("contract_created"@.len() == 16);
        },
        AuditAction::MilestoneAccepted => {
            reveal_strlit("milestone_accepted");
            assert("milestone_accepted"@.len() == 18);
            reveal_strlit("space_created");
            assert("space_created"@.len() == 13);
            reveal_strlit("space_joined");
            assert("space_joined"@.len() == 12);
            reveal_strlit("space_left");
            assert("space_left"@.len() == 10);
            reveal_strlit("space_closed");
            assert("space_closed"@.len() == 12);
            reveal_strlit("space_status_transition");
            assert("space_status_transition"@.len() == 23);
            reveal_strlit("message_sent");
            assert("message_sent"@.len() == 12);
            reveal_strlit("proposal_submitted");
            assert("proposal_submitted"@[0] != "milestone_accepted"@[0]);
            reveal_strlit("proposal_responded");
            assert("proposal_responded"@[0] != "milestone_accepted"@[0]);
            reveal_strlit("best_terms_shared");
            assert("best_terms_shared"@.len() == 17);
            reveal_strlit("round_advanced");
            assert("round_advanced"@.len() == 14);
            reveal_strlit("state_set");
            assert("state_set"@.len() == 9);
            reveal_strlit("state_deleted");
            assert("state_deleted"@.len() == 13);
            reveal_strlit("contract_created");
            assert("contract_created"@.len() == 16);
            reveal_strlit("milestone_submitted");
            assert("milestone_submitted"@.len() == 19);
        },
        AuditAction::RulesUpdated => {
            reveal_strlit("rules_updated");
            assert("rules_updated"@.len() == 13);
            reveal_strlit("space_created");
            assert("space_created"@[0] != "rules_updated"@[0]);
            reveal_strlit("space_joined");
            assert("space_joined"@.len() == 12);
            reveal_strlit("space_left");
            assert("space_left"@.len() == 10);
            reveal_strlit("space_closed");
            assert("space_closed"@.len() == 12);
            reveal_strlit("space_status_transition");
            assert("space_status_transition"@.len() == 23);
            reveal_strlit("message_sent");
            assert("message_sent"@.len() == 12);
            reveal_strlit("proposal_submitted");
            assert("proposal_submitted"@.len() == 18);
            reveal_strlit("proposal_responded");
            assert("proposal_responded"@.len() == 18);
            reveal_strlit("best_terms_shared");
            assert("best_terms_shared"@.len() == 17);
            reveal_strlit("round_advanced");
            assert("round_advanced"@.len() == 14);
            reveal_strlit("state_set");
            assert("state_set"@.len() == 9);
            reveal_strlit("state_deleted");
            assert("state_deleted"@[0] != "rules_updated"@[0]);
            reveal_strlit("contract_created");
            assert("contract_created"@.len() == 16);
            reveal_strlit("milestone_submitted");
            assert("milestone_submitted"@.len() == 19);
            reveal_strlit("milestone_accepted");
            assert("milestone_accepted"@.len() == 18);
        },
        AuditAction::CoalitionCreated => {
            reveal_strlit("coalition_created");
            assert("coalition_created"@.len() == 17);
            reveal_strlit("space_created");
            assert("space_created"@.len() == 13);
            reveal_strlit("space_joined");
            assert("space_joined"@.len() == 12);
            reveal_strlit("space_left");
            assert("space_left"@.len() == 10);
            reveal_strlit("space_closed");
            assert("space_closed"@.len() == 12);
            reveal_strlit("space_status_transition");
            assert("space_status_transition"@.len() == 23);
            reveal_strlit("message_sent");
            assert("message_sent"@.len() == 12);
            reveal_strlit("proposal_submitted");
            assert("proposal_submitted"@.len() == 18);
            reveal_strlit("proposal_responded");
            assert("proposal_responded"@.len() == 18);
            reveal_strlit("best_terms_shared");
            assert("best_terms_shared"@[0] != "coalition_created"@[0]);
            reveal_strlit("round_advanced");
            assert("round_advanced"@.len() == 14);
            reveal_strlit("state_set");
            assert("state_set"@.len() == 9);
            reveal_strlit("state_deleted");
            assert("state_deleted"@.len() == 13);
            reveal_strlit("contract_created");
            assert("contract_created"@.len() == 16);
            reveal_strlit("milestone_submitted");
            assert("milestone_submitted"@.len() == 19);
            reveal_strlit("milestone_accepted");
            assert("milestone_accepted"@.len() == 18);
            reveal_strlit("rules_updated");
            assert("rules_updated"@.len() == 13);
        },
        AuditAction::CoalitionJoined => {
            reveal_strlit("coalition_joined");
            assert("coalition_joined"@.len() == 16);
            reveal_strlit("space_created");
            assert("space_created"@.len() == 13);
            reveal_strlit("space_joined");
            assert("space_joined"@.len() == 12);
            reveal_strlit("space_left");
            assert("space_left"@.len() == 10);
            reveal_strlit("space_closed");
            assert("space_closed"@.len() == 12);
            reveal_strlit("space_status_transition");
            assert("space_status_transition"@.len() == 23);
            reveal_strlit("message_sent");
            assert("message_sent"@.len() == 12);
            reveal_strlit("proposal_submitted");
            assert("proposal_submitted"@.len() == 18);
            reveal_strlit("proposal_responded");
            assert("proposal_responded"@.len() == 18);
            reveal_strlit("best_terms_shared");
            assert("best_terms_shared"@.len() == 17);
            reveal_strlit("round_advanced");
            assert("round_advanced"@.len() == 14);
            reveal_strlit("state_set");
            assert("state_set"@.len() == 9);
            reveal_strlit("state_deleted");
            assert("state_deleted"@.len() == 13);
            reveal_strlit("contract_created");
            assert("contract_created"@[2] != "coalition_joined"@[2]);
            reveal_strlit("milestone_submitted");
            assert("milestone_submitted"@.len() == 19);
            reveal_strlit("milestone_accepted");
            assert("milestone_accepted"@.len() == 18);
            reveal_strlit("rules_updated");
            assert("rules_updated"@.len() == 13);
            reveal_strlit("coalition_created");
            assert("coalition_created"@.len() == 17);
        },
        AuditAction::CoalitionLeft => {
            reveal_strlit("coalition_left");
            assert("coalition_left"@.len() == 14);
            reveal_strlit("space_created");
            assert("space_created"@.len() == 13);
            reveal_strlit("space_joined");
            assert("space_joined"@.len() == 12);
            reveal_strlit("space_left");
            assert("space_left"@.len() == 10);
            reveal_strlit("space_closed");
            assert("space_closed"@.len() == 12);
            reveal_strlit("space_status_transition");
            assert("space_status_transition"@.len() == 23);
            reveal_strlit("message_sent");
            assert("message_sent"@.len() == 12);
            reveal_strlit("proposal_submitted");
            assert("proposal_submitted"@.len() == 18);
            reveal_strlit("proposal_responded");
            assert("proposal_responded"@.len() == 18);
            reveal_strlit("best_terms_shared");
            assert("best_terms_shared"@.len() == 17);
            reveal_strlit("round_advanced");
            assert("round_advanced"@[0] != "coalition_left"@[0]);
            reveal_strlit("state_set");
            assert("state_set"@.len() == 9);
            reveal_strlit("state_deleted");
            assert("state_deleted"@.len() == 13);
            reveal_strlit("contract_created");
            assert("contract_created"@.len() == 16);
            reveal_strlit("milestone_submitted");
            assert("milestone_submitted"@.len() == 19);
            reveal_strlit("milestone_accepted");
            assert("milestone_accepted"@.len() == 18);
            reveal_strlit("rules_updated");
            assert("rules_updated"@.len() == 13);
            reveal_strlit("coalition_created");
            assert("coalition_created"@.len() == 17);
            reveal_strlit("coalition_joined");
            assert("coalition_joined"@.len() == 16);
        },
        AuditAction::DelegationCreated => {
            reveal_strlit("delegation_created");
            assert("delegation_created"@.len() == 18);
            reveal_strlit("space_created");
            assert("space_created"@.len() == 13);
            reveal_strlit("space_joined");
            assert("space_joined"@.len() == 12);
            reveal_strlit("space_left");
            assert("space_left"@.len() == 10);
            reveal_strlit("space_closed");
            assert("space_closed"@.len() == 12);
            reveal_strlit("space_status_transition");
            assert("space_status_transition"@.len() == 23);
            reveal_strlit("message_sent");
            assert("message_sent"@.len() == 12);
            reveal_strlit("proposal_submitted");
            assert("proposal_submitted"@[0] != "delegation_created"@[0]);
            reveal_strlit("proposal_responded");
            assert("proposal_responded"@[0] != "delegation_created"@[0]);
            reveal_strlit("best_terms_shared");
            assert("best_terms_shared"@.len() == 17);
            reveal_strlit("round_advanced");
            assert("round_advanced"@.len() == 14);
            reveal_strlit("state_set");
            assert("state_set"@.len() == 9);
            reveal_strlit("state_deleted");
            assert("state_deleted"@.len() == 13);
            reveal_strlit("contract_created");
            assert("contract_created"@.len() == 16);
            reveal_strlit("milestone_submitted");
            assert("milestone_submitted"@.len() == 19);
            reveal_strlit("milestone_accepted");
            assert("milestone_accepted"@[0] != "delegation_created"@[0]);
            reveal_strlit("rules_updated");
            assert("rules_updated"@.len() == 13);
            reveal_strlit("coalition_created");
            assert("coalition_created"@.len() == 17);
            reveal_strlit("coalition_joined");
            assert("coalition_joined"@.len() == 16);
            reveal_strlit("coalition_left");
            assert("coalition_left"@.len() == 14);
        },
        AuditAction::DelegationRevoked => {
            reveal_strlit("delegation_revoked");
            assert("delegation_revoked"@.len() == 18);
            reveal_strlit("space_created");
            assert("space_created"@.len() == 13);
            reveal_strlit("space_joined");
            assert("space_joined"@.len() == 12);
            reveal_strlit("space_left");
            assert("space_left"@.len() == 10);
            reveal_strlit("space_closed");
            assert("space_closed"@.len() == 12);
            reveal_strlit("space_status_transition");
            assert("space_status_transition"@.len() == 23);
            reveal_strlit("message_sent");
            assert("message_sent"@.len() == 12);
            reveal_strlit("proposal_submitted");
            assert("proposal_submitted"@[0] != "delegation_revoked"@[0]);
            reveal_strlit("proposal_responded");
            assert("proposal_responded"@[0] != "delegation_revoked"@[0]);
            reveal_strlit("best_terms_shared");
            assert("best_terms_shared"@.len() == 17);
            reveal_strlit("round_advanced");
            assert("round_advanced"@.len() == 14);
            reveal_strlit("state_set");
            assert("state_set"@.len() == 9);
            reveal_strlit("state_deleted");
            assert("state_deleted"@.len() == 13);
            reveal_strlit("contract_created");
            assert("contract_created"@.len() == 16);
            reveal_strlit("milestone_submitted");
            assert("milestone_submitted"@.len() == 19);
            reveal_strlit("milestone_accepted");
            assert("milestone_accepted"@[0] != "delegation_revoked"@[0]);
            reveal_strlit("rules_updated");
            assert("rules_updated"@.len() == 13);
            reveal_strlit("coalition_created");
            assert("coalition_created"@.len() == 17);
            reveal_strlit("coalition_joined");
            assert("coalition_joined"@.len() == 16);
            reveal_strlit("coalition_left");
            assert("coalition_left"@.len() == 14);
            reveal_strlit("delegation_created");
            assert("delegation_created"@[11] != "delegation_revoked"@[11]);
        },
        AuditAction::RecruitmentCreated => {
            reveal_strlit("recruitment_created");
            assert("recruitment_created"@.len() == 19);
            reveal_strlit("space_created");
            assert("space_created"@.len() == 13);
            reveal_strlit("space_joined");
            assert("space_joined"@.len() == 12);
            reveal_strlit("space_left");
            assert("space_left"@.len() == 10);
            reveal_strlit("space_closed");
            assert("space_closed"@.len() == 12);
            reveal_strlit("space_status_transition");
            assert("space_status_transition"@.len() == 23);
            reveal_strlit("message_sent");
            assert("message_sent"@.len() == 12);
            reveal_strlit("proposal_submitted");
            assert("proposal_submitted"@.len() == 18);
            reveal_strlit("proposal_responded");
            assert("proposal_responded"@.len() == 18);
            reveal_strlit("best_terms_shared");
            assert("best_terms_shared"@.len() == 17);
            reveal_strlit("round_advanced");
            assert("round_advanced"@.len() == 14);
            reveal_strlit("state_set");
            assert("state_set"@.len() == 9);
            reveal_strlit("state_deleted");
            assert("state_deleted"@.len() == 13);
            reveal_strlit("contract_created");
            assert("contract_created"@.len() == 16);
            reveal_strlit("milestone_submitted");
            assert("milestone_submitted"@[0] != "recruitment_created"@[0]);
            reveal_strlit("milestone_accepted");
            assert("milestone_accepted"@.len() == 18);
            reveal_strlit("rules_updated");
            assert("rules_updated"@.len() == 13);
            reveal_strlit("coalition_created");
            assert("coalition_created"@.len() == 17);
            reveal_strlit("coalition_joined");
            assert("coalition_joined"@.len() == 16);
            reveal_strlit("coalition_left");
            assert("coalition_left"@.len() == 14);
            reveal_strlit("delegation_created");
            assert("delegation_created"@.len() == 18);
            reveal_strlit("delegation_revoked");
            assert("delegation_revoked"@.len() == 18);
        },
        AuditAction::RecruitmentAccepted => {
            reveal_strlit("recruitment_accepted");
            assert("recruitment_accepted"@.len() == 20);
            reveal_strlit("space_created");
            assert("space_created"@.len() == 13);
            reveal_strlit("space_joined");
            assert("space_joined"@.len() == 12);
            reveal_strlit("space_left");
            assert("space_left"@.len() == 10);
            reveal_strlit("space_closed");
            assert("space_closed"@.len() == 12);
            reveal_strlit("space_status_transition");
            assert("space_status_transition"@.len() == 23);
            reveal_strlit("message_sent");
            assert("message_sent"@.len() == 12);
            reveal_strlit("proposal_submitted");
            assert("proposal_submitted"@.len() == 18);
            reveal_strlit("proposal_responded");
            assert("proposal_responded"@.len() == 18);
            reveal_strlit("best_terms_shared");
            assert("best_terms_shared"@.len() == 17);
            reveal_strlit("round_advanced");
            assert("round_advanced"@.len() == 14);
            reveal_strlit("state_set");
            assert("state_set"@.len() == 9);
            reveal_strlit("state_deleted");
            assert("state_deleted"@.len() == 13);
            reveal_strlit("contract_created");
            assert("contract_created"@.len() == 16);
            reveal_strlit("milestone_submitted");
            assert("milestone_submitted"@.len() == 19);
            reveal_strlit("milestone_accepted");
            assert("milestone_accepted"@.len() == 18);
            reveal_strlit("rules_updated");
            assert("rules_updated"@.len() == 13);
            reveal_strlit("coalition_created");
            assert("coalition_created"@.len() == 17);
            reveal_strlit("coalition_joined");
            assert("coalition_joined"@.len() == 16);
            reveal_strlit("coalition_left");
            assert("coalition_left"@.len() == 14);
            reveal_strlit("delegation_created");
            assert("delegation_created"@.len() == 18);
            reveal_strlit("delegation_revoked");
            assert("delegation_revoked"@.len() == 18);
            reveal_strlit("recruitment_created");
            assert("recruitment_created"@.len() == 19);
        },
        AuditAction::RfpCreated => {
            reveal_strlit("rfp_created");
            assert("rfp_created"@.len() == 11);
            reveal_strlit("space_created");
            assert("space_created"@.len() == 13);
            reveal_strlit("space_joined");
            assert("space_joined"@.len() == 12);
            reveal_strlit("space_left");
            assert("space_left"@.len() == 10);
            reveal_strlit("space_closed");
            assert("space_closed"@.len() == 12);
            reveal_strlit("space_status_transition");
            assert("space_status_transition"@.len() == 23);
            reveal_strlit("message_sent");
            assert("message_sent"@.len() == 12);
            reveal_strlit("proposal_submitted");
            assert("proposal_submitted"@.len() == 18);
            reveal_strlit("proposal_responded");
            assert("proposal_responded"@.len() == 18);
            reveal_strlit("best_terms_shared");
            assert("best_terms_shared"@.len() == 17);
            reveal_strlit("round_advanced");
            assert("round_advanced"@.len() == 14);
            reveal_strlit("state_set");
            assert("state_set"@.len() == 9);
            reveal_strlit("state_deleted");
            assert("state_deleted"@.len() == 13);
            reveal_strlit("contract_created");
            assert("contract_created"@.len() == 16);
            reveal_strlit("milestone_submitted");
            assert("milestone_submitted"@.len() == 19);
            reveal_strlit("milestone_accepted");
            assert("milestone_accepted"@.len() == 18);
            reveal_strlit("rules_updated");
            assert("rules_updated"@.len() == 13);
            reveal_strlit("coalition_created");
            assert("coalition_created"@.len() == 17);
            reveal_strlit("coalition_joined");
            assert("coalition_joined"@.len() == 16);
            reveal_strlit("coalition_left");
            assert("coalition_left"@.len() == 14);
            reveal_strlit("delegation_created");
            assert("delegation_created"@.len() == 18);
            reveal_strlit("delegation_revoked");
            assert("delegation_revoked"@.len() == 18);
            reveal_strlit("recruitment_created");
            assert("recruitment_created"@.len() == 19);
            reveal_strlit("recruitment_accepted");
            assert("recruitment_accepted"@.len() == 20);
        },
        AuditAction::ProposalsEvaluated => {
            reveal_strlit("proposals_evaluated");
            assert("proposals_evaluated"@.len() == 19);
            reveal_strlit("space_created");
            assert("space_created"@.len() == 13);
            reveal_strlit("space_joined");
            assert("space_joined"@.len() == 12);
            reveal_strlit("space_left");
            assert("space_left"@.len() == 10);
            reveal_strlit("space_closed");
            assert("space_closed"@.len() == 12);
            reveal_strlit("space_status_transition");
            assert("space_status_transition"@.len() == 23);
            reveal_strlit("message_sent");
            assert("message_sent"@.len() == 12);
            reveal_strlit("proposal_submitted");
            assert("proposal_submitted"@.len() == 18);
            reveal_strlit("proposal_responded");
            assert("proposal_responded"@.len() == 18);
            reveal_strlit("best_terms_shared");
            assert("best_terms_shared"@.len() == 17);
            reveal_strlit("round_advanced");
            assert("round_advanced"@.len() == 14);
            reveal_strlit("state_set");
            assert("state_set"@.len() == 9);
            reveal_strlit("state_deleted");
            assert("state_deleted"@.len() == 13);
            reveal_strlit("contract_created");
            assert("contract_created"@.len() == 16);
            reveal_strlit("milestone_submitted");
            assert("milestone_submitted"@[0] != "proposals_evaluated"@[0]);
            reveal_strlit("milestone_accepted");
            assert("milestone_accepted"@.len() == 18);
            reveal_strlit("rules_updated");
            assert("rules_updated"@.len() == 13);
            reveal_strlit("coalition_created");
            assert("coalition_created"@.len() == 17);
            reveal_strlit("coalition_joined");
            assert("coalition_joined"@.len() == 16);
            reveal_strlit("coalition_left");
            assert("coalition_left"@.len() == 14);
            reveal_strlit("delegation_created");
            assert("delegation_created"@.len() == 18);
            reveal_strlit("delegation_revoked");
            assert("delegation_revoked"@.len() == 18);
            reveal_strlit("recruitment_created");
            assert("recruitment_created"@[0] != "proposals_evaluated"@[0]);
            reveal_strlit("recruitment_accepted");
            assert("recruitment_accepted"@.len() == 20);
            reveal_strlit("rfp_created");
            assert("rfp_created"@.len() == 11);
        },
        AuditAction::RuleCheckDenied => {
            reveal_strlit("rule_check_denied");
            assert("rule_check_denied"@.len() == 17);
            reveal_strlit("space_created");
            assert("space_created"@.len() == 13);
            reveal_strlit("space_joined");
            assert("space_joined"@.len() == 12);
            reveal_strlit("space_left");
            assert("space_left"@.len() == 10);
            reveal_strlit("space_closed");
            assert("space_closed"@.len() == 12);
            reveal_strlit("space_status_transition");
            assert("space_status_transition"@.len() == 23);
            reveal_strlit("message_sent");
            assert("message_sent"@.len() == 12);
            reveal_strlit("proposal_submitted");
            assert("proposal_submitted"@.len() == 18);
            reveal_strlit("proposal_responded");
            assert("proposal_responded"@.len() == 18);
            reveal_strlit("best_terms_shared");
            assert("best_terms_shared"@[0] != "rule_check_denied"@[0]);
            reveal_strlit("round_advanced");
            assert("round_advanced"@.len() == 14);
            reveal_strlit("state_set");
            assert("state_set"@.len() == 9);
            reveal_strlit("state_deleted");
            assert("state_deleted"@.len() == 13);
            reveal_strlit("contract_created");
            assert("contract_created"@.len() == 16);
            reveal_strlit("milestone_submitted");
            assert("milestone_submitted"@.len() == 19);
            reveal_strlit("milestone_accepted");
            assert("milestone_accepted"@.len() == 18);
            reveal_strlit("rules_updated");
            assert("rules_updated"@.len() == 13);
            reveal_strlit("coalition_created");
            assert("coalition_created"@[0] != "rule_check_denied"@[0]);
            reveal_strlit("coalition_joined");
            assert("coalition_joined"@.len() == 16);
            reveal_strlit("coalition_left");
            assert("coalition_left"@.len() == 14);
            reveal_strlit("delegation_created");
            assert("delegation_created"@.len() == 18);
            reveal_strlit("delegation_revoked");
            assert("delegation_revoked"@.len() == 18);
            reveal_strlit("recruitment_created");
            assert("recruitment_created"@.len() == 19);
            reveal_strlit("recruitment_accepted");
            assert("recruitment_accepted"@.len() == 20);
            reveal_strlit("rfp_created");
            assert("rfp_created"@.len() == 11);
            reveal_strlit("proposals_evaluated");
            assert("proposals_evaluated"@.len() == 19);
        },
        AuditAction::ChainVerified => {
            reveal_strlit("chain_verified");
            assert("chain_verified"@.len() == 14);
            reveal_strlit("space_created");
            assert("space_created"@.len() == 13);
            reveal_strlit("space_joined");
            assert("space_joined"@.len() == 12);
            reveal_strlit("space_left");
            assert("space_left"@.len() == 10);
            reveal_strlit("space_closed");
            assert("space_closed"@.len() == 12);
            reveal_strlit("space_status_transition");
            assert("space_status_transition"@.len() == 23);
            reveal_strlit("message_sent");
            assert("message_sent"@.len() == 12);
            reveal_strlit("proposal_submitted");
            assert("proposal_submitted"@.len() == 18);
            reveal_strlit("proposal_responded");
            assert("proposal_responded"@.len() == 18);
            reveal_strlit("best_terms_shared");
            assert("best_terms_shared"@.len() == 17);
            reveal_strlit("round_advanced");
            assert("round_advanced"@[0] != "chain_verified"@[0]);
            reveal_strlit("state_set");
            assert("state_set"@.len() == 9);
            reveal_strlit("state_deleted");
            assert("state_deleted"@.len() == 13);
            reveal_strlit("contract_created");
            assert("contract_created"@.len() == 16);
            reveal_strlit("milestone_submitted");
            assert("milestone_submitted"@.len() == 19);
            reveal_strlit("milestone_accepted");
            assert("milestone_accepted"@.len() == 18);
            reveal_strlit("rules_updated");
            assert("rules_updated"@.len() == 13);
            reveal_strlit("coalition_created");
            assert("coalition_created"@.len() == 17);
            reveal_strlit("coalition_joined");
            assert("coalition_joined"@.len() == 16);
            reveal_strlit("coalition_left");
            assert("coalition_left"@[1] != "chain_verified"@[1]);
            reveal_strlit("delegation_created");
            assert("delegation_created"@.len() == 18);
            reveal_strlit("delegation_revoked");
            assert("delegation_revoked"@.len() == 18);
            reveal_strlit("recruitment_created");
            assert("recruitment_created"@.len() == 19);
            reveal_strlit("recruitment_accepted");
            assert("recruitment_accepted"@.len() == 20);
            reveal_strlit("rfp_created");
            assert("rfp_created"@.len() == 11);
            reveal_strlit("proposals_evaluated");
            assert("proposals_evaluated"@.len() == 19);
            reveal_strlit("rule_check_denied");
            assert("rule_check_denied"@.len() == 17);
        },
    }
}

/// Distinct categories have distinct names.
pub proof fn law_category_names_distinct(c: ActionCategory, d: ActionCategory)
    ensures
        category_name(c) == category_name(d) ==> c == d,
{
    reveal_strlit("negotiation");
    assert("negotiation"@.len() == 11);
    reveal_strlit("state");
    assert("state"@.len() == 5);
    reveal_strlit("execution");
    assert("execution"@.len() == 9);
    reveal_strlit("institution");
    assert("institution"@.len() == 11);
    reveal_strlit("security");
    assert("security"@.len() == 8);
    assert("negotiation"@[0] != "institution"@[0]);
}


/// Whether `s` begins with `p`.
pub open spec fn starts_with(s: Seq<char>, p: Seq<char>) -> bool {
    p.len() <= s.len() && s.subrange(0, p.len() as int) == p
}

/// A sequence that differs from `p` at a position of both does not begin
/// with `p`.
pub proof fn lemma_differs_from_prefix(s: Seq<char>, p: Seq<char>, k: int)
    requires
        0 <= k < p.len(),
        k < s.len(),
        s[k] != p[k],
    ensures
        !starts_with(s, p),
{
    if starts_with(s, p) {
        assert(s.subrange(0, p.len() as int)[k] == s[k]);
    }
}

/// The execution category is exactly the contract and milestone actions: an
/// action is counted under "execution" (as `trace_stats` reports categories)
/// if and only if its stored name begins with "contract_" or "milestone_".
pub proof fn law_execution_is_contracts_and_milestones(a: AuditAction)
    ensures
        category_name(action_category(a)) == "execution"@ <==> (starts_with(action_name(a), "contract_"@)
            || starts_with(action_name(a), "milestone_"@)),
{
    law_category_names_distinct(action_category(a), ActionCategory::Execution);
    reveal_strlit("contract_");
    reveal_strlit("milestone_");
    let n = action_name(a);
    match a {
        AuditAction::SpaceCreated => {
            reveal_strlit("space_created");
            lemma_differs_from_prefix(n, "contract_"@, 0);
            lemma_differs_from_prefix(n, "milestone_"@, 0);
        },
        AuditAction::SpaceJoined => {
            reveal_strlit("space_joined");
            lemma_differs_from_prefix(n, "contract_"@, 0);
            lemma_differs_from_prefix(n, "milestone_"@, 0);
        },
        AuditAction::SpaceLeft => {
            reveal_strlit("space_left");
            lemma_differs_from_prefix(n, "contract_"@, 0);
            lemma_differs_from_prefix(n, "milestone_"@, 0);
        },
        AuditAction::SpaceClosed => {
            reveal_strlit("space_closed");
            lemma_differs_from_prefix(n, "contract_"@, 0);
            lemma_differs_from_prefix(n, "milestone_"@, 0);
        },
        AuditAction::SpaceStatusTransition => {
            reveal_strlit("space_status_transition");
            lemma_differs_from_prefix(n, "contract_"@, 0);
            lemma_differs_from_prefix(n, "milestone_"@, 0);
        },
        AuditAction::MessageSent => {
            reveal_strlit("message_sent");
            lemma_differs_from_prefix(n, "contract_"@, 0);
            lemma_differs_from_prefix(n, "milestone_"@, 1);
        },
        AuditAction::ProposalSubmitted => {
            reveal_strlit("proposal_submitted");
            lemma_differs_from_prefix(n, "contract_"@, 0);
            lemma_differs_from_prefix(n, "milestone_"@, 0);
        },
        AuditAction::ProposalResponded => {
            reveal_strlit("proposal_responded");
            lemma_differs_from_prefix(n, "contract_"@, 0);
            lemma_differs_from_prefix(n, "milestone_"@, 0);
        },
        AuditAction::BestTermsShared => {
            reveal_strlit("best_terms_shared");
            lemma_differs_from_prefix(n, "contract_"@, 0);
            lemma_differs_from_prefix(n, "milestone_"@, 0);
        },
        AuditAction::RoundAdvanced => {
            reveal_strlit("round_advanced");
            lemma_differs_from_prefix(n, "contract_"@, 0);
            lemma_differs_from_prefix(n, "milestone_"@, 0);
        },
        AuditAction::StateSet => {
            reveal_strlit("state_set");
            lemma_differs_from_prefix(n, "contract_"@, 0);
            lemma_differs_from_prefix(n, "milestone_"@, 0);
        },
        AuditAction::StateDeleted => {
            reveal_strlit("state_deleted");
            lemma_differs_from_prefix(n, "contract_"@, 0);
            lemma_differs_from_prefix(n, "milestone_"@, 0);
        },
        AuditAction::ContractCreated => {
            reveal_strlit("contract_created");
            assert(n.subrange(0, 9) =~= "contract_"@);
            lemma_differs_from_prefix(n, "milestone_"@, 0);
        },
        AuditAction::MilestoneSubmitted => {
            reveal_strlit("milestone_submitted");
            lemma_differs_from_prefix(n, "contract_"@, 0);
            assert(n.subrange(0, 10) =~= "milestone_"@);
        },
        AuditAction::MilestoneAccepted => {
            reveal_strlit("milestone_accepted");
            lemma_differs_from_prefix(n, "contract_"@, 0);
            assert(n.subrange(0, 10) =~= "milestone_"@);
        },
        AuditAction::RulesUpdated => {
            reveal_strlit("rules_updated");
            lemma_differs_from_prefix(n, "contract_"@, 0);
            lemma_differs_from_prefix(n, "milestone_"@, 0);
        },
        AuditAction::CoalitionCreated => {
            reveal_strlit("coalition_created");
            lemma_differs_from_prefix(n, "contract_"@, 2);
            lemma_differs_from_prefix(n, "milestone_"@, 0);
        },
        AuditAction::CoalitionJoined => {
            reveal_strlit("coalition_joined");
            lemma_differs_from_prefix(n, "contract_"@, 2);
            lemma_differs_from_prefix(n, "milestone_"@, 0);
        },
        AuditAction::CoalitionLeft => {
            reveal_strlit("coalition_left");
            lemma_differs_from_prefix(n, "contract_"@, 2);
            lemma_differs_from_prefix(n, "milestone_"@, 0);
        },
        AuditAction::DelegationCreated => {
            reveal_strlit("delegation_created");
            lemma_differs_from_prefix(n, "contract_"@, 0);
            lemma_differs_from_prefix(n, "milestone_"@, 0);
        },
        AuditAction::DelegationRevoked => {
            reveal_strlit("delegation_revoked");
            lemma_differs_from_prefix(n, "contract_"@, 0);
            lemma_differs_from_prefix(n, "milestone_"@, 0);
        },
        AuditAction::RecruitmentCreated => {
            reveal_strlit("recruitment_created");
            lemma_differs_from_prefix(n, "contract_"@, 0);
            lemma_differs_from_prefix(n, "milestone_"@, 0);
        },
        AuditAction::RecruitmentAccepted => {
            reveal_strlit("recruitment_accepted");
            lemma_differs_from_prefix(n, "contract_"@, 0);
            lemma_differs_from_prefix(n, "milestone_"@, 0);
        },
        AuditAction::RfpCreated => {
            reveal_strlit("rfp_created");
            lemma_differs_from_prefix(n, "contract_"@, 0);
            lemma_differs_from_prefix(n, "milestone_"@, 0);
        },
        AuditAction::ProposalsEvaluated => {
            reveal_strlit("proposals_evaluated");
            lemma_differs_from_prefix(n, "contract_"@, 0);
            lemma_differs_from_prefix(n, "milestone_"@, 0);
        },
        AuditAction::RuleCheckDenied => {
            reveal_strlit("rule_check_denied");
            lemma_differs_from_prefix(n, "contract_"@, 0);
            lemma_differs_from_prefix(n, "milestone_"@, 0);
        },
        AuditAction::ChainVerified => {
            reveal_strlit("chain_verified");
            lemma_differs_from_prefix(n, "contract_"@, 1);
            lemma_differs_from_prefix(n, "milestone_"@, 0);
        },
    }
}

/// The category that an action name's family belongs to: state changes,
/// contract and milestone steps, rules, coalitions, delegations and
/// recruitments, rule-check denials and chain verifications; every other
/// name is part of negotiation.
pub open spec fn family_category(name: Seq<char>) -> ActionCategory {
    if starts_with(name, "state_"@) {
        ActionCategory::State
    } else if starts_with(name, "contract_"@) || starts_with(name, "milestone_"@) {
        ActionCategory::Execution
    } else if starts_with(name, "rules_"@) || starts_with(name, "coalition_"@) || starts_with(
        name,
        "delegation_"@,
    ) || starts_with(name, "recruitment_"@) {
        ActionCategory::Institution
    } else if starts_with(name, "rule_check_"@) || starts_with(name, "chain_"@) {
        ActionCategory::Security
    } else {
        ActionCategory::Negotiation
    }
}

/// An action's category is the one its name's family belongs to, so that
/// `trace_stats` counts every action with the others of its family.
pub proof fn law_category_follows_name_family(a: AuditAction)
    ensures
        action_category(a) == family_category(action_name(a)),
{
    reveal_strlit("state_");
    reveal_strlit("contract_");
    reveal_strlit("milestone_");
    reveal_strlit("rules_");
    reveal_strlit("coalition_");
    reveal_strlit("delegation_");
    reveal_strlit("recruitment_");
    reveal_strlit("rule_check_");
    reveal_strlit("chain_");
    let n = action_name(a);
    match a {
        AuditAction::SpaceCreated => {
            reveal_strlit("space_created");
            lemma_differs_from_prefix(n, "state_"@, 1);
            lemma_differs_from_prefix(n, "contract_"@, 0);
            lemma_differs_from_prefix(n, "milestone_"@, 0);
            lemma_differs_from_prefix(n, "rules_"@, 0);
            lemma_differs_from_prefix(n, "coalition_"@, 0);
            lemma_differs_from_prefix(n, "delegation_"@, 0);
            lemma_differs_from_prefix(n, "recruitment_"@, 0);
            lemma_differs_from_prefix(n, "rule_check_"@, 0);
            lemma_differs_from_prefix(n, "chain_"@, 0);
        },
        AuditAction::SpaceJoined => {
            reveal_strlit("space_joined");
            lemma_differs_from_prefix(n, "state_"@, 1);
            lemma_differs_from_prefix(n, "contract_"@, 0);
            lemma_differs_from_prefix(n, "milestone_"@, 0);
            lemma_differs_from_prefix(n, "rules_"@, 0);
            lemma_differs_from_prefix(n, "coalition_"@, 0);
            lemma_differs_from_prefix(n, "delegation_"@, 0);
            lemma_differs_from_prefix(n, "recruitment_"@, 0);
            lemma_differs_from_prefix(n, "rule_check_"@, 0);
            lemma_differs_from_prefix(n, "chain_"@, 0);
        },
        AuditAction::SpaceLeft => {
            reveal_strlit("space_left");
            lemma_differs_from_prefix(n, "state_"@, 1);
            lemma_differs_from_prefix(n, "contract_"@, 0);
            lemma_differs_from_prefix(n, "milestone_"@, 0);
            lemma_differs_from_prefix(n, "rules_"@, 0);
            lemma_differs_from_prefix(n, "coalition_"@, 0);
            lemma_differs_from_prefix(n, "delegation_"@, 0);
            lemma_differs_from_prefix(n, "recruitment_"@, 0);
            lemma_differs_from_prefix(n, "rule_check_"@, 0);
            lemma_differs_from_prefix(n, "chain_"@, 0);
        },
        AuditAction::SpaceClosed => {
            reveal_strlit("space_closed");
            lemma_differs_from_prefix(n, "state_"@, 1);
            lemma_differs_from_prefix(n, "contract_"@, 0);
            lemma_differs_from_prefix(n, "milestone_"@, 0);
            lemma_differs_from_prefix(n, "rules_"@, 0);
            lemma_differs_from_prefix(n, "coalition_"@, 0);
            lemma_differs_from_prefix(n, "delegation_"@, 0);
            lemma_differs_from_prefix(n, "recruitment_"@, 0);
            lemma_differs_from_prefix(n, "rule_check_"@, 0);
            lemma_differs_from_prefix(n, "chain_"@, 0);
        },
        AuditAction::SpaceStatusTransition => {
            reveal_strlit("space_status_transition");
            lemma_differs_from_prefix(n, "state_"@, 1);
            lemma_differs_from_prefix(n, "contract_"@, 0);
            lemma_differs_from_prefix(n, "milestone_"@, 0);
            lemma_differs_from_prefix(n, "rules_"@, 0);
            lemma_differs_from_prefix(n, "coalition_"@, 0);
            lemma_differs_from_prefix(n, "delegation_"@, 0);
            lemma_differs_from_prefix(n, "recruitment_"@, 0);
            lemma_differs_from_prefix(n, "rule_check_"@, 0);
            lemma_differs_from_prefix(n, "chain_"@, 0);
        },
        AuditAction::MessageSent => {
            reveal_strlit("message_sent");
            lemma_differs_from_prefix(n, "state_"@, 0);
            lemma_differs_from_prefix(n, "contract_"@, 0);
            lemma_differs_from_prefix(n, "milestone_"@, 1);
            lemma_differs_from_prefix(n, "rules_"@, 0);
            lemma_differs_from_prefix(n, "coalition_"@, 0);
            lemma_differs_from_prefix(n, "delegation_"@, 0);
            lemma_differs_from_prefix(n, "recruitment_"@, 0);
            lemma_differs_from_prefix(n, "rule_check_"@, 0);
            lemma_differs_from_prefix(n, "chain_"@, 0);
        },
        AuditAction::ProposalSubmitted => {
            reveal_strlit("proposal_submitted");
            lemma_differs_from_prefix(n, "state_"@, 0);
            lemma_differs_from_prefix(n, "contract_"@, 0);
            lemma_differs_from_prefix(n, "milestone_"@, 0);
            lemma_differs_from_prefix(n, "rules_"@, 0);
            lemma_differs_from_prefix(n, "coalition_"@, 0);
            lemma_differs_from_prefix(n, "delegation_"@, 0);
            lemma_differs_from_prefix(n, "recruitment_"@, 0);
            lemma_differs_from_prefix(n, "rule_check_"@, 0);
            lemma_differs_from_prefix(n, "chain_"@, 0);
        },
        AuditAction::ProposalResponded => {
            reveal_strlit("proposal_responded");
            lemma_differs_from_prefix(n, "state_"@, 0);
            lemma_differs_from_prefix(n, "contract_"@, 0);
            lemma_differs_from_prefix(n, "milestone_"@, 0);
            lemma_differs_from_prefix(n, "rules_"@, 0);
            lemma_differs_from_prefix(n, "coalition_"@, 0);
            lemma_differs_from_prefix(n, "delegation_"@, 0);
            lemma_differs_from_prefix(n, "recruitment_"@, 0);
            lemma_differs_from_prefix(n, "rule_check_"@, 0);
            lemma_differs_from_prefix(n, "chain_"@, 0);
        },
        AuditAction::BestTermsShared => {
            reveal_strlit("best_terms_shared");
            lemma_differs_from_prefix(n, "state_"@, 0);
            lemma_differs_from_prefix(n, "contract_"@, 0);
            lemma_differs_from_prefix(n, "milestone_"@, 0);
            lemma_differs_from_prefix(n, "rules_"@, 0);
            lemma_differs_from_prefix(n, "coalition_"@, 0);
            lemma_differs_from_prefix(n, "delegation_"@, 0);
            lemma_differs_from_prefix(n, "recruitment_"@, 0);
            lemma_differs_from_prefix(n, "rule_check_"@, 0);
            lemma_differs_from_prefix(n, "chain_"@, 0);
        },
        AuditAction::RoundAdvanced => {
            reveal_strlit("round_advanced");
            lemma_differs_from_prefix(n, "state_"@, 0);
            lemma_differs_from_prefix(n, "contract_"@, 0);
            lemma_differs_from_prefix(n, "milestone_"@, 0);
            lemma_differs_from_prefix(n, "rules_"@, 1);
            lemma_differs_from_prefix(n, "coalition_"@, 0);
            lemma_differs_from_prefix(n, "delegation_"@, 0);
            lemma_differs_from_prefix(n, "recruitment_"@, 1);
            lemma_differs_from_prefix(n, "rule_check_"@, 1);
            lemma_differs_from_prefix(n, "chain_"@, 0);
        },
        AuditAction::StateSet => {
            reveal_strlit("state_set");
            assert(n.subrange(0, 6) =~= "state_"@);
            lemma_differs_from_prefix(n, "contract_"@, 0);
            lemma_differs_from_prefix(n, "milestone_"@, 0);
            lemma_differs_from_prefix(n, "rules_"@, 0);
            lemma_differs_from_prefix(n, "coalition_"@, 0);
            lemma_differs_from_prefix(n, "delegation_"@, 0);
            lemma_differs_from_prefix(n, "recruitment_"@, 0);
            lemma_differs_from_prefix(n, "rule_check_"@, 0);
            lemma_differs_from_prefix(n, "chain_"@, 0);
        },
        AuditAction::StateDeleted => {
            reveal_strlit("state_deleted");
            assert(n.subrange(0, 6) =~= "state_"@);
            lemma_differs_from_prefix(n, "contract_"@, 0);
            lemma_differs_from_prefix(n, "milestone_"@, 0);
            lemma_differs_from_prefix(n, "rules_"@, 0);
            lemma_differs_from_prefix(n, "coalition_"@, 0);
            lemma_differs_from_prefix(n, "delegation_"@, 0);
            lemma_differs_from_prefix(n, "recruitment_"@, 0);
            lemma_differs_from_prefix(n, "rule_check_"@, 0);
            lemma_differs_from_prefix(n, "chain_"@, 0);
        },
        AuditAction::ContractCreated => {
            reveal_strlit("contract_created");
            lemma_differs_from_prefix(n, "state_"@, 0);
            assert(n.subrange(0, 9) =~= "contract_"@);
            lemma_differs_from_prefix(n, "milestone_"@, 0);
            lemma_differs_from_prefix(n, "rules_"@, 0);
            lemma_differs_from_prefix(n, "coalition_"@, 2);
            lemma_differs_from_prefix(n, "delegation_"@, 0);
            lemma_differs_from_prefix(n, "recruitment_"@, 0);
            lemma_differs_from_prefix(n, "rule_check_"@, 0);
            lemma_differs_from_prefix(n, "chain_"@, 1);
        },
        AuditAction::MilestoneSubmitted => {
            reveal_strlit("milestone_submitted");
            lemma_differs_from_prefix(n, "state_"@, 0);
            lemma_differs_from_prefix(n, "contract_"@, 0);
            assert(n.subrange(0, 10) =~= "milestone_"@);
            lemma_differs_from_prefix(n, "rules_"@, 0);
            lemma_differs_from_prefix(n, "coalition_"@, 0);
            lemma_differs_from_prefix(n, "delegation_"@, 0);
            lemma_differs_from_prefix(n, "recruitment_"@, 0);
            lemma_differs_from_prefix(n, "rule_check_"@, 0);
            lemma_differs_from_prefix(n, "chain_"@, 0);
        },
        AuditAction::MilestoneAccepted => {
            reveal_strlit("milestone_accepted");
            lemma_differs_from_prefix(n, "state_"@, 0);
            lemma_differs_from_prefix(n, "contract_"@, 0);
            assert(n.subrange(0, 10) =~= "milestone_"@);
            lemma_differs_from_prefix(n, "rules_"@, 0);
            lemma_differs_from_prefix(n, "coalition_"@, 0);
            lemma_differs_from_prefix(n, "delegation_"@, 0);
            lemma_differs_from_prefix(n, "recruitment_"@, 0);
            lemma_differs_from_prefix(n, "rule_check_"@, 0);
            lemma_differs_from_prefix(n, "chain_"@, 0);
        },
        AuditAction::RulesUpdated => {
            reveal_strlit("rules_updated");
            lemma_differs_from_prefix(n, "state_"@, 0);
            lemma_differs_from_prefix(n, "contract_"@, 0);
            lemma_differs_from_prefix(n, "milestone_"@, 0);
            assert(n.subrange(0, 6) =~= "rules_"@);
            lemma_differs_from_prefix(n, "coalition_"@, 0);
            lemma_differs_from_prefix(n, "delegation_"@, 0);
            lemma_differs_from_prefix(n, "recruitment_"@, 1);
            lemma_differs_from_prefix(n, "rule_check_"@, 4);
            lemma_differs_from_prefix(n, "chain_"@, 0);
        },
        AuditAction::CoalitionCreated => {
            reveal_strlit("coalition_created");
            lemma_differs_from_prefix(n, "state_"@, 0);
            lemma_differs_from_prefix(n, "contract_"@, 2);
            lemma_differs_from_prefix(n, "milestone_"@, 0);
            lemma_differs_from_prefix(n, "rules_"@, 0);
            assert(n.subrange(0, 10) =~= "coalition_"@);
            lemma_differs_from_prefix(n, "delegation_"@, 0);
            lemma_differs_from_prefix(n, "recruitment_"@, 0);
            lemma_differs_from_prefix(n, "rule_check_"@, 0);
            lemma_differs_from_prefix(n, "chain_"@, 1);
        },
        AuditAction::CoalitionJoined => {
            reveal_strlit("coalition_joined");
            lemma_differs_from_prefix(n, "state_"@, 0);
            lemma_differs_from_prefix(n, "contract_"@, 2);
            lemma_differs_from_prefix(n, "milestone_"@, 0);
            lemma_differs_from_prefix(n, "rules_"@, 0);
            assert(n.subrange(0, 10) =~= "coalition_"@);
            lemma_differs_from_prefix(n, "delegation_"@, 0);
            lemma_differs_from_prefix(n, "recruitment_"@, 0);
            lemma_differs_from_prefix(n, "rule_check_"@, 0);
            lemma_differs_from_prefix(n, "chain_"@, 1);
        },
        AuditAction::CoalitionLeft => {
            reveal_strlit("coalition_left");
            lemma_differs_from_prefix(n, "state_"@, 0);
            lemma_differs_from_prefix(n, "contract_"@, 2);
            lemma_differs_from_prefix(n, "milestone_"@, 0);
            lemma_differs_from_prefix(n, "rules_"@, 0);
            assert(n.subrange(0, 10) =~= "coalition_"@);
            lemma_differs_from_prefix(n, "delegation_"@, 0);
            lemma_differs_from_prefix(n, "recruitment_"@, 0);
            lemma_differs_from_prefix(n, "rule_check_"@, 0);
            lemma_differs_from_prefix(n, "chain_"@, 1);
        },
        AuditAction::DelegationCreated => {
            reveal_strlit("delegation_created");
            lemma_differs_from_prefix(n, "state_"@, 0);
            lemma_differs_from_prefix(n, "contract_"@, 0);
            lemma_differs_from_prefix(n, "milestone_"@, 0);
            lemma_differs_from_prefix(n, "rules_"@, 0);
            lemma_differs_from_prefix(n, "coalition_"@, 0);
            assert(n.subrange(0, 11) =~= "delegation_"@);
            lemma_differs_from_prefix(n, "recruitment_"@, 0);
            lemma_differs_from_prefix(n, "rule_check_"@, 0);
            lemma_differs_from_prefix(n, "chain_"@, 0);
        },
        AuditAction::DelegationRevoked => {
            reveal_strlit("delegation_revoked");
            lemma_differs_from_prefix(n, "state_"@, 0);
            lemma_differs_from_prefix(n, "contract_"@, 0);
            lemma_differs_from_prefix(n, "milestone_"@, 0);
            lemma_differs_from_prefix(n, "rules_"@, 0);
            lemma_differs_from_prefix(n, "coalition_"@, 0);
            assert(n.subrange(0, 11) =~= "delegation_"@);
            lemma_differs_from_prefix(n, "recruitment_"@, 0);
            lemma_differs_from_prefix(n, "rule_check_"@, 0);
            lemma_differs_from_prefix(n, "chain_"@, 0);
        },
        AuditAction::RecruitmentCreated => {
            reveal_strlit("recruitment_created");
            lemma_differs_from_prefix(n, "state_"@, 0);
            lemma_differs_from_prefix(n, "contract_"@, 0);
            lemma_differs_from_prefix(n, "milestone_"@, 0);
            lemma_differs_from_prefix(n, "rules_"@, 1);
            lemma_differs_from_prefix(n, "coalition_"@, 0);
            lemma_differs_from_prefix(n, "delegation_"@, 0);
            assert(n.subrange(0, 12) =~= "recruitment_"@);
            lemma_differs_from_prefix(n, "rule_check_"@, 1);
            lemma_differs_from_prefix(n, "chain_"@, 0);
        },
        AuditAction::RecruitmentAccepted => {
            reveal_strlit("recruitment_accepted");
            lemma_differs_from_prefix(n, "state_"@, 0);
            lemma_differs_from_prefix(n, "contract_"@, 0);
            lemma_differs_from_prefix(n, "milestone_"@, 0);
            lemma_differs_from_prefix(n, "rules_"@, 1);
            lemma_differs_from_prefix(n, "coalition_"@, 0);
            lemma_differs_from_prefix(n, "delegation_"@, 0);
            assert(n.subrange(0, 12) =~= "recruitment_"@);
            lemma_differs_from_prefix(n, "rule_check_"@, 1);
            lemma_differs_from_prefix(n, "chain_"@, 0);
        },
        AuditAction::RfpCreated => {
            reveal_strlit("rfp_created");
            lemma_differs_from_prefix(n, "state_"@, 0);
            lemma_differs_from_prefix(n, "contract_"@, 0);
            lemma_differs_from_prefix(n, "milestone_"@, 0);
            lemma_differs_from_prefix(n, "rules_"@, 1);
            lemma_differs_from_prefix(n, "coalition_"@, 0);
            lemma_differs_from_prefix(n, "delegation_"@, 0);
            lemma_differs_from_prefix(n, "recruitment_"@, 1);
            lemma_differs_from_prefix(n, "rule_check_"@, 1);
            lemma_differs_from_prefix(n, "chain_"@, 0);
        },
        AuditAction::ProposalsEvaluated => {
            reveal_strlit("proposals_evaluated");
            lemma_differs_from_prefix(n, "state_"@, 0);
            lemma_differs_from_prefix(n, "contract_"@, 0);
            lemma_differs_from_prefix(n, "milestone_"@, 0);
            lemma_differs_from_prefix(n, "rules_"@, 0);
            lemma_differs_from_prefix(n, "coalition_"@, 0);
            lemma_differs_from_prefix(n, "delegation_"@, 0);
            lemma_differs_from_prefix(n, "recruitment_"@, 0);
            lemma_differs_from_prefix(n, "rule_check_"@, 0);
            lemma_differs_from_prefix(n, "chain_"@, 0);
        },
        AuditAction::RuleCheckDenied => {
            reveal_strlit("rule_check_denied");
            lemma_differs_from_prefix(n, "state_"@, 0);
            lemma_differs_from_prefix(n, "contract_"@, 0);
            lemma_differs_from_prefix(n, "milestone_"@, 0);
            lemma_differs_from_prefix(n, "rules_"@, 4);
            lemma_differs_from_prefix(n, "coalition_"@, 0);
            lemma_differs_from_prefix(n, "delegation_"@, 0);
            lemma_differs_from_prefix(n, "recruitment_"@, 1);
            assert(n.subrange(0, 11) =~= "rule_check_"@);
            lemma_differs_from_prefix(n, "chain_"@, 0);
        },
        AuditAction::ChainVerified => {
            reveal_strlit("chain_verified");
            lemma_differs_from_prefix(n, "state_"@, 0);
            lemma_differs_from_prefix(n, "contract_"@, 1);
            lemma_differs_from_prefix(n, "milestone_"@, 0);
            lemma_differs_from_prefix(n, "rules_"@, 0);
            lemma_differs_from_prefix(n, "coalition_"@, 1);
            lemma_differs_from_prefix(n, "delegation_"@, 0);
            lemma_differs_from_prefix(n, "recruitment_"@, 0);
            lemma_differs_from_prefix(n, "rule_check_"@, 0);
            assert(n.subrange(0, 6) =~= "chain_"@);
        },
    }
}

// ───────────────────────── the audit store ─────────────────────────

/// One entry of the audit trail. `details` is the JSON text given when the
/// action was logged.
#[derive(Debug)]
pub struct AuditEntry {
    pub id: i64,
    pub space_id: String,
    pub agent_id: String,
    pub action: String,
    pub target_type: Option<String>,
    pub target_id: Option<String>,
    pub details: Option<String>,
    pub created_at: i64,
    pub correlation_id: Option<String>,
    pub state_version: Option<u64>,
}

/// The mathematical view of an audit entry.
pub struct AuditRecord {
    pub id: i64,
    pub space_id: Seq<char>,
    pub agent_id: Seq<char>,
    pub action: Seq<char>,
    pub target_type: Option<Seq<char>>,
    pub target_id: Option<Seq<char>>,
    pub details: Option<Seq<char>>,
    pub created_at: i64,
    pub correlation_id: Option<Seq<char>>,
    pub state_version: Option<u64>,
}

/// The view of an optional string.
pub open spec fn opt_view(o: Option<String>) -> Option<Seq<char>> {
    match o {
        Some(s) => Some(s@),
        None => None,
    }
}

/// The view of an optional string slice.
pub open spec fn opt_str_view(o: Option<&str>) -> Option<Seq<char>> {
    match o {
        Some(s) => Some(s@),
        None => None,
    }
}

pub fn opt_to_string(o: Option<&str>) -> (r: Option<String>)
    ensures
        opt_view(r) == opt_str_view(o),
{
    match o {
        Some(s) => Some(String::from_str(s)),
        None => None,
    }
}

fn opt_clone(o: &Option<String>) -> (r: Option<String>)
    ensures
        opt_view(r) == opt_view(*o),
{
    match o {
        Some(s) => Some(s.clone()),
        None => None,
    }
}

impl AuditEntry {
    pub open spec fn view(&self) -> AuditRecord {
        AuditRecord {
            id: self.id,
            space_id: self.space_id@,
            agent_id: self.agent_id@,
            action: self.action@,
            target_type: opt_view(self.target_type),
            target_id: opt_view(self.target_id),
            details: opt_view(self.details),
            created_at: self.created_at,
            correlation_id: opt_view(self.correlation_id),
            state_version: self.state_version,
        }
    }

    fn duplicate(&self) -> (r: AuditEntry)
        ensures
            r.view() == self.view(),
    {
        AuditEntry {
            id: self.id,
            space_id: self.space_id.clone(),
            agent_id: self.agent_id.clone(),
            action: self.action.clone(),
            target_type: opt_clone(&self.target_type),
            target_id: opt_clone(&self.target_id),
            details: opt_clone(&self.details),
            created_at: self.created_at,
            correlation_id: opt_clone(&self.correlation_id),
            state_version: self.state_version,
        }
    }
}

/// Whether the handed-out entries show exactly the records `rs`, in order.
pub open spec fn entries_are(out: Seq<AuditEntry>, rs: Seq<AuditRecord>) -> bool {
    &&& out.len() == rs.len()
    &&& forall|i: int| 0 <= i < out.len() ==> (#[trigger] out[i]).view() == rs[i]
}

/// Earlier entries have smaller ids.
pub open spec fn audit_wf(es: Seq<AuditRecord>, next_id: i64) -> bool {
    &&& next_id >= 1
    &&& forall|i: int, j: int| 0 <= i < j < es.len() ==> (#[trigger] es[i]).id < (#[trigger] es[j]).id
    &&& forall|i: int| 0 <= i < es.len() ==> 1 <= #[trigger] es[i].id < next_id
}

/// The record a logged action becomes.
pub open spec fn logged_record(
    id: i64,
    space_id: Seq<char>,
    agent_id: Seq<char>,
    action: AuditAction,
    target_type: Option<Seq<char>>,
    target_id: Option<Seq<char>>,
    details: Option<Seq<char>>,
    correlation_id: Option<Seq<char>>,
    state_version: Option<u64>,
    now: i64,
) -> AuditRecord {
    AuditRecord {
        id,
        space_id,
        agent_id,
        action: action_name(action),
        target_type,
        target_id,
        details,
        created_at: now,
        correlation_id,
        state_version,
    }
}

/// An entry that a query for `space` with the given filters selects.
pub open spec fn selected(
    r: AuditRecord,
    space: Seq<char>,
    before_id: Option<i64>,
    action: Option<Seq<char>>,
    agent: Option<Seq<char>>,
) -> bool {
    &&& r.space_id == space
    &&& match before_id {
        Some(b) => r.id < b,
        None => true,
    }
    &&& match action {
        Some(x) => r.action == x,
        None => true,
    }
    &&& match agent {
        Some(y) => r.agent_id == y,
        None => true,
    }
}

pub open spec fn selected_pred(
    space: Seq<char>,
    before_id: Option<i64>,
    action: Option<Seq<char>>,
    agent: Option<Seq<char>>,
) -> spec_fn(AuditRecord) -> bool {
    |r: AuditRecord| selected(r, space, before_id, action, agent)
}

/// `x` is more recent than `y`: created later, or at the same time with a larger id.
pub open spec fn more_recent(x: AuditRecord, y: AuditRecord) -> bool {
    x.created_at > y.created_at || (x.created_at == y.created_at && x.id > y.id)
}

/// Inserts `x` before the first element less recent than it.
pub open spec fn insert_recent(s: Seq<AuditRecord>, x: AuditRecord) -> Seq<AuditRecord>
    decreases s.len(),
{
    if s.len() == 0 {
        seq![x]
    } else if more_recent(x, s[0]) {
        seq![x] + s
    } else {
        seq![s[0]] + insert_recent(s.drop_first(), x)
    }
}

/// `s` ordered most recent first.
pub open spec fn most_recent_first(s: Seq<AuditRecord>) -> Seq<AuditRecord>
    decreases s.len(),
{
    if s.len() == 0 {
        Seq::empty()
    } else {
        insert_recent(most_recent_first(s.drop_last()), s.last())
    }
}

/// What a trace query hands out: the selected entries, most recent first,
/// at most `limit` of them (a limit beyond `i64::MAX` is no limit at all).
pub open spec fn trace_page(
    es: Seq<AuditRecord>,
    space: Seq<char>,
    limit: usize,
    before_id: Option<i64>,
    action: Option<Seq<char>>,
    agent: Option<Seq<char>>,
) -> Seq<AuditRecord> {
    let all = most_recent_first(keep(es, selected_pred(space, before_id, action, agent)));
    if limit > i64::MAX || all.len() <= limit {
        all
    } else {
        all.take(limit as int)
    }
}

/// Entries are ordered strictly most recent first.
pub open spec fn recency_ordered(s: Seq<AuditRecord>) -> bool {
    forall|i: int, j: int| 0 <= i < j < s.len() ==> more_recent(s[i], s[j])
}

proof fn lemma_insert_recent_at(s: Seq<AuditRecord>, x: AuditRecord, j: int)
    requires
        0 <= j <= s.len(),
        forall|k: int| 0 <= k < j ==> !more_recent(x, s[k]),
        j < s.len() ==> more_recent(x, s[j]),
    ensures
        insert_recent(s, x) == s.insert(j, x),
    decreases s.len(),
{
    if s.len() == 0 {
        assert(s.insert(j, x) =~= seq![x]);
    } else if j == 0 {
        assert(s.insert(0, x) =~= seq![x] + s);
    } else {
        let t = s.drop_first();
        assert forall|k: int| 0 <= k < j - 1 implies !more_recent(x, t[k]) by {
            assert(t[k] == s[k + 1]);
        }
        if j < s.len() {
            assert(t[j - 1] == s[j]);
        }
        lemma_insert_recent_at(t, x, j - 1);
        assert(s.insert(j, x) =~= seq![s[0]] + t.insert(j - 1, x));
    }
}

proof fn lemma_insert_recent_props(s: Seq<AuditRecord>, x: AuditRecord)
    requires
        recency_ordered(s),
        forall|k: int| 0 <= k < s.len() ==> s[k].id != x.id,
    ensures
        recency_ordered(insert_recent(s, x)),
        insert_recent(s, x).len() == s.len() + 1,
        forall|k: int|
            0 <= k < insert_recent(s, x).len() ==> #[trigger] insert_recent(s, x)[k] == x || exists|m: int|
                0 <= m < s.len() && s[m] == insert_recent(s, x)[k],
    decreases s.len(),
{
    if s.len() > 0 && !more_recent(x, s[0]) {
        let t = s.drop_first();
        assert(recency_ordered(t)) by {
            assert forall|i: int, j: int| 0 <= i < j < t.len() implies more_recent(t[i], t[j]) by {
                assert(t[i] == s[i + 1] && t[j] == s[j + 1]);
            }
        }
        assert forall|k: int| 0 <= k < t.len() implies t[k].id != x.id by {
            assert(t[k] == s[k + 1]);
        }
        lemma_insert_recent_props(t, x);
        let m = insert_recent(t, x);
        let r = seq![s[0]] + m;
        assert forall|i: int, j: int| 0 <= i < j < r.len() implies more_recent(r[i], r[j]) by {
            if i == 0 {
                assert(r[j] == m[j - 1]);
                if m[j - 1] == x {
                    assert(s[0].id != x.id);
                } else {
                    let q = choose|q: int| 0 <= q < t.len() && t[q] == m[j - 1];
                    assert(s[q + 1] == m[j - 1]);
                }
            } else {
                assert(r[i] == m[i - 1] && r[j] == m[j - 1]);
            }
        }
        assert forall|k: int| 0 <= k < r.len() implies #[trigger] r[k] == x || exists|q: int|
            0 <= q < s.len() && s[q] == r[k] by {
            if k == 0 {
                assert(s[0] == r[0]);
            } else {
                assert(r[k] == m[k - 1]);
                if m[k - 1] != x {
                    let q = choose|q: int| 0 <= q < t.len() && t[q] == m[k - 1];
                    assert(s[q + 1] == r[k]);
                }
            }
        }
    } else if s.len() > 0 {
        let r = seq![x] + s;
        assert forall|i: int, j: int| 0 <= i < j < r.len() implies more_recent(r[i], r[j]) by {
            if i == 0 {
                assert(r[j] == s[j - 1]);
                if j - 1 > 0 {
                    assert(more_recent(s[0], s[j - 1]));
                }
            } else {
                assert(r[i] == s[i - 1] && r[j] == s[j - 1]);
            }
        }
        assert forall|k: int| 0 <= k < r.len() implies #[trigger] r[k] == x || exists|q: int|
            0 <= q < s.len() && s[q] == r[k] by {
            if k > 0 {
                assert(r[k] == s[k - 1]);
            }
        }
    }
}

/// Ordering entries with distinct ids most recent first gives a strict order.
pub proof fn lemma_most_recent_first_ordered(s: Seq<AuditRecord>)
    requires
        forall|i: int, j: int| 0 <= i < j < s.len() ==> s[i].id != s[j].id,
    ensures
        recency_ordered(most_recent_first(s)),
        most_recent_first(s).len() == s.len(),
        forall|k: int|
            0 <= k < most_recent_first(s).len() ==> exists|m: int|
                0 <= m < s.len() && s[m] == #[trigger] most_recent_first(s)[k],
    decreases s.len(),
{
    if s.len() > 0 {
        let t = s.drop_last();
        assert forall|i: int, j: int| 0 <= i < j < t.len() implies t[i].id != t[j].id by {
            assert(t[i] == s[i] && t[j] == s[j]);
        }
        lemma_most_recent_first_ordered(t);
        let m = most_recent_first(t);
        assert forall|k: int| 0 <= k < m.len() implies m[k].id != s.last().id by {
            let q = choose|q: int| 0 <= q < t.len() && t[q] == m[k];
            assert(s[q] == t[q]);
        }
        lemma_insert_recent_props(m, s.last());
        let r = most_recent_first(s);
        assert forall|k: int| 0 <= k < r.len() implies exists|q: int| 0 <= q < s.len() && s[q] == #[trigger] r[k] by {
            if r[k] == s.last() {
                assert(s[s.len() - 1] == r[k]);
            } else {
                let q = choose|q: int| 0 <= q < m.len() && m[q] == r[k];
                let q2 = choose|q2: int| 0 <= q2 < t.len() && t[q2] == m[q];
                assert(s[q2] == t[q2]);
            }
        }
    }
}

/// The audit trail.
pub struct TraceStore {
    entries: Vec<AuditEntry>,
    next_id: i64,
}

impl TraceStore {
    /// The logged entries, oldest first.
    pub closed spec fn entries(&self) -> Seq<AuditRecord> {
        self.entries@.map_values(|e: AuditEntry| e.view())
    }

    /// The id the next entry gets.
    pub closed spec fn next_id(&self) -> i64 {
        self.next_id
    }

    pub open spec fn wf(&self) -> bool {
        audit_wf(self.entries(), self.next_id())
    }

    /// An empty audit trail.
    pub fn new() -> (t: TraceStore)
        ensures
            t.wf(),
            t.entries() == Seq::<AuditRecord>::empty(),
            t.next_id() == 1,
    {
        let t = TraceStore { entries: Vec::new(), next_id: 1 };
        proof {
            assert(t.entries() =~= Seq::<AuditRecord>::empty());
        }
        t
    }

    /// Logs an action at time `now` and returns the new entry's id. Fails,
    /// logging nothing, only when ids are exhausted.
    pub fn log_action_ex_at(
        &mut self,
        space_id: &str,
        agent_id: &str,
        action: AuditAction,
        target_type: Option<&str>,
        target_id: Option<&str>,
        details: Option<&str>,
        correlation_id: Option<&str>,
        state_version: Option<u64>,
        now: i64,
    ) -> (r: Result<i64, GaggleError>)
        requires
            old(self).wf(),
        ensures
            final(self).wf(),
            r is Ok <==> old(self).next_id() < i64::MAX,
            r matches Ok(id) ==> {
                &&& id == old(self).next_id()
                &&& final(self).next_id() == old(self).next_id() + 1
                &&& final(self).entries() == old(self).entries().push(
                    logged_record(
                        id,
                        space_id@,
                        agent_id@,
                        action,
                        opt_str_view(target_type),
                        opt_str_view(target_id),
                        opt_str_view(details),
                        opt_str_view(correlation_id),
                        state_version,
                        now,
                    ),
                )
            },
            r matches Err(e) ==> e is DatabaseError && final(self).entries() == old(self).entries()
                && final(self).next_id() == old(self).next_id(),
    {
        if self.next_id == i64::MAX {
            return Err(GaggleError::DatabaseError(String::from_str("database or disk is full")));
        }
        let id = self.next_id;
        let e = AuditEntry {
            id,
            space_id: String::from_str(space_id),
            agent_id: String::from_str(agent_id),
            action: String::from_str(action.as_str()),
            target_type: opt_to_string(target_type),
            target_id: opt_to_string(target_id),
            details: opt_to_string(details),
            created_at: now,
            correlation_id: opt_to_string(correlation_id),
            state_version,
        };
        let ghost old_es = self.entries();
        let ghost rec = e.view();
        self.entries.push(e);
        self.next_id = self.next_id + 1;
        proof {
            assert(self.entries() =~= old_es.push(rec));
            let es = self.entries();
            assert forall|i: int, j: int| 0 <= i < j < es.len() implies (#[trigger] es[i]).id < (
            #[trigger] es[j]).id by {
                if j < old_es.len() {
                    assert(es[i] == old_es[i] && es[j] == old_es[j]);
                } else {
                    assert(es[i] == old_es[i]);
                    assert(1 <= old_es[i].id < id);
                }
            }
            assert forall|i: int| 0 <= i < es.len() implies 1 <= #[trigger] es[i].id < self.next_id by {
                if i < old_es.len() {
                    assert(es[i] == old_es[i]);
                }
            }
        }
        Ok(id)
    }

    /// Logs an action now, with a correlation id and state version; see `log_action_ex_at`.
    pub fn log_action_ex(
        &mut self,
        space_id: &str,
        agent_id: &str,
        action: AuditAction,
        target_type: Option<&str>,
        target_id: Option<&str>,
        details: Option<&str>,
        correlation_id: Option<&str>,
        state_version: Option<u64>,
    ) -> (r: Result<i64, GaggleError>)
        requires
            old(self).wf(),
        ensures
            final(self).wf(),
            r is Ok <==> old(self).next_id() < i64::MAX,
            r matches Ok(id) ==> {
                &&& id == old(self).next_id()
                &&& final(self).next_id() == old(self).next_id() + 1
                &&& exists|now: i64|
                    0 <= now <= MAX_CLOCK_MILLIS && final(self).entries() == old(
                        self,
                    ).entries().push(
                        #[trigger] logged_record(
                            id,
                            space_id@,
                            agent_id@,
                            action,
                            opt_str_view(target_type),
                            opt_str_view(target_id),
                            opt_str_view(details),
                            opt_str_view(correlation_id),
                            state_version,
                            now,
                        ),
                    )
            },
            r is Err ==> final(self).entries() == old(self).entries() && final(self).next_id()
                == old(self).next_id(),
    {
        let now = now_millis();
        self.log_action_ex_at(
            space_id,
            agent_id,
            action,
            target_type,
            target_id,
            details,
            correlation_id,
            state_version,
            now,
        )
    }

    /// Logs an action now, with no correlation id or state version.
    pub fn log_action(
        &mut self,
        space_id: &str,
        agent_id: &str,
        action: AuditAction,
        target_type: Option<&str>,
        target_id: Option<&str>,
        details: Option<&str>,
    ) -> (r: Result<i64, GaggleError>)
        requires
            old(self).wf(),
        ensures
            final(self).wf(),
            r is Ok <==> old(self).next_id() < i64::MAX,
            r matches Ok(id) ==> {
                &&& id == old(self).next_id()
                &&& final(self).next_id() == old(self).next_id() + 1
                &&& exists|now: i64|
                    0 <= now <= MAX_CLOCK_MILLIS && final(self).entries() == old(
                        self,
                    ).entries().push(
                        #[trigger] logged_record(
                            id,
                            space_id@,
                            agent_id@,
                            action,
                            opt_str_view(target_type),
                            opt_str_view(target_id),
                            opt_str_view(details),
                            None,
                            None,
                            now,
                        ),
                    )
            },
            r is Err ==> final(self).entries() == old(self).entries() && final(self).next_id()
                == old(self).next_id(),
    {
        self.log_action_ex(space_id, agent_id, action, target_type, target_id, details, None, None)
    }

    /// The entries of `space_id` selected by the filters (older than
    /// `before_id`, with the given action name, by the given agent), most
    /// recent first, at most `limit` of them.
    pub fn query_trace_ex(
        &self,
        space_id: &str,
        limit: usize,
        before_id: Option<i64>,
        action_filter: Option<&str>,
        agent_filter: Option<&str>,
    ) -> (r: Result<Vec<AuditEntry>, GaggleError>)
        requires
            self.wf(),
        ensures
            r matches Ok(v) && entries_are(
                v@,
                trace_page(
                    self.entries(),
                    space_id@,
                    limit,
                    before_id,
                    opt_str_view(action_filter),
                    opt_str_view(agent_filter),
                ),
            ),
            recency_ordered(
                trace_page(
                    self.entries(),
                    space_id@,
                    limit,
                    before_id,
                    opt_str_view(action_filter),
                    opt_str_view(agent_filter),
                ),
            ),
    {
        let ghost p = selected_pred(
            space_id@,
            before_id,
            opt_str_view(action_filter),
            opt_str_view(agent_filter),
        );
        let ghost es = self.entries();
        let mut out: Vec<AuditEntry> = Vec::new();
        let mut i: usize = 0;
        while i < self.entries.len()
            invariant
                0 <= i <= self.entries@.len(),
                es == self.entries(),
                es.len() == self.entries@.len(),
                p == selected_pred(
                    space_id@,
                    before_id,
                    opt_str_view(action_filter),
                    opt_str_view(agent_filter),
                ),
                entries_are(out@, most_recent_first(keep(es.take(i as int), p))),
            decreases self.entries@.len() - i,
        {
            proof {
                assert(es[i as int] == self.entries@[i as int].view());
                lemma_keep_take_step(es, i as int, p);
            }
            let e = &self.entries[i];
            let ok_before = match before_id {
                Some(b) => e.id < b,
                None => true,
            };
            let ok_action = match action_filter {
                Some(x) => str_eq(e.action.as_str(), x),
                None => true,
            };
            let ok_agent = match agent_filter {
                Some(y) => str_eq(e.agent_id.as_str(), y),
                None => true,
            };
            if str_eq(e.space_id.as_str(), space_id) && ok_before && ok_action && ok_agent {
                let ghost sorted = most_recent_first(keep(es.take(i as int), p));
                let ghost x = es[i as int];
                let mut j: usize = 0;
                while j < out.len() && !(e.created_at > out[j].created_at || (e.created_at
                    == out[j].created_at && e.id > out[j].id))
                    invariant
                        0 <= j <= out@.len(),
                        entries_are(out@, sorted),
                        x == e.view(),
                        forall|k: int| 0 <= k < j ==> !more_recent(x, sorted[k]),
                    decreases out@.len() - j,
                {
                    j = j + 1;
                }
                proof {
                    lemma_insert_recent_at(sorted, x, j as int);
                    assert(keep(es.take(i + 1), p).drop_last() =~= keep(es.take(i as int), p));
                }
                let ghost before = out@;
                out.insert(j, e.duplicate());
                proof {
                    let t = sorted.insert(j as int, x);
                    assert forall|k: int| 0 <= k < out@.len() implies (#[trigger] out@[k]).view() == t[k] by {
                        if k < j {
                            assert(out@[k] == before[k] && t[k] == sorted[k]);
                        } else if k > j {
                            assert(out@[k] == before[k - 1] && t[k] == sorted[k - 1]);
                        }
                    }
                }
            }
            i = i + 1;
        }
        proof {
            lemma_take_full(es);
            let sel = keep(es, p);
            crate::seqs::lemma_keep_ordered(es, p, |x: AuditRecord, y: AuditRecord| x.id < y.id);
            assert(crate::seqs::ordered_by(es, |x: AuditRecord, y: AuditRecord| x.id < y.id));
            assert forall|a: int, b: int| 0 <= a < b < sel.len() implies sel[a].id != sel[b].id by {
                assert((|x: AuditRecord, y: AuditRecord| x.id < y.id)(sel[a], sel[b]));
            }
            lemma_most_recent_first_ordered(sel);
        }
        let ghost all = out@;
        if limit as u64 <= i64::MAX as u64 {
            out.truncate(limit);
        }
        proof {
            let full = most_recent_first(keep(es, p));
            if limit <= i64::MAX && full.len() > limit {
                assert forall|k: int| 0 <= k < out@.len() implies (#[trigger] out@[k]).view() == full.take(limit as int)[k] by {
                    assert(out@[k] == all[k]);
                }
            }
        }
        Ok(out)
    }

    /// The entries of `space_id` (optionally older than `before_id`, with a
    /// given action name), most recent first, at most `limit` of them.
    pub fn query_trace(
        &self,
        space_id: &str,
        limit: usize,
        before_id: Option<i64>,
        action_filter: Option<&str>,
    ) -> (r: Result<Vec<AuditEntry>, GaggleError>)
        requires
            self.wf(),
        ensures
            r matches Ok(v) && entries_are(
                v@,
                trace_page(
                    self.entries(),
                    space_id@,
                    limit,
                    before_id,
                    opt_str_view(action_filter),
                    None,
                ),
            ),
    {
        self.query_trace_ex(space_id, limit, before_id, action_filter, None)
    }
}


// ───────────────────────── statistics ─────────────────────────

/// Counts per space: the total, per action name, and per category name.
#[derive(Debug)]
pub struct TraceStats {
    pub space_id: String,
    pub total: i64,
    pub by_action: Vec<(String, i64)>,
    pub by_category: Vec<(String, i64)>,
}

/// The category name an entry is counted under; names that are no known
/// action count as negotiation.
pub open spec fn entry_category_name(r: AuditRecord) -> Seq<char> {
    match action_of(r.action) {
        Some(a) => category_name(action_category(a)),
        None => "negotiation"@,
    }
}

pub open spec fn action_key() -> spec_fn(AuditRecord) -> Seq<char> {
    |r: AuditRecord| r.action
}

pub open spec fn category_key() -> spec_fn(AuditRecord) -> Seq<char> {
    |r: AuditRecord| entry_category_name(r)
}

pub open spec fn in_space_pred(space: Seq<char>) -> spec_fn(AuditRecord) -> bool {
    |r: AuditRecord| r.space_id == space
}

/// The entries of `space` whose key is `k`.
pub open spec fn keyed_pred(space: Seq<char>, key: spec_fn(AuditRecord) -> Seq<char>, k: Seq<char>) -> spec_fn(
    AuditRecord,
) -> bool {
    |r: AuditRecord| r.space_id == space && key(r) == k
}

/// `t` lists each key of the entries of `space` exactly once, with the
/// number of those entries that have that key.
pub open spec fn tally_is(
    t: Seq<(String, i64)>,
    es: Seq<AuditRecord>,
    space: Seq<char>,
    key: spec_fn(AuditRecord) -> Seq<char>,
) -> bool {
    &&& forall|m: int, n: int| 0 <= m < n < t.len() ==> (#[trigger] t[m]).0@ != (#[trigger] t[n]).0@
    &&& forall|m: int|
        0 <= m < t.len() ==> (#[trigger] t[m]).1 == count(es, keyed_pred(space, key, t[m].0@))
    &&& forall|i: int|
        0 <= i < es.len() && es[i].space_id == space ==> exists|m: int|
            0 <= m < t.len() && (#[trigger] t[m]).0@ == key(#[trigger] es[i])
}

proof fn lemma_audit_bounded(es: Seq<AuditRecord>, next_id: i64)
    requires
        audit_wf(es, next_id),
    ensures
        es.len() < next_id,
{
    assert forall|i: int| 0 <= i < es.len() implies #[trigger] es[i].id >= i + 1 by {
        lemma_audit_id_ge(es, next_id, i);
    }
    if es.len() > 0 {
        assert(es[es.len() - 1].id >= es.len());
    }
}

proof fn lemma_audit_id_ge(es: Seq<AuditRecord>, next_id: i64, i: int)
    requires
        audit_wf(es, next_id),
        0 <= i < es.len(),
    ensures
        es[i].id >= i + 1,
    decreases i,
{
    if i > 0 {
        lemma_audit_id_ge(es, next_id, i - 1);
        assert(es[i - 1].id < es[i].id);
    } else {
        assert(1 <= es[i].id);
    }
}

/// One more entry `x` of `space` with key `k` counted into the tally of `es`.
#[verifier::loop_isolation(false)]
fn tally_add(
    t: &mut Vec<(String, i64)>,
    k: &str,
    Ghost(es): Ghost<Seq<AuditRecord>>,
    Ghost(x): Ghost<AuditRecord>,
    Ghost(space): Ghost<Seq<char>>,
    Ghost(key): Ghost<spec_fn(AuditRecord) -> Seq<char>>,
)
    requires
        tally_is(old(t)@, es, space, key),
        x.space_id == space,
        key(x) == k@,
        es.len() < i64::MAX,
    ensures
        tally_is(final(t)@, es.push(x), space, key),
{
    let ghost es2 = es.push(x);
    proof {
        assert forall|m: int| 0 <= m < old(t)@.len() implies (#[trigger] old(t)@[m]).1 <= es.len() by {
            crate::seqs::lemma_keep_len(es, keyed_pred(space, key, old(t)@[m].0@));
        }
    }
    let mut j: usize = 0;
    while j < t.len()
        invariant
            0 <= j <= t@.len(),
            t@ == old(t)@,
            forall|m: int| 0 <= m < j ==> t@[m].0@ != k@,
        decreases t@.len() - j,
    {
        if str_eq(t[j].0.as_str(), k) {
            let ghost before = t@;
            let (name, c) = t.remove(j);
            t.insert(j, (name, c + 1));
            proof {
                assert forall|m: int| 0 <= m < t@.len() implies (#[trigger] t@[m]).1 == count(
                    es2,
                    keyed_pred(space, key, t@[m].0@),
                ) by {
                    crate::seqs::lemma_count_push(es, x, keyed_pred(space, key, t@[m].0@));
                    if m != j {
                        assert(t@[m] == before[m]);
                        assert(before[m].0@ != before[j as int].0@);
                    }
                }
                assert forall|m: int, n: int| 0 <= m < n < t@.len() implies (#[trigger] t@[m]).0@
                    != (#[trigger] t@[n]).0@ by {
                    assert(before[m].0@ != before[n].0@);
                }
                assert forall|i: int| 0 <= i < es2.len() && es2[i].space_id == space implies exists|m: int|
                    0 <= m < t@.len() && (#[trigger] t@[m]).0@ == key(#[trigger] es2[i]) by {
                    if i < es.len() {
                        assert(es2[i] == es[i]);
                        let m = choose|m: int| 0 <= m < before.len() && (#[trigger] before[m]).0@ == key(es[i]);
                        assert(t@[m].0@ == before[m].0@);
                    } else {
                        assert(t@[j as int].0@ == k@);
                    }
                }
            }
            return;
        }
        j = j + 1;
    }
    let ghost before = t@;
    t.push((String::from_str(k), 1));
    proof {
        assert forall|i: int| 0 <= i < es.len() implies !(keyed_pred(space, key, k@))(#[trigger] es[i]) by {
            if es[i].space_id == space && key(es[i]) == k@ {
                let m = choose|m: int| 0 <= m < before.len() && (#[trigger] before[m]).0@ == key(es[i]);
            }
        }
        crate::seqs::lemma_keep_none(es, keyed_pred(space, key, k@));
        assert forall|m: int| 0 <= m < t@.len() implies (#[trigger] t@[m]).1 == count(
            es2,
            keyed_pred(space, key, t@[m].0@),
        ) by {
            crate::seqs::lemma_count_push(es, x, keyed_pred(space, key, t@[m].0@));
            if m < before.len() {
                assert(t@[m] == before[m]);
            }
        }
        assert forall|i: int| 0 <= i < es2.len() && es2[i].space_id == space implies exists|m: int|
            0 <= m < t@.len() && (#[trigger] t@[m]).0@ == key(#[trigger] es2[i]) by {
            if i < es.len() {
                assert(es2[i] == es[i]);
                let m = choose|m: int| 0 <= m < before.len() && (#[trigger] before[m]).0@ == key(es[i]);
                assert(t@[m] == before[m]);
            } else {
                assert(t@[before.len() as int].0@ == k@);
            }
        }
    }
}

fn category_name_of(action: &str) -> (r: &'static str)
    ensures
        r@ == (match action_of(action@) {
            Some(a) => category_name(action_category(a)),
            None => "negotiation"@,
        }),
{
    match AuditAction::from_str(action) {
        Some(a) => a.category().as_str(),
        None => "negotiation",
    }
}

impl TraceStore {
    /// The counts of `space_id`'s entries: in all, per action name, and per
    /// category name (names that are no known action count as negotiation).
    pub fn trace_stats(&self, space_id: &str) -> (r: Result<TraceStats, GaggleError>)
        requires
            self.wf(),
        ensures
            r matches Ok(st) && {
                &&& st.space_id@ == space_id@
                &&& st.total == count(self.entries(), in_space_pred(space_id@))
                &&& tally_is(st.by_action@, self.entries(), space_id@, action_key())
                &&& tally_is(st.by_category@, self.entries(), space_id@, category_key())
            },
    {
        let ghost es = self.entries();
        let ghost sp = space_id@;
        proof {
            lemma_audit_bounded(es, self.next_id);
        }
        let mut total: i64 = 0;
        let mut by_action: Vec<(String, i64)> = Vec::new();
        let mut by_category: Vec<(String, i64)> = Vec::new();
        let mut i: usize = 0;
        while i < self.entries.len()
            invariant
                0 <= i <= self.entries@.len(),
                es == self.entries(),
                es.len() == self.entries@.len(),
                es.len() < i64::MAX,
                sp == space_id@,
                total == count(es.take(i as int), in_space_pred(sp)),
                total <= i,
                tally_is(by_action@, es.take(i as int), sp, action_key()),
                tally_is(by_category@, es.take(i as int), sp, category_key()),
            decreases self.entries@.len() - i,
        {
            let ghost x = es[i as int];
            proof {
                assert(x == self.entries@[i as int].view());
                lemma_keep_take_step(es, i as int, in_space_pred(sp));
                assert(es.take(i + 1) =~= es.take(i as int).push(x));
            }
            let e = &self.entries[i];
            if str_eq(e.space_id.as_str(), space_id) {
                total = total + 1;
                tally_add(&mut by_action, e.action.as_str(), Ghost(es.take(i as int)), Ghost(x), Ghost(sp), Ghost(action_key()));
                let c = category_name_of(e.action.as_str());
                tally_add(&mut by_category, c, Ghost(es.take(i as int)), Ghost(x), Ghost(sp), Ghost(category_key()));
            } else {
                proof {
                    let t0 = es.take(i as int);
                    let t1 = es.take(i + 1);
                    assert forall|m: int| 0 <= m < by_action@.len() implies (#[trigger] by_action@[m]).1 == count(
                        t1,
                        keyed_pred(sp, action_key(), by_action@[m].0@),
                    ) by {
                        crate::seqs::lemma_count_push(t0, x, keyed_pred(sp, action_key(), by_action@[m].0@));
                    }
                    assert forall|m: int| 0 <= m < by_category@.len() implies (#[trigger] by_category@[m]).1 == count(
                        t1,
                        keyed_pred(sp, category_key(), by_category@[m].0@),
                    ) by {
                        crate::seqs::lemma_count_push(t0, x, keyed_pred(sp, category_key(), by_category@[m].0@));
                    }
                    assert forall|j: int| 0 <= j < t1.len() && t1[j].space_id == sp implies exists|m: int|
                        0 <= m < by_action@.len() && (#[trigger] by_action@[m]).0@ == (action_key())(#[trigger] t1[j]) by {
                        assert(t1[j] == t0[j]);
                    }
                    assert forall|j: int| 0 <= j < t1.len() && t1[j].space_id == sp implies exists|m: int|
                        0 <= m < by_category@.len() && (#[trigger] by_category@[m]).0@ == (category_key())(#[trigger] t1[j]) by {
                        assert(t1[j] == t0[j]);
                    }
                }
            }
            i = i + 1;
        }
        proof {
            lemma_take_full(es);
        }
        Ok(TraceStats { space_id: String::from_str(space_id), total, by_action, by_category })
    }
}


// ───────────────────────── laws ─────────────────────────

proof fn lemma_insert_recent_contains(s: Seq<AuditRecord>, x: AuditRecord)
    ensures
        insert_recent(s, x).contains(x),
    decreases s.len(),
{
    if s.len() == 0 {
        assert(insert_recent(s, x)[0] == x);
    } else if more_recent(x, s[0]) {
        assert(insert_recent(s, x)[0] == x);
    } else {
        lemma_insert_recent_contains(s.drop_first(), x);
        let m = insert_recent(s.drop_first(), x);
        let k = choose|k: int| 0 <= k < m.len() && m[k] == x;
        assert(insert_recent(s, x)[k + 1] == x);
    }
}

/// Queries respect their filters: every entry a query hands out belongs to
/// the space, is older than `before_id` if given, and has the requested
/// action and agent if given.
pub proof fn law_query_respects_filters(
    es: Seq<AuditRecord>,
    next_id: i64,
    space: Seq<char>,
    limit: usize,
    before_id: Option<i64>,
    action: Option<Seq<char>>,
    agent: Option<Seq<char>>,
)
    requires
        audit_wf(es, next_id),
    ensures
        forall|k: int|
            0 <= k < trace_page(es, space, limit, before_id, action, agent).len() ==> selected(
                #[trigger] trace_page(es, space, limit, before_id, action, agent)[k],
                space,
                before_id,
                action,
                agent,
            ),
{
    let p = selected_pred(space, before_id, action, agent);
    let sel = keep(es, p);
    crate::seqs::lemma_keep_ordered(es, p, |x: AuditRecord, y: AuditRecord| x.id < y.id);
    assert(crate::seqs::ordered_by(es, |x: AuditRecord, y: AuditRecord| x.id < y.id));
    assert forall|a: int, b: int| 0 <= a < b < sel.len() implies sel[a].id != sel[b].id by {
        assert((|x: AuditRecord, y: AuditRecord| x.id < y.id)(sel[a], sel[b]));
    }
    lemma_most_recent_first_ordered(sel);
    crate::seqs::lemma_keep_origin(es, p);
    let full = most_recent_first(sel);
    let page = trace_page(es, space, limit, before_id, action, agent);
    assert forall|k: int| 0 <= k < page.len() implies selected(#[trigger] page[k], space, before_id, action, agent) by {
        assert(page[k] == full[k]);
        let m = choose|m: int| 0 <= m < sel.len() && sel[m] == full[k];
        let q = choose|q: int| 0 <= q < es.len() && #[trigger] sel[m] == es[q] && p(es[q]);
    }
}

/// Newest first: an action logged no earlier than everything already in the
/// trail is the first entry a query of its space hands out.
pub proof fn law_latest_logged_comes_first(
    es: Seq<AuditRecord>,
    next_id: i64,
    rec: AuditRecord,
    limit: usize,
)
    requires
        audit_wf(es, next_id),
        rec.id == next_id,
        forall|i: int| 0 <= i < es.len() ==> #[trigger] es[i].created_at <= rec.created_at,
        limit >= 1,
    ensures
        trace_page(es.push(rec), rec.space_id, limit, None, None, None).len() >= 1,
        trace_page(es.push(rec), rec.space_id, limit, None, None, None)[0] == rec,
{
    let p = selected_pred(rec.space_id, None, None, None);
    let es2 = es.push(rec);
    lemma_keep_push(es, rec, p);
    let sel = keep(es, p);
    let sel2 = keep(es2, p);
    assert(sel2 == sel.push(rec));
    crate::seqs::lemma_keep_ordered(es, p, |x: AuditRecord, y: AuditRecord| x.id < y.id);
    assert(crate::seqs::ordered_by(es, |x: AuditRecord, y: AuditRecord| x.id < y.id));
    crate::seqs::lemma_keep_origin(es, p);
    assert forall|a: int, b: int| 0 <= a < b < sel2.len() implies sel2[a].id != sel2[b].id by {
        if b < sel.len() {
            assert((|x: AuditRecord, y: AuditRecord| x.id < y.id)(sel[a], sel[b]));
        } else {
            let q = choose|q: int| 0 <= q < es.len() && #[trigger] sel[a] == es[q] && p(es[q]);
            assert(es[q].id < next_id);
        }
    }
    lemma_most_recent_first_ordered(sel2);
    let m = most_recent_first(sel);
    assert(sel2.drop_last() =~= sel);
    assert(most_recent_first(sel2) == insert_recent(m, rec));
    lemma_insert_recent_contains(m, rec);
    let full = most_recent_first(sel2);
    let k = choose|k: int| 0 <= k < full.len() && full[k] == rec;
    if k > 0 {
        assert(more_recent(full[0], full[k]));
        let q = choose|q: int| 0 <= q < sel2.len() && sel2[q] == #[trigger] full[0];
        if q < sel.len() {
            let z = choose|z: int| 0 <= z < es.len() && #[trigger] sel[q] == es[z] && p(es[z]);
            assert(es[z].created_at <= rec.created_at);
            assert(es[z].id < next_id);
        }
    }
    assert(full[0] == rec);
}

} // verus!
