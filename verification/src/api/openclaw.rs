//! The OpenClaw gateway's protocol: the handshake, the message kinds it
//! accepts, and the events it sends.

use vstd::prelude::*;
use vstd::string::*;
use crate::agents::registry::{agent_view, agent_with_key, has_key, AgentRegistry};
use crate::agents::types::Agent;
use crate::text::str_eq;

verus! {

/// The kind of a message in a negotiation space.
#[derive(Debug, Clone, Copy, PartialEq, Eq, Structural)]
pub enum MessageType {
    Text,
    Proposal,
    CounterProposal,
    Acceptance,
    Rejection,
    Withdrawal,
    System,
    Attachment,
}

/// The message kind a name stands for; any other name is plain text.
pub open spec fn msg_type_of(s: Seq<char>) -> MessageType {
    if s == "proposal"@ {
        MessageType::Proposal
    } else if s == "counter_proposal"@ {
        MessageType::CounterProposal
    } else if s == "acceptance"@ {
        MessageType::Acceptance
    } else if s == "rejection"@ {
        MessageType::Rejection
    } else if s == "withdrawal"@ {
        MessageType::Withdrawal
    } else if s == "system"@ {
        MessageType::System
    } else if s == "attachment"@ {
        MessageType::Attachment
    } else {
        MessageType::Text
    }
}

/// The message kind a name stands for; see `msg_type_of`.
pub fn parse_msg_type(s: &str) -> (r: MessageType)
    ensures
        r == msg_type_of(s@),
{
    if str_eq(s, "proposal") {
        MessageType::Proposal
    } else if str_eq(s, "counter_proposal") {
        MessageType::CounterProposal
    } else if str_eq(s, "acceptance") {
        MessageType::Acceptance
    } else if str_eq(s, "rejection") {
        MessageType::Rejection
    } else if str_eq(s, "withdrawal") {
        MessageType::Withdrawal
    } else if str_eq(s, "system") {
        MessageType::System
    } else if str_eq(s, "attachment") {
        MessageType::Attachment
    } else {
        MessageType::Text
    }
}

/// The events the gateway sends that carry plain values.
pub enum OpenClawOutgoing {
    /// The handshake succeeded.
    Connected { agent_id: String, status: String },
    /// An agent joined a space.
    SpaceJoined { space_id: String, agent_id: String },
    /// A proposal changed state.
    ProposalUpdate { space_id: String, proposal_id: String, status: String, action: String },
    /// A space was closed.
    SpaceClosed { space_id: String, conclusion: String },
    /// Something went wrong.
    Error { code: String, message: String, space_id: Option<String> },
}

/// The gateway's handshake: the key must belong to an agent, and that agent
/// must be the one that claims to connect.
pub fn check_connect(registry: &AgentRegistry, agent_id: &str, api_key: &str) -> (r: Result<Agent, String>)
    requires
        registry.wf(),
    ensures
        !has_key(registry.agents(), api_key@) ==> r is Err && r->Err_0@ == "Invalid api_key"@,
        has_key(registry.agents(), api_key@) && agent_with_key(registry.agents(), api_key@).id != agent_id@
            ==> r is Err && r->Err_0@ == "agent_id does not match api_key"@,
        has_key(registry.agents(), api_key@) && agent_with_key(registry.agents(), api_key@).id == agent_id@
            ==> r is Ok && agent_view(r->Ok_0) == agent_with_key(registry.agents(), api_key@),
{
    let agent = match registry.get_by_api_key(api_key) {
        Ok(Some(a)) => a,
        _ => {
            return Err(String::from_str("Invalid api_key"));
        },
    };
    if !str_eq(agent.id.as_str(), agent_id) {
        return Err(String::from_str("agent_id does not match api_key"));
    }
    Ok(agent)
}

/// The event that confirms a handshake.
pub fn connected(agent: &Agent) -> (r: OpenClawOutgoing)
    ensures
        r matches OpenClawOutgoing::Connected { agent_id, status } && agent_id@ == agent.id@ && status@
            == "ok"@,
{
    OpenClawOutgoing::Connected { agent_id: agent.id.clone(), status: String::from_str("ok") }
}

/// The event that reports a failed handshake.
pub fn handshake_failed(message: String) -> (r: OpenClawOutgoing)
    ensures
        r matches OpenClawOutgoing::Error { code, message: m, space_id } && code@ == "HANDSHAKE_FAILED"@
            && m@ == message@ && space_id is None,
{
    OpenClawOutgoing::Error { code: String::from_str("HANDSHAKE_FAILED"), message, space_id: None }
}

} // verus!
