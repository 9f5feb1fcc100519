//! The agent types: who an agent is, and what registering and updating one take.

use vstd::prelude::*;

verus! {

/// Whether an agent buys or sells.
#[derive(Debug, Clone, Copy, PartialEq, Eq, Structural)]
pub enum AgentType {
    Consumer,
    Provider,
}

/// The name of an agent type in stored and sent JSON.
pub open spec fn agent_type_name(t: AgentType) -> Seq<char> {
    match t {
        AgentType::Consumer => "consumer"@,
        AgentType::Provider => "provider"@,
    }
}

impl AgentType {
    /// The name of the type in stored and sent JSON.
    pub fn name(&self) -> (r: &'static str)
        ensures
            r@ == agent_type_name(*self),
    {
        match self {
            AgentType::Consumer => "consumer",
            AgentType::Provider => "provider",
        }
    }
}

/// A registered agent. `metadata` is JSON text.
#[derive(Debug)]
pub struct Agent {
    pub id: String,
    pub agent_type: AgentType,
    pub name: String,
    /// The key the agent authenticates with.
    pub api_key: String,
    /// The SHA-256 digest of the agent's secret, in lowercase hex.
    pub api_secret_hash: String,
    pub public_key: Option<String>,
    pub metadata: String,
    pub created_at: i64,
    /// The user who owns the agent, if any.
    pub user_id: Option<String>,
    /// When the agent was disabled, if it was.
    pub disabled_at: Option<i64>,
    pub organization: Option<String>,
    /// Where the agent is woken when it is offline.
    pub callback_url: Option<String>,
}

/// A request to register an agent. `metadata` is JSON text.
#[derive(Debug)]
pub struct RegisterRequest {
    pub agent_type: AgentType,
    pub name: String,
    pub metadata: String,
    pub public_key: Option<String>,
    pub organization: Option<String>,
    pub callback_url: Option<String>,
}

/// The answer to a registration; the secret is handed out only here, and
/// only on a first registration.
#[derive(Debug)]
pub struct RegisterResponse {
    pub id: String,
    pub agent_type: AgentType,
    pub name: String,
    pub api_key: String,
    pub api_secret: String,
    pub created_at: i64,
    pub organization: Option<String>,
}

/// A request to change an agent; each field given replaces the current one.
/// `metadata` is JSON text.
#[derive(Debug)]
pub struct UpdateAgentRequest {
    pub name: Option<String>,
    pub metadata: Option<String>,
    pub organization: Option<String>,
    pub callback_url: Option<String>,
}

/// One service a provider sells at a fixed price. `price_bits` is the
/// IEEE-754 bit pattern of the price.
#[derive(Debug)]
pub struct PricedService {
    pub name: String,
    pub description: Option<String>,
    pub price_bits: u64,
    pub currency: Option<String>,
}

/// How a provider prices its services.
#[derive(Debug)]
pub enum ProviderPricing {
    Fixed { services: Vec<PricedService> },
    Negotiated,
    Custom(String),
}

/// What a provider offers, beyond its agent record.
#[derive(Debug)]
pub struct ProviderProfile {
    pub agent_id: String,
    pub team: Vec<String>,
    pub skills: Vec<String>,
    pub pricing_model: ProviderPricing,
}

} // verus!
