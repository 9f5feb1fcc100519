//! Agent registration, lookup and authentication.

pub mod auth;
pub mod laws;
pub mod registry;
pub mod secret;
pub mod types;

pub use types::{
    Agent, AgentType, PricedService, ProviderPricing, ProviderProfile, RegisterRequest,
    RegisterResponse, UpdateAgentRequest,
};
