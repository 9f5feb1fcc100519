//! The REST endpoints' rules, apart from the transport.

pub mod rest_institution;
pub mod rest_agents;
pub mod rest_market;
pub mod rest_spaces;
