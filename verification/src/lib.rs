//! Gaggle: the verified core of an agent-to-agent negotiation platform.
//!
//! Persistence, HTTP and WebSocket plumbing live outside this crate; what is
//! here is the logic that decides: the reliable event queue, the audit trail,
//! contract execution, agent registration, rate limiting and request
//! validation.

pub mod text;
pub mod error;
pub mod seqs;
pub mod sys;
pub mod api;
pub mod execution;
pub mod config;
pub mod agents;
pub mod discovery;
