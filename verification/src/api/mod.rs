//! The platform's API layer: event delivery, audit trail, rate limiting and
//! request validation.

pub mod event_queue;
pub mod queue_laws;
pub mod trace;
pub mod middleware;
pub mod rate_laws;
pub mod ws;
pub mod webhook;
pub mod rest;
pub mod openclaw;
pub mod health;
pub mod scheduler;
pub mod session;
pub mod ws_core;
pub mod delivery;
