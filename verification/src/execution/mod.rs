//! Contract execution: the contract a negotiation ends in, and its milestones.

pub mod laws;
pub mod store;
pub mod types;

pub use store::ExecutionStore;
pub use types::{
    AcceptMilestoneRequest, Contract, ContractStatus, CreateContractRequest,
    CreateMilestoneRequest, DisputeContractRequest, Milestone, MilestoneStatus,
    SubmitMilestoneRequest,
};
