//! Provider discovery and need broadcast.

pub mod needs;
pub mod profiles;
pub mod query;
pub mod types;

pub use types::{
    AvailabilityStatus, Need, NeedSearchQuery, NeedStatus, PaginatedResult, PricingModel,
    ProviderCapabilities, PublishNeedRequest,
};
