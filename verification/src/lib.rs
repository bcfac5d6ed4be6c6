//! Service registration, resilience and script-engine plumbing whose rules
//! are stated as contracts and proved.
pub mod json;
pub mod listing;
pub mod order;
pub(crate) mod random;
pub mod ratelimit;
pub mod registry;
pub mod retry;
pub mod script;
pub mod string_map;
pub mod text;
