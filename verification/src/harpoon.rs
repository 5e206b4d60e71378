//! Calls from the other side to targets here.

pub mod call;
pub mod forward;
pub mod headers;
pub mod label;
pub mod metrics;
pub mod policy;
pub mod registry;
pub mod rewrite;
pub mod schema;
pub mod targets;
