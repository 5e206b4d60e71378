//! The connection to the service.

pub mod client;
pub mod delivery;
pub mod error;
pub mod measure;
pub mod observation;
pub mod poll;
pub mod routing;
