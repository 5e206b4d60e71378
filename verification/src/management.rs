//! Managed tunnels on this machine.

pub mod files;
pub mod identity;
pub mod inspect;
pub mod profiles;
pub mod records;
pub mod runtimes;
pub mod session;
pub mod state;
