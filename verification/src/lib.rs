//! Decision logic of a client that connects local MCP services to remote tunnels.

pub mod address;
pub mod admin;
pub mod checks;
pub mod cli;
pub mod cloudflare;
pub mod config;
pub mod control;
pub mod diagnostic;
pub mod digest;
pub mod harpoon;
pub mod header;
pub mod health;
pub mod host;
pub mod json;
pub mod listener;
pub mod management;
pub mod metrics;
pub mod net;
pub mod oauth;
pub mod pattern;
pub mod process;
pub mod protocol;
pub mod proxy;
pub mod proxy_health;
pub mod runtime;
pub mod table;
pub mod template;
pub mod text;
pub mod words;
