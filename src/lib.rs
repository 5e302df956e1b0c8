//! A chat relay: a registry of live sessions that fans text out to all of
//! them, and the per-connection logic that turns incoming frames into
//! requests for the registry.

pub mod client;
pub mod server;
pub mod session;
pub mod text;
