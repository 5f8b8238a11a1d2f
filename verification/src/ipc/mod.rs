//! The IPC layer: socket path resolution and discovery, and the decisions
//! of the per-client JSON-RPC connection handler.

pub mod client;
pub mod handler;
pub mod server;
pub mod socket;
