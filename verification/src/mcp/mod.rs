//! Text handling of the agent (MCP) interface: key names, the command
//! denylist, resource URIs, the cleaning of terminal output, and what an
//! agent is told when a call into the terminal fails.

pub mod calls;
pub mod commands;
pub mod keys;
pub mod output;
pub mod panes;
pub mod prompts;
pub mod resources;
