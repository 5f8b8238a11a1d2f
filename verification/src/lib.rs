//! Verified core of the Crux terminal emulator: the IPC wire protocol and
//! the decisions of its server and client, the Kitty graphics command
//! parser, the image store with its memory quota, socket discovery, the
//! command-line client's requests and output, the agent (MCP) interface's
//! text handling, clipboard content selection, configuration defaults, and the
//! window's pane bookkeeping and answers to IPC commands.

pub mod cli;
pub mod clipboard;
pub mod config;
pub mod graphics;
pub mod ipc;
pub mod mcp;
pub mod protocol;
pub mod text;
pub mod workspace;
