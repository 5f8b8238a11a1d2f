//! The terminal window's own state and decisions, apart from its widgets:
//! pane bookkeeping, and the answers the window gives to IPC commands.

pub mod book;
pub mod replies;
pub mod tabs;
