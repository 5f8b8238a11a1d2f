//! Core domain types: identifiers, enums, pane info, events, and policies.

use vstd::prelude::*;
use crate::text::{decimal, str_equal, u64_to_string};

verus! {

/// JSON-RPC 2.0 request/response identifier: a number, a string, or null.
#[derive(Debug, Hash)]
pub enum JsonRpcId {
    Number(u64),
    String(String),
    Null,
}

impl PartialEq for JsonRpcId {
    fn eq(&self, other: &Self) -> (r: bool) {
        match (self, other) {
            (JsonRpcId::Number(a), JsonRpcId::Number(b)) => *a == *b,
            (JsonRpcId::String(a), JsonRpcId::String(b)) => str_equal(a.as_str(), b.as_str()),
            (JsonRpcId::Null, JsonRpcId::Null) => true,
            _ => false,
        }
    }
}

impl Eq for JsonRpcId {

}

impl Clone for JsonRpcId {
    fn clone(&self) -> (r: Self)
        ensures
            r == *self,
    {
        match self {
            JsonRpcId::Number(n) => JsonRpcId::Number(*n),
            JsonRpcId::String(t) => JsonRpcId::String(t.clone()),
            JsonRpcId::Null => JsonRpcId::Null,
        }
    }
}

impl vstd::std_specs::cmp::PartialEqSpecImpl for JsonRpcId {
    open spec fn obeys_eq_spec() -> bool {
        true
    }

    open spec fn eq_spec(&self, other: &Self) -> bool {
        match (self, other) {
            (JsonRpcId::Number(a), JsonRpcId::Number(b)) => a == b,
            (JsonRpcId::String(a), JsonRpcId::String(b)) => a@ == b@,
            (JsonRpcId::Null, JsonRpcId::Null) => true,
            _ => false,
        }
    }
}

impl JsonRpcId {
    /// The text form of the identifier: the number in decimal, the string
    /// itself, or `null`.
    pub fn to_string(&self) -> (s: String)
        ensures
            s@ == match self {
                JsonRpcId::Number(n) => decimal(*n as nat),
                JsonRpcId::String(t) => t@,
                JsonRpcId::Null => "null"@,
            },
    {
        match self {
            JsonRpcId::Number(n) => u64_to_string(*n),
            JsonRpcId::String(t) => t.clone(),
            JsonRpcId::Null => String::from_str("null"),
        }
    }
}

#[derive(Debug, Clone, Copy, PartialEq, Eq, Hash, Structural)]
pub struct PaneId(pub u64);

#[derive(Debug, Clone, Copy, PartialEq, Eq, Hash, Structural)]
pub struct WindowId(pub u64);

#[derive(Debug, Clone, Copy, PartialEq, Eq, Hash, Structural)]
pub struct TabId(pub u64);

impl PaneId {
    /// The id in decimal.
    pub fn to_string(&self) -> (s: String)
        ensures
            s@ == decimal(self.0 as nat),
    {
        u64_to_string(self.0)
    }
}

impl WindowId {
    /// The id in decimal.
    pub fn to_string(&self) -> (s: String)
        ensures
            s@ == decimal(self.0 as nat),
    {
        u64_to_string(self.0)
    }
}

impl TabId {
    /// The id in decimal.
    pub fn to_string(&self) -> (s: String)
        ensures
            s@ == decimal(self.0 as nat),
    {
        u64_to_string(self.0)
    }
}

/// Pane lifecycle events (for broadcasting changes).
#[derive(Debug, Clone)]
pub enum PaneEvent {
    Created { pane_id: PaneId },
    Closed { pane_id: PaneId },
    Focused { pane_id: PaneId },
    Resized { pane_id: PaneId, size: PaneSize },
    TitleChanged { pane_id: PaneId, title: String },
}

#[derive(Debug, Clone, Copy, PartialEq, Eq, Structural)]
pub enum SplitDirection {
    Right,
    Left,
    Top,
    Bottom,
}

#[derive(Debug, Clone, Copy, PartialEq, Eq, Structural)]
pub enum SplitSize {
    Percent(u8),
    Cells(u32),
}

#[derive(Debug, Clone)]
pub struct PaneInfo {
    pub pane_id: PaneId,
    pub window_id: WindowId,
    pub tab_id: TabId,
    pub size: PaneSize,
    pub title: String,
    pub cwd: Option<String>,
    pub is_active: bool,
    pub is_zoomed: bool,
    pub cursor_x: u32,
    pub cursor_y: u32,
    pub tty: Option<String>,
    pub pid: Option<u32>,
}

#[derive(Debug, Clone, Copy, PartialEq, Eq, Structural)]
pub struct PaneSize {
    pub rows: u32,
    pub cols: u32,
}

/// Event types available for subscription.
#[derive(Debug, Clone, Copy, PartialEq, Eq, Structural)]
pub enum PaneEventType {
    PaneCreated,
    PaneClosed,
    PaneFocused,
    PaneResized,
    TitleChanged,
    ClipboardSet,
}

/// OSC 52 clipboard access policy.
#[derive(Debug, Clone, Copy, PartialEq, Eq, Structural)]
pub enum Osc52Policy {
    /// Default: programs can write to clipboard, not read.
    WriteOnly,
    /// User opted in: programs can read and write clipboard.
    ReadWrite,
    /// No clipboard access via OSC 52.
    Disabled,
}

impl Default for Osc52Policy {
    fn default() -> (r: Self)
        ensures
            r == Osc52Policy::WriteOnly,
    {
        Osc52Policy::WriteOnly
    }
}

} // verus!
