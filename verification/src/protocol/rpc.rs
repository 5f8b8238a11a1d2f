//! JSON-RPC 2.0 message types and protocol method params/results.

use std::collections::HashMap;
use vstd::prelude::*;
use crate::protocol::types::{
    JsonRpcId, PaneEvent, PaneEventType, PaneId, PaneInfo, PaneSize, SplitDirection, SplitSize,
    TabId, WindowId,
};

verus! {

/// A JSON value of serde_json, carried through unchanged.
#[verifier::external_type_specification]
#[verifier::external_body]
pub struct ExJsonValue(serde_json::Value);

/// Content type for clipboard operations.
#[derive(Debug, Clone, Copy, PartialEq, Eq, Structural)]
pub enum ClipboardContentType {
    Text,
    Image,
    Auto,
}

impl Default for ClipboardContentType {
    fn default() -> (r: Self)
        ensures
            r == ClipboardContentType::Auto,
    {
        ClipboardContentType::Auto
    }
}

#[derive(Debug, Clone)]
pub struct JsonRpcRequest {
    pub jsonrpc: String,
    /// `None` for JSON-RPC notifications (no response expected).
    pub id: Option<JsonRpcId>,
    pub method: String,
    pub params: Option<serde_json::Value>,
}

#[derive(Debug, Clone)]
pub struct JsonRpcResponse {
    pub jsonrpc: String,
    pub id: JsonRpcId,
    pub result: Option<serde_json::Value>,
    pub error: Option<JsonRpcError>,
}

#[derive(Debug, Clone)]
pub struct JsonRpcError {
    pub code: i32,
    pub message: String,
    pub data: Option<serde_json::Value>,
}

impl JsonRpcRequest {
    /// A request that expects a response.
    pub fn new(id: JsonRpcId, method: &str, params: Option<serde_json::Value>) -> (r: Self)
        ensures
            r.jsonrpc@ == "2.0"@,
            r.id == Some(id),
            r.method@ == method@,
            r.params == params,
    {
        JsonRpcRequest { jsonrpc: String::from_str("2.0"), id: Some(id), method: method.to_owned(), params }
    }

    /// Create a JSON-RPC notification (no id, no response expected).
    pub fn notification(method: &str, params: Option<serde_json::Value>) -> (r: Self)
        ensures
            r.jsonrpc@ == "2.0"@,
            r.id is None,
            r.method@ == method@,
            r.params == params,
    {
        JsonRpcRequest { jsonrpc: String::from_str("2.0"), id: None, method: method.to_owned(), params }
    }
}

impl JsonRpcResponse {
    /// A successful response carrying `result`.
    pub fn success(id: JsonRpcId, result: serde_json::Value) -> (r: Self)
        ensures
            r.jsonrpc@ == "2.0"@,
            r.id == id,
            r.result == Some(result),
            r.error is None,
    {
        JsonRpcResponse { jsonrpc: String::from_str("2.0"), id, result: Some(result), error: None }
    }

    /// An error response with the given code and message.
    pub fn error(id: JsonRpcId, code: i32, message: &str) -> (r: Self)
        ensures
            r.jsonrpc@ == "2.0"@,
            r.id == id,
            r.result is None,
            r.error matches Some(e) && e.code == code && e.message@ == message@ && e.data is None,
    {
        JsonRpcResponse {
            jsonrpc: String::from_str("2.0"),
            id,
            result: None,
            error: Some(JsonRpcError { code, message: message.to_owned(), data: None }),
        }
    }
}

/// Parameters for `crux:pane/split`.
#[derive(Debug, Clone)]
pub struct SplitPaneParams {
    pub target_pane_id: Option<PaneId>,
    pub direction: SplitDirection,
    pub size: Option<SplitSize>,
    pub cwd: Option<String>,
    pub command: Option<Vec<String>>,
    pub env: Option<HashMap<String, String>>,
}

/// Result of `crux:pane/split`.
#[derive(Debug, Clone)]
pub struct SplitPaneResult {
    pub pane_id: PaneId,
    pub window_id: WindowId,
    pub tab_id: TabId,
    pub size: PaneSize,
    pub tty: Option<String>,
}

/// Parameters for `crux:pane/send-text`.
#[derive(Debug, Clone)]
pub struct SendTextParams {
    pub pane_id: Option<PaneId>,
    pub text: String,
    pub bracketed_paste: bool,
}

/// Result of `crux:pane/send-text`.
#[derive(Debug, Clone)]
pub struct SendTextResult {
    pub bytes_written: usize,
}

/// Parameters for `crux:pane/get-text`.
#[derive(Debug, Clone)]
pub struct GetTextParams {
    pub pane_id: Option<PaneId>,
    pub start_line: Option<i32>,
    pub end_line: Option<i32>,
    pub include_escapes: bool,
}

/// Result of `crux:pane/get-text`.
#[derive(Debug, Clone)]
pub struct GetTextResult {
    pub lines: Vec<String>,
    pub first_line: i32,
    pub cursor_row: u32,
    pub cursor_col: u32,
}

/// Parameters for `crux:pane/get-selection`.
#[derive(Debug, Clone)]
pub struct GetSelectionParams {
    pub pane_id: Option<PaneId>,
}

/// Result of `crux:pane/get-selection`.
#[derive(Debug, Clone)]
pub struct GetSelectionResult {
    pub text: Option<String>,
    pub has_selection: bool,
}

/// Parameters for `crux:pane/get-snapshot`.
#[derive(Debug, Clone)]
pub struct GetSnapshotParams {
    pub pane_id: Option<PaneId>,
}

/// Result of `crux:pane/get-snapshot`.
#[derive(Debug, Clone)]
pub struct GetSnapshotResult {
    pub lines: Vec<String>,
    pub rows: u32,
    pub cols: u32,
    pub cursor_row: i32,
    pub cursor_col: u32,
    pub cursor_shape: String,
    pub display_offset: u32,
    pub has_selection: bool,
    pub title: Option<String>,
    pub cwd: Option<String>,
}

/// Result of `crux:pane/list`.
#[derive(Debug, Clone)]
pub struct ListPanesResult {
    pub panes: Vec<PaneInfo>,
}

/// Parameters for `crux:pane/activate`.
#[derive(Debug, Clone)]
pub struct ActivatePaneParams {
    pub pane_id: PaneId,
}

/// Parameters for `crux:pane/close`.
#[derive(Debug, Clone)]
pub struct ClosePaneParams {
    pub pane_id: PaneId,
    pub force: bool,
}

/// Parameters for `crux:window/create`.
#[derive(Debug, Clone)]
pub struct WindowCreateParams {
    pub title: Option<String>,
    pub width: Option<u32>,
    pub height: Option<u32>,
}

/// Result of `crux:window/create`.
#[derive(Debug, Clone)]
pub struct WindowCreateResult {
    pub window_id: WindowId,
}

/// Info about a window, returned from `crux:window/list`.
#[derive(Debug, Clone)]
pub struct WindowInfo {
    pub window_id: WindowId,
    pub title: String,
    pub pane_count: u32,
    pub is_focused: bool,
}

/// Result of `crux:window/list`.
#[derive(Debug, Clone)]
pub struct WindowListResult {
    pub windows: Vec<WindowInfo>,
}

/// Parameters for `crux:session/save`.
#[derive(Debug, Clone)]
pub struct SessionSaveParams {
    /// File path to save the session to. Uses default if omitted.
    pub path: Option<String>,
}

/// Result of `crux:session/save`.
#[derive(Debug, Clone)]
pub struct SessionSaveResult {
    pub path: String,
}

/// Parameters for `crux:session/load`.
#[derive(Debug, Clone)]
pub struct SessionLoadParams {
    /// File path to load the session from. Uses default if omitted.
    pub path: Option<String>,
}

/// Result of `crux:session/load`.
#[derive(Debug, Clone)]
pub struct SessionLoadResult {
    pub pane_count: u32,
}

/// Parameters for `crux:handshake`.
#[derive(Debug, Clone)]
pub struct HandshakeParams {
    pub client_name: String,
    pub client_version: String,
    pub protocol_version: String,
    pub capabilities: Vec<String>,
}

/// Result of `crux:handshake`.
#[derive(Debug, Clone)]
pub struct HandshakeResult {
    pub server_name: String,
    pub server_version: String,
    pub protocol_version: String,
    pub supported_capabilities: Vec<String>,
}

/// Parameters for `crux:clipboard/read`.
#[derive(Debug, Clone)]
pub struct ClipboardReadParams {
    /// Preferred content type (default: auto).
    pub content_type: ClipboardContentType,
}

/// Result of `crux:clipboard/read`.
#[derive(Debug, Clone)]
pub enum ClipboardReadResult {
    Text { text: String },
    Image { image_path: String },
    Html { html: String },
    FilePaths { paths: Vec<String> },
}

/// Parameters for `crux:clipboard/write`.
#[derive(Debug, Clone)]
pub struct ClipboardWriteParams {
    /// Content type: text or image.
    pub content_type: ClipboardContentType,
    /// Text content (when content_type is text).
    pub text: Option<String>,
    /// Path to PNG file (when content_type is image).
    pub image_path: Option<String>,
}

/// Result of `crux:ime/get-state`.
#[derive(Debug, Clone)]
pub struct ImeStateResult {
    /// Whether IME is currently composing (has preedit text).
    pub composing: bool,
    /// Current preedit text, if any.
    pub preedit_text: Option<String>,
    /// Current input source identifier.
    pub input_source: Option<String>,
}

/// Parameters for `crux:ime/set-input-source`.
#[derive(Debug, Clone)]
pub struct ImeSetInputSourceParams {
    /// Input source identifier.
    pub input_source: String,
}

/// Parameters for `crux:events/subscribe`.
#[derive(Debug, Clone)]
pub struct EventsSubscribeParams {
    /// Event types to subscribe to.
    pub events: Vec<PaneEventType>,
}

/// Result of `crux:events/poll`: buffered events since the last poll.
#[derive(Debug, Clone)]
pub struct EventsPollResult {
    pub events: Vec<PaneEvent>,
}

} // verus!
