//! Shared protocol types for IPC and terminal communication: JSON-RPC 2.0
//! message types, method names, error codes, method parameters and
//! results, and length-prefix framing.

pub mod error_code;
pub mod framing;
pub mod json;
pub mod method;
pub mod rpc;
pub mod types;

pub use framing::{decode_frame, encode_frame, FrameError, MAX_FRAME_SIZE};
pub use rpc::{
    ActivatePaneParams, ClipboardContentType, ClipboardReadParams, ClipboardReadResult,
    ClipboardWriteParams, ClosePaneParams, EventsPollResult, EventsSubscribeParams,
    GetSelectionParams, GetSelectionResult, GetSnapshotParams, GetSnapshotResult, GetTextParams,
    GetTextResult, HandshakeParams, HandshakeResult, ImeSetInputSourceParams, ImeStateResult,
    JsonRpcError, JsonRpcRequest, JsonRpcResponse, ListPanesResult, SendTextParams,
    SendTextResult, SessionLoadParams, SessionLoadResult, SessionSaveParams, SessionSaveResult,
    SplitPaneParams, SplitPaneResult, WindowCreateParams, WindowCreateResult, WindowInfo,
    WindowListResult,
};
pub use types::{
    JsonRpcId, Osc52Policy, PaneEvent, PaneEventType, PaneId, PaneInfo, PaneSize, SplitDirection,
    SplitSize, TabId, WindowId,
};
