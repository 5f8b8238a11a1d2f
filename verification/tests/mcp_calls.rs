use crux::mcp::calls::{
    directory_text, ipc_failure, process_text, rate_limited, scrollback_range, ToolErrorKind,
    DISCONNECTED_MESSAGE, NO_PROCESS_INFO, PANE_NOT_FOUND_HINT, RATE_LIMITED_MESSAGE,
    SELECTION_UNSUPPORTED,
};

#[test]
fn missing_pane_errors_point_to_the_pane_list() {
    let e = ipc_failure("crux:pane/get-text", "server error -1001: Pane not found");
    assert_eq!(e.kind, ToolErrorKind::InvalidParams);
    assert_eq!(e.message, PANE_NOT_FOUND_HINT);
    let e = ipc_failure("crux:pane/get-text", "server error -32603: pane 7 NOT FOUND");
    assert_eq!(e.kind, ToolErrorKind::InvalidParams);
    assert_eq!(e.message, "Pane not found. Use crux_list_panes to see available pane IDs.");
}

#[test]
fn closed_connections_and_other_failures() {
    let e = ipc_failure("crux:pane/list", "server closed connection");
    assert_eq!(e.kind, ToolErrorKind::Internal);
    assert_eq!(e.message, DISCONNECTED_MESSAGE);
    let e = ipc_failure("crux:pane/list", "server error -32603: internal error");
    assert_eq!(e.kind, ToolErrorKind::Internal);
    assert_eq!(
        e.message,
        "IPC call to 'crux:pane/list' failed: server error -32603: internal error. Check Crux terminal logs."
    );
    let e = ipc_failure("crux:pane/list", "not found anywhere");
    assert_eq!(e.kind, ToolErrorKind::Internal);
}

#[test]
fn rate_limit_and_tool_texts() {
    let e = rate_limited();
    assert_eq!(e.kind, ToolErrorKind::Internal);
    assert_eq!(e.message, RATE_LIMITED_MESSAGE);
    assert_eq!(directory_text(Some("/home/u".into())), "/home/u");
    assert_eq!(directory_text(None), "unknown");
    assert_eq!(process_text(Some("4242".into())), "PID: 4242");
    assert_eq!(process_text(None), NO_PROCESS_INFO);
    assert_eq!(SELECTION_UNSUPPORTED, "selection retrieval is not yet supported");
}

#[test]
fn scrollback_ranges() {
    assert_eq!(scrollback_range(Some(-100), Some(50)), (Some(-100), Some(-50)));
    assert_eq!(scrollback_range(Some(10), None), (Some(10), None));
    assert_eq!(scrollback_range(None, Some(10)), (None, None));
}
