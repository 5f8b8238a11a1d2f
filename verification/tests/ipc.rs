use crux::ipc::handler::{
    batch_replies, complete_request, dispatch_request, fault_response, on_bad_payload, on_batch,
    on_broken_frame, on_receive, on_single, route_method, ClientBuffer, CommandOutcome,
    ConnectionAction, Fault, FrameStep, Method, Receive, RequestStep, MAX_PENDING_SIZE,
};
use crux::ipc::socket::{
    discover_socket_with, resolve_runtime_dir, resolve_socket_path, scan_socket_dir, SocketEntry,
    SocketEnv,
};
use crux::protocol::error_code;
use crux::protocol::framing::{encode_frame, FrameError};
use crux::protocol::method;
use crux::ipc::client::{call_result, next_retry_delay};
use crux::ipc::server::{admit_client, Admission, MAX_CONNECTIONS};
use crux::protocol::rpc::{JsonRpcRequest, JsonRpcResponse};
use crux::protocol::types::JsonRpcId;
use std::path::PathBuf;

fn request(version: &str, method: &str, id: Option<JsonRpcId>) -> JsonRpcRequest {
    JsonRpcRequest {
        jsonrpc: version.to_string(),
        method: method.to_string(),
        params: None,
        id,
    }
}

#[test]
fn test_dispatch_unknown_method_returns_error() {
    let req = request("2.0", "unknown_method", Some(JsonRpcId::Number(1)));
    match dispatch_request(&req) {
        RequestStep::Respond(Some(response)) => {
            let error = response.error.unwrap();
            assert_eq!(error.code, error_code::METHOD_NOT_FOUND);
            assert!(error.message.contains("unknown method"));
            assert_eq!(response.id, JsonRpcId::Number(1));
        }
        other => panic!("unexpected step: {other:?}"),
    }
}

#[test]
fn test_dispatch_invalid_params_returns_error() {
    let req = request("2.0", method::HANDSHAKE, Some(JsonRpcId::Number(2)));
    assert!(matches!(dispatch_request(&req), RequestStep::Execute(Method::Handshake)));
    let response = complete_request(
        Some(JsonRpcId::Number(2)),
        CommandOutcome::InvalidParams("invalid type: string \"invalid\"".to_string()),
    )
    .unwrap();
    let error = response.error.unwrap();
    assert_eq!(error.code, error_code::INVALID_PARAMS);
    assert!(error.message.contains("invalid params"));
}

#[test]
fn test_dispatch_notification_returns_none() {
    let req = request("2.0", method::HANDSHAKE, None);
    // The command still runs ...
    assert!(matches!(dispatch_request(&req), RequestStep::Execute(Method::Handshake)));
    // ... but its outcome is never answered.
    assert!(complete_request(None, CommandOutcome::Done).is_none());
    assert!(complete_request(None, CommandOutcome::HandlerDropped).is_none());
}

#[test]
fn test_dispatch_valid_handshake_sends_command() {
    let req = request("2.0", method::HANDSHAKE, Some(JsonRpcId::Number(3)));
    assert!(matches!(dispatch_request(&req), RequestStep::Execute(Method::Handshake)));
    let result: serde_json::Value =
        serde_json::from_str(r#"{"server_name":"test","server_version":"1.0"}"#).unwrap();
    let response = complete_request(Some(JsonRpcId::Number(3)), CommandOutcome::Value(result)).unwrap();
    assert!(response.error.is_none());
    assert!(response.result.unwrap().get("server_name").is_some());
    assert_eq!(response.id, JsonRpcId::Number(3));
}

#[test]
fn test_dispatch_invalid_jsonrpc_version_returns_error() {
    let req = request("1.0", method::HANDSHAKE, Some(JsonRpcId::Number(4)));
    match dispatch_request(&req) {
        RequestStep::Respond(Some(response)) => {
            let error = response.error.unwrap();
            assert_eq!(error.code, error_code::INVALID_REQUEST);
            assert!(error.message.contains("JSON-RPC version"));
        }
        other => panic!("unexpected step: {other:?}"),
    }
}

#[test]
fn version_error_answers_notifications_too() {
    let req = request("1.0", method::PANE_LIST, None);
    match dispatch_request(&req) {
        RequestStep::Respond(Some(response)) => assert_eq!(response.id, JsonRpcId::Null),
        other => panic!("unexpected step: {other:?}"),
    }
}

#[test]
fn unknown_method_notification_is_silent() {
    let req = request("2.0", "crux:events/subscribe", None);
    assert!(matches!(dispatch_request(&req), RequestStep::Respond(None)));
}

#[test]
fn every_method_name_routes_back() {
    let all = [
        Method::Handshake,
        Method::PaneSplit,
        Method::PaneSendText,
        Method::PaneGetText,
        Method::PaneGetSelection,
        Method::PaneGetSnapshot,
        Method::PaneList,
        Method::PaneResize,
        Method::PaneActivate,
        Method::PaneClose,
        Method::WindowCreate,
        Method::WindowList,
        Method::SessionSave,
        Method::SessionLoad,
        Method::ClipboardRead,
        Method::ClipboardWrite,
        Method::ImeGetState,
        Method::ImeSetInputSource,
        Method::EventsPoll,
    ];
    for m in all {
        assert_eq!(route_method(m.name()), Some(m));
    }
    assert_eq!(route_method(method::EVENTS_SUBSCRIBE), None);
    assert!(!Method::PaneList.takes_params());
    assert!(Method::PaneResize.replies_unit());
    assert!(!Method::Handshake.replies_unit());
}

#[test]
fn outcome_errors_have_their_messages() {
    let id = Some(JsonRpcId::String("a".to_string()));
    let r = complete_request(id.clone(), CommandOutcome::ServerShutdown).unwrap();
    let e = r.error.unwrap();
    assert_eq!(e.code, error_code::INTERNAL_ERROR);
    assert_eq!(e.message, "server shutting down");
    let r = complete_request(id.clone(), CommandOutcome::HandlerDropped).unwrap();
    assert_eq!(r.error.unwrap().message, "handler dropped");
    let r = complete_request(id.clone(), CommandOutcome::Failed("pane 9 not found".to_string())).unwrap();
    assert_eq!(r.error.unwrap().message, "pane 9 not found");
    let r = complete_request(id, CommandOutcome::Done).unwrap();
    let expected: serde_json::Value = serde_json::from_str(r#"{"success":true}"#).unwrap();
    assert_eq!(r.result, Some(expected));
}

#[test]
fn faults_are_answered_with_null_id() {
    let r = fault_response(Fault::RequestTooLarge(16777217));
    assert_eq!(r.id, JsonRpcId::Null);
    let e = r.error.unwrap();
    assert_eq!(e.code, error_code::INVALID_REQUEST);
    assert_eq!(e.message, "request too large (16777217 bytes)");
    let e = fault_response(Fault::Frame(FrameError::MessageTooLarge(20000000))).error.unwrap();
    assert_eq!(e.code, error_code::PARSE_ERROR);
    assert_eq!(e.message, "frame error: message too large: 20000000 bytes (max 16777216)");
    let e = fault_response(Fault::InvalidJson("EOF".to_string())).error.unwrap();
    assert_eq!(e.message, "invalid JSON: EOF");
    let e = fault_response(Fault::EmptyBatch).error.unwrap();
    assert_eq!(e.message, "empty batch request");
    let e = fault_response(Fault::InvalidBatchItem("x".to_string())).error.unwrap();
    assert_eq!(e.message, "invalid request in batch: x");
    let e = fault_response(Fault::InvalidRequest("y".to_string())).error.unwrap();
    assert_eq!(e.message, "invalid JSON-RPC request: y");
}

#[test]
fn batch_keeps_answers_in_order() {
    let a = complete_request(Some(JsonRpcId::Number(1)), CommandOutcome::Done);
    let b = complete_request(None, CommandOutcome::Done);
    let c = complete_request(Some(JsonRpcId::Number(3)), CommandOutcome::HandlerDropped);
    let out = batch_replies(vec![a, b, c]);
    assert_eq!(out.len(), 2);
    assert_eq!(out[0].id, JsonRpcId::Number(1));
    assert_eq!(out[1].id, JsonRpcId::Number(3));
    assert!(batch_replies(vec![None, None]).is_empty());
}

#[test]
fn client_buffer_cuts_frames() {
    let mut buf = ClientBuffer::new();
    let mut bytes = encode_frame(b"first").unwrap();
    bytes.extend_from_slice(&encode_frame(b"second").unwrap());
    let (head, tail) = bytes.split_at(6);
    assert_eq!(buf.receive(head), Receive::Accepted);
    assert!(matches!(buf.next_frame(), FrameStep::Incomplete));
    assert_eq!(buf.receive(tail), Receive::Accepted);
    match buf.next_frame() {
        FrameStep::Frame(p) => assert_eq!(p, b"first"),
        _ => panic!("expected a frame"),
    }
    match buf.next_frame() {
        FrameStep::Frame(p) => assert_eq!(p, b"second"),
        _ => panic!("expected a frame"),
    }
    assert_eq!(buf.len(), 0);
    assert!(matches!(buf.next_frame(), FrameStep::Incomplete));
}

#[test]
fn client_buffer_refuses_overflow() {
    let mut buf = ClientBuffer::new();
    let chunk = vec![0u8; 8192];
    let mut total = 0usize;
    loop {
        match buf.receive(&chunk) {
            Receive::Accepted => total += chunk.len(),
            Receive::TooLarge(n) => {
                assert_eq!(n, total + chunk.len());
                assert!(n > MAX_PENDING_SIZE);
                break;
            }
        }
    }
    assert_eq!(buf.len(), total);
}

#[test]
fn client_buffer_reports_oversized_header() {
    let mut buf = ClientBuffer::new();
    buf.receive(&[0x7f, 0xff, 0xff, 0xff]);
    assert!(matches!(buf.next_frame(), FrameStep::Broken(FrameError::MessageTooLarge(_))));
}

#[test]
fn discover_returns_none_for_nonexistent_dir() {
    let env = SocketEnv {
        crux_socket: None,
        xdg_runtime_dir: Some("/tmp/crux-test-nonexistent-dir-12345".into()),
    };
    // The directory cannot be read, so there is no listing to scan.
    let result = discover_socket_with(&env, false, None);
    assert!(result.is_none());
}

#[test]
fn resolve_crux_socket_override() {
    let env = SocketEnv { crux_socket: Some("/tmp/crux-test-socket".into()), xdg_runtime_dir: None };
    let path = resolve_socket_path(&env, 501, 4242);
    assert_eq!(PathBuf::from(path), PathBuf::from("/tmp/crux-test-socket"));
}

#[test]
fn resolve_crux_socket_takes_priority_over_xdg() {
    let env = SocketEnv {
        crux_socket: Some("/custom/socket".into()),
        xdg_runtime_dir: Some("/run/user/1000".into()),
    };
    let path = resolve_socket_path(&env, 1000, 77);
    assert_eq!(PathBuf::from(path), PathBuf::from("/custom/socket"));
}

#[test]
fn runtime_dir_uses_xdg_when_set() {
    let dir = resolve_runtime_dir(Some("/run/user/501"), 501);
    assert_eq!(PathBuf::from(dir), PathBuf::from("/run/user/501/crux"));
}

#[test]
fn resolve_xdg_path_names_the_process() {
    let env = SocketEnv { crux_socket: None, xdg_runtime_dir: Some("/run/user/1000".into()) };
    assert_eq!(resolve_socket_path(&env, 1000, 4242), "/run/user/1000/crux/gui-sock-4242");
    let env = SocketEnv { crux_socket: None, xdg_runtime_dir: Some("/run/user/1000/".into()) };
    assert_eq!(resolve_socket_path(&env, 1000, 7), "/run/user/1000/crux/gui-sock-7");
}

#[test]
fn runtime_dir_falls_back_to_tmp_with_uid() {
    assert_eq!(resolve_runtime_dir(None, 501), "/tmp/crux-501");
    let env = SocketEnv { crux_socket: None, xdg_runtime_dir: None };
    assert_eq!(resolve_socket_path(&env, 0, 12), "/tmp/crux-0/gui-sock-12");
}

fn entry(name: &str, modified: Option<u128>) -> SocketEntry {
    SocketEntry { name: name.to_string(), path: format!("/run/crux/{name}"), modified }
}

#[test]
fn scan_picks_newest_socket() {
    let entries = vec![
        entry("gui-sock-1", Some(10)),
        entry("other", Some(99)),
        entry("gui-sock-2", Some(30)),
        entry("gui-sock-3", None),
        entry("gui-sock-4", Some(30)),
    ];
    assert_eq!(scan_socket_dir(&entries), Some("/run/crux/gui-sock-2".to_string()));
    assert_eq!(scan_socket_dir(&vec![entry("other", Some(1))]), None);
}

#[test]
fn discover_prefers_existing_override() {
    let env = SocketEnv { crux_socket: Some("/x/sock".into()), xdg_runtime_dir: None };
    let listing = vec![entry("gui-sock-9", Some(5))];
    assert_eq!(discover_socket_with(&env, true, Some(listing)), Some("/x/sock".to_string()));
    let listing = vec![entry("gui-sock-9", Some(5))];
    assert_eq!(
        discover_socket_with(&env, false, Some(listing)),
        Some("/run/crux/gui-sock-9".to_string())
    );
}

#[test]
fn admission_of_clients() {
    assert_eq!(admit_client(501, Some(501), 0), Admission::Accept);
    assert_eq!(admit_client(501, Some(0), 0), Admission::WrongUser(0));
    assert_eq!(admit_client(501, None, 0), Admission::NoCredentials);
    assert_eq!(admit_client(501, Some(501), MAX_CONNECTIONS), Admission::AtCapacity);
    assert_eq!(admit_client(501, Some(501), MAX_CONNECTIONS - 1), Admission::Accept);
}

#[test]
fn client_call_results() {
    let err = JsonRpcResponse::error(JsonRpcId::Number(1), -32601, "unknown method: x");
    assert_eq!(call_result(err).unwrap_err(), "server error -32601: unknown method: x");
    let ok = JsonRpcResponse::success(JsonRpcId::Number(1), serde_json::Value::Bool(true));
    assert_eq!(call_result(ok).unwrap(), serde_json::Value::Bool(true));
    let mut empty = JsonRpcResponse::success(JsonRpcId::Number(1), serde_json::Value::Bool(true));
    empty.result = None;
    assert_eq!(call_result(empty).unwrap(), serde_json::Value::Null);
    assert_eq!(next_retry_delay(100), 200);
    assert_eq!(next_retry_delay(3000), 5000);
    assert_eq!(next_retry_delay(5000), 5000);
}

fn error_message(action: &ConnectionAction) -> String {
    match action {
        ConnectionAction::Answer(r) | ConnectionAction::AnswerAndClose(r) => {
            r.error.as_ref().map(|e| e.message.clone()).unwrap_or_default()
        }
        _ => String::new(),
    }
}

#[test]
fn connection_policy() {
    assert!(matches!(on_receive(Receive::Accepted), ConnectionAction::Continue));
    let too_large = on_receive(Receive::TooLarge(20000000));
    assert!(matches!(too_large, ConnectionAction::AnswerAndClose(_)));
    assert_eq!(error_message(&too_large), "request too large (20000000 bytes)");
    let broken = on_broken_frame(FrameError::MessageTooLarge(20000000));
    assert!(matches!(broken, ConnectionAction::AnswerAndClose(_)));
    let bad = on_bad_payload(Fault::InvalidJson("expected value".to_string()));
    assert!(matches!(bad, ConnectionAction::Answer(_)));
    assert_eq!(error_message(&bad), "invalid JSON: expected value");
    assert_eq!(error_message(&on_bad_payload(Fault::EmptyBatch)), "empty batch request");
    assert!(matches!(on_single(None), ConnectionAction::Continue));
    let ok = JsonRpcResponse::success(JsonRpcId::Number(1), serde_json::Value::Bool(true));
    assert!(matches!(on_single(Some(ok.clone())), ConnectionAction::Answer(_)));
    assert!(matches!(on_batch(vec![None, None]), ConnectionAction::Continue));
    match on_batch(vec![None, Some(ok)]) {
        ConnectionAction::AnswerBatch(v) => assert_eq!(v.len(), 1),
        _ => panic!("a batch with a request is answered"),
    }
}
