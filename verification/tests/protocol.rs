use crux::protocol::framing::{decode_frame, encode_frame, FrameError, MAX_FRAME_SIZE};
use crux::protocol::rpc::{JsonRpcRequest, JsonRpcResponse};
use crux::protocol::types::{JsonRpcId, Osc52Policy, PaneId, TabId, WindowId};
use crux::protocol::{
    ClipboardContentType, ClipboardReadParams, ClipboardWriteParams, GetTextParams,
    HandshakeParams, ImeSetInputSourceParams, PaneSize, SendTextParams, SplitDirection,
    SplitPaneParams,
};

#[test]
fn frame_round_trip() {
    let payload = b"hello world";
    let frame = encode_frame(payload).expect("encode");
    let (consumed, decoded) = decode_frame(&frame).expect("no error").expect("should decode");
    assert_eq!(consumed, frame.len());
    assert_eq!(decoded, payload);
}

#[test]
fn frame_decode_incomplete_header() {
    assert!(decode_frame(&[0x00, 0x00]).unwrap().is_none());
}

#[test]
fn frame_decode_incomplete_payload() {
    let frame = encode_frame(b"hello").expect("encode");
    // Chop off the last byte so payload is incomplete.
    assert!(decode_frame(&frame[..frame.len() - 1]).unwrap().is_none());
}

#[test]
fn frame_rejects_oversized() {
    // Craft a header claiming a payload larger than MAX_FRAME_SIZE.
    let huge_len = (MAX_FRAME_SIZE + 1) as u32;
    let mut buf = huge_len.to_be_bytes().to_vec();
    buf.push(0); // at least one byte so header is complete
    assert!(decode_frame(&buf).is_err());
}

#[test]
fn frame_header_is_big_endian_length() {
    let frame = encode_frame(b"abc").unwrap();
    assert_eq!(frame, vec![0, 0, 0, 3, b'a', b'b', b'c']);
}

#[test]
fn frame_decode_leaves_following_bytes() {
    let mut buf = encode_frame(b"one").unwrap();
    buf.extend_from_slice(&encode_frame(b"two").unwrap());
    let (consumed, first) = decode_frame(&buf).unwrap().unwrap();
    assert_eq!(first, b"one");
    let (_, second) = decode_frame(&buf[consumed..]).unwrap().unwrap();
    assert_eq!(second, b"two");
}

#[test]
fn encode_rejects_oversized_message() {
    let big = vec![0u8; MAX_FRAME_SIZE + 1];
    let err = encode_frame(&big).unwrap_err();
    assert_eq!(err, FrameError::MessageTooLarge(MAX_FRAME_SIZE + 1));
    assert_eq!(err.message(), "message too large: 16777217 bytes (max 16777216)");
    assert!(encode_frame(&big[..MAX_FRAME_SIZE]).is_ok());
}

#[test]
fn jsonrpc_id_display() {
    assert_eq!(JsonRpcId::Number(42).to_string(), "42");
    assert_eq!(JsonRpcId::String("abc".into()).to_string(), "abc");
    assert_eq!(JsonRpcId::Null.to_string(), "null");
}

#[test]
fn pane_id_display() {
    assert_eq!(PaneId(42).to_string(), "42");
    assert_eq!(WindowId(0).to_string(), "0");
    assert_eq!(TabId(100).to_string(), "100");
}

#[test]
fn osc52_policy_default() {
    let policy = Osc52Policy::default();
    assert!(matches!(policy, Osc52Policy::WriteOnly));
}

#[test]
fn jsonrpc_ids_compare_by_value() {
    assert_eq!(JsonRpcId::Number(1), JsonRpcId::Number(1));
    assert_ne!(JsonRpcId::Number(1), JsonRpcId::Number(2));
    assert_eq!(JsonRpcId::String("x".into()), JsonRpcId::String("x".into()));
    assert_ne!(JsonRpcId::String("1".into()), JsonRpcId::Number(1));
    assert_eq!(JsonRpcId::Null, JsonRpcId::Null);
}

#[test]
fn request_and_notification_constructors() {
    let req = JsonRpcRequest::new(JsonRpcId::Number(7), "crux:pane/list", None);
    assert_eq!(req.jsonrpc, "2.0");
    assert_eq!(req.id, Some(JsonRpcId::Number(7)));
    assert_eq!(req.method, "crux:pane/list");
    let note = JsonRpcRequest::notification("crux:pane/list", None);
    assert!(note.id.is_none());
}

#[test]
fn response_constructors() {
    let ok = JsonRpcResponse::success(JsonRpcId::Number(1), serde_json::Value::Bool(true));
    assert_eq!(ok.result, Some(serde_json::Value::Bool(true)));
    assert!(ok.error.is_none());
    let err = JsonRpcResponse::error(JsonRpcId::Null, -32601, "nope");
    assert!(err.result.is_none());
    let e = err.error.unwrap();
    assert_eq!(e.code, -32601);
    assert_eq!(e.message, "nope");
}

#[test]
fn test_protocol_types_have_correct_fields() {
    let handshake = HandshakeParams {
        client_name: "test".into(),
        client_version: "1.0".into(),
        protocol_version: "1.0".into(),
        capabilities: vec![],
    };
    assert_eq!(handshake.client_name, "test");
    assert_eq!(handshake.client_version, "1.0");

    let split = SplitPaneParams {
        direction: SplitDirection::Right,
        target_pane_id: None,
        size: None,
        cwd: None,
        command: None,
        env: None,
    };
    assert!(matches!(split.direction, SplitDirection::Right));

    let send_text = SendTextParams {
        pane_id: None,
        text: "hello".into(),
        bracketed_paste: false,
    };
    assert_eq!(send_text.text, "hello");
    assert!(!send_text.bracketed_paste);

    let get_text = GetTextParams {
        pane_id: None,
        start_line: None,
        end_line: None,
        include_escapes: false,
    };
    assert!(get_text.pane_id.is_none());
}

#[test]
fn test_id_types() {
    let pane_id = PaneId(42);
    assert_eq!(pane_id.0, 42);

    let window_id = WindowId(1);
    assert_eq!(window_id.0, 1);

    let tab_id = TabId(2);
    assert_eq!(tab_id.0, 2);
}

#[test]
fn test_split_direction_variants() {
    let _directions = [
        SplitDirection::Right,
        SplitDirection::Left,
        SplitDirection::Top,
        SplitDirection::Bottom,
    ];
}

#[test]
fn test_pane_size_construction() {
    let size = PaneSize { rows: 24, cols: 80 };
    assert_eq!(size.rows, 24);
    assert_eq!(size.cols, 80);
}

#[test]
fn test_clipboard_params() {
    let read_params = ClipboardReadParams {
        content_type: ClipboardContentType::Text,
    };
    assert_eq!(read_params.content_type, ClipboardContentType::Text);

    let write_params = ClipboardWriteParams {
        content_type: ClipboardContentType::Text,
        text: Some("hello".into()),
        image_path: None,
    };
    assert_eq!(write_params.content_type, ClipboardContentType::Text);
    assert_eq!(write_params.text.as_deref(), Some("hello"));
    assert!(write_params.image_path.is_none());
}

#[test]
fn test_ime_set_input_source_params() {
    let params = ImeSetInputSourceParams {
        input_source: "com.apple.inputmethod.Korean.2SetKorean".into(),
    };
    assert_eq!(
        params.input_source,
        "com.apple.inputmethod.Korean.2SetKorean"
    );
}
