use crux::ipc::handler::{classify_payload, Payload};
use crux::workspace::replies::extension_of;
use std::path::PathBuf;

use crux::clipboard::ClipboardContent;
use crux::protocol::rpc::{ClipboardContentType, ClipboardReadResult, ClipboardWriteParams};
use crux::protocol::types::{PaneEvent, PaneId, PaneSize, SplitDirection, TabId, WindowId};
use crux::workspace::book::{PaneBook, MAX_PANE_EVENTS};
use crux::workspace::replies::{
    clipboard_read_step, clipboard_write_plan, close_pane_check, get_selection_result,
    handshake_result, ime_state_result, next_id_after_load, pane_info, pane_not_found_message,
    resize_pane_check, resolve_pane, session_file_path, split_pane_result, window_create_result,
    window_list_result, ClipboardReadStep, ClipboardWrite, CLIPBOARD_UNSUPPORTED,
    IME_SWITCH_UNSUPPORTED,
};
use crux::workspace::tabs::{
    cycle_focus_index, next_tab_index, prev_tab_index, select_tab_index, window_split_side,
};

#[test]
fn pane_ids_count_up_from_one() {
    let mut book = PaneBook::new();
    assert_eq!(book.allocate_pane_id(), PaneId(1));
    assert_eq!(book.allocate_pane_id(), PaneId(2));
    assert_eq!(book.allocate_pane_id(), PaneId(3));
}

#[test]
fn events_drain_in_order_and_empty_the_buffer() {
    let mut book = PaneBook::new();
    book.emit_pane_event(PaneEvent::Created { pane_id: PaneId(1) });
    book.emit_pane_event(PaneEvent::Focused { pane_id: PaneId(1) });
    book.emit_pane_event(PaneEvent::Closed { pane_id: PaneId(1) });
    let events = book.drain_pane_events();
    assert_eq!(events.len(), 3);
    assert!(matches!(events[0], PaneEvent::Created { pane_id: PaneId(1) }));
    assert!(matches!(events[1], PaneEvent::Focused { pane_id: PaneId(1) }));
    assert!(matches!(events[2], PaneEvent::Closed { pane_id: PaneId(1) }));
    assert!(book.drain_pane_events().is_empty());
}

#[test]
fn full_event_buffer_drops_the_oldest() {
    let mut book = PaneBook::new();
    for i in 0..(MAX_PANE_EVENTS as u64 + 1) {
        book.emit_pane_event(PaneEvent::Created { pane_id: PaneId(i) });
    }
    let events = book.drain_pane_events();
    assert_eq!(events.len(), MAX_PANE_EVENTS);
    assert!(matches!(events[0], PaneEvent::Created { pane_id: PaneId(1) }));
    assert!(matches!(
        events[MAX_PANE_EVENTS - 1],
        PaneEvent::Created { pane_id: PaneId(n) } if n == MAX_PANE_EVENTS as u64
    ));
}

#[test]
fn parents_are_recorded_replaced_and_forgotten() {
    let mut book = PaneBook::new();
    book.set_parent(PaneId(2), PaneId(0));
    book.set_parent(PaneId(3), PaneId(0));
    book.set_parent(PaneId(4), PaneId(2));
    assert_eq!(book.pane_parent(PaneId(2)), Some(PaneId(0)));
    assert_eq!(book.pane_parent(PaneId(0)), None);
    let mut children = book.pane_children(PaneId(0));
    children.sort_by_key(|p| p.0);
    assert_eq!(children, vec![PaneId(2), PaneId(3)]);

    book.set_parent(PaneId(3), PaneId(2));
    assert_eq!(book.pane_parent(PaneId(3)), Some(PaneId(2)));
    assert_eq!(book.pane_children(PaneId(0)), vec![PaneId(2)]);

    book.forget_parent(PaneId(2));
    assert_eq!(book.pane_parent(PaneId(2)), None);
    assert!(book.pane_children(PaneId(0)).is_empty());
    assert_eq!(book.pane_children(PaneId(2)).len(), 2);

    book.clear_parents();
    assert_eq!(book.pane_parent(PaneId(4)), None);
}

#[test]
fn handshake_names_the_window() {
    let r = handshake_result("0.1.0");
    assert_eq!(r.server_name, "crux");
    assert_eq!(r.server_version, "0.1.0");
    assert_eq!(r.protocol_version, "1.0");
    assert_eq!(r.supported_capabilities, vec!["pane".to_string()]);
}

#[test]
fn resolving_panes() {
    let registered = [PaneId(0), PaneId(3)];
    assert_eq!(pane_not_found_message(PaneId(7)), "pane 7 not found");
    assert_eq!(resolve_pane(Some(PaneId(3)), Some(PaneId(0)), &registered), Ok(PaneId(3)));
    assert_eq!(
        resolve_pane(Some(PaneId(9)), Some(PaneId(0)), &registered),
        Err("pane 9 not found".to_string())
    );
    assert_eq!(resolve_pane(None, Some(PaneId(0)), &registered), Ok(PaneId(0)));
    assert_eq!(resolve_pane(None, None, &registered), Err("no active pane".to_string()));
    assert_eq!(resolve_pane(None, None, &[]), Err("no active pane".to_string()));
}

#[test]
fn closing_and_resizing_checks() {
    assert_eq!(close_pane_check(PaneId(4), false, true, false), Err("pane 4 not found".into()));
    assert_eq!(
        close_pane_check(PaneId(4), true, false, true),
        Err("pane 4 has a running process, use force: true to close".into())
    );
    assert_eq!(close_pane_check(PaneId(4), true, true, true), Ok(()));
    assert_eq!(close_pane_check(PaneId(4), true, false, false), Ok(()));

    assert_eq!(
        resize_pane_check(PaneId(1), false, false, true),
        Err("at least one of width or height must be specified".into())
    );
    assert_eq!(resize_pane_check(PaneId(1), true, false, false), Err("pane 1 not found".into()));
    assert_eq!(resize_pane_check(PaneId(1), false, true, true), Ok(()));
}

#[test]
fn window_results() {
    let list = window_list_result(3);
    assert_eq!(list.windows.len(), 1);
    assert_eq!(list.windows[0].window_id, WindowId(0));
    assert_eq!(list.windows[0].title, "Crux");
    assert_eq!(list.windows[0].pane_count, 3);
    assert!(list.windows[0].is_focused);
    assert_eq!(window_create_result().window_id, WindowId(0));

    let split = split_pane_result(PaneId(5), 24, 80);
    assert_eq!(split.pane_id, PaneId(5));
    assert_eq!(split.window_id, WindowId(0));
    assert_eq!(split.tab_id, TabId(0));
    assert_eq!(split.size, PaneSize { rows: 24, cols: 80 });
    assert!(split.tty.is_none());
}

#[test]
fn selection_and_ime_results() {
    let with = get_selection_result(Some("hi".into()));
    assert!(with.has_selection);
    assert_eq!(with.text.as_deref(), Some("hi"));
    assert!(!get_selection_result(None).has_selection);

    let ime = ime_state_result(true);
    assert!(ime.composing);
    assert!(ime.preedit_text.is_none());
    assert!(ime.input_source.is_none());
    assert_eq!(CLIPBOARD_UNSUPPORTED, "clipboard not supported on this platform");
    assert_eq!(IME_SWITCH_UNSUPPORTED, "IME switching not supported on this platform");
}

#[test]
fn pane_info_clamps_the_cursor_line() {
    let info = pane_info(PaneId(2), 24, 80, None, Some("/tmp".into()), true, 5, -3);
    assert_eq!(info.pane_id, PaneId(2));
    assert_eq!(info.size, PaneSize { rows: 24, cols: 80 });
    assert_eq!(info.title, "");
    assert_eq!(info.cwd.as_deref(), Some("/tmp"));
    assert!(info.is_active);
    assert!(!info.is_zoomed);
    assert_eq!(info.cursor_x, 5);
    assert_eq!(info.cursor_y, 0);
    let titled = pane_info(PaneId(2), 24, 80, Some("vim"), None, false, 0, 7);
    assert_eq!(titled.title, "vim");
    assert_eq!(titled.cursor_y, 7);
}

#[test]
fn clipboard_read_steps() {
    match clipboard_read_step(ClipboardContent::Text("a".into()), ClipboardContentType::Image) {
        ClipboardReadStep::Refuse(m) => assert_eq!(m, "no image in clipboard"),
        _ => panic!("text must be refused when an image is asked for"),
    }
    match clipboard_read_step(ClipboardContent::Text("a".into()), ClipboardContentType::Auto) {
        ClipboardReadStep::Reply(ClipboardReadResult::Text { text }) => assert_eq!(text, "a"),
        _ => panic!("text expected"),
    }
    match clipboard_read_step(ClipboardContent::Html("<b>".into()), ClipboardContentType::Image) {
        ClipboardReadStep::Reply(ClipboardReadResult::Html { html }) => assert_eq!(html, "<b>"),
        _ => panic!("html expected"),
    }
    match clipboard_read_step(
        ClipboardContent::Image { png_data: vec![1, 2] },
        ClipboardContentType::Text,
    ) {
        ClipboardReadStep::SaveImage(d) => assert_eq!(d, vec![1, 2]),
        _ => panic!("image expected"),
    }
    match clipboard_read_step(
        ClipboardContent::FilePaths(vec![PathBuf::from("/a")]),
        ClipboardContentType::Auto,
    ) {
        ClipboardReadStep::ListPaths(p) => assert_eq!(p, vec![PathBuf::from("/a")]),
        _ => panic!("paths expected"),
    }
}

fn write(content_type: ClipboardContentType, text: Option<&str>, path: Option<&str>) -> Result<ClipboardWrite, String> {
    clipboard_write_plan(ClipboardWriteParams {
        content_type,
        text: text.map(|t| t.to_string()),
        image_path: path.map(|p| p.to_string()),
    })
}

#[test]
fn clipboard_write_plans() {
    assert!(matches!(write(ClipboardContentType::Text, Some("hi"), None), Ok(ClipboardWrite::Text(t)) if t == "hi"));
    assert_eq!(
        write(ClipboardContentType::Text, None, None).err().as_deref(),
        Some("text field required for content_type 'text'")
    );
    assert!(matches!(
        write(ClipboardContentType::Image, None, Some("/tmp/shot.PNG")),
        Ok(ClipboardWrite::ImageFile(p)) if p == "/tmp/shot.PNG"
    ));
    assert!(matches!(
        write(ClipboardContentType::Image, None, Some("photo.jpeg")),
        Ok(ClipboardWrite::ImageFile(_))
    ));
    assert_eq!(
        write(ClipboardContentType::Image, None, Some("/tmp/notes.txt")).err().as_deref(),
        Some("image path must have a valid image extension")
    );
    assert_eq!(
        write(ClipboardContentType::Image, None, Some("/tmp/png")).err().as_deref(),
        Some("image path must have a valid image extension")
    );
    assert_eq!(
        write(ClipboardContentType::Image, Some("x"), None).err().as_deref(),
        Some("image_path field required for content_type 'image'")
    );
    assert_eq!(
        write(ClipboardContentType::Auto, Some("x"), None).err().as_deref(),
        Some("content_type 'auto' not supported for clipboard write")
    );
}

#[test]
fn session_paths_and_ids() {
    assert_eq!(session_file_path(Some("/s.json".into()), Some("/home/u")), "/s.json");
    assert_eq!(session_file_path(None, Some("/home/u")), "/home/u/.config/crux/session.json");
    assert_eq!(session_file_path(None, Some("/home/u/")), "/home/u/.config/crux/session.json");
    assert_eq!(session_file_path(None, None), "/tmp/.config/crux/session.json");
    assert_eq!(next_id_after_load(&[PaneId(3), PaneId(9), PaneId(4)]), 10);
    assert_eq!(next_id_after_load(&[]), 1);
}

#[test]
fn tab_and_focus_indices() {
    assert_eq!(next_tab_index(2, 3), Some(0));
    assert_eq!(next_tab_index(0, 3), Some(1));
    assert_eq!(next_tab_index(0, 0), None);
    assert_eq!(prev_tab_index(0, 3), Some(2));
    assert_eq!(prev_tab_index(2, 3), Some(1));
    assert_eq!(prev_tab_index(0, 0), None);
    assert_eq!(select_tab_index(1, 3), Some(1));
    assert_eq!(select_tab_index(8, 3), Some(2));
    assert_eq!(select_tab_index(0, 0), None);
    assert_eq!(cycle_focus_index(1, 2, true), Some(0));
    assert_eq!(cycle_focus_index(0, 2, false), Some(1));
    assert_eq!(cycle_focus_index(0, 1, true), None);
    for i in 0..5 {
        let n = next_tab_index(i, 5).unwrap();
        assert_eq!(prev_tab_index(n, 5), Some(i));
    }
    assert_eq!(window_split_side(SplitDirection::Top), SplitDirection::Bottom);
    assert_eq!(window_split_side(SplitDirection::Left), SplitDirection::Left);
}

#[test]
fn opening_and_closing_panes_keeps_the_books() {
    let mut book = PaneBook::new();
    let a = book.open_pane(Some(PaneId(0)));
    let b = book.open_pane(None);
    assert_eq!((a, b), (PaneId(1), PaneId(2)));
    assert_eq!(book.pane_parent(a), Some(PaneId(0)));
    assert_eq!(book.pane_parent(b), None);
    book.close_pane(a);
    assert_eq!(book.pane_parent(a), None);
    let events = book.drain_pane_events();
    assert_eq!(events.len(), 3);
    assert!(matches!(events[0], PaneEvent::Created { pane_id: PaneId(1) }));
    assert!(matches!(events[1], PaneEvent::Created { pane_id: PaneId(2) }));
    assert!(matches!(events[2], PaneEvent::Closed { pane_id: PaneId(1) }));
}

#[test]
fn path_extensions_follow_std() {
    let cases = [
        "a.png", "/tmp/x.PNG", ".bashrc", "a/.", "a/..", "foo.", "...", "..a", "a.b/", "a.b/.",
        "a.tar.gz", "", "/", ".", "./", "a//b.c//", "dir.d/file", "/x/.hidden.jpg", "a/./b.gif/./",
        "..", "../x.bmp", "plain", "é.webp",
    ];
    for case in cases {
        let expected = std::path::Path::new(case)
            .extension()
            .map(|e| e.to_str().unwrap().to_string())
            .unwrap_or_default();
        assert_eq!(extension_of(case), expected, "extension of {case:?}");
    }
}

#[test]
fn classify_payloads() {
    let v: serde_json::Value = serde_json::from_str("[]").unwrap();
    assert_eq!(classify_payload(&v), Payload::EmptyBatch);
    let v: serde_json::Value = serde_json::from_str("[{\"jsonrpc\":\"2.0\"}]").unwrap();
    assert_eq!(classify_payload(&v), Payload::Batch);
    let v: serde_json::Value = serde_json::from_str("{\"jsonrpc\":\"2.0\"}").unwrap();
    assert_eq!(classify_payload(&v), Payload::Single);
}
