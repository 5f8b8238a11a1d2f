use crux::mcp::output::{extract_lines, extract_lines_raw, join_lines, render_lines, strip_ansi};
use crux::mcp::panes::{select_pane, PaneLookupError, PaneSummary};
use crux::mcp::resources::{parse_resource_uri, parse_u64};

fn json(text: &str) -> serde_json::Value {
    serde_json::from_str(text).unwrap()
}

#[test]
fn test_parse_resource_uri_scrollback() {
    let result = parse_resource_uri("crux://pane/42/scrollback");
    assert_eq!(result, Some((42, "scrollback")));
}

#[test]
fn test_parse_resource_uri_state() {
    let result = parse_resource_uri("crux://pane/123/state");
    assert_eq!(result, Some((123, "state")));
}

#[test]
fn test_parse_resource_uri_zero_id() {
    let result = parse_resource_uri("crux://pane/0/scrollback");
    assert_eq!(result, Some((0, "scrollback")));
}

#[test]
fn test_parse_resource_uri_large_id() {
    let result = parse_resource_uri("crux://pane/99999999/state");
    assert_eq!(result, Some((99999999, "state")));
}

#[test]
fn test_parse_resource_uri_invalid_scheme() {
    let result = parse_resource_uri("http://pane/42/scrollback");
    assert_eq!(result, None);
}

#[test]
fn test_parse_resource_uri_missing_prefix() {
    let result = parse_resource_uri("pane/42/scrollback");
    assert_eq!(result, None);
}

#[test]
fn test_parse_resource_uri_invalid_id() {
    let result = parse_resource_uri("crux://pane/notanumber/scrollback");
    assert_eq!(result, None);
}

#[test]
fn test_parse_resource_uri_missing_resource_type() {
    let result = parse_resource_uri("crux://pane/42");
    assert_eq!(result, None);
}

#[test]
fn test_parse_resource_uri_missing_id() {
    let result = parse_resource_uri("crux://pane//scrollback");
    assert_eq!(result, None);
}

#[test]
fn test_parse_resource_uri_empty_string() {
    let result = parse_resource_uri("");
    assert_eq!(result, None);
}

#[test]
fn test_parse_resource_uri_trailing_slash() {
    let result = parse_resource_uri("crux://pane/42/scrollback/");
    // This should parse the resource_type as "scrollback/"
    assert_eq!(result, Some((42, "scrollback/")));
}

#[test]
fn test_parse_resource_uri_extra_segments() {
    let result = parse_resource_uri("crux://pane/42/scrollback/extra");
    // The parser splits on first '/', so resource_type will be "scrollback/extra"
    assert_eq!(result, Some((42, "scrollback/extra")));
}

#[test]
fn resource_uri_round_trip_and_limits() {
    let uri = format!("crux://pane/{}/state", u64::MAX);
    assert_eq!(parse_resource_uri(&uri), Some((u64::MAX, "state")));
    assert_eq!(parse_resource_uri("crux://pane/18446744073709551616/state"), None);
    assert_eq!(parse_resource_uri("crux://pane/+7/state"), Some((7, "state")));
    assert_eq!(parse_resource_uri("crux://pane/-7/state"), None);
    assert_eq!(parse_resource_uri("crux://pane/7/"), Some((7, "")));
}

#[test]
fn parse_u64_follows_from_str() {
    for s in ["0", "42", "+1", "007", "18446744073709551615", "", "+", "-1", "1a", "18446744073709551616"] {
        assert_eq!(parse_u64(s), s.parse::<u64>().ok(), "{s}");
    }
}

#[test]
fn test_strip_ansi_basic_sgr() {
    let input = "\x1b[31mred\x1b[0m";
    let output = strip_ansi(input);
    assert_eq!(output, "red");
}

#[test]
fn test_strip_ansi_osc_title() {
    let input = "\x1b]0;title\x07text";
    let output = strip_ansi(input);
    assert_eq!(output, "text");
}

#[test]
fn test_strip_ansi_osc_st_terminator() {
    let input = "\x1b]0;title\x1b\\text";
    let output = strip_ansi(input);
    assert_eq!(output, "text");
}

#[test]
fn test_strip_ansi_cursor_movement() {
    let input = "\x1b[2Ahello";
    let output = strip_ansi(input);
    assert_eq!(output, "hello");
}

#[test]
fn test_strip_ansi_no_escapes() {
    let input = "plain text";
    let output = strip_ansi(input);
    assert_eq!(output, "plain text");
}

#[test]
fn test_strip_ansi_mixed() {
    let input = "\x1b[1;32mbold green\x1b[0m normal";
    let output = strip_ansi(input);
    assert_eq!(output, "bold green normal");
}

#[test]
fn test_strip_ansi_simple_escapes() {
    let input = "\x1b(Btext\x1b)0more";
    let output = strip_ansi(input);
    assert_eq!(output, "textmore");
}

#[test]
fn test_strip_ansi_c1_controls() {
    let input = "\x1b@before\x1b_after";
    let output = strip_ansi(input);
    assert_eq!(output, "beforeafter");
}

#[test]
fn test_extract_lines_strips_ansi() {
    let result = json(r#"{"lines": ["\u001b[31mred\u001b[0m", "\u001b[32mgreen\u001b[0m"]}"#);
    let output = extract_lines(&result);
    assert_eq!(output, "red\ngreen");
}

#[test]
fn test_extract_lines_raw_preserves_ansi() {
    let result = json(r#"{"lines": ["\u001b[31mred\u001b[0m", "\u001b[32mgreen\u001b[0m"]}"#);
    let output = extract_lines_raw(&result);
    assert_eq!(output, "\x1b[31mred\x1b[0m\n\x1b[32mgreen\x1b[0m");
}

#[test]
fn mod_test_extract_lines_with_lines_array() {
    let result = json(r#"{"lines": ["line 1", "line 2", "line 3"]}"#);
    let output = extract_lines(&result);
    assert_eq!(output, "line 1\nline 2\nline 3");
}

#[test]
fn mod_test_extract_lines_empty_array() {
    let result = json(r#"{"lines": []}"#);
    let output = extract_lines(&result);
    assert_eq!(output, "");
}

#[test]
fn mod_test_extract_lines_mixed_types() {
    let result = json(r#"{"lines": ["line 1", 123, "line 3", null]}"#);
    let output = extract_lines(&result);
    // Only strings are extracted
    assert_eq!(output, "line 1\nline 3");
}

#[test]
fn mod_test_extract_lines_no_lines_field() {
    let result = json(r#"{"data": "some value"}"#);
    let output = extract_lines(&result);
    // Should return pretty-printed JSON
    assert!(output.contains("\"data\""));
    assert!(output.contains("\"some value\""));
}

#[test]
fn mod_test_extract_lines_lines_not_array() {
    let result = json(r#"{"lines": "not an array"}"#);
    let output = extract_lines(&result);
    // Should fall back to pretty-printed JSON
    assert!(output.contains("\"lines\""));
}

#[test]
fn command_test_extract_lines_with_lines_array() {
    let result = json(r#"{"lines": ["line 1", "line 2", "line 3"]}"#);
    let output = extract_lines(&result);
    assert_eq!(output, "line 1\nline 2\nline 3");
}

#[test]
fn command_test_extract_lines_empty_array() {
    let result = json(r#"{"lines": []}"#);
    let output = extract_lines(&result);
    assert_eq!(output, "");
}

#[test]
fn command_test_extract_lines_mixed_types() {
    let result = json(r#"{"lines": ["line 1", 123, "line 3", null]}"#);
    let output = extract_lines(&result);
    // Only strings are extracted
    assert_eq!(output, "line 1\nline 3");
}

#[test]
fn command_test_extract_lines_no_lines_field() {
    let result = json(r#"{"data": "some value"}"#);
    let output = extract_lines(&result);
    // Should return pretty-printed JSON
    assert!(output.contains("\"data\""));
    assert!(output.contains("\"some value\""));
}

#[test]
fn command_test_extract_lines_lines_not_array() {
    let result = json(r#"{"lines": "not an array"}"#);
    let output = extract_lines(&result);
    // Should fall back to pretty-printed JSON
    assert!(output.contains("\"lines\""));
}

#[test]
fn content_test_extract_lines_with_lines_array() {
    let result = json(r#"{"lines": ["first line", "second line", "third line"]}"#);
    let output = extract_lines(&result);
    assert_eq!(output, "first line\nsecond line\nthird line");
}

#[test]
fn content_test_extract_lines_empty_array() {
    let result = json(r#"{"lines": []}"#);
    let output = extract_lines(&result);
    assert_eq!(output, "");
}

#[test]
fn test_extract_lines_single_line() {
    let result = json(r#"{"lines": ["only line"]}"#);
    let output = extract_lines(&result);
    assert_eq!(output, "only line");
}

#[test]
fn test_extract_lines_with_non_string_elements() {
    let result = json(r#"{"lines": ["line 1", 42, null, "line 2"]}"#);
    let output = extract_lines(&result);
    // Only string elements should be included
    assert_eq!(output, "line 1\nline 2");
}

#[test]
fn content_test_extract_lines_no_lines_field() {
    let result = json(r#"{"other_field": "value"}"#);
    let output = extract_lines(&result);
    // Should return pretty-printed JSON
    assert!(output.contains("\"other_field\""));
    assert!(output.contains("\"value\""));
}

#[test]
fn content_test_extract_lines_lines_not_array() {
    let result = json(r#"{"lines": "string instead of array"}"#);
    let output = extract_lines(&result);
    // Should fall back to pretty-printed JSON
    assert!(output.contains("\"lines\""));
    assert!(output.contains("\"string instead of array\""));
}

#[test]
fn join_and_render_lines() {
    let lines = vec![Some("a".to_string()), None, Some("\x1b[1mb".to_string())];
    assert_eq!(join_lines(&lines), "a\n\x1b[1mb");
    assert_eq!(render_lines(Some(lines.clone()), String::new(), true), "a\nb");
    assert_eq!(render_lines(Some(lines), String::new(), false), "a\n\x1b[1mb");
    assert_eq!(render_lines(None, "{}".to_string(), true), "{}");
    assert_eq!(join_lines(&vec![None, None]), "");
}

fn summary(id: Option<u64>, active: bool) -> PaneSummary {
    PaneSummary { pane_id: id, is_active: active }
}

#[test]
fn select_pane_by_id_or_active() {
    let panes = vec![summary(Some(1), false), summary(None, true), summary(Some(3), true)];
    assert_eq!(select_pane(&panes, Some(3)), Ok(2));
    assert_eq!(select_pane(&panes, Some(9)), Err(PaneLookupError::NotFound(9)));
    assert_eq!(select_pane(&panes, None), Ok(1));
    let idle = vec![summary(Some(5), false), summary(Some(6), false)];
    assert_eq!(select_pane(&idle, None), Ok(0));
    assert_eq!(select_pane(&vec![], None), Err(PaneLookupError::NoPanes));
}
