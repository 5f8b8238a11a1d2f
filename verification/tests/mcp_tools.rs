use crux::mcp::commands::{
    command_input, compile_wait_pattern, first_matching_line, output_arrived, wait_step, WaitStep,
    MAX_PATTERN_BYTES,
};
use crux::mcp::resources::{
    pane_resources, parse_resource_uri, resource_kind, resource_templates, resource_uri, ResourceKind,
};

#[test]
fn test_resource_templates_count() {
    let templates = resource_templates();
    assert_eq!(templates.len(), 2, "should have 2 resource templates");
}

#[test]
fn test_resource_templates_scrollback() {
    let templates = resource_templates();
    let scrollback = templates.iter().find(|t| t.uri == "crux://pane/{pane_id}/scrollback");
    assert!(scrollback.is_some(), "scrollback template should exist");
    let template = scrollback.unwrap();
    assert_eq!(template.name, "Pane Scrollback");
    assert_eq!(template.mime_type, "text/plain");
}

#[test]
fn test_resource_templates_state() {
    let templates = resource_templates();
    let state = templates.iter().find(|t| t.uri == "crux://pane/{pane_id}/state");
    assert!(state.is_some(), "state template should exist");
    let template = state.unwrap();
    assert_eq!(template.name, "Pane State");
    assert_eq!(template.mime_type, "application/json");
}

#[test]
fn pane_resources_two_per_pane() {
    let listed = pane_resources(&vec![Some(3), None, Some(10)]);
    assert_eq!(listed.len(), 4);
    assert_eq!(listed[0].uri, "crux://pane/3/scrollback");
    assert_eq!(listed[0].name, "Pane 3 Scrollback");
    assert_eq!(listed[0].title, "Pane 3 Scrollback");
    assert_eq!(listed[0].description, "Terminal scrollback buffer content");
    assert_eq!(listed[0].mime_type, "text/plain");
    assert_eq!(listed[1].uri, "crux://pane/3/state");
    assert_eq!(listed[1].name, "Pane 3 State");
    assert_eq!(listed[1].description, "Full pane state as JSON");
    assert_eq!(listed[1].mime_type, "application/json");
    assert_eq!(listed[2].uri, "crux://pane/10/scrollback");
    assert_eq!(listed[3].uri, "crux://pane/10/state");
    assert!(pane_resources(&vec![]).is_empty());
}

#[test]
fn resource_uris_parse_back() {
    for id in [0u64, 7, 123456789, u64::MAX] {
        for kind in [ResourceKind::Scrollback, ResourceKind::State] {
            let uri = resource_uri(id, kind);
            assert_eq!(parse_resource_uri(&uri), Some((id, kind.name())));
        }
    }
}

#[test]
fn resource_kinds() {
    assert_eq!(resource_kind("scrollback"), Ok(ResourceKind::Scrollback));
    assert_eq!(resource_kind("state"), Ok(ResourceKind::State));
    assert_eq!(resource_kind("history"), Err("unknown resource type: history".to_string()));
}

#[test]
fn command_input_adds_newline_after_check() {
    assert_eq!(command_input("ls -la"), Ok("ls -la\n".to_string()));
    assert!(command_input("sudo rm -rf /").is_err());
}

#[test]
fn execute_polling_stops_on_new_output_or_timeout() {
    assert!(!output_arrived(10, 10, 100));
    assert!(output_arrived(10, 11, 100));
    assert!(output_arrived(10, 10, 500));
    assert!(!output_arrived(10, 9, 499));
}

#[test]
fn command_test_regex_pattern_max_length() {
    // Pattern over 1024 chars should be rejected
    let long_pattern = "a".repeat(1025);
    assert!(long_pattern.len() > 1024);
    assert!(compile_wait_pattern(&long_pattern).is_err());
}

#[test]
fn wait_for_output_test_regex_pattern_max_length() {
    // Pattern over 1024 chars should be rejected
    let long_pattern = "a".repeat(1025);
    assert!(long_pattern.len() > 1024);
    match compile_wait_pattern(&long_pattern) {
        Err(m) => assert_eq!(m, "Regex pattern too long (max 1024 chars). Simplify the pattern."),
        Ok(_) => panic!("a long pattern must be refused"),
    }
    assert!(compile_wait_pattern(&"a".repeat(MAX_PATTERN_BYTES)).is_ok());
}

#[test]
fn invalid_pattern_is_refused() {
    match compile_wait_pattern("foo(bar") {
        Err(m) => {
            assert!(m.starts_with("Invalid regex pattern: "));
            assert!(m.ends_with(". Check syntax."));
        }
        Ok(_) => panic!("an invalid pattern must be refused"),
    }
}

#[test]
fn wait_steps() {
    let p = compile_wait_pattern("^\\$ done").ok().unwrap();
    let lines = vec![Some("building".to_string()), None, Some("$ done".to_string()), Some("$ done again".to_string())];
    assert_eq!(first_matching_line(&p, &lines), Some(2));
    assert_eq!(
        wait_step(&p, &lines, 120, None),
        WaitStep::Matched { line: "$ done".to_string(), elapsed_ms: 120 }
    );
    let idle = vec![Some("building".to_string())];
    assert_eq!(wait_step(&p, &idle, 9999, None), WaitStep::KeepWaiting);
    assert_eq!(
        wait_step(&p, &idle, 10000, None),
        WaitStep::TimedOut("Timeout after 10000ms waiting for pattern '^\\$ done'".to_string())
    );
    assert_eq!(
        wait_step(&p, &idle, 300, Some(250)),
        WaitStep::TimedOut("Timeout after 250ms waiting for pattern '^\\$ done'".to_string())
    );
}
