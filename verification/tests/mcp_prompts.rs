use crux::mcp::prompts::{get, list, PromptArguments};

fn args(command: Option<&str>, steps: Option<&str>, pane_id: Option<&str>) -> Option<PromptArguments> {
    Some(PromptArguments {
        command: command.map(|s| s.to_string()),
        steps: steps.map(|s| s.to_string()),
        pane_id: pane_id.map(|s| s.to_string()),
    })
}

#[test]
fn test_list_returns_three_prompts() {
    let prompts = list();
    assert_eq!(prompts.len(), 3);
    assert_eq!(prompts[0].name, "terminal-debug");
    assert_eq!(prompts[1].name, "pane-overview");
    assert_eq!(prompts[2].name, "command-workflow");
}

#[test]
fn test_terminal_debug_with_valid_args() {
    let result = get("terminal-debug", &args(Some("npm test"), None, Some("123")));
    assert!(result.is_ok());
    let prompt = result.unwrap();
    assert_eq!(prompt.description, "Debug `npm test` in pane 123");
    assert!(prompt.message.starts_with("Analyze the terminal output from pane 123 after running `npm test`."));
}

#[test]
fn test_terminal_debug_without_pane_id() {
    let result = get("terminal-debug", &args(Some("cargo build"), None, None));
    assert!(result.is_ok());
    assert_eq!(result.unwrap().description, "Debug `cargo build` in pane active pane");
}

#[test]
fn test_terminal_debug_without_required_command() {
    let result = get("terminal-debug", &args(None, None, None));
    assert!(result.is_err());
    assert_eq!(result.unwrap_err(), "missing required argument: command");
}

#[test]
fn test_terminal_debug_without_arguments() {
    let result = get("terminal-debug", &None);
    assert!(result.is_err());
    assert_eq!(result.unwrap_err(), "terminal-debug requires arguments");
}

#[test]
fn test_pane_overview_with_no_args() {
    let result = get("pane-overview", &None);
    assert!(result.is_ok());
    let prompt = result.unwrap();
    assert_eq!(prompt.description, "Overview of all terminal panes");
    assert!(prompt.message.starts_with("List all terminal panes using crux_list_panes"));
}

#[test]
fn test_command_workflow_with_valid_args() {
    let result = get("command-workflow", &args(None, Some("cargo build, cargo test, cargo clippy"), Some("456")));
    assert!(result.is_ok());
    let prompt = result.unwrap();
    assert_eq!(prompt.description, "Execute workflow in pane 456");
    assert!(prompt.message.contains("in pane 456:\ncargo build, cargo test, cargo clippy\n\nFor each command:"));
}

#[test]
fn test_command_workflow_without_pane_id() {
    let result = get("command-workflow", &args(None, Some("git status, git diff"), None));
    assert!(result.is_ok());
}

#[test]
fn test_command_workflow_without_required_steps() {
    let result = get("command-workflow", &args(None, None, None));
    assert!(result.is_err());
}

#[test]
fn test_unknown_prompt_returns_error() {
    let result = get("unknown-prompt", &None);
    assert!(result.is_err());
    assert_eq!(result.unwrap_err(), "unknown prompt: unknown-prompt");
}
