use crux::config::{check_scrollback_lines, ColorConfig, TerminalConfig};

#[test]
fn test_color_defaults() {
    let colors = ColorConfig::default();
    // Verify Catppuccin Mocha colors
    assert_eq!(colors.background, 0x1e1e2e);
    assert_eq!(colors.foreground, 0xcdd6f4);
    assert_eq!(colors.cursor, 0xf5e0dc);
    assert_eq!(colors.normal[0], 0x1e1e2e); // black
    assert_eq!(colors.normal[1], 0xf38ba8); // red
    assert_eq!(colors.bright[0], 0x585b70); // bright black
}

#[test]
fn terminal_defaults() {
    let t = TerminalConfig::default();
    assert_eq!(t.scrollback_lines, 10_000);
    assert!(t.shell.is_none());
    assert_eq!(t.shell_args, vec!["-l".to_string()]);
    assert!(t.env.is_empty());
}

#[test]
fn scrollback_limit() {
    assert!(check_scrollback_lines(10_000).is_ok());
    assert!(check_scrollback_lines(1_000_000).is_ok());
    assert_eq!(
        check_scrollback_lines(2_000_000).unwrap_err(),
        "terminal.scrollback_lines must be <= 1,000,000, got 2000000"
    );
}
