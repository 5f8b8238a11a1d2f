//! Configuration sections of the terminal whose values are integers and
//! strings: colors, terminal behavior and key bindings, with their
//! defaults.

use std::collections::HashMap;
use vstd::prelude::*;
use crate::text::{decimal, u64_to_string};

verus! {

/// Color scheme configuration.
#[derive(Debug, Clone)]
pub struct ColorConfig {
    /// Named theme (reserved for future use).
    pub theme: Option<String>,
    /// Background color (RGB hex, e.g., 0x1e1e2e).
    pub background: u32,
    /// Foreground color (RGB hex).
    pub foreground: u32,
    /// Cursor color (RGB hex).
    pub cursor: u32,
    /// Normal ANSI colors (0-7).
    pub normal: [u32; 8],
    /// Bright ANSI colors (8-15).
    pub bright: [u32; 8],
}

impl Default for ColorConfig {
    /// The Catppuccin Mocha palette.
    fn default() -> (c: Self)
        ensures
            c.theme is None,
            c.background == 0x1e1e2e,
            c.foreground == 0xcdd6f4,
            c.cursor == 0xf5e0dc,
            c.normal@ == seq![
                0x1e1e2eu32,
                0xf38ba8u32,
                0xa6e3a1u32,
                0xf9e2afu32,
                0x89b4fau32,
                0xcba6f7u32,
                0x94e2d5u32,
                0xcdd6f4u32,
            ],
            c.bright@ == seq![
                0x585b70u32,
                0xeba0acu32,
                0x94e2d5u32,
                0xf5e0dcu32,
                0x74c7ecu32,
                0xf5c2e7u32,
                0x89dcebu32,
                0xffffffu32,
            ],
    {
        ColorConfig {
            theme: None,
            background: 0x1e1e2e,
            foreground: 0xcdd6f4,
            cursor: 0xf5e0dc,
            normal: [
                0x1e1e2e, // black
                0xf38ba8, // red
                0xa6e3a1, // green
                0xf9e2af, // yellow
                0x89b4fa, // blue
                0xcba6f7, // magenta
                0x94e2d5, // cyan
                0xcdd6f4, // white
            ],
            bright: [
                0x585b70, // bright black
                0xeba0ac, // bright red
                0x94e2d5, // bright green
                0xf5e0dc, // bright yellow
                0x74c7ec, // bright blue
                0xf5c2e7, // bright magenta
                0x89dceb, // bright cyan
                0xffffff, // bright white
            ],
        }
    }
}

/// Terminal behavior configuration.
#[derive(Debug, Clone)]
pub struct TerminalConfig {
    /// Scrollback history size in lines.
    pub scrollback_lines: usize,
    /// Shell to execute; `None` lets the shell be detected.
    pub shell: Option<String>,
    /// Shell arguments (e.g., ["-l"] for login shell).
    pub shell_args: Vec<String>,
    /// Additional environment variables to pass to the shell.
    pub env: HashMap<String, String>,
}

impl Default for TerminalConfig {
    /// 10,000 lines of scrollback and a login shell, with no extra
    /// environment.
    fn default() -> (c: Self)
        ensures
            c.scrollback_lines == 10000,
            c.shell is None,
            c.shell_args@.len() == 1,
            c.shell_args@[0]@ == "-l"@,
            c.env@.len() == 0,
    {
        let mut args: Vec<String> = Vec::new();
        args.push(String::from_str("-l"));
        TerminalConfig { scrollback_lines: 10000, shell: None, shell_args: args, env: HashMap::new() }
    }
}

/// Keybinding configuration.
#[derive(Debug, Clone)]
pub struct KeyBinding {
    /// Key combination (e.g., "cmd-t", "ctrl-shift-c").
    pub key: String,
    /// Modifiers (e.g., ["cmd"], ["ctrl", "shift"]).
    pub mods: Vec<String>,
    /// Action to perform (e.g., "new_tab", "close_tab").
    pub action: String,
}

/// The largest scrollback a configuration may ask for.
pub const MAX_SCROLLBACK_LINES: usize = 1000000;

/// Check the scrollback size of a configuration: at most
/// [`MAX_SCROLLBACK_LINES`]; otherwise the validation message.
pub fn check_scrollback_lines(lines: usize) -> (r: Result<(), String>)
    ensures
        lines <= MAX_SCROLLBACK_LINES <==> r is Ok,
        r matches Err(m) ==> m@ == "terminal.scrollback_lines must be <= 1,000,000, got "@ + decimal(
            lines as nat,
        ),
{
    if lines > MAX_SCROLLBACK_LINES {
        return Err(
            String::from_str("terminal.scrollback_lines must be <= 1,000,000, got ").concat(
                u64_to_string(lines as u64).as_str(),
            ),
        );
    }
    Ok(())
}

} // verus!
