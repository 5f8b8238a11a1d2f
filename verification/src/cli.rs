//! The command-line interface that controls a running instance: its
//! arguments, the request each command sends, and the text it prints.
//!
//! Parsing the command line, talking to the server and printing happen
//! outside the library; which request a command makes and how results are
//! laid out is decided here.

use vstd::prelude::*;
use vstd::string::StringSliceAdditionalSpecFns;
use vstd::utf8::{decode_utf8, encode_utf8, is_char_boundary};
use crate::ipc::handler::Method;
use crate::protocol::rpc::{
    ActivatePaneParams, ClosePaneParams, GetTextParams, SendTextParams, SplitPaneParams,
    WindowCreateParams, WindowInfo,
};
use crate::protocol::types::{PaneId, PaneInfo, SplitDirection, SplitSize};
use crate::text::{decimal, str_equal, u64_to_string};

verus! {

/// Arguments of the `crux-app` program.
pub struct CliArgs {
    pub command: Option<CliCommand>,
}

/// Subcommands of the program.
pub enum CliCommand {
    /// Control a running Crux instance.
    Cli { action: CliAction },
}

/// Actions on a running instance.
pub enum CliAction {
    /// Split the current pane.
    SplitPane {
        direction: String,
        percent: Option<u8>,
        pane_id: Option<u64>,
        cwd: Option<String>,
        command: Vec<String>,
    },
    /// Send text to a pane.
    SendText { pane_id: Option<u64>, no_paste: bool, text: Option<String> },
    /// Get text content from a pane.
    GetText { pane_id: Option<u64>, start_line: Option<i32>, end_line: Option<i32>, escapes: bool },
    /// List all panes.
    List { format: String },
    /// Activate (focus) a pane.
    ActivatePane { pane_id: u64 },
    /// Close a pane.
    ClosePane { pane_id: u64, force: bool },
    /// Create a new window.
    WindowCreate { title: Option<String>, width: Option<u32>, height: Option<u32> },
    /// List all windows.
    WindowList { format: String },
}

/// The split direction that a `--direction` value names; anything but
/// `left`, `top` and `bottom` splits to the right.
pub open spec fn spec_split_direction(name: Seq<char>) -> SplitDirection {
    if name == "left"@ {
        SplitDirection::Left
    } else if name == "top"@ {
        SplitDirection::Top
    } else if name == "bottom"@ {
        SplitDirection::Bottom
    } else {
        SplitDirection::Right
    }
}

/// The split direction that a `--direction` value names.
pub fn parse_split_direction(name: &str) -> (d: SplitDirection)
    ensures
        d == spec_split_direction(name@),
{
    if str_equal(name, "left") {
        SplitDirection::Left
    } else if str_equal(name, "top") {
        SplitDirection::Top
    } else if str_equal(name, "bottom") {
        SplitDirection::Bottom
    } else {
        SplitDirection::Right
    }
}

/// The request a command sends, with its parameters.
pub enum CliCall {
    SplitPane(SplitPaneParams),
    SendText(SendTextParams),
    GetText(GetTextParams),
    /// List panes; print them as JSON rather than as a table.
    ListPanes { json: bool },
    ActivatePane(ActivatePaneParams),
    ClosePane(ClosePaneParams),
    WindowCreate(WindowCreateParams),
    /// List windows; print them as JSON rather than one line each.
    WindowList { json: bool },
}

impl CliCall {
    /// The method that carries the request.
    pub open spec fn spec_method(&self) -> Method {
        match self {
            CliCall::SplitPane(_) => Method::PaneSplit,
            CliCall::SendText(_) => Method::PaneSendText,
            CliCall::GetText(_) => Method::PaneGetText,
            CliCall::ListPanes { .. } => Method::PaneList,
            CliCall::ActivatePane(_) => Method::PaneActivate,
            CliCall::ClosePane(_) => Method::PaneClose,
            CliCall::WindowCreate(_) => Method::WindowCreate,
            CliCall::WindowList { .. } => Method::WindowList,
        }
    }

    /// The method that carries the request.
    pub fn method(&self) -> (m: Method)
        ensures
            m == self.spec_method(),
    {
        match self {
            CliCall::SplitPane(_) => Method::PaneSplit,
            CliCall::SendText(_) => Method::PaneSendText,
            CliCall::GetText(_) => Method::PaneGetText,
            CliCall::ListPanes { .. } => Method::PaneList,
            CliCall::ActivatePane(_) => Method::PaneActivate,
            CliCall::ClosePane(_) => Method::PaneClose,
            CliCall::WindowCreate(_) => Method::WindowCreate,
            CliCall::WindowList { .. } => Method::WindowList,
        }
    }
}

/// The pane a command addresses: the one given, else `$CRUX_PANE`.
pub open spec fn chosen_pane(given: Option<u64>, env_pane: Option<u64>) -> Option<PaneId> {
    match given {
        Some(p) => Some(PaneId(p)),
        None => match env_pane {
            Some(p) => Some(PaneId(p)),
            None => None,
        },
    }
}

fn choose_pane(given: Option<u64>, env_pane: Option<u64>) -> (r: Option<PaneId>)
    ensures
        r == chosen_pane(given, env_pane),
{
    match given {
        Some(p) => Some(PaneId(p)),
        None => match env_pane {
            Some(p) => Some(PaneId(p)),
            None => None,
        },
    }
}

/// The request of a command.
///
/// `env_pane` is the pane id in `$CRUX_PANE`, where it is set and parses;
/// `stdin_text` is what standard input held, read only for `send-text`
/// without a text argument.
pub fn plan_cli(action: CliAction, env_pane: Option<u64>, stdin_text: Option<String>) -> (call: CliCall)
    ensures
        match action {
            CliAction::SplitPane { direction, percent, pane_id, cwd, command } => call matches CliCall::SplitPane(p)
                && p.target_pane_id == (match pane_id {
                Some(i) => Some(PaneId(i)),
                None => None,
            }) && p.direction == spec_split_direction(direction@) && p.size == (match percent {
                Some(v) => Some(SplitSize::Percent(v)),
                None => None,
            }) && p.cwd == cwd && p.command == (if command@.len() == 0 {
                None
            } else {
                Some(command)
            }) && p.env is None,
            CliAction::SendText { pane_id, no_paste, text } => call matches CliCall::SendText(p)
                && p.pane_id == chosen_pane(pane_id, env_pane) && p.bracketed_paste == !no_paste
                && p.text@ == (match text {
                Some(t) => t@,
                None => match stdin_text {
                    Some(t) => t@,
                    None => Seq::empty(),
                },
            }),
            CliAction::GetText { pane_id, start_line, end_line, escapes } => call matches CliCall::GetText(p)
                && p.pane_id == chosen_pane(pane_id, env_pane) && p.start_line == start_line
                && p.end_line == end_line && p.include_escapes == escapes,
            CliAction::List { format } => call == CliCall::ListPanes { json: format@ == "json"@ },
            CliAction::ActivatePane { pane_id } => call matches CliCall::ActivatePane(p) && p.pane_id
                == PaneId(pane_id),
            CliAction::ClosePane { pane_id, force } => call matches CliCall::ClosePane(p) && p.pane_id
                == PaneId(pane_id) && p.force == force,
            CliAction::WindowCreate { title, width, height } => call matches CliCall::WindowCreate(p)
                && p.title == title && p.width == width && p.height == height,
            CliAction::WindowList { format } => call == CliCall::WindowList { json: format@ == "json"@ },
        },
{
    match action {
        CliAction::SplitPane { direction, percent, pane_id, cwd, command } => {
            let dir = parse_split_direction(direction.as_str());
            let target = match pane_id {
                Some(i) => Some(PaneId(i)),
                None => None,
            };
            let size = match percent {
                Some(v) => Some(SplitSize::Percent(v)),
                None => None,
            };
            let command = if command.len() == 0 {
                None
            } else {
                Some(command)
            };
            CliCall::SplitPane(
                SplitPaneParams { target_pane_id: target, direction: dir, size, cwd, command, env: None },
            )
        },
        CliAction::SendText { pane_id, no_paste, text } => {
            let text = match text {
                Some(t) => t,
                None => match stdin_text {
                    Some(t) => t,
                    None => String::new(),
                },
            };
            CliCall::SendText(
                SendTextParams { pane_id: choose_pane(pane_id, env_pane), text, bracketed_paste: !no_paste },
            )
        },
        CliAction::GetText { pane_id, start_line, end_line, escapes } => CliCall::GetText(
            GetTextParams {
                pane_id: choose_pane(pane_id, env_pane),
                start_line,
                end_line,
                include_escapes: escapes,
            },
        ),
        CliAction::List { format } => CliCall::ListPanes { json: str_equal(format.as_str(), "json") },
        CliAction::ActivatePane { pane_id } => CliCall::ActivatePane(
            ActivatePaneParams { pane_id: PaneId(pane_id) },
        ),
        CliAction::ClosePane { pane_id, force } => CliCall::ClosePane(
            ClosePaneParams { pane_id: PaneId(pane_id), force },
        ),
        CliAction::WindowCreate { title, width, height } => CliCall::WindowCreate(
            WindowCreateParams { title, width, height },
        ),
        CliAction::WindowList { format } => CliCall::WindowList {
            json: str_equal(format.as_str(), "json"),
        },
    }
}

/// The index at which [`truncate`] cuts a string whose bytes are `bytes`:
/// the last character boundary not after `target`.
pub open spec fn is_cut_point(bytes: Seq<u8>, target: int, end: int) -> bool {
    &&& 0 <= end <= target
    &&& is_char_boundary(bytes, end)
    &&& forall|j: int| end < j <= target ==> !is_char_boundary(bytes, j)
}

/// Two cut points for the same target are the same index.
proof fn lemma_cut_point_unique(bytes: Seq<u8>, target: int, a: int, b: int)
    requires
        is_cut_point(bytes, target, a),
        is_cut_point(bytes, target, b),
    ensures
        a == b,
{
}

/// What [`truncate`] makes of a string of characters `s`.
pub open spec fn spec_truncate(s: Seq<char>, max: nat) -> Seq<char> {
    let bytes = encode_utf8(s);
    if bytes.len() <= max {
        s
    } else {
        let target: int = if max >= 3 {
            max - 3
        } else {
            0
        };
        decode_utf8(bytes.subrange(0, choose|end: int| is_cut_point(bytes, target, end))) + "..."@
    }
}

/// Shorten `s` to fit in `max` bytes for display.
///
/// A string of at most `max` bytes is kept. A longer one is cut at the last
/// character boundary at or before byte `max - 3` (0 when `max < 3`) and
/// ends in `...`; it is never cut inside a character.
pub fn truncate(s: &str, max: usize) -> (r: String)
    ensures
        r@ == spec_truncate(s@, max as nat),
        s.spec_bytes().len() > max ==> exists|end: int|
            is_cut_point(s.spec_bytes(), (if max >= 3 { max - 3 } else { 0 }), end) && r@ == decode_utf8(
                s.spec_bytes().subrange(0, end),
            ) + "..."@,
{
    let len = s.as_bytes().len();
    if len <= max {
        return String::from_str(s);
    }
    let target: usize = if max >= 3 {
        max - 3
    } else {
        0
    };
    let ghost bytes = s.spec_bytes();
    proof {
        vstd::utf8::encode_utf8_valid_utf8(s@);
        vstd::utf8::is_char_boundary_start_end_of_seq(bytes);
    }
    let mut end: usize = target;
    while !s.is_char_boundary(end)
        invariant
            bytes == s.spec_bytes(),
            vstd::utf8::valid_utf8(bytes),
            is_char_boundary(bytes, 0),
            end <= target,
            target < bytes.len(),
            forall|j: int| end < j <= target ==> !is_char_boundary(bytes, j),
        decreases end,
    {
        end = end - 1;
    }
    let (head, _) = s.split_at(end);
    proof {
        vstd::utf8::encode_utf8_decode_utf8(head@);
        assert(is_cut_point(bytes, target as int, end as int));
        let c = choose|e: int| is_cut_point(bytes, target as int, e);
        lemma_cut_point_unique(bytes, target as int, c, end as int);
    }
    String::from_str(head).concat("...")
}

/// UTF-8 encoding distributes over concatenation.
proof fn lemma_encode_utf8_concat(a: Seq<char>, b: Seq<char>)
    ensures
        encode_utf8(a + b) == encode_utf8(a) + encode_utf8(b),
    decreases a.len(),
{
    if a.len() == 0 {
        assert(a + b =~= b);
        assert(encode_utf8(a) =~= Seq::<u8>::empty());
        assert(encode_utf8(a) + encode_utf8(b) =~= encode_utf8(b));
    } else {
        assert((a + b).drop_first() =~= a.drop_first() + b);
        assert((a + b)[0] == a[0]);
        lemma_encode_utf8_concat(a.drop_first(), b);
        assert(encode_utf8(a + b) =~= encode_utf8(a) + encode_utf8(b));
    }
}

/// A shortened string fits its budget: it takes at most `max` bytes, or
/// the three bytes of `...` when `max` is smaller than that.
pub proof fn lemma_truncate_fits(s: Seq<char>, max: nat)
    ensures
        encode_utf8(spec_truncate(s, max)).len() <= (if max >= 3 { max } else { 3 }),
{
    let bytes = encode_utf8(s);
    if bytes.len() > max {
        let target: int = if max >= 3 {
            max - 3
        } else {
            0
        };
        vstd::utf8::encode_utf8_valid_utf8(s);
        vstd::utf8::is_char_boundary_start_end_of_seq(bytes);
        lemma_cut_point_exists(bytes, target, target);
        let end = choose|end: int| is_cut_point(bytes, target, end);
        let head = bytes.subrange(0, end);
        vstd::utf8::valid_utf8_split(bytes, end);
        vstd::utf8::decode_utf8_encode_utf8(head);
        reveal_strlit("...");
        lemma_encode_utf8_concat(vstd::utf8::decode_utf8(head), "..."@);
        assert(encode_utf8("..."@).len() == 3) by {
            assert("..."@ =~= seq!['.', '.', '.']);
            reveal_with_fuel(encode_utf8, 4);
        }
    }
}

/// Below any index up to `target` there is a cut point: the last boundary
/// not after it (0 is always one).
proof fn lemma_cut_point_exists(bytes: Seq<u8>, target: int, k: int)
    requires
        vstd::utf8::valid_utf8(bytes),
        0 <= k <= target,
        is_char_boundary(bytes, 0),
        forall|j: int| k < j <= target ==> !is_char_boundary(bytes, j),
    ensures
        exists|e: int| is_cut_point(bytes, target, e),
    decreases k,
{
    if is_char_boundary(bytes, k) {
        assert(is_cut_point(bytes, target, k));
    } else {
        lemma_cut_point_exists(bytes, target, k - 1);
    }
}

/// `count` spaces.
pub open spec fn spaces(count: nat) -> Seq<char> {
    Seq::new(count, |i: int| ' ')
}

/// `s` followed by spaces up to `width` characters.
pub open spec fn pad_right(s: Seq<char>, width: nat) -> Seq<char> {
    if s.len() < width {
        s + spaces((width - s.len()) as nat)
    } else {
        s
    }
}

/// `s` preceded by spaces up to `width` characters.
pub open spec fn pad_left(s: Seq<char>, width: nat) -> Seq<char> {
    if s.len() < width {
        spaces((width - s.len()) as nat) + s
    } else {
        s
    }
}

fn space_run(count: usize) -> (r: String)
    ensures
        r@ == spaces(count as nat),
{
    let mut r = String::new();
    let mut i: usize = 0;
    while i < count
        invariant
            i <= count,
            r@ == spaces(i as nat),
        decreases count - i,
    {
        proof {
            reveal_strlit(" ");
        }
        r.append(" ");
        assert(r@ =~= spaces((i + 1) as nat));
        i += 1;
    }
    r
}

/// `s` padded on the right to `width` characters, as `{:<width}` does.
fn padded_right(s: &str, width: usize) -> (r: String)
    ensures
        r@ == pad_right(s@, width as nat),
{
    let n = vstd::string::StrSliceExecFns::unicode_len(s);
    if n < width {
        String::from_str(s).concat(space_run(width - n).as_str())
    } else {
        String::from_str(s)
    }
}

/// `s` padded on the left to `width` characters, as `{:>width}` does.
fn padded_left(s: &str, width: usize) -> (r: String)
    ensures
        r@ == pad_left(s@, width as nat),
{
    let n = vstd::string::StrSliceExecFns::unicode_len(s);
    if n < width {
        space_run(width - n).concat(s)
    } else {
        String::from_str(s)
    }
}

/// The header line of the pane table.
pub open spec fn pane_table_header() -> Seq<char> {
    pad_right("WINID"@, 7) + " "@ + pad_right("TABID"@, 7) + " "@ + pad_right("PANEID"@, 8) + " "@
        + pad_right("SIZE"@, 12) + " "@ + pad_right("TITLE"@, 20) + " CWD"@
}

/// The table line of a pane, given its title as shortened for display.
pub open spec fn pane_table_row(p: PaneInfo, short_title: Seq<char>) -> Seq<char> {
    pad_right(decimal(p.window_id.0 as nat), 7) + " "@ + pad_right(decimal(p.tab_id.0 as nat), 7) + " "@
        + pad_right(decimal(p.pane_id.0 as nat), 8) + " "@ + pad_left(decimal(p.size.cols as nat), 4)
        + "x"@ + pad_right(decimal(p.size.rows as nat), 6) + " "@ + pad_right(short_title, 20) + " "@
        + match p.cwd {
        Some(c) => c@,
        None => Seq::empty(),
    }
}

/// The lines of the pane table: the header, then one line per pane in
/// order, its title shortened to 20 bytes by [`truncate`].
pub fn pane_table(panes: &Vec<PaneInfo>) -> (lines: Vec<String>)
    ensures
        lines@.len() == panes@.len() + 1,
        lines@[0]@ == pane_table_header(),
        forall|i: int|
            0 <= i < panes@.len() ==> #[trigger] lines@[i + 1]@ == pane_table_row(
                panes@[i],
                spec_truncate(panes@[i].title@, 20),
            ),
{
    let mut lines: Vec<String> = Vec::new();
    let header = padded_right("WINID", 7).concat(" ").concat(padded_right("TABID", 7).as_str()).concat(" ").concat(
        padded_right("PANEID", 8).as_str(),
    ).concat(" ").concat(padded_right("SIZE", 12).as_str()).concat(" ").concat(
        padded_right("TITLE", 20).as_str(),
    ).concat(" CWD");
    lines.push(header);
    let mut i: usize = 0;
    while i < panes.len()
        invariant
            i <= panes@.len(),
            lines@.len() == i + 1,
            lines@[0]@ == pane_table_header(),
            forall|k: int|
                0 <= k < i ==> #[trigger] lines@[k + 1]@ == pane_table_row(
                    panes@[k],
                    spec_truncate(panes@[k].title@, 20),
                ),
        decreases panes@.len() - i,
    {
        let p = &panes[i];
        let title = truncate(p.title.as_str(), 20);
        let cwd: &str = match &p.cwd {
            Some(c) => c.as_str(),
            None => {
                proof {
                    reveal_strlit("");
                }
                ""
            },
        };
        let win = padded_right(u64_to_string(p.window_id.0).as_str(), 7);
        let tab = padded_right(u64_to_string(p.tab_id.0).as_str(), 7);
        let pane = padded_right(u64_to_string(p.pane_id.0).as_str(), 8);
        let cols = padded_left(u64_to_string(p.size.cols as u64).as_str(), 4);
        let rows = padded_right(u64_to_string(p.size.rows as u64).as_str(), 6);
        let short = padded_right(title.as_str(), 20);
        let row = win.concat(" ").concat(tab.as_str()).concat(" ").concat(pane.as_str()).concat(" ").concat(
            cols.as_str(),
        ).concat("x").concat(rows.as_str()).concat(" ").concat(short.as_str()).concat(" ").concat(cwd);
        assert(cwd@ == match panes@[i as int].cwd {
            Some(c) => c@,
            None => Seq::<char>::empty(),
        });
        assert(row@ == pane_table_row(panes@[i as int], title@));
        lines.push(row);
        i += 1;
    }
    lines
}

/// The line that describes a window in the window list.
pub open spec fn window_line_text(w: WindowInfo) -> Seq<char> {
    "Window "@ + decimal(w.window_id.0 as nat) + " | "@ + decimal(w.pane_count as nat) + " panes | focused="@
        + if w.is_focused {
        "true"@
    } else {
        "false"@
    }
}

/// The line that describes a window in the window list.
pub fn window_line(w: &WindowInfo) -> (s: String)
    ensures
        s@ == window_line_text(*w),
{
    let focused: &str = if w.is_focused {
        "true"
    } else {
        "false"
    };
    String::from_str("Window ").concat(u64_to_string(w.window_id.0).as_str()).concat(" | ").concat(
        u64_to_string(w.pane_count as u64).as_str(),
    ).concat(" panes | focused=").concat(focused)
}

} // verus!
