//! What the window answers to IPC commands: the results it builds, the
//! checks it makes before it touches a pane, and the messages of its
//! refusals.

use std::path::PathBuf;
use vstd::prelude::*;
use crate::clipboard::ClipboardContent;
use crate::ipc::socket::{join_path, spec_join};
use crate::protocol::rpc::{
    ClipboardContentType, ClipboardReadResult, ClipboardWriteParams, GetSelectionResult,
    HandshakeResult, ImeStateResult, SplitPaneResult, WindowCreateResult, WindowInfo,
    WindowListResult,
};
use crate::protocol::types::{PaneId, PaneInfo, PaneSize, TabId, WindowId};
use crate::text::{decimal, lowercase, str_equal, to_lowercase, u64_to_string};
use vstd::string::StrSliceExecFns;

verus! {

/// The name the window gives in its handshake.
pub const SERVER_NAME: &'static str = "crux";

/// The protocol version the window speaks.
pub const PROTOCOL_VERSION: &'static str = "1.0";

/// The answer to a clipboard command on a platform without a clipboard.
pub const CLIPBOARD_UNSUPPORTED: &'static str = "clipboard not supported on this platform";

/// The answer to an input-source switch on a platform without one.
pub const IME_SWITCH_UNSUPPORTED: &'static str = "IME switching not supported on this platform";

/// The handshake result: the window's name, its version, the protocol
/// version and the one capability it offers, `pane`.
pub fn handshake_result(server_version: &str) -> (r: HandshakeResult)
    ensures
        r.server_name@ == SERVER_NAME@,
        r.server_version@ == server_version@,
        r.protocol_version@ == PROTOCOL_VERSION@,
        r.supported_capabilities@.len() == 1,
        r.supported_capabilities@[0]@ == "pane"@,
{
    let mut capabilities: Vec<String> = Vec::new();
    capabilities.push(String::from_str("pane"));
    HandshakeResult {
        server_name: String::from_str(SERVER_NAME),
        server_version: String::from_str(server_version),
        protocol_version: String::from_str(PROTOCOL_VERSION),
        supported_capabilities: capabilities,
    }
}

/// "pane {id} not found"
pub open spec fn pane_not_found(id: u64) -> Seq<char> {
    "pane "@ + decimal(id as nat) + " not found"@
}

/// The refusal of a command that names a pane the window does not have.
pub fn pane_not_found_message(pane_id: PaneId) -> (r: String)
    ensures
        r@ == pane_not_found(pane_id.0),
{
    let mut m = String::from_str("pane ");
    let id = u64_to_string(pane_id.0);
    m.append(id.as_str());
    m.append(" not found");
    m
}

/// Whether `pane` is among the registered panes.
fn is_registered(registered: &[PaneId], pane: PaneId) -> (r: bool)
    ensures
        r == registered@.contains(pane),
{
    let mut i: usize = 0;
    while i < registered.len()
        invariant
            i <= registered@.len(),
            forall|k: int| 0 <= k < i ==> registered@[k] != pane,
        decreases registered@.len() - i,
    {
        if registered[i] == pane {
            return true;
        }
        i += 1;
    }
    false
}

/// The pane a command acts on: the one it names, or else the active pane.
/// A named pane that is not registered gives "pane {id} not found"; no
/// named pane and no active registered pane gives "no active pane".
pub fn resolve_pane(requested: Option<PaneId>, active: Option<PaneId>, registered: &[PaneId]) -> (r:
    Result<PaneId, String>)
    ensures
        match requested {
            Some(p) => if registered@.contains(p) {
                r == Ok::<PaneId, String>(p)
            } else {
                r matches Err(m) && m@ == pane_not_found(p.0)
            },
            None => match active {
                Some(a) if registered@.contains(a) => r == Ok::<PaneId, String>(a),
                _ => r matches Err(m) && m@ == "no active pane"@,
            },
        },
{
    match requested {
        Some(p) => {
            if is_registered(registered, p) {
                Ok(p)
            } else {
                Err(pane_not_found_message(p))
            }
        },
        None => {
            match active {
                Some(a) => {
                    if is_registered(registered, a) {
                        Ok(a)
                    } else {
                        Err(String::from_str("no active pane"))
                    }
                },
                None => Err(String::from_str("no active pane")),
            }
        },
    }
}

/// "pane {id} has a running process, use force: true to close"
pub open spec fn pane_busy(id: u64) -> Seq<char> {
    "pane "@ + decimal(id as nat) + " has a running process, use force: true to close"@
}

/// Whether a pane may be closed. An unregistered pane is not found; a pane
/// whose process still runs is closed only by force (`running` is asked of
/// the pane only when `force` is false).
pub fn close_pane_check(pane_id: PaneId, registered: bool, force: bool, running: bool) -> (r: Result<
    (),
    String,
>)
    ensures
        !registered ==> (r matches Err(m) && m@ == pane_not_found(pane_id.0)),
        registered && !force && running ==> (r matches Err(m) && m@ == pane_busy(pane_id.0)),
        registered && (force || !running) ==> r is Ok,
{
    if !registered {
        return Err(pane_not_found_message(pane_id));
    }
    if !force && running {
        let mut m = String::from_str("pane ");
        let id = u64_to_string(pane_id.0);
        m.append(id.as_str());
        m.append(" has a running process, use force: true to close");
        return Err(m);
    }
    Ok(())
}

/// Whether a resize request can be carried out: it must give a width or a
/// height, and name a registered pane.
pub fn resize_pane_check(pane_id: PaneId, width_given: bool, height_given: bool, registered: bool) -> (r:
    Result<(), String>)
    ensures
        !width_given && !height_given ==> (r matches Err(m) && m@
            == "at least one of width or height must be specified"@),
        (width_given || height_given) && !registered ==> (r matches Err(m) && m@ == pane_not_found(
            pane_id.0,
        )),
        (width_given || height_given) && registered ==> r is Ok,
{
    if !width_given && !height_given {
        return Err(String::from_str("at least one of width or height must be specified"));
    }
    if !registered {
        return Err(pane_not_found_message(pane_id));
    }
    Ok(())
}

/// The window list: the one window, titled "Crux", focused, with its pane
/// count (cut to its low 32 bits, as a `u32` holds it).
pub fn window_list_result(pane_count: usize) -> (r: WindowListResult)
    ensures
        r.windows@.len() == 1,
        r.windows@[0].window_id == WindowId(0),
        r.windows@[0].title@ == "Crux"@,
        r.windows@[0].pane_count == pane_count as u32,
        r.windows@[0].is_focused,
{
    let count = pane_count as u32;
    let mut windows: Vec<WindowInfo> = Vec::new();
    windows.push(
        WindowInfo {
            window_id: WindowId(0),
            title: String::from_str("Crux"),
            pane_count: count,
            is_focused: true,
        },
    );
    WindowListResult { windows }
}

/// The answer to a window-create request: the window runs in single-window
/// mode, so the existing window answers.
pub fn window_create_result() -> (r: WindowCreateResult)
    ensures
        r.window_id == WindowId(0),
{
    WindowCreateResult { window_id: WindowId(0) }
}

/// The result of a split: the new pane in window 0, tab 0, with its size.
pub fn split_pane_result(pane_id: PaneId, rows: u32, cols: u32) -> (r: SplitPaneResult)
    ensures
        r.pane_id == pane_id,
        r.window_id == WindowId(0),
        r.tab_id == TabId(0),
        r.size == (PaneSize { rows, cols }),
        r.tty is None,
{
    SplitPaneResult {
        pane_id,
        window_id: WindowId(0),
        tab_id: TabId(0),
        size: PaneSize { rows, cols },
        tty: None,
    }
}

/// The selection result: it has a selection exactly when there is text.
pub fn get_selection_result(text: Option<String>) -> (r: GetSelectionResult)
    ensures
        r.has_selection == text is Some,
        r.text == text,
{
    let has_selection = text.is_some();
    GetSelectionResult { text, has_selection }
}

/// The input-method state: whether the active pane composes. The text being
/// composed is never given out, and there is no input source to report.
pub fn ime_state_result(composing: bool) -> (r: ImeStateResult)
    ensures
        r.composing == composing,
        r.preedit_text is None,
        r.input_source is None,
{
    ImeStateResult { composing, preedit_text: None, input_source: None }
}

/// The description of one pane in a pane list. Sizes are cut to their
/// low 32 bits, the cursor line is clamped at 0, and a pane without a title gets
/// the empty title.
pub fn pane_info(
    pane_id: PaneId,
    rows: usize,
    cols: usize,
    title: Option<&str>,
    cwd: Option<String>,
    is_active: bool,
    cursor_column: usize,
    cursor_line: i32,
) -> (r: PaneInfo)
    ensures
        r.pane_id == pane_id,
        r.window_id == WindowId(0),
        r.tab_id == TabId(0),
        r.size == (PaneSize {
            rows: rows as u32,
            cols: cols as u32,
        }),
        r.title@ == match title {
            Some(t) => t@,
            None => Seq::<char>::empty(),
        },
        r.cwd == cwd,
        r.is_active == is_active,
        !r.is_zoomed,
        r.cursor_x == cursor_column as u32,
        r.cursor_y == if cursor_line < 0 {
            0
        } else {
            cursor_line as u32
        },
        r.tty is None,
        r.pid is None,
{
    let title_text = match title {
        Some(t) => String::from_str(t),
        None => String::new(),
    };
    let cursor_y: u32 = if cursor_line < 0 {
        0
    } else {
        cursor_line as u32
    };
    PaneInfo {
        pane_id,
        window_id: WindowId(0),
        tab_id: TabId(0),
        size: PaneSize {
            rows: rows as u32,
            cols: cols as u32,
        },
        title: title_text,
        cwd,
        is_active,
        is_zoomed: false,
        cursor_x: cursor_column as u32,
        cursor_y,
        tty: None,
        pid: None,
    }
}

/// What answering a clipboard read takes, given what the clipboard holds.
pub enum ClipboardReadStep {
    /// Answer with this result.
    Reply(ClipboardReadResult),
    /// Refuse with this message.
    Refuse(String),
    /// Save these PNG bytes to a file and answer with its path.
    SaveImage(Vec<u8>),
    /// Answer with these paths as text.
    ListPaths(Vec<PathBuf>),
}

/// How a clipboard read is answered: text is refused when an image was
/// asked for; HTML is given as it is; an image is saved first; file paths
/// are listed.
pub fn clipboard_read_step(content: ClipboardContent, requested: ClipboardContentType) -> (r:
    ClipboardReadStep)
    ensures
        match content {
            ClipboardContent::Text(t) => if requested == ClipboardContentType::Image {
                r matches ClipboardReadStep::Refuse(m) && m@ == "no image in clipboard"@
            } else {
                r matches ClipboardReadStep::Reply(ClipboardReadResult::Text { text }) && text
                    == t
            },
            ClipboardContent::Html(h) => r matches ClipboardReadStep::Reply(
                ClipboardReadResult::Html { html },
            ) && html == h,
            ClipboardContent::Image { png_data } => r matches ClipboardReadStep::SaveImage(d) && d
                == png_data,
            ClipboardContent::FilePaths(paths) => r matches ClipboardReadStep::ListPaths(p) && p
                == paths,
        },
{
    match content {
        ClipboardContent::Text(text) => {
            if requested == ClipboardContentType::Image {
                ClipboardReadStep::Refuse(String::from_str("no image in clipboard"))
            } else {
                ClipboardReadStep::Reply(ClipboardReadResult::Text { text })
            }
        },
        ClipboardContent::Html(html) => ClipboardReadStep::Reply(ClipboardReadResult::Html { html }),
        ClipboardContent::Image { png_data } => ClipboardReadStep::SaveImage(png_data),
        ClipboardContent::FilePaths(paths) => ClipboardReadStep::ListPaths(paths),
    }
}

/// Where the path segment that ends at `i` starts: just after the last
/// `/` before `i`, or at 0.
pub open spec fn seg_start(p: Seq<char>, i: int) -> int
    decreases i,
{
    if i <= 0 {
        0
    } else if p[i - 1] == '/' {
        i
    } else {
        seg_start(p, i - 1)
    }
}

/// Where the file name of `p[..end]` lies, as `std::path::Path::file_name`
/// finds it: the last component, with trailing `/` and `.` components
/// passed over; none when the path is empty, is only `/` and `.`, or ends
/// in `..`.
pub open spec fn file_name_span(p: Seq<char>, end: int) -> Option<(int, int)>
    decreases end,
{
    if end <= 0 || end > p.len() {
        None
    } else if p[end - 1] == '/' {
        file_name_span(p, end - 1)
    } else {
        let k = seg_start(p, end);
        if k >= end {
            None
        } else if end - k == 1 && p[k] == '.' {
            file_name_span(p, k)
        } else if end - k == 2 && p[k] == '.' && p[k + 1] == '.' {
            None
        } else {
            Some((k, end))
        }
    }
}

/// The position of the last `.` in `p[k..i]`, or `k - 1` when there is none.
pub open spec fn last_dot(p: Seq<char>, k: int, i: int) -> int
    decreases i - k,
{
    if i <= k {
        k - 1
    } else if p[i - 1] == '.' {
        i - 1
    } else {
        last_dot(p, k, i - 1)
    }
}

/// The extension of a path as `std::path::Path::extension` gives it, as
/// text: what follows the last `.` of the file name, empty when the file
/// name has no `.` other than a leading one, or there is no file name.
pub open spec fn path_extension(p: Seq<char>) -> Seq<char> {
    match file_name_span(p, p.len() as int) {
        Some((k, e)) => {
            let d = last_dot(p, k, e);
            if d <= k {
                Seq::empty()
            } else {
                p.subrange(d + 1, e)
            }
        },
        None => Seq::empty(),
    }
}

/// The extension of a path (empty when it has none).
pub fn extension_of(path: &str) -> (r: String)
    ensures
        r@ == path_extension(path@),
{
    let ghost p = path@;
    let n = path.unicode_len();
    let mut end = n;
    loop
        invariant
            end <= n,
            n == p.len(),
            p == path@,
            file_name_span(p, n as int) == file_name_span(p, end as int),
        decreases end,
    {
        if end == 0 {
            return String::new();
        }
        if path.get_char(end - 1) == '/' {
            end = end - 1;
            continue ;
        }
        let mut k = end;
        while k > 0 && path.get_char(k - 1) != '/'
            invariant
                k <= end,
                0 < end <= n,
                n == p.len(),
                p == path@,
                p[end - 1] != '/',
                seg_start(p, end as int) == seg_start(p, k as int),
            decreases k,
        {
            k = k - 1;
        }
        if end - k == 1 && path.get_char(k) == '.' {
            end = k;
            continue ;
        }
        if end - k == 2 && path.get_char(k) == '.' && path.get_char(k + 1) == '.' {
            return String::new();
        }
        let mut d = end;
        while d > k && path.get_char(d - 1) != '.'
            invariant
                k <= d <= end,
                end <= n,
                n == p.len(),
                p == path@,
                last_dot(p, k as int, end as int) == last_dot(p, k as int, d as int),
            decreases d,
        {
            d = d - 1;
        }
        if d <= k + 1 {
            return String::new();
        }
        return String::from_str(path.substring_char(d, end));
    }
}

/// The image extensions a clipboard write accepts (in lowercase).
pub open spec fn is_image_extension(e: Seq<char>) -> bool {
    e == "png"@ || e == "jpg"@ || e == "jpeg"@ || e == "gif"@ || e == "bmp"@ || e == "webp"@ || e
        == "tiff"@
}

/// What a clipboard write does.
pub enum ClipboardWrite {
    /// Put this text on the clipboard.
    Text(String),
    /// Read the image file at this path and put it on the clipboard.
    ImageFile(String),
}

/// How a clipboard write is carried out: text needs its text; an image
/// needs a path whose extension, in any case, is an image extension; `auto`
/// is refused.
pub fn clipboard_write_plan(params: ClipboardWriteParams) -> (r: Result<ClipboardWrite, String>)
    ensures
        match params.content_type {
            ClipboardContentType::Text => match params.text {
                Some(t) => r matches Ok(ClipboardWrite::Text(u)) && u == t,
                None => r matches Err(m) && m@ == "text field required for content_type 'text'"@,
            },
            ClipboardContentType::Image => match params.image_path {
                Some(p) => if is_image_extension(lowercase(path_extension(p@))) {
                    r matches Ok(ClipboardWrite::ImageFile(q)) && q == p
                } else {
                    r matches Err(m) && m@ == "image path must have a valid image extension"@
                },
                None => r matches Err(m) && m@
                    == "image_path field required for content_type 'image'"@,
            },
            ClipboardContentType::Auto => r matches Err(m) && m@
                == "content_type 'auto' not supported for clipboard write"@,
        },
{
    match params.content_type {
        ClipboardContentType::Text => match params.text {
            Some(t) => Ok(ClipboardWrite::Text(t)),
            None => Err(String::from_str("text field required for content_type 'text'")),
        },
        ClipboardContentType::Image => match params.image_path {
            Some(p) => {
                let ext = extension_of(p.as_str());
                let lower = to_lowercase(ext.as_str());
                let e = lower.as_str();
                if str_equal(e, "png") || str_equal(e, "jpg") || str_equal(e, "jpeg") || str_equal(
                    e,
                    "gif",
                ) || str_equal(e, "bmp") || str_equal(e, "webp") || str_equal(e, "tiff") {
                    Ok(ClipboardWrite::ImageFile(p))
                } else {
                    Err(String::from_str("image path must have a valid image extension"))
                }
            },
            None => Err(String::from_str("image_path field required for content_type 'image'")),
        },
        ClipboardContentType::Auto => Err(
            String::from_str("content_type 'auto' not supported for clipboard write"),
        ),
    }
}

/// The session file under a home directory: `{home}/.config/crux/session.json`,
/// with `/tmp` for a missing home.
pub open spec fn spec_default_session_path(home: Option<Seq<char>>) -> Seq<char> {
    let base = match home {
        Some(h) => h,
        None => "/tmp"@,
    };
    spec_join(spec_join(spec_join(base, ".config"@), "crux"@), "session.json"@)
}

/// The file a session is saved to or loaded from: the one named, or else
/// the default session file under `home`.
pub fn session_file_path(path: Option<String>, home: Option<&str>) -> (r: String)
    ensures
        r@ == match path {
            Some(p) => p@,
            None => spec_default_session_path(
                match home {
                    Some(h) => Some(h@),
                    None => None,
                },
            ),
        },
{
    match path {
        Some(p) => p,
        None => {
            let base = match home {
                Some(h) => h,
                None => "/tmp",
            };
            proof {
                reveal_strlit(".config");
                reveal_strlit("crux");
                reveal_strlit("session.json");
            }
            let a = join_path(base, ".config");
            let b = join_path(a.as_str(), "crux");
            join_path(b.as_str(), "session.json")
        },
    }
}

/// The largest id, or 0 for none.
pub open spec fn max_id(ids: Seq<PaneId>) -> u64
    decreases ids.len(),
{
    if ids.len() == 0 {
        0
    } else {
        let m = max_id(ids.drop_last());
        if ids.last().0 > m {
            ids.last().0
        } else {
            m
        }
    }
}

/// The next pane id after a session load: one past the largest loaded id
/// (1 when none was loaded).
pub fn next_id_after_load(ids: &[PaneId]) -> (r: u64)
    requires
        max_id(ids@) < u64::MAX,
    ensures
        r == max_id(ids@) + 1,
{
    let mut m: u64 = 0;
    let mut i: usize = 0;
    while i < ids.len()
        invariant
            i <= ids@.len(),
            m == max_id(ids@.take(i as int)),
        decreases ids@.len() - i,
    {
        proof {
            assert(ids@.take(i + 1).drop_last() =~= ids@.take(i as int));
        }
        if ids[i].0 > m {
            m = ids[i].0;
        }
        i += 1;
    }
    proof {
        assert(ids@.take(ids@.len() as int) =~= ids@);
    }
    m + 1
}

} // verus!
