//! Cleaning of terminal output handed to agents: removal of ANSI escape
//! sequences, and the text of an IPC result's `lines`.

use vstd::prelude::*;
use crate::protocol::json::{array_items, json_array, json_get, json_str, member, string_of};

verus! {

/// The pattern of the ANSI escape sequences that are removed: CSI
/// sequences (`ESC [ ... letter`), OSC sequences ended by BEL or `ESC \`,
/// charset selections (`ESC ( B`, `ESC ) 0`), and other C1 controls.
pub const ANSI_PATTERN: &'static str = "\x1b\\[[0-9;]*[A-Za-z]|\x1b\\][^\x07\x1b]*(?:\x07|\x1b\\\\)|\x1b[()][0-9A-B]|\x1b[@-_]";

/// Whether `regex::Regex::new` accepts the pattern.
pub uninterp spec fn regex_compiles(pattern: Seq<char>) -> bool;

/// The text with every non-overlapping match of the pattern, leftmost
/// first, replaced as `regex::Regex::replace_all` replaces them.
pub uninterp spec fn regex_replaced(pattern: Seq<char>, text: Seq<char>, replacement: Seq<char>) -> Seq<char>;

/// Compiles `pattern` with `regex::Regex::new` and, when that succeeds,
/// replaces all its matches in `text` with `regex::Regex::replace_all`.
/// The contract claims that compilation depends on the pattern alone and
/// that the replaced text depends on the three strings alone.
#[verifier::external_body]
fn regex_replace_all(pattern: &str, text: &str, replacement: &str) -> (r: Option<String>)
    ensures
        r is Some <==> regex_compiles(pattern@),
        r matches Some(s) ==> s@ == regex_replaced(pattern@, text@, replacement@),
{
    match regex::Regex::new(pattern) {
        Ok(re) => Some(re.replace_all(text, replacement).into_owned()),
        Err(_) => None,
    }
}

/// The text without its ANSI escape sequences: every match of
/// [`ANSI_PATTERN`] removed (the text itself, were the pattern refused).
pub open spec fn ansi_free(text: Seq<char>) -> Seq<char> {
    if regex_compiles(ANSI_PATTERN@) {
        regex_replaced(ANSI_PATTERN@, text, ""@)
    } else {
        text
    }
}

/// Strip ANSI escape sequences from text: every match of [`ANSI_PATTERN`]
/// is removed.
pub fn strip_ansi(text: &str) -> (r: String)
    ensures
        r@ == ansi_free(text@),
{
    match regex_replace_all(ANSI_PATTERN, text, "") {
        Some(s) => s,
        None => String::from_str(text),
    }
}

/// The text of each element of a sequence, where it is a string.
pub open spec fn opt_views(lines: Seq<Option<String>>) -> Seq<Option<Seq<char>>> {
    lines.map_values(
        |o: Option<String>|
            match o {
                Some(s) => Some(s@),
                None => None,
            },
    )
}

/// The string elements of a sequence, in order.
pub open spec fn string_elements(lines: Seq<Option<Seq<char>>>) -> Seq<Seq<char>> {
    lines.filter_map(|o: Option<Seq<char>>| o)
}

/// The lines joined with a newline between each two.
pub open spec fn joined_lines(lines: Seq<Seq<char>>) -> Seq<char>
    decreases lines.len(),
{
    if lines.len() == 0 {
        Seq::empty()
    } else if lines.len() == 1 {
        lines[0]
    } else {
        joined_lines(lines.drop_last()) + "\n"@ + lines.last()
    }
}

/// Join the string elements of an array with newlines; elements that are
/// not strings (`None`) are skipped.
pub fn join_lines(lines: &Vec<Option<String>>) -> (r: String)
    ensures
        r@ == joined_lines(string_elements(opt_views(lines@))),
{
    let mut out = String::new();
    let mut count: usize = 0;
    let mut i: usize = 0;
    let ghost g = opt_views(lines@);
    let ghost f = |o: Option<Seq<char>>| o;
    while i < lines.len()
        invariant
            i <= lines@.len(),
            g == opt_views(lines@),
            f == (|o: Option<Seq<char>>| o),
            out@ == joined_lines(g.take(i as int).filter_map(f)),
            count == g.take(i as int).filter_map(f).len(),
            count <= i,
        decreases lines@.len() - i,
    {
        proof {
            g.lemma_filter_map_take_succ(f, i as int);
        }
        match &lines[i] {
            Some(s) => {
                let ghost prev = g.take(i as int).filter_map(f);
                assert(g[i as int] == Some(s@));
                assert(g.take(i + 1).filter_map(f) =~= prev.push(s@));
                if count > 0 {
                    out.append("\n");
                    out.append(s.as_str());
                    proof {
                        assert(prev.push(s@).drop_last() =~= prev);
                    }
                } else {
                    out.append(s.as_str());
                    proof {
                        assert(out@ =~= s@);
                        assert(prev.push(s@).len() == 1);
                    }
                }
                count = count + 1;
            },
            None => {
                assert(g[i as int] is None);
                assert(g.take(i + 1).filter_map(f) =~= g.take(i as int).filter_map(f));
            },
        }
        i += 1;
    }
    proof {
        assert(g.take(lines@.len() as int) =~= g);
        assert(string_elements(g) == g.filter_map(f));
    }
    out
}

/// The string elements of the array member `key` of a JSON value (`None`
/// when the value has no such member or it is not an array; `None` for
/// each element that is not a string).
pub open spec fn json_member_strings(value: serde_json::Value, key: Seq<char>) -> Option<
    Seq<Option<Seq<char>>>,
> {
    match json_get(value, key) {
        Some(m) => match json_array(m) {
            Some(items) => Some(items.map_values(|x: serde_json::Value| json_str(x))),
            None => None,
        },
        None => None,
    }
}

/// The pretty-printed JSON text of a value (`serde_json::to_string_pretty`;
/// `None` when it fails).
pub uninterp spec fn json_pretty(value: serde_json::Value) -> Option<Seq<char>>;

/// The compact JSON text of a value (its `Display`).
pub uninterp spec fn json_compact(value: serde_json::Value) -> Seq<char>;

/// Reads the string elements of the array member `key` of a JSON value.
fn member_strings(value: &serde_json::Value, key: &str) -> (r: Option<Vec<Option<String>>>)
    ensures
        match r {
            Some(v) => json_member_strings(*value, key@) == Some(opt_views(v@)),
            None => json_member_strings(*value, key@) is None,
        },
{
    let m = match member(value, key) {
        Some(m) => m,
        None => return None,
    };
    let items = match array_items(m) {
        Some(items) => items,
        None => return None,
    };
    let ghost want = items@.map_values(|x: serde_json::Value| json_str(x));
    let mut out: Vec<Option<String>> = Vec::new();
    let mut i: usize = 0;
    while i < items.len()
        invariant
            i <= items@.len(),
            want == items@.map_values(|x: serde_json::Value| json_str(x)),
            opt_views(out@) == want.take(i as int),
        decreases items@.len() - i,
    {
        let t = string_of(&items[i]);
        let ghost before = out@;
        out.push(t);
        proof {
            assert(opt_views(out@) =~= opt_views(before).push(want[i as int]));
            assert(want.take(i + 1) =~= want.take(i as int).push(want[i as int]));
        }
        i += 1;
    }
    proof {
        assert(want.take(items@.len() as int) =~= want);
    }
    Some(out)
}

/// Calls `serde_json::to_string_pretty`; its result is the named text.
#[verifier::external_body]
fn pretty_json(value: &serde_json::Value) -> (r: Option<String>)
    ensures
        match r {
            Some(t) => json_pretty(*value) == Some(t@),
            None => json_pretty(*value) is None,
        },
{
    serde_json::to_string_pretty(value).ok()
}

/// Calls `Value::to_string` (its `Display`); its result is the named text.
#[verifier::external_body]
fn compact_json(value: &serde_json::Value) -> (r: String)
    ensures
        r@ == json_compact(*value),
{
    value.to_string()
}

/// The JSON text of a value: pretty-printed, or compact should that fail.
pub open spec fn json_text_of(value: serde_json::Value) -> Seq<char> {
    match json_pretty(value) {
        Some(t) => t,
        None => json_compact(value),
    }
}

/// The JSON text of a value: pretty-printed, or compact should that fail.
pub fn json_text(value: &serde_json::Value) -> (r: String)
    ensures
        r@ == json_text_of(*value),
{
    match pretty_json(value) {
        Some(t) => t,
        None => compact_json(value),
    }
}

/// The text of the lines, or of the whole result where it has no `lines`
/// array, as [`extract_lines`] and [`extract_lines_raw`] produce it from
/// what they read.
pub open spec fn lines_text(lines: Option<Seq<Option<Seq<char>>>>, whole: Seq<char>, strip: bool) -> Seq<char> {
    match lines {
        Some(ls) => if strip {
            ansi_free(joined_lines(string_elements(ls)))
        } else {
            joined_lines(string_elements(ls))
        },
        None => whole,
    }
}

/// Render what was read of a result: the joined lines (with ANSI escape
/// sequences removed when `strip` is set), or else `whole`, the result's
/// JSON text.
pub fn render_lines(lines: Option<Vec<Option<String>>>, whole: String, strip: bool) -> (r: String)
    ensures
        r@ == lines_text(
            match lines {
                Some(l) => Some(opt_views(l@)),
                None => None,
            },
            whole@,
            strip,
        ),
{
    match lines {
        Some(ls) => {
            let joined = join_lines(&ls);
            if strip {
                strip_ansi(joined.as_str())
            } else {
                joined
            }
        },
        None => whole,
    }
}

/// The text an IPC result gives an agent: the string elements of its
/// `lines` array joined with newlines (ANSI escape sequences removed when
/// `strip` is set), or the whole result as JSON text when it has no such
/// array.
pub open spec fn result_text(result: serde_json::Value, strip: bool) -> Seq<char> {
    lines_text(json_member_strings(result, "lines"@), json_text_of(result), strip)
}

/// The text of an IPC result, without ANSI escape sequences when `strip`
/// is set.
fn result_lines(result: &serde_json::Value, strip: bool) -> (r: String)
    ensures
        r@ == result_text(*result, strip),
{
    match member_strings(result, "lines") {
        Some(ls) => render_lines(Some(ls), String::new(), strip),
        None => render_lines(None, json_text(result), strip),
    }
}

/// Extract the text of an IPC result, stripping ANSI escape sequences:
/// the string elements of its `lines` array joined with newlines, or the
/// whole result as pretty JSON when it has no such array.
pub fn extract_lines(result: &serde_json::Value) -> (r: String)
    ensures
        r@ == result_text(*result, true),
{
    result_lines(result, true)
}

/// Extract the text of an IPC result as [`extract_lines`] does, but keep
/// ANSI escape sequences.
pub fn extract_lines_raw(result: &serde_json::Value) -> (r: String)
    ensures
        r@ == result_text(*result, false),
{
    result_lines(result, false)
}

} // verus!
