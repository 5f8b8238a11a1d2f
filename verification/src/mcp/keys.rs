//! Key names of the agent interface, and the denylist that guards the
//! commands it executes.

use vstd::prelude::*;
use crate::text::{
    ascii_lower, contains_seq, contains_str, is_ascii_text, lemma_ascii_lower, lowercase, occurs_at,
    str_equal, to_lowercase,
};

verus! {

/// The bytes that a key name sends to a terminal; a name that is not a
/// known key is sent as it is (in lowercase).
pub open spec fn key_sequence(name: Seq<char>) -> Seq<char> {
    if name == "enter"@ || name == "return"@ {
        "\n"@
    } else if name == "tab"@ {
        "\t"@
    } else if name == "escape"@ || name == "esc"@ {
        "\x1b"@
    } else if name == "ctrl-c"@ {
        "\x03"@
    } else if name == "ctrl-d"@ {
        "\x04"@
    } else if name == "ctrl-z"@ {
        "\x1a"@
    } else if name == "ctrl-l"@ {
        "\x0c"@
    } else if name == "ctrl-a"@ {
        "\x01"@
    } else if name == "ctrl-e"@ {
        "\x05"@
    } else if name == "ctrl-u"@ {
        "\x15"@
    } else if name == "ctrl-k"@ {
        "\x0b"@
    } else if name == "ctrl-w"@ {
        "\x17"@
    } else if name == "up"@ {
        "\x1b[A"@
    } else if name == "down"@ {
        "\x1b[B"@
    } else if name == "right"@ {
        "\x1b[C"@
    } else if name == "left"@ {
        "\x1b[D"@
    } else if name == "home"@ {
        "\x1b[H"@
    } else if name == "end"@ {
        "\x1b[F"@
    } else if name == "backspace"@ {
        "\x7f"@
    } else if name == "delete"@ {
        "\x1b[3~"@
    } else if name == "page-up"@ {
        "\x1b[5~"@
    } else if name == "page-down"@ {
        "\x1b[6~"@
    } else {
        name
    }
}

/// Translate a key name, matched case-insensitively, into the bytes it
/// sends.
pub fn translate_keys(keys: &str) -> (r: String)
    ensures
        r@ == key_sequence(lowercase(keys@)),
        is_ascii_text(keys@) ==> r@ == key_sequence(ascii_lower(keys@)),
{
    let lower = to_lowercase(keys);
    let k = lower.as_str();
    let seq: &str = if str_equal(k, "enter") || str_equal(k, "return") {
        "\n"
    } else if str_equal(k, "tab") {
        "\t"
    } else if str_equal(k, "escape") || str_equal(k, "esc") {
        "\x1b"
    } else if str_equal(k, "ctrl-c") {
        "\x03"
    } else if str_equal(k, "ctrl-d") {
        "\x04"
    } else if str_equal(k, "ctrl-z") {
        "\x1a"
    } else if str_equal(k, "ctrl-l") {
        "\x0c"
    } else if str_equal(k, "ctrl-a") {
        "\x01"
    } else if str_equal(k, "ctrl-e") {
        "\x05"
    } else if str_equal(k, "ctrl-u") {
        "\x15"
    } else if str_equal(k, "ctrl-k") {
        "\x0b"
    } else if str_equal(k, "ctrl-w") {
        "\x17"
    } else if str_equal(k, "up") {
        "\x1b[A"
    } else if str_equal(k, "down") {
        "\x1b[B"
    } else if str_equal(k, "right") {
        "\x1b[C"
    } else if str_equal(k, "left") {
        "\x1b[D"
    } else if str_equal(k, "home") {
        "\x1b[H"
    } else if str_equal(k, "end") {
        "\x1b[F"
    } else if str_equal(k, "backspace") {
        "\x7f"
    } else if str_equal(k, "delete") {
        "\x1b[3~"
    } else if str_equal(k, "page-up") {
        "\x1b[5~"
    } else if str_equal(k, "page-down") {
        "\x1b[6~"
    } else {
        k
    };
    String::from_str(seq)
}

/// The command patterns that are refused, in the order they are checked.
pub open spec fn denylist() -> Seq<Seq<char>> {
    seq![
        "rm -rf /"@,
        "rm -rf /*"@,
        "rm -rf ~"@,
        "mkfs"@,
        "dd if=/dev/"@,
        "dd if= /dev/"@,
        ":(){ :|:& };:"@,
        "> /dev/sd"@,
        "chmod -r 777 /"@,
        "chmod -rf 777 /"@,
        "chmod 777 /"@,
    ]
}

/// The patterns of [`denylist`].
fn command_denylist() -> (v: Vec<&'static str>)
    ensures
        v@.len() == denylist().len(),
        forall|i: int| 0 <= i < v@.len() ==> (#[trigger] v@[i])@ == denylist()[i],
{
    vec![
        "rm -rf /",
        "rm -rf /*",
        "rm -rf ~",
        "mkfs",
        "dd if=/dev/",
        "dd if= /dev/",
        ":(){ :|:& };:",
        "> /dev/sd",
        "chmod -r 777 /",
        "chmod -rf 777 /",
        "chmod 777 /",
    ]
}

/// Pattern `i` of the denylist occurs in the command, both in lowercase.
pub open spec fn pattern_hits(cmd: Seq<char>, i: int) -> bool {
    contains_seq(lowercase(cmd), lowercase(denylist()[i]))
}

/// The message that refuses a command for containing `pattern`.
pub open spec fn rejection_message(pattern: Seq<char>) -> Seq<char> {
    "Command rejected: contains dangerous pattern '"@ + pattern
        + "'. This command could cause system damage."@
}

/// Check a command against the denylist, case-insensitively.
///
/// The command is refused when a pattern occurs in it; the message names
/// the first such pattern of the list.
pub fn validate_command(cmd: &str) -> (r: Result<(), String>)
    ensures
        r is Ok <==> forall|i: int| 0 <= i < denylist().len() ==> !#[trigger] pattern_hits(cmd@, i),
        r matches Err(m) ==> exists|i: int|
            0 <= i < denylist().len() && #[trigger] pattern_hits(cmd@, i) && (forall|j: int|
                0 <= j < i ==> !pattern_hits(cmd@, j)) && m@ == rejection_message(denylist()[i]),
        is_ascii_text(cmd@) ==> (r is Ok <==> !ascii_refused(cmd@)),
{
    let cmd_lower = to_lowercase(cmd);
    let patterns = command_denylist();
    let mut i: usize = 0;
    proof {
        lemma_denylist_lowercase();
    }
    while i < patterns.len()
        invariant
            patterns@.len() == denylist().len(),
            forall|k: int| 0 <= k < patterns@.len() ==> (#[trigger] patterns@[k])@ == denylist()[k],
            forall|k: int|
                0 <= k < denylist().len() ==> is_ascii_text(#[trigger] denylist()[k]) && ascii_lower(
                    denylist()[k],
                ) == denylist()[k],
            cmd_lower@ == lowercase(cmd@),
            is_ascii_text(cmd@) ==> cmd_lower@ == ascii_lower(cmd@),
            i <= patterns@.len(),
            forall|j: int| 0 <= j < i ==> !#[trigger] pattern_hits(cmd@, j),
            is_ascii_text(cmd@) ==> forall|j: int|
                0 <= j < i ==> !contains_seq(ascii_lower(cmd@), #[trigger] denylist()[j]),
        decreases patterns@.len() - i,
    {
        let pattern = patterns[i];
        let pattern_lower = to_lowercase(pattern);
        proof {
            assert(is_ascii_text(denylist()[i as int]));
        }
        if contains_str(cmd_lower.as_str(), pattern_lower.as_str()) {
            assert(pattern_hits(cmd@, i as int));
            proof {
                if is_ascii_text(cmd@) {
                    assert(contains_seq(ascii_lower(cmd@), denylist()[i as int]));
                }
            }
            let message = String::from_str("Command rejected: contains dangerous pattern '")
                .concat(pattern)
                .concat("'. This command could cause system damage.");
            return Err(message);
        }
        i += 1;
    }
    Ok(())
}

/// An ASCII command is refused when, with its capitals made small, it
/// contains a pattern of the denylist.
pub open spec fn ascii_refused(cmd: Seq<char>) -> bool {
    exists|i: int| 0 <= i < denylist().len() && contains_seq(ascii_lower(cmd), #[trigger] denylist()[i])
}

/// The patterns of the denylist are ASCII, with no capitals.
proof fn lemma_denylist_lowercase()
    ensures
        forall|k: int|
            0 <= k < denylist().len() ==> is_ascii_text(#[trigger] denylist()[k]) && ascii_lower(
                denylist()[k],
            ) == denylist()[k],
{
    reveal_strlit("rm -rf /");
    reveal_strlit("rm -rf /*");
    reveal_strlit("rm -rf ~");
    reveal_strlit("mkfs");
    reveal_strlit("dd if=/dev/");
    reveal_strlit("dd if= /dev/");
    reveal_strlit(":(){ :|:& };:");
    reveal_strlit("> /dev/sd");
    reveal_strlit("chmod -r 777 /");
    reveal_strlit("chmod -rf 777 /");
    reveal_strlit("chmod 777 /");
    assert forall|k: int| 0 <= k < denylist().len() implies is_ascii_text(
        #[trigger] denylist()[k],
    ) && ascii_lower(denylist()[k]) == denylist()[k] by {
        let p = denylist()[k];
        assert(ascii_lower(p) =~= p);
    }
}

/// Each pattern of the denylist, sent as a command, is refused: it hits
/// itself.
pub proof fn lemma_denylist_patterns_refused(i: int)
    requires
        0 <= i < denylist().len(),
    ensures
        pattern_hits(denylist()[i], i),
{
    let p = lowercase(denylist()[i]);
    assert(p.subrange(0, p.len() as int) =~= p);
    assert(occurs_at(p, p, 0));
}

/// Key translation folds ASCII case: an ASCII key name sends the same
/// bytes as its lowercase form (which is ASCII again), so "ENTER" and
/// "enter" both send a newline.
pub proof fn lemma_translation_case_folds(keys: Seq<char>)
    requires
        is_ascii_text(keys),
    ensures
        is_ascii_text(ascii_lower(keys)),
        key_sequence(ascii_lower(ascii_lower(keys))) == key_sequence(ascii_lower(keys)),
{
    lemma_ascii_lower(keys);
}

/// The denylist check folds ASCII case: an ASCII command is refused exactly
/// when its lowercase form (ASCII again) is.
pub proof fn lemma_validation_case_folds(cmd: Seq<char>)
    requires
        is_ascii_text(cmd),
    ensures
        is_ascii_text(ascii_lower(cmd)),
        ascii_refused(ascii_lower(cmd)) == ascii_refused(cmd),
{
    lemma_ascii_lower(cmd);
}

} // verus!
