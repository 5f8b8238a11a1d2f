//! Decisions of the agent tools that run commands and wait for output.
//!
//! The tools poll the terminal over IPC and sleep between polls outside
//! the library; what is typed, when to stop polling, which line matches and
//! what is reported are decided here.

use vstd::prelude::*;
use vstd::string::StringSliceAdditionalSpecFns;
use crate::mcp::keys::{denylist, pattern_hits, rejection_message, validate_command};
use crate::text::{decimal, u64_to_string};

verus! {

/// How long `crux_execute_command` waits for new output, in milliseconds.
pub const EXECUTE_TIMEOUT_MS: u64 = 500;

/// The interval between its polls, in milliseconds.
pub const EXECUTE_POLL_INTERVAL_MS: u64 = 50;

/// The longest pattern `crux_wait_for_output` accepts, in bytes.
pub const MAX_PATTERN_BYTES: usize = 1024;

/// The size limit of a compiled pattern, in bytes.
pub const REGEX_SIZE_LIMIT: usize = 1048576;

/// How long `crux_wait_for_output` waits when no timeout is given, in
/// milliseconds.
pub const DEFAULT_WAIT_TIMEOUT_MS: u64 = 10000;

/// The interval between its polls, in milliseconds.
pub const WAIT_POLL_INTERVAL_MS: u64 = 200;

/// The text typed into a pane to run `command`: the command and a newline,
/// once it has passed the denylist.
pub fn command_input(command: &str) -> (r: Result<String, String>)
    ensures
        r is Ok <==> forall|i: int| 0 <= i < denylist().len() ==> !#[trigger] pattern_hits(command@, i),
        r matches Ok(t) ==> t@ == command@ + "\n"@,
        r matches Err(m) ==> exists|i: int|
            0 <= i < denylist().len() && #[trigger] pattern_hits(command@, i) && (forall|j: int|
                0 <= j < i ==> !pattern_hits(command@, j)) && m@ == rejection_message(denylist()[i]),
{
    match validate_command(command) {
        Ok(()) => Ok(String::from_str(command).concat("\n")),
        Err(m) => Err(m),
    }
}

/// Whether `crux_execute_command` stops polling: the pane has more lines
/// than before the command, or the wait is over.
pub fn output_arrived(before_len: usize, after_len: usize, elapsed_ms: u64) -> (r: bool)
    ensures
        r == (after_len > before_len || elapsed_ms >= EXECUTE_TIMEOUT_MS),
{
    after_len > before_len || elapsed_ms >= EXECUTE_TIMEOUT_MS
}

/// What `regex::RegexBuilder` with the given size limit makes of the
/// pattern: `None` when it builds it, else the text of its error.
pub uninterp spec fn regex_build_error(pattern: Seq<char>, size_limit: usize) -> Option<Seq<char>>;

/// Whether `regex::RegexBuilder` with the given size limit builds the
/// pattern.
pub open spec fn regex_builds(pattern: Seq<char>, size_limit: usize) -> bool {
    regex_build_error(pattern, size_limit) is None
}

/// Whether the regex built from the pattern matches somewhere in the text
/// (`regex::Regex::is_match`).
pub uninterp spec fn regex_matches(pattern: Seq<char>, text: Seq<char>) -> bool;

/// A compiled regex of the `regex` crate, carried between its calls.
#[verifier::external_type_specification]
#[verifier::external_body]
pub struct ExRegex(regex::Regex);

/// A pattern that `crux_wait_for_output` waits for, compiled.
pub struct WaitPattern {
    pattern: String,
    regex: regex::Regex,
}

impl WaitPattern {
    /// The pattern as given.
    pub closed spec fn spec_pattern(&self) -> Seq<char> {
        self.pattern@
    }
}

/// Builds a regex with `regex::RegexBuilder::new(..).size_limit(..).build()`;
/// on failure, the error's message. The contract claims that success and
/// the error's text depend on the pattern and the limit alone.
#[verifier::external_body]
fn build_regex(pattern: &str, size_limit: usize) -> (r: Result<regex::Regex, String>)
    ensures
        match r {
            Ok(_) => regex_build_error(pattern@, size_limit) is None,
            Err(e) => regex_build_error(pattern@, size_limit) == Some(e@),
        },
{
    regex::RegexBuilder::new(pattern).size_limit(size_limit).build().map_err(|e| e.to_string())
}

/// Calls `regex::Regex::is_match` on the regex of a wait pattern, which was
/// built from its pattern (the only way a `WaitPattern` is made); the
/// contract claims the answer depends on the pattern and the text alone.
#[verifier::external_body]
fn regex_is_match(p: &WaitPattern, text: &str) -> (r: bool)
    ensures
        r == regex_matches(p.spec_pattern(), text@),
{
    p.regex.is_match(text)
}

/// Compile the pattern of a wait: refused when longer than
/// [`MAX_PATTERN_BYTES`] bytes or when it does not build within
/// [`REGEX_SIZE_LIMIT`].
pub fn compile_wait_pattern(pattern: &str) -> (r: Result<WaitPattern, String>)
    ensures
        pattern.spec_bytes().len() > MAX_PATTERN_BYTES ==> (r matches Err(m) && m@
            == "Regex pattern too long (max 1024 chars). Simplify the pattern."@),
        pattern.spec_bytes().len() <= MAX_PATTERN_BYTES ==> (r is Ok <==> regex_builds(
            pattern@,
            REGEX_SIZE_LIMIT,
        )),
        r matches Ok(p) ==> p.spec_pattern() == pattern@,
        pattern.spec_bytes().len() <= MAX_PATTERN_BYTES ==> (r matches Err(m) ==> m@
            == "Invalid regex pattern: "@ + regex_build_error(pattern@, REGEX_SIZE_LIMIT)->0
            + ". Check syntax."@),
{
    if pattern.as_bytes().len() > MAX_PATTERN_BYTES {
        return Err(String::from_str("Regex pattern too long (max 1024 chars). Simplify the pattern."));
    }
    match build_regex(pattern, REGEX_SIZE_LIMIT) {
        Ok(regex) => Ok(WaitPattern { pattern: String::from_str(pattern), regex }),
        Err(e) => {
            let m = String::from_str("Invalid regex pattern: ").concat(e.as_str()).concat(". Check syntax.");
            assert(m@ == "Invalid regex pattern: "@ + e@ + ". Check syntax."@);
            Err(m)
        },
    }
}

/// The line is a string that the pattern matches.
pub open spec fn line_matches(pattern: Seq<char>, line: Option<String>) -> bool {
    line matches Some(s) && regex_matches(pattern, s@)
}

/// Line `i` is the first string line that the pattern matches.
pub open spec fn is_first_match(pattern: Seq<char>, lines: Seq<Option<String>>, i: int) -> bool {
    &&& 0 <= i < lines.len()
    &&& line_matches(pattern, lines[i])
    &&& forall|j: int| 0 <= j < i ==> !#[trigger] line_matches(pattern, lines[j])
}

/// The first line (a string element of the pane's lines) that the pattern
/// matches.
pub fn first_matching_line(p: &WaitPattern, lines: &Vec<Option<String>>) -> (r: Option<usize>)
    ensures
        match r {
            Some(i) => is_first_match(p.spec_pattern(), lines@, i as int),
            None => forall|j: int|
                0 <= j < lines@.len() ==> !#[trigger] line_matches(p.spec_pattern(), lines@[j]),
        },
{
    let mut i: usize = 0;
    while i < lines.len()
        invariant
            i <= lines@.len(),
            forall|j: int| 0 <= j < i ==> !#[trigger] line_matches(p.spec_pattern(), lines@[j]),
        decreases lines@.len() - i,
    {
        match &lines[i] {
            Some(s) => {
                if regex_is_match(p, s.as_str()) {
                    return Some(i);
                }
            },
            None => {},
        }
        i += 1;
    }
    None
}

/// What a wait does after a poll.
#[derive(Debug, Clone, PartialEq, Eq)]
pub enum WaitStep {
    /// A line matched: report it with the time waited.
    Matched { line: String, elapsed_ms: u64 },
    /// The wait is over without a match: report this message as an error.
    TimedOut(String),
    /// Sleep [`WAIT_POLL_INTERVAL_MS`] and poll again.
    KeepWaiting,
}

/// The message of a wait that timed out.
pub open spec fn timeout_message(timeout_ms: u64, pattern: Seq<char>) -> Seq<char> {
    "Timeout after "@ + decimal(timeout_ms as nat) + "ms waiting for pattern '"@ + pattern + "'"@
}

/// Decide after a poll: report the first matching line, or time out once
/// `elapsed_ms` reaches the timeout (10 s when none is given), or poll
/// again.
pub fn wait_step(
    p: &WaitPattern,
    lines: &Vec<Option<String>>,
    elapsed_ms: u64,
    timeout_ms: Option<u64>,
) -> (step: WaitStep)
    ensures
        ({
            let timeout = match timeout_ms {
                Some(t) => t,
                None => DEFAULT_WAIT_TIMEOUT_MS,
            };
            if exists|i: int| is_first_match(p.spec_pattern(), lines@, i) {
                step matches WaitStep::Matched { line, elapsed_ms: e } && e == elapsed_ms && exists|i: int|
                    is_first_match(p.spec_pattern(), lines@, i) && lines@[i] == Some(line)
            } else if elapsed_ms >= timeout {
                step matches WaitStep::TimedOut(m) && m@ == timeout_message(timeout, p.spec_pattern())
            } else {
                step == WaitStep::KeepWaiting
            }
        }),
{
    let timeout = match timeout_ms {
        Some(t) => t,
        None => DEFAULT_WAIT_TIMEOUT_MS,
    };
    match first_matching_line(p, lines) {
        Some(i) => {
            let line = match &lines[i] {
                Some(s) => s.clone(),
                None => String::new(),
            };
            WaitStep::Matched { line, elapsed_ms }
        },
        None => {
            if elapsed_ms >= timeout {
                let m = String::from_str("Timeout after ").concat(u64_to_string(timeout).as_str()).concat(
                    "ms waiting for pattern '",
                ).concat(p.pattern.as_str()).concat("'");
                WaitStep::TimedOut(m)
            } else {
                WaitStep::KeepWaiting
            }
        },
    }
}

} // verus!
