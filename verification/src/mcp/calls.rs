//! What an agent is told when a call into the terminal fails or is held
//! back, and the small texts and requests of the pane-state tools.

use vstd::prelude::*;
use crate::ipc::client::server_error_message;
use crate::protocol::error_code::PANE_NOT_FOUND;
use crate::text::{contains_seq, contains_str, decimal, lowercase, occurs_at, signed_decimal, to_lowercase};

verus! {

/// The two kinds of error an agent can get back from a tool.
#[derive(Debug, Clone, Copy, PartialEq, Eq, Structural)]
pub enum ToolErrorKind {
    /// The agent's parameters name something that does not exist.
    InvalidParams,
    /// The tool could not do its work.
    Internal,
}

/// An error returned to an agent.
#[derive(Debug)]
pub struct ToolError {
    pub kind: ToolErrorKind,
    pub message: String,
}

/// The refusal of a call that the rate limiter holds back.
pub const RATE_LIMITED_MESSAGE: &'static str =
    "Rate limited: too many requests. Please wait before retrying.";

/// What an agent is told when the pane it named does not exist.
pub const PANE_NOT_FOUND_HINT: &'static str =
    "Pane not found. Use crux_list_panes to see available pane IDs.";

/// What an agent is told when the terminal closed the connection.
pub const DISCONNECTED_MESSAGE: &'static str = "Crux terminal disconnected. Is Crux still running?";

/// The answer of the selection tool, which is not supported yet.
pub const SELECTION_UNSUPPORTED: &'static str = "selection retrieval is not yet supported";

/// The answer of the running-process tool for a pane without process
/// information.
pub const NO_PROCESS_INFO: &'static str = "no foreground process info available";

/// A call error that reports a missing pane: a server error with the
/// pane-not-found code, or one whose text says "not found" in any case.
pub open spec fn names_missing_pane(err: Seq<char>) -> bool {
    contains_seq(err, "server error"@) && (contains_seq(err, "-1001"@) || contains_seq(
        lowercase(err),
        "not found"@,
    ))
}

/// The kind of error an agent gets for a failed call with error text `err`.
pub open spec fn failure_kind(err: Seq<char>) -> ToolErrorKind {
    if names_missing_pane(err) {
        ToolErrorKind::InvalidParams
    } else {
        ToolErrorKind::Internal
    }
}

/// The message an agent gets for a failed call of `method` with error text
/// `err`.
pub open spec fn failure_message(method: Seq<char>, err: Seq<char>) -> Seq<char> {
    if names_missing_pane(err) {
        PANE_NOT_FOUND_HINT@
    } else if contains_seq(err, "server closed connection"@) {
        DISCONNECTED_MESSAGE@
    } else {
        "IPC call to '"@ + method + "' failed: "@ + err + ". Check Crux terminal logs."@
    }
}

/// The error an agent gets when the call of `method` into the terminal
/// failed with the error text `err`: a missing pane is the agent's
/// mistake and points it to the pane list; a closed connection asks whether
/// the terminal still runs; anything else names the method and the error.
pub fn ipc_failure(method: &str, err: &str) -> (r: ToolError)
    ensures
        r.kind == failure_kind(err@),
        r.message@ == failure_message(method@, err@),
{
    if contains_str(err, "server error") {
        let missing = if contains_str(err, "-1001") {
            true
        } else {
            let lower = to_lowercase(err);
            contains_str(lower.as_str(), "not found")
        };
        if missing {
            return ToolError {
                kind: ToolErrorKind::InvalidParams,
                message: String::from_str(PANE_NOT_FOUND_HINT),
            };
        }
    }
    if contains_str(err, "server closed connection") {
        return ToolError {
            kind: ToolErrorKind::Internal,
            message: String::from_str(DISCONNECTED_MESSAGE),
        };
    }
    let mut m = String::from_str("IPC call to '");
    m.append(method);
    m.append("' failed: ");
    m.append(err);
    m.append(". Check Crux terminal logs.");
    ToolError { kind: ToolErrorKind::Internal, message: m }
}

/// The error of a call that the rate limiter holds back.
pub fn rate_limited() -> (r: ToolError)
    ensures
        r.kind == ToolErrorKind::Internal,
        r.message@ == RATE_LIMITED_MESSAGE@,
{
    ToolError { kind: ToolErrorKind::Internal, message: String::from_str(RATE_LIMITED_MESSAGE) }
}

/// A server's pane-not-found error, whatever its message and whatever
/// method failed, reaches the agent as an invalid-params error that points
/// it to the pane list.
pub proof fn lemma_missing_pane_reaches_agent(method: Seq<char>, message: Seq<char>)
    ensures
        failure_kind(server_error_message(PANE_NOT_FOUND, message)) == ToolErrorKind::InvalidParams,
        failure_message(method, server_error_message(PANE_NOT_FOUND, message))
            == PANE_NOT_FOUND_HINT@,
{
    let err = server_error_message(PANE_NOT_FOUND, message);
    reveal_strlit("server error ");
    reveal_strlit("server error");
    reveal_strlit(": ");
    reveal_strlit("-");
    reveal_strlit("-1001");
    reveal_with_fuel(decimal, 5);
    assert(signed_decimal(-1001) =~= "-1001"@);
    assert(err.subrange(0, 12) =~= "server error"@);
    assert(occurs_at(err, "server error"@, 0));
    assert(err.subrange(13, 18) =~= "-1001"@);
    assert(occurs_at(err, "-1001"@, 13));
}

/// The working directory a pane reports, or "unknown".
pub fn directory_text(cwd: Option<String>) -> (r: String)
    ensures
        r@ == match cwd {
            Some(c) => c@,
            None => "unknown"@,
        },
{
    match cwd {
        Some(c) => c,
        None => String::from_str("unknown"),
    }
}

/// The running-process answer: "PID: " and the JSON text of the pane's
/// process id, or a note that there is no process information (for a
/// missing or null id).
pub fn process_text(pid_json: Option<String>) -> (r: String)
    ensures
        r@ == match pid_json {
            Some(t) => "PID: "@ + t@,
            None => NO_PROCESS_INFO@,
        },
{
    match pid_json {
        Some(t) => String::from_str("PID: ").concat(t.as_str()),
        None => String::from_str(NO_PROCESS_INFO),
    }
}

/// The line range a scrollback request asks for: from `offset`, and up to
/// `offset + limit` when both are given.
pub fn scrollback_range(offset: Option<i32>, limit: Option<i32>) -> (r: (Option<i32>, Option<i32>))
    requires
        offset matches Some(s) && limit matches Some(l) ==> i32::MIN <= s + l <= i32::MAX,
    ensures
        r.0 == offset,
        r.1 == match (offset, limit) {
            (Some(s), Some(l)) => Some((s + l) as i32),
            _ => None,
        },
{
    let end = match (offset, limit) {
        (Some(s), Some(l)) => Some(s + l),
        _ => None,
    };
    (offset, end)
}

} // verus!
