//! What the synchronous IPC client makes of the server's answers, and how
//! long it waits between connection attempts.
//!
//! The socket itself is read and written outside the library.

use vstd::prelude::*;
use crate::protocol::rpc::JsonRpcResponse;
use crate::text::{i32_to_string, signed_decimal};

verus! {

/// The first wait between connection attempts, in milliseconds.
pub const INITIAL_RETRY_DELAY_MS: u64 = 100;

/// The longest wait between connection attempts, in milliseconds.
pub const MAX_RETRY_DELAY_MS: u64 = 5000;

/// The wait after one of `delay_ms`: twice as long, at most
/// [`MAX_RETRY_DELAY_MS`].
pub fn next_retry_delay(delay_ms: u64) -> (r: u64)
    ensures
        r == (if 2 * delay_ms < MAX_RETRY_DELAY_MS {
            2 * delay_ms
        } else {
            MAX_RETRY_DELAY_MS as int
        }),
{
    if delay_ms < MAX_RETRY_DELAY_MS / 2 {
        delay_ms * 2
    } else {
        MAX_RETRY_DELAY_MS
    }
}

/// The JSON `null` value; built with serde_json's `Value::Null`, nothing is
/// claimed of it.
#[verifier::external_body]
fn json_null() -> serde_json::Value {
    serde_json::Value::Null
}

/// The message of a call that the server answered with an error.
pub open spec fn server_error_message(code: i32, message: Seq<char>) -> Seq<char> {
    "server error "@ + signed_decimal(code as int) + ": "@ + message
}

/// The outcome of a call: the result of a successful response (`null` when
/// it carries none), or the message of its error.
pub fn call_result(response: JsonRpcResponse) -> (r: Result<serde_json::Value, String>)
    ensures
        match response.error {
            Some(e) => r matches Err(m) && m@ == server_error_message(e.code, e.message@),
            None => r is Ok && (response.result matches Some(v) ==> r == Ok::<
                serde_json::Value,
                String,
            >(v)),
        },
{
    match response.error {
        Some(e) => Err(
            String::from_str("server error ").concat(i32_to_string(e.code).as_str()).concat(": ").concat(
                e.message.as_str(),
            ),
        ),
        None => match response.result {
            Some(v) => Ok(v),
            None => Ok(json_null()),
        },
    }
}

} // verus!
