//! Decisions of the per-client connection handler.
//!
//! The connection loop itself (reading the socket, parsing JSON, handing
//! commands to the main thread and awaiting their replies) runs outside the
//! library. What it decides is here: how incoming bytes are buffered and cut
//! into frames, which requests are refused before any command runs, which
//! command a method name selects, and what each outcome is answered with.

use vstd::prelude::*;
use crate::protocol::json::{array_items, json_array};
use crate::protocol::error_code::{
    INTERNAL_ERROR, INVALID_PARAMS, INVALID_REQUEST, METHOD_NOT_FOUND, PARSE_ERROR,
};
use crate::protocol::framing::{decode_frame, spec_decode_frame, FrameError};
use crate::protocol::method;
use crate::protocol::rpc::{JsonRpcRequest, JsonRpcResponse};
use crate::protocol::types::JsonRpcId;
use crate::text::{decimal, str_equal, u64_to_string};

verus! {

/// Largest number of bytes a client may have buffered without a complete
/// frame (the same bound as a frame's payload).
pub const MAX_PENDING_SIZE: usize = 16777216;

/// The methods that the server executes, one per routed method name.
#[derive(Debug, Clone, Copy, PartialEq, Eq, Structural)]
pub enum Method {
    Handshake,
    PaneSplit,
    PaneSendText,
    PaneGetText,
    PaneGetSelection,
    PaneGetSnapshot,
    PaneList,
    PaneResize,
    PaneActivate,
    PaneClose,
    WindowCreate,
    WindowList,
    SessionSave,
    SessionLoad,
    ClipboardRead,
    ClipboardWrite,
    ImeGetState,
    ImeSetInputSource,
    EventsPoll,
}

/// The method that a request's method name selects, if any.
pub open spec fn spec_route(name: Seq<char>) -> Option<Method> {
    if name == method::HANDSHAKE@ {
        Some(Method::Handshake)
    } else if name == method::PANE_SPLIT@ {
        Some(Method::PaneSplit)
    } else if name == method::PANE_SEND_TEXT@ {
        Some(Method::PaneSendText)
    } else if name == method::PANE_GET_TEXT@ {
        Some(Method::PaneGetText)
    } else if name == method::PANE_GET_SELECTION@ {
        Some(Method::PaneGetSelection)
    } else if name == method::PANE_GET_SNAPSHOT@ {
        Some(Method::PaneGetSnapshot)
    } else if name == method::PANE_LIST@ {
        Some(Method::PaneList)
    } else if name == method::PANE_RESIZE@ {
        Some(Method::PaneResize)
    } else if name == method::PANE_ACTIVATE@ {
        Some(Method::PaneActivate)
    } else if name == method::PANE_CLOSE@ {
        Some(Method::PaneClose)
    } else if name == method::WINDOW_CREATE@ {
        Some(Method::WindowCreate)
    } else if name == method::WINDOW_LIST@ {
        Some(Method::WindowList)
    } else if name == method::SESSION_SAVE@ {
        Some(Method::SessionSave)
    } else if name == method::SESSION_LOAD@ {
        Some(Method::SessionLoad)
    } else if name == method::CLIPBOARD_READ@ {
        Some(Method::ClipboardRead)
    } else if name == method::CLIPBOARD_WRITE@ {
        Some(Method::ClipboardWrite)
    } else if name == method::IME_GET_STATE@ {
        Some(Method::ImeGetState)
    } else if name == method::IME_SET_INPUT_SOURCE@ {
        Some(Method::ImeSetInputSource)
    } else if name == method::EVENTS_POLL@ {
        Some(Method::EventsPoll)
    } else {
        None
    }
}

impl Method {
    /// The wire name of the method.
    pub open spec fn spec_name(self) -> Seq<char> {
        match self {
            Method::Handshake => method::HANDSHAKE@,
            Method::PaneSplit => method::PANE_SPLIT@,
            Method::PaneSendText => method::PANE_SEND_TEXT@,
            Method::PaneGetText => method::PANE_GET_TEXT@,
            Method::PaneGetSelection => method::PANE_GET_SELECTION@,
            Method::PaneGetSnapshot => method::PANE_GET_SNAPSHOT@,
            Method::PaneList => method::PANE_LIST@,
            Method::PaneResize => method::PANE_RESIZE@,
            Method::PaneActivate => method::PANE_ACTIVATE@,
            Method::PaneClose => method::PANE_CLOSE@,
            Method::WindowCreate => method::WINDOW_CREATE@,
            Method::WindowList => method::WINDOW_LIST@,
            Method::SessionSave => method::SESSION_SAVE@,
            Method::SessionLoad => method::SESSION_LOAD@,
            Method::ClipboardRead => method::CLIPBOARD_READ@,
            Method::ClipboardWrite => method::CLIPBOARD_WRITE@,
            Method::ImeGetState => method::IME_GET_STATE@,
            Method::ImeSetInputSource => method::IME_SET_INPUT_SOURCE@,
            Method::EventsPoll => method::EVENTS_POLL@,
        }
    }

    /// Whether the method reads `params` from the request.
    pub open spec fn spec_takes_params(self) -> bool {
        !(self is PaneList || self is WindowList || self is ImeGetState || self is EventsPoll)
    }

    /// Whether the method's reply carries no value of its own, so that its
    /// success is answered with `{"success": true}`.
    pub open spec fn spec_replies_unit(self) -> bool {
        self is PaneResize || self is PaneActivate || self is PaneClose || self is ClipboardWrite
            || self is ImeSetInputSource
    }

    /// The wire name of the method.
    pub fn name(&self) -> (s: &'static str)
        ensures
            s@ == self.spec_name(),
    {
        match self {
            Method::Handshake => method::HANDSHAKE,
            Method::PaneSplit => method::PANE_SPLIT,
            Method::PaneSendText => method::PANE_SEND_TEXT,
            Method::PaneGetText => method::PANE_GET_TEXT,
            Method::PaneGetSelection => method::PANE_GET_SELECTION,
            Method::PaneGetSnapshot => method::PANE_GET_SNAPSHOT,
            Method::PaneList => method::PANE_LIST,
            Method::PaneResize => method::PANE_RESIZE,
            Method::PaneActivate => method::PANE_ACTIVATE,
            Method::PaneClose => method::PANE_CLOSE,
            Method::WindowCreate => method::WINDOW_CREATE,
            Method::WindowList => method::WINDOW_LIST,
            Method::SessionSave => method::SESSION_SAVE,
            Method::SessionLoad => method::SESSION_LOAD,
            Method::ClipboardRead => method::CLIPBOARD_READ,
            Method::ClipboardWrite => method::CLIPBOARD_WRITE,
            Method::ImeGetState => method::IME_GET_STATE,
            Method::ImeSetInputSource => method::IME_SET_INPUT_SOURCE,
            Method::EventsPoll => method::EVENTS_POLL,
        }
    }

    /// Whether the method reads `params` from the request.
    pub fn takes_params(&self) -> (b: bool)
        ensures
            b == self.spec_takes_params(),
    {
        !matches!(self, Method::PaneList | Method::WindowList | Method::ImeGetState | Method::EventsPoll)
    }

    /// Whether the method's success is answered with `{"success": true}`.
    pub fn replies_unit(&self) -> (b: bool)
        ensures
            b == self.spec_replies_unit(),
    {
        matches!(
            self,
            Method::PaneResize | Method::PaneActivate | Method::PaneClose | Method::ClipboardWrite
                | Method::ImeSetInputSource
        )
    }
}

/// Every method's wire name routes back to that method, and the one method
/// name without a command (`crux:events/subscribe`) routes nowhere.
pub proof fn lemma_route_name(m: Method)
    ensures
        spec_route(m.spec_name()) == Some(m),
        spec_route(method::EVENTS_SUBSCRIBE@) is None,
{
    reveal_strlit("crux:handshake");
    reveal_strlit("crux:pane/split");
    reveal_strlit("crux:pane/send-text");
    reveal_strlit("crux:pane/get-text");
    reveal_strlit("crux:pane/list");
    reveal_strlit("crux:pane/resize");
    reveal_strlit("crux:pane/activate");
    reveal_strlit("crux:pane/close");
    reveal_strlit("crux:pane/get-snapshot");
    reveal_strlit("crux:pane/get-selection");
    reveal_strlit("crux:window/create");
    reveal_strlit("crux:window/list");
    reveal_strlit("crux:session/save");
    reveal_strlit("crux:session/load");
    reveal_strlit("crux:clipboard/read");
    reveal_strlit("crux:clipboard/write");
    reveal_strlit("crux:ime/get-state");
    reveal_strlit("crux:ime/set-input-source");
    reveal_strlit("crux:events/subscribe");
    reveal_strlit("crux:events/poll");
    assert(method::HANDSHAKE@.len() == 14);
    assert(method::PANE_SPLIT@.len() == 15);
    assert(method::PANE_SEND_TEXT@.len() == 19);
    assert(method::PANE_GET_TEXT@.len() == 18);
    assert(method::PANE_GET_SELECTION@.len() == 23);
    assert(method::PANE_GET_SNAPSHOT@.len() == 22);
    assert(method::PANE_LIST@.len() == 14);
    assert(method::PANE_RESIZE@.len() == 16);
    assert(method::PANE_ACTIVATE@.len() == 18);
    assert(method::PANE_CLOSE@.len() == 15);
    assert(method::WINDOW_CREATE@.len() == 18);
    assert(method::WINDOW_LIST@.len() == 16);
    assert(method::SESSION_SAVE@.len() == 17);
    assert(method::SESSION_LOAD@.len() == 17);
    assert(method::CLIPBOARD_READ@.len() == 19);
    assert(method::CLIPBOARD_WRITE@.len() == 20);
    assert(method::IME_GET_STATE@.len() == 18);
    assert(method::IME_SET_INPUT_SOURCE@.len() == 25);
    assert(method::EVENTS_POLL@.len() == 16);
    assert(method::EVENTS_SUBSCRIBE@.len() == 21);
    assert(method::PANE_LIST@[5] != method::HANDSHAKE@[5]);
    assert(method::PANE_ACTIVATE@[10] != method::PANE_GET_TEXT@[10]);
    assert(method::PANE_CLOSE@[10] != method::PANE_SPLIT@[10]);
    assert(method::WINDOW_CREATE@[5] != method::PANE_GET_TEXT@[5]);
    assert(method::WINDOW_CREATE@[5] != method::PANE_ACTIVATE@[5]);
    assert(method::WINDOW_LIST@[5] != method::PANE_RESIZE@[5]);
    assert(method::SESSION_LOAD@[13] != method::SESSION_SAVE@[13]);
    assert(method::CLIPBOARD_READ@[5] != method::PANE_SEND_TEXT@[5]);
    assert(method::IME_GET_STATE@[5] != method::PANE_GET_TEXT@[5]);
    assert(method::IME_GET_STATE@[5] != method::PANE_ACTIVATE@[5]);
    assert(method::IME_GET_STATE@[5] != method::WINDOW_CREATE@[5]);
    assert(method::EVENTS_POLL@[5] != method::PANE_RESIZE@[5]);
    assert(method::EVENTS_POLL@[5] != method::WINDOW_LIST@[5]);
}


/// The method that `name` selects; `None` for a name that no command serves.
pub fn route_method(name: &str) -> (r: Option<Method>)
    ensures
        r == spec_route(name@),
{
    if str_equal(name, method::HANDSHAKE) {
        Some(Method::Handshake)
    } else if str_equal(name, method::PANE_SPLIT) {
        Some(Method::PaneSplit)
    } else if str_equal(name, method::PANE_SEND_TEXT) {
        Some(Method::PaneSendText)
    } else if str_equal(name, method::PANE_GET_TEXT) {
        Some(Method::PaneGetText)
    } else if str_equal(name, method::PANE_GET_SELECTION) {
        Some(Method::PaneGetSelection)
    } else if str_equal(name, method::PANE_GET_SNAPSHOT) {
        Some(Method::PaneGetSnapshot)
    } else if str_equal(name, method::PANE_LIST) {
        Some(Method::PaneList)
    } else if str_equal(name, method::PANE_RESIZE) {
        Some(Method::PaneResize)
    } else if str_equal(name, method::PANE_ACTIVATE) {
        Some(Method::PaneActivate)
    } else if str_equal(name, method::PANE_CLOSE) {
        Some(Method::PaneClose)
    } else if str_equal(name, method::WINDOW_CREATE) {
        Some(Method::WindowCreate)
    } else if str_equal(name, method::WINDOW_LIST) {
        Some(Method::WindowList)
    } else if str_equal(name, method::SESSION_SAVE) {
        Some(Method::SessionSave)
    } else if str_equal(name, method::SESSION_LOAD) {
        Some(Method::SessionLoad)
    } else if str_equal(name, method::CLIPBOARD_READ) {
        Some(Method::ClipboardRead)
    } else if str_equal(name, method::CLIPBOARD_WRITE) {
        Some(Method::ClipboardWrite)
    } else if str_equal(name, method::IME_GET_STATE) {
        Some(Method::ImeGetState)
    } else if str_equal(name, method::IME_SET_INPUT_SOURCE) {
        Some(Method::ImeSetInputSource)
    } else if str_equal(name, method::EVENTS_POLL) {
        Some(Method::EventsPoll)
    } else {
        None
    }
}

/// The identifier a response to `id` carries: the request's own, or null.
pub open spec fn reply_id(id: Option<JsonRpcId>) -> JsonRpcId {
    match id {
        Some(i) => i,
        None => JsonRpcId::Null,
    }
}

/// Whether `r` is an error response with the given identifier, code and
/// message.
pub open spec fn is_error_reply(r: JsonRpcResponse, id: JsonRpcId, code: i32, message: Seq<char>) -> bool {
    &&& r.jsonrpc@ == "2.0"@
    &&& r.id == id
    &&& r.result is None
    &&& r.error matches Some(e) && e.code == code && e.message@ == message && e.data is None
}

/// The message that answers a request whose `jsonrpc` member is not "2.0".
pub open spec fn version_message() -> Seq<char> {
    "Invalid JSON-RPC version, must be \"2.0\""@
}

/// What the handler does with a request before any command runs.
#[derive(Debug)]
pub enum RequestStep {
    /// Answer at once: with the response, or not at all.
    Respond(Option<JsonRpcResponse>),
    /// Run the command of the method; its outcome is then answered by
    /// [`complete_request`].
    Execute(Method),
}

/// The identifier of a response to `id`.
fn reply_id_of(id: &Option<JsonRpcId>) -> (r: JsonRpcId)
    ensures
        r == reply_id(*id),
{
    match id {
        Some(i) => i.clone(),
        None => JsonRpcId::Null,
    }
}

/// Validate and route a request.
///
/// A request whose version is not "2.0" is answered with `INVALID_REQUEST`,
/// notification or not. A request for a method that no command serves is
/// answered with `METHOD_NOT_FOUND` and the message `unknown method: ` and
/// the name, except a notification (no `id`), which is never answered.
/// Any other request runs the command of its method.
pub fn dispatch_request(req: &JsonRpcRequest) -> (step: RequestStep)
    ensures
        req.jsonrpc@ != "2.0"@ ==> (step matches RequestStep::Respond(Some(r)) && is_error_reply(
            r,
            reply_id(req.id),
            INVALID_REQUEST,
            version_message(),
        )),
        req.jsonrpc@ == "2.0"@ && spec_route(req.method@) is None ==> (step matches RequestStep::Respond(o)
            && (req.id is None <==> o is None) && (o matches Some(r) ==> is_error_reply(
            r,
            reply_id(req.id),
            METHOD_NOT_FOUND,
            "unknown method: "@ + req.method@,
        ))),
        req.jsonrpc@ == "2.0"@ && spec_route(req.method@) is Some ==> step == RequestStep::Execute(
            spec_route(req.method@)->0,
        ),
{
    if !str_equal(req.jsonrpc.as_str(), "2.0") {
        let message = String::from_str("Invalid JSON-RPC version, must be \"2.0\"");
        return RequestStep::Respond(
            Some(JsonRpcResponse::error(reply_id_of(&req.id), INVALID_REQUEST, message.as_str())),
        );
    }
    match route_method(req.method.as_str()) {
        Some(m) => RequestStep::Execute(m),
        None => {
            if req.id.is_none() {
                RequestStep::Respond(None)
            } else {
                let message = String::from_str("unknown method: ").concat(req.method.as_str());
                RequestStep::Respond(
                    Some(JsonRpcResponse::error(reply_id_of(&req.id), METHOD_NOT_FOUND, message.as_str())),
                )
            }
        },
    }
}

/// How the command of a routed request ended.
#[derive(Debug)]
pub enum CommandOutcome {
    /// `params` did not deserialise into the method's parameters; the
    /// deserialiser's message.
    InvalidParams(String),
    /// The command channel was closed: the server is shutting down.
    ServerShutdown,
    /// The command was taken but its reply channel was dropped unanswered.
    HandlerDropped,
    /// The command failed, or its result did not serialise; the message.
    Failed(String),
    /// The command succeeded with this result value.
    Value(serde_json::Value),
    /// A command without a result value succeeded.
    Done,
}

/// The response that answers `outcome` for the identifier `id`, on the
/// error side: code and message, or `None` for a success.
pub open spec fn outcome_error(outcome: CommandOutcome) -> Option<(i32, Seq<char>)> {
    match outcome {
        CommandOutcome::InvalidParams(e) => Some((INVALID_PARAMS, "invalid params: "@ + e@)),
        CommandOutcome::ServerShutdown => Some((INTERNAL_ERROR, "server shutting down"@)),
        CommandOutcome::HandlerDropped => Some((INTERNAL_ERROR, "handler dropped"@)),
        CommandOutcome::Failed(e) => Some((INTERNAL_ERROR, e@)),
        _ => None,
    }
}

/// The JSON object with the single member `key` set to `value`.
pub uninterp spec fn json_bool_object(key: Seq<char>, value: bool) -> serde_json::Value;

/// Builds the object `{key: value}` with serde_json's `Map` and
/// `Value::Object`; the result is the named object.
#[verifier::external_body]
fn bool_object(key: &str, value: bool) -> (r: serde_json::Value)
    ensures
        r == json_bool_object(key@, value),
{
    serde_json::Value::Object(serde_json::Map::from_iter([(
        key.to_string(),
        serde_json::Value::Bool(value),
    )]))
}

/// Answer the outcome of a routed request.
///
/// A notification (`id` is `None`) is never answered, whatever the outcome.
/// Otherwise a failure is answered with its error code and message, a
/// result value with a success response carrying it, and a command without
/// a result with a success response carrying `{"success": true}`.
pub fn complete_request(id: Option<JsonRpcId>, outcome: CommandOutcome) -> (r: Option<JsonRpcResponse>)
    ensures
        id is None <==> r is None,
        r matches Some(resp) ==> {
            &&& resp.id == id->0
            &&& resp.jsonrpc@ == "2.0"@
            &&& match outcome_error(outcome) {
                Some((code, message)) => is_error_reply(resp, id->0, code, message),
                None => resp.error is None && resp.result is Some && (outcome matches CommandOutcome::Value(v)
                    ==> resp.result == Some(v)) && (outcome is Done ==> resp.result == Some(
                    json_bool_object("success"@, true),
                )),
            }
        },
{
    let id = match id {
        Some(i) => i,
        None => return None,
    };
    let resp = match outcome {
        CommandOutcome::InvalidParams(e) => {
            let message = String::from_str("invalid params: ").concat(e.as_str());
            JsonRpcResponse::error(id, INVALID_PARAMS, message.as_str())
        },
        CommandOutcome::ServerShutdown => JsonRpcResponse::error(id, INTERNAL_ERROR, "server shutting down"),
        CommandOutcome::HandlerDropped => JsonRpcResponse::error(id, INTERNAL_ERROR, "handler dropped"),
        CommandOutcome::Failed(e) => JsonRpcResponse::error(id, INTERNAL_ERROR, e.as_str()),
        CommandOutcome::Value(v) => JsonRpcResponse::success(id, v),
        CommandOutcome::Done => JsonRpcResponse::success(id, bool_object("success", true)),
    };
    Some(resp)
}

/// The bytes a client has sent that do not yet make up a complete frame.
pub struct ClientBuffer {
    pending: Vec<u8>,
}

/// What receiving bytes did to the buffer.
#[derive(Debug, PartialEq, Eq, Structural)]
pub enum Receive {
    /// The bytes were appended.
    Accepted,
    /// The buffer would have grown past [`MAX_PENDING_SIZE`]: nothing was
    /// appended, and the connection is answered and closed. The size the
    /// buffer would have had.
    TooLarge(usize),
}

/// The next step of cutting the buffer into frames.
#[derive(Debug)]
pub enum FrameStep {
    /// No complete frame yet: wait for more bytes.
    Incomplete,
    /// A complete frame; its payload, now removed from the buffer.
    Frame(Vec<u8>),
    /// The frame header announces an oversized payload: the connection is
    /// answered and closed, since it cannot be re-synchronised.
    Broken(FrameError),
}

impl View for ClientBuffer {
    type V = Seq<u8>;

    closed spec fn view(&self) -> Seq<u8> {
        self.pending@
    }
}

impl ClientBuffer {
    /// The buffer never holds more than [`MAX_PENDING_SIZE`] bytes.
    pub closed spec fn wf(&self) -> bool {
        self.pending@.len() <= MAX_PENDING_SIZE
    }

    /// An empty buffer, as a new connection has.
    pub fn new() -> (b: Self)
        ensures
            b.wf(),
            b@ == Seq::<u8>::empty(),
    {
        ClientBuffer { pending: Vec::new() }
    }

    /// The number of buffered bytes.
    pub fn len(&self) -> (n: usize)
        ensures
            n == self@.len(),
    {
        self.pending.len()
    }

    /// Append the bytes of one read, unless the buffer would then exceed
    /// [`MAX_PENDING_SIZE`].
    pub fn receive(&mut self, data: &[u8]) -> (r: Receive)
        requires
            old(self).wf(),
            data@.len() <= usize::MAX - MAX_PENDING_SIZE,
        ensures
            final(self).wf(),
            old(self)@.len() + data@.len() > MAX_PENDING_SIZE ==> r == Receive::TooLarge(
                (old(self)@.len() + data@.len()) as usize,
            ) && final(self)@ == old(self)@,
            old(self)@.len() + data@.len() <= MAX_PENDING_SIZE ==> r == Receive::Accepted
                && final(self)@ == old(self)@ + data@,
    {
        let total = self.pending.len() + data.len();
        if total > MAX_PENDING_SIZE {
            return Receive::TooLarge(total);
        }
        self.pending.extend_from_slice(data);
        Receive::Accepted
    }

    /// Take the next complete frame off the front of the buffer.
    pub fn next_frame(&mut self) -> (step: FrameStep)
        requires
            old(self).wf(),
        ensures
            final(self).wf(),
            match spec_decode_frame(old(self)@) {
                Ok(None) => step is Incomplete && final(self)@ == old(self)@,
                Ok(Some((n, p))) => (step matches FrameStep::Frame(v) && v@ == p) && final(self)@
                    == old(self)@.subrange(n, old(self)@.len() as int),
                Err(m) => (step matches FrameStep::Broken(FrameError::MessageTooLarge(k)) && k == m)
                    && final(self)@ == old(self)@,
            },
    {
        match decode_frame(self.pending.as_slice()) {
            Ok(None) => FrameStep::Incomplete,
            Ok(Some((consumed, payload))) => {
                let rest = self.pending.split_off(consumed);
                self.pending = rest;
                FrameStep::Frame(payload)
            },
            Err(e) => FrameStep::Broken(e),
        }
    }
}

/// A fault in what a client sent, answered before any request is routed.
#[derive(Debug)]
pub enum Fault {
    /// The buffered bytes would exceed [`MAX_PENDING_SIZE`]; their number.
    RequestTooLarge(usize),
    /// The frame header announced an oversized payload.
    Frame(FrameError),
    /// The payload is not JSON; the parser's message.
    InvalidJson(String),
    /// The payload is an empty JSON array.
    EmptyBatch,
    /// An element of a batch is not a request; the deserialiser's message.
    InvalidBatchItem(String),
    /// The payload is not a request; the deserialiser's message.
    InvalidRequest(String),
}

/// The code and message that answer a fault.
pub open spec fn fault_error(fault: Fault) -> (i32, Seq<char>) {
    match fault {
        Fault::RequestTooLarge(n) => (INVALID_REQUEST, "request too large ("@ + decimal(n as nat) + " bytes)"@),
        Fault::Frame(FrameError::MessageTooLarge(n)) => (
            PARSE_ERROR,
            "frame error: message too large: "@ + decimal(n as nat) + " bytes (max 16777216)"@,
        ),
        Fault::InvalidJson(e) => (PARSE_ERROR, "invalid JSON: "@ + e@),
        Fault::EmptyBatch => (INVALID_REQUEST, "empty batch request"@),
        Fault::InvalidBatchItem(e) => (INVALID_REQUEST, "invalid request in batch: "@ + e@),
        Fault::InvalidRequest(e) => (INVALID_REQUEST, "invalid JSON-RPC request: "@ + e@),
    }
}

/// The error response, with a null identifier, that answers a fault.
pub fn fault_response(fault: Fault) -> (r: JsonRpcResponse)
    ensures
        is_error_reply(r, JsonRpcId::Null, fault_error(fault).0, fault_error(fault).1),
{
    match fault {
        Fault::RequestTooLarge(n) => {
            let message = String::from_str("request too large (").concat(u64_to_string(n as u64).as_str()).concat(" bytes)");
            JsonRpcResponse::error(JsonRpcId::Null, INVALID_REQUEST, message.as_str())
        },
        Fault::Frame(e) => {
            let message = String::from_str("frame error: ").concat(e.message().as_str());
            proof {
                let ghost d = decimal(e->0 as nat);
                assert("frame error: "@ + ("message too large: "@ + d + " bytes (max 16777216)"@)
                    == "frame error: message too large: "@ + d + " bytes (max 16777216)"@) by {
                    reveal_strlit("frame error: ");
                    reveal_strlit("message too large: ");
                    reveal_strlit("frame error: message too large: ");
                }
            }
            JsonRpcResponse::error(JsonRpcId::Null, PARSE_ERROR, message.as_str())
        },
        Fault::InvalidJson(e) => {
            let message = String::from_str("invalid JSON: ").concat(e.as_str());
            JsonRpcResponse::error(JsonRpcId::Null, PARSE_ERROR, message.as_str())
        },
        Fault::EmptyBatch => JsonRpcResponse::error(JsonRpcId::Null, INVALID_REQUEST, "empty batch request"),
        Fault::InvalidBatchItem(e) => {
            let message = String::from_str("invalid request in batch: ").concat(e.as_str());
            JsonRpcResponse::error(JsonRpcId::Null, INVALID_REQUEST, message.as_str())
        },
        Fault::InvalidRequest(e) => {
            let message = String::from_str("invalid JSON-RPC request: ").concat(e.as_str());
            JsonRpcResponse::error(JsonRpcId::Null, INVALID_REQUEST, message.as_str())
        },
    }
}

/// The responses of a batch, in request order: the answered elements, the
/// notifications left out. An empty result is not sent at all.
pub fn batch_replies(replies: Vec<Option<JsonRpcResponse>>) -> (r: Vec<JsonRpcResponse>)
    ensures
        r@ == replies@.filter_map(|o: Option<JsonRpcResponse>| o),
{
    let ghost all = replies@;
    let mut out: Vec<JsonRpcResponse> = Vec::new();
    for item in it: replies
        invariant
            it.seq() == all,
            out@ == all.take(it.index() as int).filter_map(|o: Option<JsonRpcResponse>| o),
    {
        proof {
            all.lemma_filter_map_take_succ(|o: Option<JsonRpcResponse>| o, it.index() as int);
        }
        match item {
            Some(resp) => out.push(resp),
            None => {},
        }
    }
    proof {
        assert(all.take(all.len() as int) == all);
    }
    out
}

/// What a decoded frame holds, for the connection loop.
#[derive(Debug, Clone, Copy, PartialEq, Eq, Structural)]
pub enum Payload {
    /// An empty array: answered with the empty-batch fault.
    EmptyBatch,
    /// A non-empty array: each element is a request of the batch.
    Batch,
    /// Any other value: a single request.
    Single,
}

/// Sort a decoded frame into an empty batch, a batch or a single request.
pub fn classify_payload(value: &serde_json::Value) -> (r: Payload)
    ensures
        r == match json_array(*value) {
            Some(items) => if items.len() == 0 {
                Payload::EmptyBatch
            } else {
                Payload::Batch
            },
            None => Payload::Single,
        },
{
    match array_items(value) {
        Some(items) => if items.len() == 0 {
            Payload::EmptyBatch
        } else {
            Payload::Batch
        },
        None => Payload::Single,
    }
}

/// What a connection does after a step of reading or answering.
pub enum ConnectionAction {
    /// Go on: read more bytes, or take the next frame.
    Continue,
    /// Send this answer, then go on with the connection.
    Answer(JsonRpcResponse),
    /// Send this answer, then close the connection.
    AnswerAndClose(JsonRpcResponse),
    /// Send these answers to a batch, as one array, then go on.
    AnswerBatch(Vec<JsonRpcResponse>),
}

/// After receiving bytes: go on, or, when the buffer would grow too large,
/// answer with the fault and close (the stream cannot be trusted further).
pub fn on_receive(received: Receive) -> (a: ConnectionAction)
    ensures
        match received {
            Receive::Accepted => a is Continue,
            Receive::TooLarge(n) => a matches ConnectionAction::AnswerAndClose(resp)
                && is_error_reply(
                resp,
                JsonRpcId::Null,
                fault_error(Fault::RequestTooLarge(n)).0,
                fault_error(Fault::RequestTooLarge(n)).1,
            ),
        },
{
    match received {
        Receive::Accepted => ConnectionAction::Continue,
        Receive::TooLarge(n) => ConnectionAction::AnswerAndClose(fault_response(Fault::RequestTooLarge(n))),
    }
}

/// After a frame header that announces an oversized payload: answer with
/// the fault and close, since the stream cannot be re-synchronised.
pub fn on_broken_frame(e: FrameError) -> (a: ConnectionAction)
    ensures
        a matches ConnectionAction::AnswerAndClose(resp) && is_error_reply(
            resp,
            JsonRpcId::Null,
            fault_error(Fault::Frame(e)).0,
            fault_error(Fault::Frame(e)).1,
        ),
{
    ConnectionAction::AnswerAndClose(fault_response(Fault::Frame(e)))
}

/// After a payload that is not acceptable (not JSON, an empty batch, or
/// not a request): answer with the fault and go on with the next frame.
pub fn on_bad_payload(fault: Fault) -> (a: ConnectionAction)
    requires
        fault is InvalidJson || fault is EmptyBatch || fault is InvalidRequest,
    ensures
        a matches ConnectionAction::Answer(resp) && is_error_reply(
            resp,
            JsonRpcId::Null,
            fault_error(fault).0,
            fault_error(fault).1,
        ),
{
    ConnectionAction::Answer(fault_response(fault))
}

/// After a single request: send its answer, if it has one (a notification
/// has none), and go on.
pub fn on_single(reply: Option<JsonRpcResponse>) -> (a: ConnectionAction)
    ensures
        match reply {
            Some(resp) => a == ConnectionAction::Answer(resp),
            None => a is Continue,
        },
{
    match reply {
        Some(resp) => ConnectionAction::Answer(resp),
        None => ConnectionAction::Continue,
    }
}

/// After a batch: send the answers of its requests, in order, as one array;
/// a batch of notifications only is not answered at all.
pub fn on_batch(replies: Vec<Option<JsonRpcResponse>>) -> (a: ConnectionAction)
    ensures
        ({
            let answers = replies@.filter_map(|o: Option<JsonRpcResponse>| o);
            if answers.len() == 0 {
                a is Continue
            } else {
                a matches ConnectionAction::AnswerBatch(v) && v@ == answers
            }
        }),
{
    let answers = batch_replies(replies);
    if answers.len() == 0 {
        ConnectionAction::Continue
    } else {
        ConnectionAction::AnswerBatch(answers)
    }
}

} // verus!
