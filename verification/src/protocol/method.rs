//! Protocol method name constants.

use vstd::prelude::*;

verus! {

pub const HANDSHAKE: &'static str = "crux:handshake";
pub const PANE_SPLIT: &'static str = "crux:pane/split";
pub const PANE_SEND_TEXT: &'static str = "crux:pane/send-text";
pub const PANE_GET_TEXT: &'static str = "crux:pane/get-text";
pub const PANE_LIST: &'static str = "crux:pane/list";
pub const PANE_RESIZE: &'static str = "crux:pane/resize";
pub const PANE_ACTIVATE: &'static str = "crux:pane/activate";
pub const PANE_CLOSE: &'static str = "crux:pane/close";
pub const PANE_GET_SNAPSHOT: &'static str = "crux:pane/get-snapshot";
pub const PANE_GET_SELECTION: &'static str = "crux:pane/get-selection";
pub const WINDOW_CREATE: &'static str = "crux:window/create";
pub const WINDOW_LIST: &'static str = "crux:window/list";
pub const SESSION_SAVE: &'static str = "crux:session/save";
pub const SESSION_LOAD: &'static str = "crux:session/load";
pub const CLIPBOARD_READ: &'static str = "crux:clipboard/read";
pub const CLIPBOARD_WRITE: &'static str = "crux:clipboard/write";
pub const IME_GET_STATE: &'static str = "crux:ime/get-state";
pub const IME_SET_INPUT_SOURCE: &'static str = "crux:ime/set-input-source";
pub const EVENTS_SUBSCRIBE: &'static str = "crux:events/subscribe";
pub const EVENTS_POLL: &'static str = "crux:events/poll";

} // verus!
