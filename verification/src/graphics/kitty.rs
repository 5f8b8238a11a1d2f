//! Kitty graphics protocol parser.
//!
//! The Kitty graphics protocol uses APC escape sequences to transmit images:
//!
//! ```text
//! APC G <key>=<value>,<key>=<value>,...;<base64-data> ST
//! ```
//!
//! The parser receives the bytes between `APC G` and `ST`.

use base64::Engine;
use vstd::prelude::*;
use vstd::utf8::{decode_utf8, valid_utf8};
use crate::graphics::error::GraphicsError;
use crate::graphics::numparse::{
    i32_error, int_error_message, parse_i32_range, parse_unsigned, spec_parse_i32, spec_parse_u32,
    spec_parse_u8, unsigned_error, IntError,
};
use crate::graphics::types::{ImageId, PixelFormat, TransmissionMode};

verus! {

/// Actions that can be performed on images.
#[derive(Debug, Clone, Copy, PartialEq, Eq, Structural)]
pub enum KittyAction {
    /// Transmit image data (possibly with immediate display).
    Transmit,
    /// Transmit and display in one step.
    TransmitAndDisplay,
    /// Display a previously transmitted image.
    Display,
    /// Delete images or placements.
    Delete,
    /// Query terminal for graphics protocol support.
    Query,
    /// Transmit animation frame data.
    AnimationFrame,
}

/// Specifies what to delete.
#[derive(Debug, Clone, Copy, PartialEq, Eq, Structural)]
pub enum DeleteTarget {
    /// Delete all images and placements.
    All,
    /// Delete a specific image by ID (and all its placements).
    ById(ImageId),
    /// Delete a specific placement.
    ByPlacement { image_id: ImageId, placement_id: u32 },
    /// Delete all images at the cursor position.
    AtCursor,
    /// Delete all images intersecting a cell range.
    InRange { column: u32, row: i32 },
}

/// Compression format for transmitted data.
#[derive(Debug, Clone, Copy, PartialEq, Eq, Structural)]
pub enum Compression {
    /// No compression.
    Uncompressed,
    /// Zlib/deflate compression.
    Zlib,
}

/// A parsed Kitty graphics protocol command.
#[derive(Debug, Clone)]
pub struct KittyCommand {
    /// The action to perform.
    pub action: KittyAction,
    /// Image ID (0 = auto-assign or not specified).
    pub image_id: u32,
    /// Placement ID (0 = default).
    pub placement_id: u32,
    /// Image width in pixels.
    pub width: u32,
    /// Image height in pixels.
    pub height: u32,
    /// Pixel format of the transmitted data.
    pub format: PixelFormat,
    /// How the data is transmitted.
    pub transmission: TransmissionMode,
    /// Compression applied to the data.
    pub compression: Compression,
    /// Whether more data chunks follow (chunked transfer).
    pub more_data: bool,
    /// Display columns (0 = auto).
    pub display_columns: u32,
    /// Display rows (0 = auto).
    pub display_rows: u32,
    /// X offset in source image pixels.
    pub source_x: u32,
    /// Y offset in source image pixels.
    pub source_y: u32,
    /// Width of source region in pixels (0 = full).
    pub source_width: u32,
    /// Height of source region in pixels (0 = full).
    pub source_height: u32,
    /// Z-index for layering.
    pub z_index: i32,
    /// The base64-encoded payload data.
    pub payload: Vec<u8>,
    /// Whether to suppress the OK response.
    pub quiet: u8,
    /// Delete target (only relevant when action is Delete).
    pub delete_target: Option<DeleteTarget>,
}

/// The values read from the `key=value` pairs so far.
#[derive(Clone, Copy)]
pub struct KittyParams {
    pub action: KittyAction,
    pub image_id: u32,
    pub placement_id: u32,
    pub width: u32,
    pub height: u32,
    pub format: PixelFormat,
    pub transmission: TransmissionMode,
    pub compression: Compression,
    pub more_data: bool,
    pub display_columns: u32,
    pub display_rows: u32,
    pub source_x: u32,
    pub source_y: u32,
    pub source_width: u32,
    pub source_height: u32,
    pub z_index: i32,
    pub quiet: u8,
    /// First byte of the last non-empty `d` value.
    pub delete_specifier: Option<u8>,
    /// Byte range of the rest of the last `d` value longer than one byte.
    pub delete_value: Option<(usize, usize)>,
    /// Whether an `a` key was given.
    pub action_given: bool,
}

// ---------------------------------------------------------------------------
// Specification
// ---------------------------------------------------------------------------

/// The parameter values before any pair is read.
pub open spec fn initial_params() -> KittyParams {
    KittyParams {
        action: KittyAction::Transmit,
        image_id: 0,
        placement_id: 0,
        width: 0,
        height: 0,
        format: PixelFormat::Rgba,
        transmission: TransmissionMode::Direct,
        compression: Compression::Uncompressed,
        more_data: false,
        display_columns: 0,
        display_rows: 0,
        source_x: 0,
        source_y: 0,
        source_width: 0,
        source_height: 0,
        z_index: 0,
        quiet: 0,
        delete_specifier: None,
        delete_value: None,
        action_given: false,
    }
}

/// Index of the first byte `b` in `s[from..to)`, or `to` if there is none.
pub open spec fn first_index(s: Seq<u8>, b: u8, from: int, to: int) -> int
    decreases to - from,
{
    if from >= to {
        to
    } else if s[from] == b {
        from
    } else {
        first_index(s, b, from + 1, to)
    }
}

pub proof fn lemma_first_index(s: Seq<u8>, b: u8, from: int, to: int)
    requires
        from <= to,
    ensures
        from <= first_index(s, b, from, to) <= to,
        first_index(s, b, from, to) < to ==> s[first_index(s, b, from, to)] == b,
        forall|k: int| from <= k < first_index(s, b, from, to) ==> s[k] != b,
    decreases to - from,
{
    if from < to && s[from] != b {
        lemma_first_index(s, b, from + 1, to);
    }
}

/// The action named by an `a` value.
pub open spec fn spec_action(v: Seq<u8>) -> KittyAction {
    if v == seq![116u8] || v == seq![84u8] {
        KittyAction::Transmit
    } else if v == seq![112u8] || v == seq![80u8] {
        KittyAction::TransmitAndDisplay
    } else if v == seq![100u8] || v == seq![68u8] {
        KittyAction::Delete
    } else if v == seq![113u8] || v == seq![81u8] {
        KittyAction::Query
    } else if v == seq![102u8] || v == seq![70u8] {
        KittyAction::AnimationFrame
    } else {
        KittyAction::TransmitAndDisplay
    }
}

/// The pixel format named by an `f` value, if supported.
pub open spec fn spec_format(v: Seq<u8>) -> Option<PixelFormat> {
    if v == seq![50u8, 52u8] {
        Some(PixelFormat::Rgb)
    } else if v == seq![51u8, 50u8] {
        Some(PixelFormat::Rgba)
    } else if v == seq![49u8, 48u8, 48u8] {
        Some(PixelFormat::Png)
    } else {
        None
    }
}

/// The transmission mode named by a `t` value.
pub open spec fn spec_transmission(v: Seq<u8>) -> TransmissionMode {
    if v == seq![102u8] || v == seq![70u8] {
        TransmissionMode::File
    } else if v == seq![116u8] || v == seq![84u8] {
        TransmissionMode::TempFile
    } else if v == seq![115u8] || v == seq![83u8] {
        TransmissionMode::SharedMemory
    } else {
        TransmissionMode::Direct
    }
}

/// The keys whose value is a `u32`: `i` (image id), `p` (placement id),
/// `s`/`v` (width/height), `c`/`r` (display columns/rows), `x`/`y`/`w`/`h`
/// (source region).
pub open spec fn is_u32_key(k: u8) -> bool {
    k == 105u8 || k == 112u8 || k == 115u8 || k == 118u8 || k == 99u8 || k == 114u8 || k == 120u8
        || k == 121u8 || k == 119u8 || k == 104u8
}

/// The parameters with the field of `u32` key `k` set to `n`.
pub open spec fn set_u32_field(st: KittyParams, k: u8, n: u32) -> KittyParams {
    if k == 105u8 {
        KittyParams { image_id: n, ..st }
    } else if k == 112u8 {
        KittyParams { placement_id: n, ..st }
    } else if k == 115u8 {
        KittyParams { width: n, ..st }
    } else if k == 118u8 {
        KittyParams { height: n, ..st }
    } else if k == 99u8 {
        KittyParams { display_columns: n, ..st }
    } else if k == 114u8 {
        KittyParams { display_rows: n, ..st }
    } else if k == 120u8 {
        KittyParams { source_x: n, ..st }
    } else if k == 121u8 {
        KittyParams { source_y: n, ..st }
    } else if k == 119u8 {
        KittyParams { source_width: n, ..st }
    } else {
        KittyParams { source_height: n, ..st }
    }
}

/// Applies the pair `s[ks..eq) = s[eq+1..ve)` to the parameters; `None` if
/// its value is invalid for its key. Keys other than the known one-letter
/// keys are ignored.
pub open spec fn apply_pair(st: KittyParams, s: Seq<u8>, ks: int, eq: int, ve: int) -> Option<
    KittyParams,
> {
    let v = s.subrange(eq + 1, ve);
    if eq - ks != 1 {
        Some(st)
    } else {
        let k = s[ks];
        if k == 97u8 {
            Some(KittyParams { action: spec_action(v), action_given: true, ..st })
        } else if is_u32_key(k) {
            match spec_parse_u32(v) {
                Some(n) => Some(set_u32_field(st, k, n)),
                None => None,
            }
        } else if k == 102u8 {
            match spec_format(v) {
                Some(f) => Some(KittyParams { format: f, ..st }),
                None => None,
            }
        } else if k == 116u8 {
            Some(KittyParams { transmission: spec_transmission(v), ..st })
        } else if k == 111u8 {
            Some(
                KittyParams {
                    compression: if v == seq![122u8] {
                        Compression::Zlib
                    } else {
                        Compression::Uncompressed
                    },
                    ..st
                },
            )
        } else if k == 109u8 {
            Some(KittyParams { more_data: v == seq![49u8], ..st })
        } else if k == 122u8 {
            match spec_parse_i32(v) {
                Some(n) => Some(KittyParams { z_index: n, ..st }),
                None => None,
            }
        } else if k == 113u8 {
            match spec_parse_u8(v) {
                Some(n) => Some(KittyParams { quiet: n, ..st }),
                None => None,
            }
        } else if k == 100u8 {
            if v.len() == 0 {
                Some(st)
            } else if v.len() > 1 {
                Some(
                    KittyParams {
                        delete_specifier: Some(v[0]),
                        delete_value: Some(((eq + 2) as usize, ve as usize)),
                        ..st
                    },
                )
            } else {
                Some(KittyParams { delete_specifier: Some(v[0]), ..st })
            }
        } else {
            Some(st)
        }
    }
}

/// Reads the comma-separated pairs of `s[start..end)` in order; `None` if a
/// non-empty pair has no `=` or an invalid value. Empty pairs are skipped.
pub open spec fn process_params(st: KittyParams, s: Seq<u8>, start: int, end: int) -> Option<
    KittyParams,
>
    decreases end - start,
{
    if start > end {
        Some(st)
    } else {
        let seg_end = first_index(s, 44u8, start, end);
        let next = if seg_end == start {
            Some(st)
        } else {
            let eq = first_index(s, 61u8, start, seg_end);
            if eq == seg_end {
                None
            } else {
                apply_pair(st, s, start, eq, seg_end)
            }
        };
        if seg_end >= end {
            next
        } else {
            proof {
                lemma_first_index(s, 44u8, start, end);
            }
            match next {
                None => None,
                Some(st2) => process_params(st2, s, seg_end + 1, end),
            }
        }
    }
}

/// How the field of a `u32` key is named in error messages.
pub open spec fn u32_key_name(k: u8) -> Seq<char> {
    if k == 105u8 {
        "image id"@
    } else if k == 112u8 {
        "placement id"@
    } else if k == 115u8 {
        "width"@
    } else if k == 118u8 {
        "height"@
    } else if k == 99u8 {
        "display columns"@
    } else if k == 114u8 {
        "display rows"@
    } else if k == 120u8 {
        "source x"@
    } else if k == 121u8 {
        "source y"@
    } else if k == 119u8 {
        "source width"@
    } else {
        "source height"@
    }
}

/// "invalid {context}: {error}"
pub open spec fn invalid_message(context: Seq<char>, e: IntError) -> Seq<char> {
    "invalid "@ + context + ": "@ + int_error_message(e)
}

/// The message for the pair `s[ks..eq) = s[eq+1..ve)` whose value
/// `apply_pair` refuses.
pub open spec fn pair_error(s: Seq<u8>, ks: int, eq: int, ve: int) -> Seq<char> {
    let v = s.subrange(eq + 1, ve);
    let k = s[ks];
    if is_u32_key(k) {
        invalid_message(u32_key_name(k), unsigned_error(v, u32::MAX as nat))
    } else if k == 102u8 {
        "unsupported format: "@ + decode_utf8(v)
    } else if k == 122u8 {
        invalid_message("z-index"@, i32_error(v))
    } else {
        invalid_message("quiet"@, unsigned_error(v, u8::MAX as nat))
    }
}

/// The message for the first pair of `s[start..end)` that `process_params`
/// refuses (empty when it refuses none).
pub open spec fn params_error(st: KittyParams, s: Seq<u8>, start: int, end: int) -> Seq<char>
    decreases end - start,
{
    if start > end {
        seq![]
    } else {
        let seg_end = first_index(s, 44u8, start, end);
        let eq = first_index(s, 61u8, start, seg_end);
        let rest = if seg_end >= end {
            seq![]
        } else {
            proof {
                lemma_first_index(s, 44u8, start, end);
            }
            match (if seg_end == start {
                Some(st)
            } else {
                apply_pair(st, s, start, eq, seg_end)
            }) {
                Some(st2) => params_error(st2, s, seg_end + 1, end),
                None => seq![],
            }
        };
        if seg_end == start {
            rest
        } else if eq == seg_end {
            "invalid key-value pair: "@ + decode_utf8(s.subrange(start, seg_end))
        } else if apply_pair(st, s, start, eq, seg_end) is None {
            pair_error(s, start, eq, seg_end)
        } else {
            rest
        }
    }
}

/// Position of the `;` that ends the parameters (the input length if none).
pub open spec fn params_end(input: Seq<u8>) -> int {
    first_index(input, 59u8, 0, input.len() as int)
}

/// The payload: everything after the first `;`.
pub open spec fn spec_payload(input: Seq<u8>) -> Seq<u8> {
    if params_end(input) < input.len() {
        input.subrange(params_end(input) + 1, input.len() as int)
    } else {
        seq![]
    }
}

/// The parameters of a command, or `None` if it is not valid UTF-8 or a pair
/// is malformed.
pub open spec fn spec_kitty_params(input: Seq<u8>) -> Option<KittyParams> {
    if !valid_utf8(input) {
        None
    } else {
        process_params(initial_params(), input, 0, params_end(input))
    }
}

/// The message of the error that refuses a command (meaningful when
/// `spec_kitty_params` is `None`).
pub open spec fn spec_kitty_error(input: Seq<u8>) -> Seq<char> {
    if !valid_utf8(input) {
        "invalid UTF-8: "@ + utf8_error_text(input)
    } else {
        params_error(initial_params(), input, 0, params_end(input))
    }
}

/// The delete target of a command with action Delete.
pub open spec fn spec_delete_target(p: KittyParams, input: Seq<u8>) -> DeleteTarget {
    match p.delete_specifier {
        Some(c) => if c == 97u8 || c == 65u8 {
            DeleteTarget::All
        } else if c == 105u8 || c == 73u8 {
            if p.image_id > 0 {
                if p.placement_id > 0 {
                    DeleteTarget::ByPlacement {
                        image_id: ImageId(p.image_id),
                        placement_id: p.placement_id,
                    }
                } else {
                    DeleteTarget::ById(ImageId(p.image_id))
                }
            } else {
                DeleteTarget::All
            }
        } else if c == 99u8 || c == 67u8 {
            DeleteTarget::AtCursor
        } else if c == 112u8 || c == 80u8 {
            DeleteTarget::InRange {
                column: match p.delete_value {
                    Some((a, b)) => match spec_parse_u32(input.subrange(a as int, b as int)) {
                        Some(n) => n,
                        None => 0,
                    },
                    None => 0,
                },
                row: 0,
            }
        } else {
            DeleteTarget::All
        },
        None => DeleteTarget::All,
    }
}

impl KittyCommand {
    /// This command is the one that the parameters `p` and the input give.
    pub open spec fn built_from(self, p: KittyParams, input: Seq<u8>) -> bool {
        &&& self.action == if !p.action_given && spec_payload(input).len() > 0 {
            KittyAction::TransmitAndDisplay
        } else {
            p.action
        }
        &&& self.image_id == p.image_id
        &&& self.placement_id == p.placement_id
        &&& self.width == p.width
        &&& self.height == p.height
        &&& self.format == p.format
        &&& self.transmission == p.transmission
        &&& self.compression == p.compression
        &&& self.more_data == p.more_data
        &&& self.display_columns == p.display_columns
        &&& self.display_rows == p.display_rows
        &&& self.source_x == p.source_x
        &&& self.source_y == p.source_y
        &&& self.source_width == p.source_width
        &&& self.source_height == p.source_height
        &&& self.z_index == p.z_index
        &&& self.quiet == p.quiet
        &&& self.payload@ == spec_payload(input)
        &&& self.delete_target == if p.action is Delete {
            Some(spec_delete_target(p, input))
        } else {
            None
        }
    }
}

// ---------------------------------------------------------------------------
// Outside calls
// ---------------------------------------------------------------------------

/// What the base64 crate's standard engine decodes `input` to (`None` when
/// it rejects the input).
pub uninterp spec fn base64_standard_decode(input: Seq<u8>) -> Option<Seq<u8>>;

/// Calls `base64::engine::general_purpose::STANDARD.decode`; its result is
/// the named decoding of the input, and it fails exactly when the name says
/// the input is rejected.
#[verifier::external_body]
fn decode_base64_standard(input: &[u8]) -> (r: Result<Vec<u8>, base64::DecodeError>)
    ensures
        match r {
            Ok(v) => base64_standard_decode(input@) == Some(v@),
            Err(_) => base64_standard_decode(input@) is None,
        },
{
    base64::engine::general_purpose::STANDARD.decode(input)
}

/// The display text of the error that `std::str::from_utf8` gives for
/// `bytes` (it names the position and length of the first bad sequence).
pub uninterp spec fn utf8_error_text(bytes: Seq<u8>) -> Seq<char>;

/// Calls `std::str::from_utf8`, which std documents to succeed exactly on
/// valid UTF-8; returns the display text of its error, which is the named
/// text of the bytes.
#[verifier::external_body]
fn utf8_error(bytes: &[u8]) -> (r: Option<String>)
    ensures
        match r {
            None => valid_utf8(bytes@),
            Some(t) => !valid_utf8(bytes@) && t@ == utf8_error_text(bytes@),
        },
{
    match std::str::from_utf8(bytes) {
        Ok(_) => None,
        Err(e) => Some(e.to_string()),
    }
}

/// Calls `String::from_utf8_lossy`, which std documents to keep valid UTF-8
/// unchanged.
#[verifier::external_body]
fn lossy_text(bytes: &[u8]) -> (r: String)
    ensures
        valid_utf8(bytes@) ==> r@ == decode_utf8(bytes@),
{
    String::from_utf8_lossy(bytes).into_owned()
}

// ---------------------------------------------------------------------------
// Implementation
// ---------------------------------------------------------------------------

impl Default for KittyCommand {
    fn default() -> (r: Self)
        ensures
            r.built_from(initial_params(), seq![]),
    {
        let r = KittyCommand {
            action: KittyAction::Transmit,
            image_id: 0,
            placement_id: 0,
            width: 0,
            height: 0,
            format: PixelFormat::Rgba,
            transmission: TransmissionMode::Direct,
            compression: Compression::Uncompressed,
            more_data: false,
            display_columns: 0,
            display_rows: 0,
            source_x: 0,
            source_y: 0,
            source_width: 0,
            source_height: 0,
            z_index: 0,
            payload: Vec::new(),
            quiet: 0,
            delete_target: None,
        };
        proof {
            assert(first_index(seq![], 59u8, 0, 0) == 0);
        }
        r
    }
}

/// The error that ends a decode of a non-empty payload, given the decoder's result.
pub fn payload_from_decoded(decoded: Result<Vec<u8>, base64::DecodeError>) -> (r: Result<
    Vec<u8>,
    GraphicsError,
>)
    ensures
        match decoded {
            Ok(v) => r matches Ok(w) && w@ == v@,
            Err(_) => r matches Err(GraphicsError::Base64Decode(_)),
        },
{
    match decoded {
        Ok(v) => Ok(v),
        Err(e) => Err(GraphicsError::Base64Decode(e)),
    }
}

impl KittyCommand {
    /// Decode the base64 payload into raw bytes.
    pub fn decode_payload(&self) -> (r: Result<Vec<u8>, GraphicsError>)
        ensures
            self.payload@.len() == 0 ==> (r matches Ok(v) && v@ == Seq::<u8>::empty()),
            self.payload@.len() > 0 ==> match base64_standard_decode(self.payload@) {
                Some(d) => r matches Ok(v) && v@ == d,
                None => r matches Err(GraphicsError::Base64Decode(_)),
            },
    {
        if self.payload.len() == 0 {
            return Ok(Vec::new());
        }
        payload_from_decoded(decode_base64_standard(self.payload.as_slice()))
    }
}

/// Index of the first `b` in `input[from..to)`, or `to`.
fn find_byte(input: &[u8], b: u8, from: usize, to: usize) -> (r: usize)
    requires
        from <= to <= input@.len(),
    ensures
        r == first_index(input@, b, from as int, to as int),
{
    let mut i = from;
    while i < to
        invariant
            from <= i <= to <= input@.len(),
            first_index(input@, b, from as int, to as int) == first_index(
                input@,
                b,
                i as int,
                to as int,
            ),
        decreases to - i,
    {
        if input[i] == b {
            return i;
        }
        i += 1;
    }
    i
}

/// Whether `input[s..e)` is the single byte `c1` or `c2`.
fn value_is_one_of(input: &[u8], s: usize, e: usize, c1: u8, c2: u8) -> (r: bool)
    requires
        s <= e <= input@.len(),
    ensures
        r == (input@.subrange(s as int, e as int) == seq![c1] || input@.subrange(s as int, e as int)
            == seq![c2]),
{
    let r = e - s == 1 && (input[s] == c1 || input[s] == c2);
    proof {
        let v = input@.subrange(s as int, e as int);
        assert(seq![c1].len() == 1 && seq![c1][0] == c1);
        assert(seq![c2].len() == 1 && seq![c2][0] == c2);
        if e - s == 1 {
            assert(v =~= seq![input@[s as int]]);
        }
    }
    r
}

/// A stretch of valid UTF-8 that starts at the start or after an ASCII byte,
/// and ends at the end or at an ASCII byte, is valid UTF-8.
proof fn lemma_ascii_delimited_utf8(s: Seq<u8>, a: int, b: int)
    requires
        valid_utf8(s),
        0 <= a <= b <= s.len(),
        a == 0 || s[a - 1] < 128,
        b == s.len() || s[b] < 128,
    ensures
        valid_utf8(s.subrange(a, b)),
{
    let p = s.subrange(0, b);
    if b < s.len() {
        vstd::utf8::is_char_boundary_iff_not_is_continuation_byte(s, b);
        vstd::utf8::valid_utf8_split(s, b);
    } else {
        assert(p =~= s);
    }
    if a > 0 {
        vstd::utf8::is_char_boundary_iff_not_is_continuation_byte(p, a - 1);
        vstd::utf8::valid_utf8_split(p, a - 1);
        let t = p.subrange(a - 1, p.len() as int);
        assert(t[0] == s[a - 1]);
        assert(vstd::utf8::pop_first_scalar(t) =~= s.subrange(a, b));
    } else {
        assert(p =~= s.subrange(a, b));
    }
}

/// "invalid {context}: {error}"
fn invalid_value_message(context: &str, e: IntError) -> (r: String)
    ensures
        r@ == invalid_message(context@, e),
{
    let mut m = String::from_str("invalid ");
    m.append(context);
    m.append(": ");
    let detail = e.message();
    m.append(detail.as_str());
    m
}

/// Reads `input[s..e)` as a `u32`, naming `context` in the error message.
fn parse_u32(input: &[u8], s: usize, e: usize, context: &str) -> (r: Result<u32, String>)
    requires
        s <= e <= input@.len(),
    ensures
        match (r, spec_parse_u32(input@.subrange(s as int, e as int))) {
            (Ok(v), Some(w)) => v == w,
            (Err(m), None) => m@ == invalid_message(
                context@,
                unsigned_error(input@.subrange(s as int, e as int), u32::MAX as nat),
            ),
            _ => false,
        },
{
    match parse_unsigned(input, s, e, 4294967295) {
        Ok(v) => Ok(v as u32),
        Err(err) => Err(invalid_value_message(context, err)),
    }
}

/// Sets the field of a `u32` key.
fn set_u32_field_exec(st: KittyParams, k: u8, n: u32) -> (r: KittyParams)
    requires
        is_u32_key(k),
    ensures
        r == set_u32_field(st, k, n),
{
    if k == 105u8 {
        KittyParams { image_id: n, ..st }
    } else if k == 112u8 {
        KittyParams { placement_id: n, ..st }
    } else if k == 115u8 {
        KittyParams { width: n, ..st }
    } else if k == 118u8 {
        KittyParams { height: n, ..st }
    } else if k == 99u8 {
        KittyParams { display_columns: n, ..st }
    } else if k == 114u8 {
        KittyParams { display_rows: n, ..st }
    } else if k == 120u8 {
        KittyParams { source_x: n, ..st }
    } else if k == 121u8 {
        KittyParams { source_y: n, ..st }
    } else if k == 119u8 {
        KittyParams { source_width: n, ..st }
    } else {
        KittyParams { source_height: n, ..st }
    }
}

/// How the field of a `u32` key is named in error messages.
fn u32_key_context(k: u8) -> (r: &'static str)
    ensures
        r@ == u32_key_name(k),
{
    if k == 105u8 {
        "image id"
    } else if k == 112u8 {
        "placement id"
    } else if k == 115u8 {
        "width"
    } else if k == 118u8 {
        "height"
    } else if k == 99u8 {
        "display columns"
    } else if k == 114u8 {
        "display rows"
    } else if k == 120u8 {
        "source x"
    } else if k == 121u8 {
        "source y"
    } else if k == 119u8 {
        "source width"
    } else {
        "source height"
    }
}

/// Reads an `a` value.
fn action_value(input: &[u8], vs: usize, ve: usize) -> (r: KittyAction)
    requires
        vs <= ve <= input@.len(),
    ensures
        r == spec_action(input@.subrange(vs as int, ve as int)),
{
    if value_is_one_of(input, vs, ve, 116u8, 84u8) {
        KittyAction::Transmit
    } else if value_is_one_of(input, vs, ve, 112u8, 80u8) {
        KittyAction::TransmitAndDisplay
    } else if value_is_one_of(input, vs, ve, 100u8, 68u8) {
        KittyAction::Delete
    } else if value_is_one_of(input, vs, ve, 113u8, 81u8) {
        KittyAction::Query
    } else if value_is_one_of(input, vs, ve, 102u8, 70u8) {
        KittyAction::AnimationFrame
    } else {
        KittyAction::TransmitAndDisplay
    }
}

/// Reads a `t` value.
fn transmission_value(input: &[u8], vs: usize, ve: usize) -> (r: TransmissionMode)
    requires
        vs <= ve <= input@.len(),
    ensures
        r == spec_transmission(input@.subrange(vs as int, ve as int)),
{
    if value_is_one_of(input, vs, ve, 102u8, 70u8) {
        TransmissionMode::File
    } else if value_is_one_of(input, vs, ve, 116u8, 84u8) {
        TransmissionMode::TempFile
    } else if value_is_one_of(input, vs, ve, 115u8, 83u8) {
        TransmissionMode::SharedMemory
    } else {
        TransmissionMode::Direct
    }
}

/// Reads an `f` value.
fn format_value(input: &[u8], vs: usize, ve: usize) -> (r: Result<PixelFormat, String>)
    requires
        vs <= ve <= input@.len(),
        valid_utf8(input@.subrange(vs as int, ve as int)),
    ensures
        match (r, spec_format(input@.subrange(vs as int, ve as int))) {
            (Ok(f), Some(g)) => f == g,
            (Err(m), None) => m@ == "unsupported format: "@ + decode_utf8(
                input@.subrange(vs as int, ve as int),
            ),
            _ => false,
        },
{
    let ghost v = input@.subrange(vs as int, ve as int);
    let len = ve - vs;
    proof {
        if len == 2 {
            assert(v =~= seq![input@[vs as int], input@[vs + 1]]);
        } else if len == 3 {
            assert(v =~= seq![input@[vs as int], input@[vs + 1], input@[vs + 2]]);
        }
        let s24 = seq![50u8, 52u8];
        let s32 = seq![51u8, 50u8];
        let s100 = seq![49u8, 48u8, 48u8];
        assert(s24[0] == 50u8 && s24[1] == 52u8 && s24.len() == 2);
        assert(s32[0] == 51u8 && s32[1] == 50u8 && s32.len() == 2);
        assert(s100[0] == 49u8 && s100[1] == 48u8 && s100[2] == 48u8 && s100.len() == 3);
    }
    if len == 2 && input[vs] == 50u8 && input[vs + 1] == 52u8 {
        Ok(PixelFormat::Rgb)
    } else if len == 2 && input[vs] == 51u8 && input[vs + 1] == 50u8 {
        Ok(PixelFormat::Rgba)
    } else if len == 3 && input[vs] == 49u8 && input[vs + 1] == 48u8 && input[vs + 2] == 48u8 {
        Ok(PixelFormat::Png)
    } else {
        let mut m = String::from_str("unsupported format: ");
        let text = lossy_text(vstd::slice::slice_subrange(input, vs, ve));
        m.append(text.as_str());
        Err(m)
    }
}

/// Applies one `key=value` pair (key `input[ks..eq)`, value `input[eq+1..ve)`).
#[verifier::spinoff_prover]
#[verifier::rlimit(60)]
fn apply_pair_exec(st: KittyParams, input: &[u8], ks: usize, eq: usize, ve: usize) -> (r: Result<
    KittyParams,
    String,
>)
    requires
        ks <= eq < ve <= input@.len(),
        valid_utf8(input@),
        input@[eq as int] == 61u8,
        ve == input@.len() || input@[ve as int] < 128,
    ensures
        match (r, apply_pair(st, input@, ks as int, eq as int, ve as int)) {
            (Ok(p), Some(q)) => p == q,
            (Err(m), None) => m@ == pair_error(input@, ks as int, eq as int, ve as int),
            _ => false,
        },
{
    let vs = eq + 1;
    if eq - ks != 1 {
        return Ok(st);
    }
    let k = input[ks];
    if k == 97u8 {
        let action = action_value(input, vs, ve);
        Ok(KittyParams { action, action_given: true, ..st })
    } else if k == 105u8 || k == 112u8 || k == 115u8 || k == 118u8 || k == 99u8 || k == 114u8
        || k == 120u8 || k == 121u8 || k == 119u8 || k == 104u8 {
        match parse_u32(input, vs, ve, u32_key_context(k)) {
            Ok(n) => Ok(set_u32_field_exec(st, k, n)),
            Err(m) => Err(m),
        }
    } else if k == 102u8 {
        proof {
            lemma_ascii_delimited_utf8(input@, vs as int, ve as int);
        }
        match format_value(input, vs, ve) {
            Ok(format) => Ok(KittyParams { format, ..st }),
            Err(m) => Err(m),
        }
    } else if k == 116u8 {
        let transmission = transmission_value(input, vs, ve);
        Ok(KittyParams { transmission, ..st })
    } else if k == 111u8 {
        let compression = if value_is_one_of(input, vs, ve, 122u8, 122u8) {
            Compression::Zlib
        } else {
            Compression::Uncompressed
        };
        Ok(KittyParams { compression, ..st })
    } else if k == 109u8 {
        let more_data = value_is_one_of(input, vs, ve, 49u8, 49u8);
        Ok(KittyParams { more_data, ..st })
    } else if k == 122u8 {
        match parse_i32_range(input, vs, ve) {
            Ok(n) => Ok(KittyParams { z_index: n, ..st }),
            Err(e) => Err(invalid_value_message("z-index", e)),
        }
    } else if k == 113u8 {
        match parse_unsigned(input, vs, ve, 255) {
            Ok(n) => Ok(KittyParams { quiet: n as u8, ..st }),
            Err(e) => Err(invalid_value_message("quiet", e)),
        }
    } else if k == 100u8 {
        if ve == vs {
            Ok(st)
        } else if ve - vs > 1 {
            Ok(
                KittyParams {
                    delete_specifier: Some(input[vs]),
                    delete_value: Some((vs + 1, ve)),
                    ..st
                },
            )
        } else {
            Ok(KittyParams { delete_specifier: Some(input[vs]), ..st })
        }
    } else {
        Ok(st)
    }
}

/// Parse a Kitty graphics protocol command from the content between APC G and ST.
///
/// Format: `key=value,key=value,...;base64data`. Unknown keys are ignored.
/// An input that is not UTF-8, a pair without `=`, a number that does not
/// parse or an unsupported format gives `GraphicsError::ParseError`.
pub fn parse_kitty_command(input: &[u8]) -> (r: Result<KittyCommand, GraphicsError>)
    ensures
        match spec_kitty_params(input@) {
            None => r matches Err(GraphicsError::ParseError(m)) && m@ == spec_kitty_error(input@),
            Some(p) => r matches Ok(cmd) && cmd.built_from(p, input@),
        },
{
    match utf8_error(input) {
        Some(e) => {
            let mut m = String::from_str("invalid UTF-8: ");
            m.append(e.as_str());
            return Err(GraphicsError::ParseError(m));
        },
        None => {},
    }
    let len = input.len();
    let semi = find_byte(input, 59u8, 0, len);
    proof {
        lemma_first_index(input@, 59u8, 0, len as int);
    }
    let mut st = KittyParams {
        action: KittyAction::Transmit,
        image_id: 0,
        placement_id: 0,
        width: 0,
        height: 0,
        format: PixelFormat::Rgba,
        transmission: TransmissionMode::Direct,
        compression: Compression::Uncompressed,
        more_data: false,
        display_columns: 0,
        display_rows: 0,
        source_x: 0,
        source_y: 0,
        source_width: 0,
        source_height: 0,
        z_index: 0,
        quiet: 0,
        delete_specifier: None,
        delete_value: None,
        action_given: false,
    };
    let mut start: usize = 0;
    loop
        invariant_except_break
            start <= semi,
            process_params(initial_params(), input@, 0, semi as int) == process_params(
                st,
                input@,
                start as int,
                semi as int,
            ),
            params_error(initial_params(), input@, 0, semi as int) == params_error(
                st,
                input@,
                start as int,
                semi as int,
            ),
            start == 0 || input@[start - 1] == 44u8,
        invariant
            semi == params_end(input@),
            semi <= len == input@.len(),
            semi == len || input@[semi as int] == 59u8,
            valid_utf8(input@),
            forall|a: usize, b: usize|
                #[trigger] st.delete_value == Some((a, b)) ==> a <= b <= semi,
        ensures
            process_params(initial_params(), input@, 0, semi as int) == Some(st),
        decreases semi - start,
    {
        let seg_end = find_byte(input, 44u8, start, semi);
        proof {
            lemma_first_index(input@, 44u8, start as int, semi as int);
        }
        if seg_end > start {
            let eq = find_byte(input, 61u8, start, seg_end);
            proof {
                lemma_first_index(input@, 61u8, start as int, seg_end as int);
            }
            proof {
                lemma_ascii_delimited_utf8(input@, start as int, seg_end as int);
            }
            if eq == seg_end {
                let mut m = String::from_str("invalid key-value pair: ");
                let text = lossy_text(vstd::slice::slice_subrange(input, start, seg_end));
                m.append(text.as_str());
                return Err(GraphicsError::ParseError(m));
            }
            match apply_pair_exec(st, input, start, eq, seg_end) {
                Ok(next) => {
                    st = next;
                },
                Err(m) => {
                    return Err(GraphicsError::ParseError(m));
                },
            }
        }
        if seg_end == semi {
            break ;
        }
        start = seg_end + 1;
    }
    let payload = if semi < len {
        vstd::slice::slice_to_vec(vstd::slice::slice_subrange(input, semi + 1, len))
    } else {
        Vec::new()
    };
    let delete_target = if st.action == KittyAction::Delete {
        let target = match st.delete_specifier {
            Some(c) => {
                if c == 97u8 || c == 65u8 {
                    DeleteTarget::All
                } else if c == 105u8 || c == 73u8 {
                    if st.image_id > 0 {
                        if st.placement_id > 0 {
                            DeleteTarget::ByPlacement {
                                image_id: ImageId(st.image_id),
                                placement_id: st.placement_id,
                            }
                        } else {
                            DeleteTarget::ById(ImageId(st.image_id))
                        }
                    } else {
                        DeleteTarget::All
                    }
                } else if c == 99u8 || c == 67u8 {
                    DeleteTarget::AtCursor
                } else if c == 112u8 || c == 80u8 {
                    let column = match st.delete_value {
                        Some((a, b)) => match parse_unsigned(input, a, b, 4294967295) {
                            Ok(n) => n as u32,
                            Err(_) => 0,
                        },
                        None => 0,
                    };
                    DeleteTarget::InRange { column, row: 0 }
                } else {
                    DeleteTarget::All
                }
            },
            None => DeleteTarget::All,
        };
        Some(target)
    } else {
        None
    };
    let action = if !st.action_given && payload.len() > 0 {
        KittyAction::TransmitAndDisplay
    } else {
        st.action
    };
    Ok(
        KittyCommand {
            action,
            image_id: st.image_id,
            placement_id: st.placement_id,
            width: st.width,
            height: st.height,
            format: st.format,
            transmission: st.transmission,
            compression: st.compression,
            more_data: st.more_data,
            display_columns: st.display_columns,
            display_rows: st.display_rows,
            source_x: st.source_x,
            source_y: st.source_y,
            source_width: st.source_width,
            source_height: st.source_height,
            z_index: st.z_index,
            payload,
            quiet: st.quiet,
            delete_target,
        },
    )
}

} // verus!
