//! Length-prefix framing for IPC message transport.
//!
//! A frame is a 4-byte big-endian payload length followed by the payload.

use vstd::prelude::*;
use crate::text::{decimal, u64_to_string};

verus! {

/// Maximum frame payload size (16 MB).
pub const MAX_FRAME_SIZE: usize = 16777216;

/// Errors that can occur during frame encoding/decoding.
#[derive(Debug, PartialEq, Eq, Structural)]
pub enum FrameError {
    /// The message exceeds [`MAX_FRAME_SIZE`].
    MessageTooLarge(usize),
}

/// The four big-endian bytes of `n`.
pub open spec fn be_bytes(n: u32) -> Seq<u8> {
    seq![
        (n / 16777216) as u8,
        (n / 65536 % 256) as u8,
        (n / 256 % 256) as u8,
        (n % 256) as u8,
    ]
}

/// The value of four big-endian bytes.
pub open spec fn be_value(b: Seq<u8>) -> nat
    recommends
        b.len() >= 4,
{
    (b[0] as nat) * 16777216 + (b[1] as nat) * 65536 + (b[2] as nat) * 256 + (b[3] as nat)
}

/// What encoding `msg` gives: the frame bytes, or the length that is too large.
pub open spec fn spec_encode_frame(msg: Seq<u8>) -> Result<Seq<u8>, usize> {
    if msg.len() > MAX_FRAME_SIZE {
        Err(msg.len() as usize)
    } else {
        Ok(be_bytes(msg.len() as u32) + msg)
    }
}

/// What decoding `buf` gives: `Ok(None)` when more bytes are needed,
/// `Ok(Some((consumed, payload)))` for a complete frame, `Err(len)` when
/// the announced length is over the limit.
pub open spec fn spec_decode_frame(buf: Seq<u8>) -> Result<Option<(int, Seq<u8>)>, nat> {
    if buf.len() < 4 {
        Ok(None)
    } else if be_value(buf) > MAX_FRAME_SIZE {
        Err(be_value(buf))
    } else if buf.len() < 4 + be_value(buf) {
        Ok(None)
    } else {
        Ok(Some((4 + be_value(buf) as int, buf.subrange(4, 4 + be_value(buf) as int))))
    }
}

impl FrameError {
    /// Human-readable description of the error.
    pub fn message(&self) -> (s: String)
        ensures
            match self {
                FrameError::MessageTooLarge(size) => s@ == "message too large: "@ + decimal(
                    *size as nat,
                ) + " bytes (max 16777216)"@,
            },
    {
        match self {
            FrameError::MessageTooLarge(size) => {
                let mut s = String::from_str("message too large: ");
                let n = u64_to_string(*size as u64);
                s.append(n.as_str());
                s.append(" bytes (max 16777216)");
                s
            },
        }
    }
}

proof fn lemma_be_roundtrip(n: u32)
    ensures
        be_value(be_bytes(n)) == n,
        be_bytes(n).len() == 4,
{
    let b0 = n / 16777216;
    let b1 = n / 65536 % 256;
    let b2 = n / 256 % 256;
    let b3 = n % 256;
    assert(b0 < 256);
    assert(b0 * 16777216 + b1 * 65536 + b2 * 256 + b3 == n) by (nonlinear_arith)
        requires
            b0 == n / 16777216,
            b1 == n / 65536 % 256,
            b2 == n / 256 % 256,
            b3 == n % 256,
    ;
}

/// Encode a message with a 4-byte big-endian length prefix.
pub fn encode_frame(msg: &[u8]) -> (r: Result<Vec<u8>, FrameError>)
    ensures
        match (r, spec_encode_frame(msg@)) {
            (Ok(v), Ok(f)) => v@ == f,
            (Err(FrameError::MessageTooLarge(n)), Err(m)) => n == m,
            _ => false,
        },
{
    if msg.len() > MAX_FRAME_SIZE {
        return Err(FrameError::MessageTooLarge(msg.len()));
    }
    let len: u32 = msg.len() as u32;
    let mut frame: Vec<u8> = Vec::with_capacity(4 + msg.len());
    frame.push((len / 16777216) as u8);
    frame.push((len / 65536 % 256) as u8);
    frame.push((len / 256 % 256) as u8);
    frame.push((len % 256) as u8);
    frame.extend_from_slice(msg);
    proof {
        assert(frame@ =~= be_bytes(len) + msg@);
    }
    Ok(frame)
}

/// Decode a frame from a buffer.
///
/// Returns `Ok(Some((total_consumed_bytes, payload)))` if a complete frame is
/// available, `Ok(None)` if the buffer is incomplete, or `Err` if the frame
/// exceeds the size limit.
pub fn decode_frame(buf: &[u8]) -> (r: Result<Option<(usize, Vec<u8>)>, FrameError>)
    ensures
        match (r, spec_decode_frame(buf@)) {
            (Ok(None), Ok(None)) => true,
            (Ok(Some((n, v))), Ok(Some((m, p)))) => n == m && v@ == p,
            (Err(FrameError::MessageTooLarge(n)), Err(m)) => n == m,
            _ => false,
        },
{
    if buf.len() < 4 {
        return Ok(None);
    }
    let len: usize = (buf[0] as usize) * 16777216 + (buf[1] as usize) * 65536 + (buf[2] as usize)
        * 256 + (buf[3] as usize);
    if len > MAX_FRAME_SIZE {
        return Err(FrameError::MessageTooLarge(len));
    }
    if buf.len() < 4 + len {
        return Ok(None);
    }
    let payload = vstd::slice::slice_to_vec(&buf[4..4 + len]);
    Ok(Some((4 + len, payload)))
}

/// Law: a frame decodes to the message it was encoded from, however many
/// bytes follow it in the buffer.
pub proof fn lemma_frame_round_trip(msg: Seq<u8>, rest: Seq<u8>)
    requires
        msg.len() <= MAX_FRAME_SIZE,
    ensures
        spec_encode_frame(msg) is Ok,
        spec_decode_frame(spec_encode_frame(msg)->Ok_0 + rest) == Ok::<Option<(int, Seq<u8>)>, nat>(
            Some((4 + msg.len() as int, msg)),
        ),
{
    let len = msg.len() as u32;
    lemma_be_roundtrip(len);
    let buf = be_bytes(len) + msg + rest;
    assert(spec_encode_frame(msg)->Ok_0 + rest =~= buf);
    assert(be_value(buf) == be_value(be_bytes(len)));
    assert(buf.subrange(4, 4 + msg.len() as int) =~= msg);
}

/// Law: taking a decoded frame off a buffer leaves exactly the bytes that
/// followed it, so frames sent back to back are read one after the other.
pub proof fn lemma_frame_leaves_rest(msg: Seq<u8>, rest: Seq<u8>)
    requires
        msg.len() <= MAX_FRAME_SIZE,
    ensures
        ({
            let buf = spec_encode_frame(msg)->Ok_0 + rest;
            buf.subrange(4 + msg.len() as int, buf.len() as int) == rest
        }),
{
    lemma_be_roundtrip(msg.len() as u32);
    let buf = spec_encode_frame(msg)->Ok_0 + rest;
    assert(buf.subrange(4 + msg.len() as int, buf.len() as int) =~= rest);
}

/// Law: encoding fails exactly for messages over the size limit.
pub proof fn lemma_encode_rejects_only_oversized(msg: Seq<u8>)
    ensures
        spec_encode_frame(msg) is Err <==> msg.len() > MAX_FRAME_SIZE,
{
}

} // verus!
