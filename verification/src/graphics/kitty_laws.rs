//! Properties of the Kitty command parser over whole families of commands:
//! what a transmit, delete, display, chunked or compressed command built
//! from arbitrary numbers parses to, and what each key's pair does to the
//! parameters read before it.

use vstd::prelude::*;
use vstd::utf8::valid_utf8;
use crate::graphics::kitty::{
    apply_pair, first_index, initial_params, spec_action, spec_payload, params_end, process_params, spec_delete_target,
    spec_kitty_params, Compression, DeleteTarget, KittyAction, KittyParams,
};
use crate::graphics::numparse::{
    all_digits, digits_value, is_digit, lemma_parse_u32_digits, spec_parse_i32, spec_parse_u32,
    unsigned_part,
};
use crate::graphics::types::{ImageId, PixelFormat, TransmissionMode};

verus! {

/// The ASCII decimal digits of a number.
pub open spec fn decimal_bytes(n: nat) -> Seq<u8>
    decreases n,
{
    if n < 10 {
        seq![(n + 48) as u8]
    } else {
        decimal_bytes(n / 10).push((n % 10 + 48) as u8)
    }
}

/// The decimal digits of a number are digits, and read back as it.
pub proof fn lemma_decimal_bytes(n: nat)
    ensures
        decimal_bytes(n).len() > 0,
        all_digits(decimal_bytes(n)),
        digits_value(decimal_bytes(n)) == n,
    decreases n,
{
    assert(((n % 10 + 48) as u8) as int == n % 10 + 48);
    if n >= 10 {
        lemma_decimal_bytes(n / 10);
        assert(decimal_bytes(n).drop_last() =~= decimal_bytes(n / 10));
        assert(decimal_bytes(n).last() == (n % 10 + 48) as u8);
        assert((n / 10) * 10 + n % 10 == n) by (nonlinear_arith);
        assert(digits_value(decimal_bytes(n)) == digits_value(decimal_bytes(n / 10)) * 10 + n % 10);
    } else {
        assert(decimal_bytes(n).drop_last() =~= Seq::<u8>::empty());
        assert(decimal_bytes(n).last() == (n + 48) as u8);
        assert(n % 10 == n);
        assert(digits_value(Seq::<u8>::empty()) == 0);
        assert(digits_value(decimal_bytes(n)) == n);
    }
}

/// A `u32` in decimal reads back as itself.
pub proof fn lemma_parse_decimal_u32(n: u32)
    ensures
        spec_parse_u32(decimal_bytes(n as nat)) == Some(n),
{
    lemma_decimal_bytes(n as nat);
    lemma_parse_u32_digits(decimal_bytes(n as nat));
}

/// An `i32` written in decimal, with `-` before a negative one, reads back
/// as itself.
pub proof fn lemma_parse_decimal_i32(z: i32)
    ensures
        spec_parse_i32(signed_decimal_bytes(z)) == Some(z),
{
    if z < 0 {
        let m: nat = (0 - z) as nat;
        lemma_decimal_bytes(m);
        assert(signed_decimal_bytes(z).drop_first() =~= decimal_bytes(m));
    } else {
        lemma_decimal_bytes(z as nat);
        assert(is_digit(decimal_bytes(z as nat)[0]));
    }
}

/// An `i32` in decimal, with `-` before a negative one.
pub open spec fn signed_decimal_bytes(z: i32) -> Seq<u8> {
    if z < 0 {
        seq![45u8] + decimal_bytes((0 - z) as nat)
    } else {
        decimal_bytes(z as nat)
    }
}

/// `first_index` finds the first occurrence.
proof fn lemma_first_index_at(s: Seq<u8>, b: u8, from: int, to: int, x: int)
    requires
        from <= x <= to,
        forall|k: int| from <= k < x ==> s[k] != b,
        x < to ==> s[x] == b,
    ensures
        first_index(s, b, from, to) == x,
    decreases x - from,
{
    if from < x {
        lemma_first_index_at(s, b, from + 1, to, x);
    }
}

/// Reading the pair `k=...` at `start`, ended by the comma at `c` before
/// `end`: its result, then the pairs after the comma.
proof fn lemma_process_pair(st: KittyParams, s: Seq<u8>, start: int, end: int, c: int)
    requires
        0 <= start,
        start + 1 < c < end <= s.len(),
        s[c] == 44u8,
        forall|k: int| start <= k < c ==> s[k] != 44u8,
        s[start] != 61u8,
        s[start + 1] == 61u8,
    ensures
        process_params(st, s, start, end) == match apply_pair(st, s, start, start + 1, c) {
            None => None,
            Some(st2) => process_params(st2, s, c + 1, end),
        },
{
    lemma_first_index_at(s, 44u8, start, end, c);
    lemma_first_index_at(s, 61u8, start, c, start + 1);
}

/// Reading the last pair `k=...`, which runs from `start` to `end`.
proof fn lemma_process_last_pair(st: KittyParams, s: Seq<u8>, start: int, end: int)
    requires
        0 <= start,
        start + 1 < end <= s.len(),
        forall|k: int| start <= k < end ==> s[k] != 44u8,
        s[start] != 61u8,
        s[start + 1] == 61u8,
    ensures
        process_params(st, s, start, end) == apply_pair(st, s, start, start + 1, end),
{
    lemma_first_index_at(s, 44u8, start, end, end);
    lemma_first_index_at(s, 61u8, start, end, start + 1);
}

/// ASCII bytes are valid UTF-8.
proof fn lemma_ascii_valid_utf8(s: Seq<u8>)
    requires
        forall|i: int| 0 <= i < s.len() ==> s[i] < 128,
    ensures
        valid_utf8(s),
{
    assert(s.subrange(0, 0) =~= Seq::<u8>::empty());
    assert forall|i: int| 0 <= 0 <= i < s.len() <= s.len() implies #[trigger] vstd::utf8::is_leading_byte_width_1(s[i]) by {}
    vstd::utf8::partial_valid_utf8_extend_ascii_block(s, 0, s.len() as int);
    assert(s.subrange(0, s.len() as int) =~= s);
}

/// The command `a=d,d=i,i=<id>`: delete the image `id`.
pub open spec fn delete_by_id_command(id: u32) -> Seq<u8> {
    seq![97u8, 61u8, 100u8, 44u8, 100u8, 61u8, 105u8, 44u8, 105u8, 61u8] + decimal_bytes(id as nat)
}

/// `a=d,d=i,i=<id>` is a delete of exactly the image `id`, for every
/// non-zero `id`.
pub proof fn lemma_delete_by_id_command(id: u32)
    requires
        id > 0,
    ensures
        spec_kitty_params(delete_by_id_command(id)) matches Some(p) && p.action == KittyAction::Delete
            && p.action_given && spec_delete_target(p, delete_by_id_command(id)) == DeleteTarget::ById(
            ImageId(id),
        ),
{
    let s = delete_by_id_command(id);
    let d = decimal_bytes(id as nat);
    lemma_decimal_bytes(id as nat);
    assert forall|k: int| 10 <= k < s.len() implies is_digit(#[trigger] s[k]) by {
        assert(s[k] == d[k - 10]);
    }
    lemma_ascii_valid_utf8(s);
    lemma_first_index_at(s, 59u8, 0, s.len() as int, s.len() as int);
    let st0 = initial_params();
    lemma_process_pair(st0, s, 0, s.len() as int, 3);
    assert(s.subrange(2, 3) =~= seq![100u8]);
    let st1 = KittyParams { action: KittyAction::Delete, action_given: true, ..st0 };
    assert(apply_pair(st0, s, 0, 1, 3) == Some(st1));
    lemma_process_pair(st1, s, 4, s.len() as int, 7);
    assert(s.subrange(6, 7) =~= seq![105u8]);
    let st2 = KittyParams { delete_specifier: Some(105u8), ..st1 };
    assert(apply_pair(st1, s, 4, 5, 7) == Some(st2));
    lemma_process_last_pair(st2, s, 8, s.len() as int);
    assert(s.subrange(10, s.len() as int) =~= d);
    lemma_parse_decimal_u32(id);
    let st3 = KittyParams { image_id: id, ..st2 };
    assert(apply_pair(st2, s, 8, 9, s.len() as int) == Some(st3));
    assert(process_params(st0, s, 0, s.len() as int) == Some(st3));
}

/// The command `a=t,f=32,s=<width>,v=<height>,i=<id>;<payload>`.
#[verifier::opaque]
pub open spec fn transmit_command(width: u32, height: u32, id: u32, payload: Seq<u8>) -> Seq<u8> {
    seq![97u8, 61u8, 116u8, 44u8, 102u8, 61u8, 51u8, 50u8, 44u8, 115u8, 61u8] + decimal_bytes(
        width as nat,
    ) + seq![44u8, 118u8, 61u8] + decimal_bytes(height as nat) + seq![44u8, 105u8, 61u8]
        + decimal_bytes(id as nat) + seq![59u8] + payload
}

/// Where the bytes of a transmit command are: digits in the three number
/// fields, commas and the `;` at their ends, ASCII before the `;`.
proof fn lemma_transmit_bytes(width: u32, height: u32, id: u32, payload: Seq<u8>)
    ensures
        ({
            let s = transmit_command(width, height, id, payload);
            let lw = decimal_bytes(width as nat).len() as int;
            let lh = decimal_bytes(height as nat).len() as int;
            let li = decimal_bytes(id as nat).len() as int;
            let e = 17 + lw + lh + li;
            &&& s.len() == e + 1 + payload.len()
            &&& s.subrange(0, 11) =~= seq![97u8, 61u8, 116u8, 44u8, 102u8, 61u8, 51u8, 50u8, 44u8, 115u8, 61u8]
            &&& s.subrange(11, 11 + lw) =~= decimal_bytes(width as nat)
            &&& s.subrange(11 + lw, 14 + lw) =~= seq![44u8, 118u8, 61u8]
            &&& s.subrange(14 + lw, 14 + lw + lh) =~= decimal_bytes(height as nat)
            &&& s.subrange(14 + lw + lh, 17 + lw + lh) =~= seq![44u8, 105u8, 61u8]
            &&& s.subrange(17 + lw + lh, e) =~= decimal_bytes(id as nat)
            &&& s[e] == 59u8
            &&& s.subrange(e + 1, s.len() as int) =~= payload
        }),
{
    let p1 = seq![97u8, 61u8, 116u8, 44u8, 102u8, 61u8, 51u8, 50u8, 44u8, 115u8, 61u8];
    let w = decimal_bytes(width as nat);
    let h = decimal_bytes(height as nat);
    let i = decimal_bytes(id as nat);
    let x1 = p1 + w;
    let x2 = x1 + seq![44u8, 118u8, 61u8];
    let x3 = x2 + h;
    let x4 = x3 + seq![44u8, 105u8, 61u8];
    let x5 = x4 + i;
    let x6 = x5 + seq![59u8];
    let s = x6 + payload;
    reveal(transmit_command);
    assert(s == transmit_command(width, height, id, payload));
    assert(s.subrange(0, x6.len() as int) =~= x6);
    assert(x6.subrange(0, x5.len() as int) =~= x5);
    assert(x5.subrange(0, x4.len() as int) =~= x4);
    assert(x4.subrange(0, x3.len() as int) =~= x3);
    assert(x3.subrange(0, x2.len() as int) =~= x2);
    assert(x2.subrange(0, x1.len() as int) =~= x1);
    assert(x1.subrange(0, 11) =~= p1);
    assert(x1.subrange(11, x1.len() as int) =~= w);
    assert(x2.subrange(x1.len() as int, x2.len() as int) =~= seq![44u8, 118u8, 61u8]);
    assert(x3.subrange(x2.len() as int, x3.len() as int) =~= h);
    assert(x4.subrange(x3.len() as int, x4.len() as int) =~= seq![44u8, 105u8, 61u8]);
    assert(x5.subrange(x4.len() as int, x5.len() as int) =~= i);
    assert(s.subrange(x6.len() as int, s.len() as int) =~= payload);
    assert(s.subrange(0, 11) =~= x1.subrange(0, 11));
    assert(s.subrange(11, x1.len() as int) =~= x1.subrange(11, x1.len() as int));
    assert(s.subrange(x1.len() as int, x2.len() as int) =~= x2.subrange(x1.len() as int, x2.len() as int));
    assert(s.subrange(x2.len() as int, x3.len() as int) =~= x3.subrange(x2.len() as int, x3.len() as int));
    assert(s.subrange(x3.len() as int, x4.len() as int) =~= x4.subrange(x3.len() as int, x4.len() as int));
    assert(s.subrange(x4.len() as int, x5.len() as int) =~= x5.subrange(x4.len() as int, x5.len() as int));
    assert(s[x5.len() as int] == x6[x5.len() as int]);
}

/// The bytes of a transmit command before its `;` are ASCII, with digits in
/// the number fields; the command is UTF-8 and its parameters end at the
/// `;`.
#[verifier::rlimit(30)]
proof fn lemma_transmit_layout(width: u32, height: u32, id: u32, payload: Seq<u8>)
    requires
        valid_utf8(payload),
    ensures
        ({
            let s = transmit_command(width, height, id, payload);
            let lw = decimal_bytes(width as nat).len() as int;
            let lh = decimal_bytes(height as nat).len() as int;
            let li = decimal_bytes(id as nat).len() as int;
            let e = 17 + lw + lh + li;
            &&& valid_utf8(s)
            &&& params_end(s) == e
            &&& e < s.len()
            &&& forall|k: int| 0 <= k < e && !(11 <= k < 11 + lw) && !(14 + lw <= k < 14 + lw + lh)
                && !(17 + lw + lh <= k < e) ==> #[trigger] s[k] == seq![
                97u8, 61u8, 116u8, 44u8, 102u8, 61u8, 51u8, 50u8, 44u8, 115u8, 61u8, 44u8, 118u8, 61u8, 44u8, 105u8, 61u8,
            ][if k < 11 {
                k
            } else if k < 14 + lw {
                k - lw
            } else {
                k - lw - lh
            }]
            &&& forall|k: int|
                (11 <= k < 11 + lw || 14 + lw <= k < 14 + lw + lh || 17 + lw + lh <= k < e) ==> is_digit(
                    #[trigger] s[k],
                )
        }),
{
    let s = transmit_command(width, height, id, payload);
    let w = decimal_bytes(width as nat);
    let h = decimal_bytes(height as nat);
    let i = decimal_bytes(id as nat);
    lemma_decimal_bytes(width as nat);
    lemma_decimal_bytes(height as nat);
    lemma_decimal_bytes(id as nat);
    lemma_transmit_bytes(width, height, id, payload);
    let lw = w.len() as int;
    let lh = h.len() as int;
    let li = i.len() as int;
    let e = 17 + lw + lh + li;
    let lit = seq![
        97u8, 61u8, 116u8, 44u8, 102u8, 61u8, 51u8, 50u8, 44u8, 115u8, 61u8, 44u8, 118u8, 61u8, 44u8, 105u8, 61u8,
    ];
    assert forall|k: int|
        (11 <= k < 11 + lw || 14 + lw <= k < 14 + lw + lh || 17 + lw + lh <= k < e) implies is_digit(
            #[trigger] s[k],
        ) by {
        if 11 <= k < 11 + lw {
            assert(s[k] == s.subrange(11, 11 + lw)[k - 11]);
        } else if 14 + lw <= k < 14 + lw + lh {
            assert(s[k] == s.subrange(14 + lw, 14 + lw + lh)[k - 14 - lw]);
        } else {
            assert(s[k] == s.subrange(17 + lw + lh, e)[k - 17 - lw - lh]);
        }
    }
    assert forall|k: int| 0 <= k < e && !(11 <= k < 11 + lw) && !(14 + lw <= k < 14 + lw + lh)
        && !(17 + lw + lh <= k < e) implies #[trigger] s[k] == lit[if k < 11 {
        k
    } else if k < 14 + lw {
        k - lw
    } else {
        k - lw - lh
    }] by {
        if k < 11 {
            assert(s[k] == s.subrange(0, 11)[k]);
        } else if k < 14 + lw {
            assert(s[k] == s.subrange(11 + lw, 14 + lw)[k - 11 - lw]);
        } else {
            assert(s[k] == s.subrange(14 + lw + lh, 17 + lw + lh)[k - 14 - lw - lh]);
        }
    }
    let head = s.subrange(0, e + 1);
    assert forall|k: int| 0 <= k < head.len() implies head[k] < 128 by {
        assert(head[k] == s[k]);
        if 11 <= k < 11 + lw || 14 + lw <= k < 14 + lw + lh || 17 + lw + lh <= k < e {
            assert(is_digit(s[k]));
        } else if k < e {
            assert(s[k] == lit[if k < 11 {
                k
            } else if k < 14 + lw {
                k - lw
            } else {
                k - lw - lh
            }]);
        }
    }
    lemma_ascii_valid_utf8(head);
    vstd::utf8::valid_utf8_concat(head, payload);
    assert(s =~= head + payload);
    assert forall|k: int| 0 <= k < e implies s[k] != 59u8 by {
        if 11 <= k < 11 + lw || 14 + lw <= k < 14 + lw + lh || 17 + lw + lh <= k < e {
            assert(is_digit(s[k]));
        } else {
            assert(s[k] == lit[if k < 11 {
                k
            } else if k < 14 + lw {
                k - lw
            } else {
                k - lw - lh
            }]);
        }
    }
    lemma_first_index_at(s, 59u8, 0, s.len() as int, e);
}

/// `a=t,f=32,s=<width>,v=<height>,i=<id>;<payload>` transmits RGBA data of
/// the given size for the given image, for all sizes, ids and UTF-8
/// payloads.
#[verifier::rlimit(30)]
pub proof fn lemma_transmit_command(width: u32, height: u32, id: u32, payload: Seq<u8>)
    requires
        valid_utf8(payload),
    ensures
        spec_kitty_params(transmit_command(width, height, id, payload)) matches Some(p) && p.action
            == KittyAction::Transmit && p.action_given && p.format == PixelFormat::Rgba && p.width
            == width && p.height == height && p.image_id == id,
        spec_payload(transmit_command(width, height, id, payload)) == payload,
{
    let s = transmit_command(width, height, id, payload);
    lemma_transmit_layout(width, height, id, payload);
    lemma_transmit_bytes(width, height, id, payload);
    let lw = decimal_bytes(width as nat).len() as int;
    let lh = decimal_bytes(height as nat).len() as int;
    let li = decimal_bytes(id as nat).len() as int;
    let e = 17 + lw + lh + li;
    let st0 = initial_params();
    assert(s[3] == 44u8 && s[0] == 97u8 && s[1] == 61u8);
    lemma_process_pair(st0, s, 0, e, 3);
    assert(s.subrange(2, 3) =~= seq![116u8]);
    let st1 = KittyParams { action: KittyAction::Transmit, action_given: true, ..st0 };
    assert(apply_pair(st0, s, 0, 1, 3) == Some(st1));
    assert(s[8] == 44u8 && s[4] == 102u8 && s[5] == 61u8 && s[6] == 51u8 && s[7] == 50u8);
    lemma_process_pair(st1, s, 4, e, 8);
    assert(s.subrange(6, 8) =~= seq![51u8, 50u8]);
    let st2 = KittyParams { format: PixelFormat::Rgba, ..st1 };
    assert(apply_pair(st1, s, 4, 5, 8) == Some(st2));
    assert(s[11 + lw] == 44u8 && s[9] == 115u8 && s[10] == 61u8);
    lemma_process_pair(st2, s, 9, e, 11 + lw);
    lemma_parse_decimal_u32(width);
    let st3 = KittyParams { width: width, ..st2 };
    assert(apply_pair(st2, s, 9, 10, 11 + lw) == Some(st3));
    assert(s[14 + lw + lh] == 44u8 && s[12 + lw] == 118u8 && s[13 + lw] == 61u8);
    lemma_process_pair(st3, s, 12 + lw, e, 14 + lw + lh);
    lemma_parse_decimal_u32(height);
    let st4 = KittyParams { height: height, ..st3 };
    assert(apply_pair(st3, s, 12 + lw, 13 + lw, 14 + lw + lh) == Some(st4));
    assert(s[15 + lw + lh] == 105u8 && s[16 + lw + lh] == 61u8);
    lemma_process_last_pair(st4, s, 15 + lw + lh, e);
    lemma_parse_decimal_u32(id);
    let st5 = KittyParams { image_id: id, ..st4 };
    assert(apply_pair(st4, s, 15 + lw + lh, 16 + lw + lh, e) == Some(st5));
}

/// The command `a=t,f=32,s=10,v=10,i=1,m=<0 or 1>;AAAA`, a chunk of a
/// transfer that is (`1`) or is not (`0`) followed by more.
pub open spec fn chunk_command(more: bool) -> Seq<u8> {
    seq![
        97u8, 61u8, 116u8, 44u8, 102u8, 61u8, 51u8, 50u8, 44u8, 115u8, 61u8, 49u8, 48u8, 44u8, 118u8,
        61u8, 49u8, 48u8, 44u8, 105u8, 61u8, 49u8, 44u8, 109u8, 61u8, if more { 49u8 } else { 48u8 },
        59u8, 65u8, 65u8, 65u8, 65u8,
    ]
}

/// The digits `10` and `1` read as numbers.
proof fn lemma_small_numbers()
    ensures
        spec_parse_u32(seq![49u8, 48u8]) == Some(10u32),
        spec_parse_u32(seq![49u8]) == Some(1u32),
{
    lemma_parse_decimal_u32(10);
    lemma_parse_decimal_u32(1);
    assert(decimal_bytes(10) =~= seq![49u8, 48u8]);
    assert(decimal_bytes(1) =~= seq![49u8]);
}

/// `m=1` marks a chunk as followed by more, `m=0` as the last.
pub proof fn lemma_chunk_command(more: bool)
    ensures
        spec_kitty_params(chunk_command(more)) matches Some(p) && p.more_data == more,
{
    let s = chunk_command(more);
    assert(s.len() == 31);
    lemma_ascii_valid_utf8(s);
    lemma_first_index_at(s, 59u8, 0, 31, 26);
    lemma_small_numbers();
    let st0 = initial_params();
    lemma_process_pair(st0, s, 0, 26, 3);
    assert(s.subrange(2, 3) =~= seq![116u8]);
    let st1 = KittyParams { action: KittyAction::Transmit, action_given: true, ..st0 };
    assert(apply_pair(st0, s, 0, 1, 3) == Some(st1));
    lemma_process_pair(st1, s, 4, 26, 8);
    assert(s.subrange(6, 8) =~= seq![51u8, 50u8]);
    let st2 = KittyParams { format: PixelFormat::Rgba, ..st1 };
    assert(apply_pair(st1, s, 4, 5, 8) == Some(st2));
    lemma_process_pair(st2, s, 9, 26, 13);
    assert(s.subrange(11, 13) =~= seq![49u8, 48u8]);
    let st3 = KittyParams { width: 10, ..st2 };
    assert(apply_pair(st2, s, 9, 10, 13) == Some(st3));
    lemma_process_pair(st3, s, 14, 26, 18);
    assert(s.subrange(16, 18) =~= seq![49u8, 48u8]);
    let st4 = KittyParams { height: 10, ..st3 };
    assert(apply_pair(st3, s, 14, 15, 18) == Some(st4));
    lemma_process_pair(st4, s, 19, 26, 22);
    assert(s.subrange(21, 22) =~= seq![49u8]);
    let st5 = KittyParams { image_id: 1, ..st4 };
    assert(apply_pair(st4, s, 19, 20, 22) == Some(st5));
    lemma_process_last_pair(st5, s, 23, 26);
    assert(s.subrange(25, 26) =~= seq![if more { 49u8 } else { 48u8 }]);
    let st6 = KittyParams { more_data: more, ..st5 };
    assert(apply_pair(st5, s, 23, 24, 26) == Some(st6));
}

/// The command `a=t,o=z,f=32,s=10,v=10,i=1;AAAA` with `zlib` set, and the
/// same command without `o=z` otherwise.
pub open spec fn compression_command(zlib: bool) -> Seq<u8> {
    if zlib {
        seq![
            97u8, 61u8, 116u8, 44u8, 111u8, 61u8, 122u8, 44u8, 102u8, 61u8, 51u8, 50u8, 44u8, 115u8, 61u8,
            49u8, 48u8, 44u8, 118u8, 61u8, 49u8, 48u8, 44u8, 105u8, 61u8, 49u8, 59u8, 65u8, 65u8, 65u8,
            65u8,
        ]
    } else {
        seq![
            97u8, 61u8, 116u8, 44u8, 102u8, 61u8, 51u8, 50u8, 44u8, 115u8, 61u8, 49u8, 48u8, 44u8, 118u8,
            61u8, 49u8, 48u8, 44u8, 105u8, 61u8, 49u8, 59u8, 65u8, 65u8, 65u8, 65u8,
        ]
    }
}

proof fn lemma_compression_zlib()
    ensures
        spec_kitty_params(compression_command(true)) matches Some(p) && p.compression == Compression::Zlib,
{
    let s = compression_command(true);
    assert(s.len() == 31);
    lemma_ascii_valid_utf8(s);
    lemma_small_numbers();
    lemma_first_index_at(s, 59u8, 0, 31, 26);
    let st0 = initial_params();
    lemma_process_pair(st0, s, 0, 26, 3);
    assert(s.subrange(2, 3) =~= seq![116u8]);
    let st1 = KittyParams { action: KittyAction::Transmit, action_given: true, ..st0 };
    assert(apply_pair(st0, s, 0, 1, 3) == Some(st1));
    lemma_process_pair(st1, s, 4, 26, 7);
    assert(s.subrange(6, 7) =~= seq![122u8]);
    let st2 = KittyParams { compression: Compression::Zlib, ..st1 };
    assert(apply_pair(st1, s, 4, 5, 7) == Some(st2));
    lemma_process_pair(st2, s, 8, 26, 12);
    assert(s.subrange(10, 12) =~= seq![51u8, 50u8]);
    let st3 = KittyParams { format: PixelFormat::Rgba, ..st2 };
    assert(apply_pair(st2, s, 8, 9, 12) == Some(st3));
    lemma_process_pair(st3, s, 13, 26, 17);
    assert(s.subrange(15, 17) =~= seq![49u8, 48u8]);
    let st4 = KittyParams { width: 10, ..st3 };
    assert(apply_pair(st3, s, 13, 14, 17) == Some(st4));
    lemma_process_pair(st4, s, 18, 26, 22);
    assert(s.subrange(20, 22) =~= seq![49u8, 48u8]);
    let st5 = KittyParams { height: 10, ..st4 };
    assert(apply_pair(st4, s, 18, 19, 22) == Some(st5));
    lemma_process_last_pair(st5, s, 23, 26);
    assert(s.subrange(25, 26) =~= seq![49u8]);
    let st6 = KittyParams { image_id: 1, ..st5 };
    assert(apply_pair(st5, s, 23, 24, 26) == Some(st6));
}

proof fn lemma_compression_none()
    ensures
        spec_kitty_params(compression_command(false)) matches Some(p) && p.compression
            == Compression::Uncompressed,
{
    let s = compression_command(false);
    assert(s.len() == 27);
    lemma_ascii_valid_utf8(s);
    lemma_small_numbers();
    lemma_first_index_at(s, 59u8, 0, 27, 22);
    let st0 = initial_params();
    lemma_process_pair(st0, s, 0, 22, 3);
    assert(s.subrange(2, 3) =~= seq![116u8]);
    let st1 = KittyParams { action: KittyAction::Transmit, action_given: true, ..st0 };
    assert(apply_pair(st0, s, 0, 1, 3) == Some(st1));
    lemma_process_pair(st1, s, 4, 22, 8);
    assert(s.subrange(6, 8) =~= seq![51u8, 50u8]);
    let st2 = KittyParams { format: PixelFormat::Rgba, ..st1 };
    assert(apply_pair(st1, s, 4, 5, 8) == Some(st2));
    lemma_process_pair(st2, s, 9, 22, 13);
    assert(s.subrange(11, 13) =~= seq![49u8, 48u8]);
    let st3 = KittyParams { width: 10, ..st2 };
    assert(apply_pair(st2, s, 9, 10, 13) == Some(st3));
    lemma_process_pair(st3, s, 14, 22, 18);
    assert(s.subrange(16, 18) =~= seq![49u8, 48u8]);
    let st4 = KittyParams { height: 10, ..st3 };
    assert(apply_pair(st3, s, 14, 15, 18) == Some(st4));
    lemma_process_last_pair(st4, s, 19, 22);
    assert(s.subrange(21, 22) =~= seq![49u8]);
    let st5 = KittyParams { image_id: 1, ..st4 };
    assert(apply_pair(st4, s, 19, 20, 22) == Some(st5));
}

/// `o=z` selects zlib compression; without it data is uncompressed.
pub proof fn lemma_compression_command(zlib: bool)
    ensures
        spec_kitty_params(compression_command(zlib)) matches Some(p) && p.compression == (if zlib {
            Compression::Zlib
        } else {
            Compression::Uncompressed
        }),
{
    if zlib {
        lemma_compression_zlib();
    } else {
        lemma_compression_none();
    }
}

/// The command `a=p,i=1,c=<columns>,r=<rows>,z=<z-index>`.
#[verifier::opaque]
pub open spec fn display_command(columns: u32, rows: u32, z: i32) -> Seq<u8> {
    seq![97u8, 61u8, 112u8, 44u8, 105u8, 61u8, 49u8, 44u8, 99u8, 61u8] + decimal_bytes(columns as nat)
        + seq![44u8, 114u8, 61u8] + decimal_bytes(rows as nat) + seq![44u8, 122u8, 61u8]
        + signed_decimal_bytes(z)
}

/// Where the bytes of a display command are.
proof fn lemma_display_bytes(columns: u32, rows: u32, z: i32)
    ensures
        ({
            let s = display_command(columns, rows, z);
            let lc = decimal_bytes(columns as nat).len() as int;
            let lr = decimal_bytes(rows as nat).len() as int;
            let lz = signed_decimal_bytes(z).len() as int;
            &&& s.len() == 16 + lc + lr + lz
            &&& s.subrange(0, 10) =~= seq![97u8, 61u8, 112u8, 44u8, 105u8, 61u8, 49u8, 44u8, 99u8, 61u8]
            &&& s.subrange(10, 10 + lc) =~= decimal_bytes(columns as nat)
            &&& s.subrange(10 + lc, 13 + lc) =~= seq![44u8, 114u8, 61u8]
            &&& s.subrange(13 + lc, 13 + lc + lr) =~= decimal_bytes(rows as nat)
            &&& s.subrange(13 + lc + lr, 16 + lc + lr) =~= seq![44u8, 122u8, 61u8]
            &&& s.subrange(16 + lc + lr, s.len() as int) =~= signed_decimal_bytes(z)
        }),
{
    let p1 = seq![97u8, 61u8, 112u8, 44u8, 105u8, 61u8, 49u8, 44u8, 99u8, 61u8];
    let c = decimal_bytes(columns as nat);
    let r = decimal_bytes(rows as nat);
    let zz = signed_decimal_bytes(z);
    let x1 = p1 + c;
    let x2 = x1 + seq![44u8, 114u8, 61u8];
    let x3 = x2 + r;
    let x4 = x3 + seq![44u8, 122u8, 61u8];
    let s = x4 + zz;
    reveal(display_command);
    assert(s == display_command(columns, rows, z));
    assert(s.subrange(0, x4.len() as int) =~= x4);
    assert(x4.subrange(0, x3.len() as int) =~= x3);
    assert(x3.subrange(0, x2.len() as int) =~= x2);
    assert(x2.subrange(0, x1.len() as int) =~= x1);
    assert(x1.subrange(0, 10) =~= p1);
    assert(x1.subrange(10, x1.len() as int) =~= c);
    assert(x2.subrange(x1.len() as int, x2.len() as int) =~= seq![44u8, 114u8, 61u8]);
    assert(x3.subrange(x2.len() as int, x3.len() as int) =~= r);
    assert(x4.subrange(x3.len() as int, x4.len() as int) =~= seq![44u8, 122u8, 61u8]);
    assert(s.subrange(x4.len() as int, s.len() as int) =~= zz);
    assert(s.subrange(0, 10) =~= x1.subrange(0, 10));
    assert(s.subrange(10, x1.len() as int) =~= x1.subrange(10, x1.len() as int));
    assert(s.subrange(x1.len() as int, x2.len() as int) =~= x2.subrange(x1.len() as int, x2.len() as int));
    assert(s.subrange(x2.len() as int, x3.len() as int) =~= x3.subrange(x2.len() as int, x3.len() as int));
    assert(s.subrange(x3.len() as int, x4.len() as int) =~= x4.subrange(x3.len() as int, x4.len() as int));
}

/// The bytes of a display command are ASCII, with digits (and a sign) in
/// the number fields and no `;`.
#[verifier::rlimit(30)]
proof fn lemma_display_layout(columns: u32, rows: u32, z: i32)
    ensures
        ({
            let s = display_command(columns, rows, z);
            let lc = decimal_bytes(columns as nat).len() as int;
            let lr = decimal_bytes(rows as nat).len() as int;
            &&& valid_utf8(s)
            &&& params_end(s) == s.len()
            &&& forall|k: int|
                (10 <= k < 10 + lc || 13 + lc <= k < 13 + lc + lr || 16 + lc + lr <= k < s.len()) ==> (
                #[trigger] s[k] != 44u8 && s[k] != 59u8)
        }),
{
    let s = display_command(columns, rows, z);
    let c = decimal_bytes(columns as nat);
    let r = decimal_bytes(rows as nat);
    let zz = signed_decimal_bytes(z);
    lemma_decimal_bytes(columns as nat);
    lemma_decimal_bytes(rows as nat);
    if z < 0 {
        lemma_decimal_bytes((0 - z) as nat);
    } else {
        lemma_decimal_bytes(z as nat);
    }
    assert forall|k: int| 0 <= k < zz.len() implies zz[k] < 128 && zz[k] != 44u8 && zz[k] != 59u8 by {
        if z < 0 {
            if k > 0 {
                assert(zz[k] == decimal_bytes((0 - z) as nat)[k - 1]);
            }
        }
    }
    lemma_display_bytes(columns, rows, z);
    let lc = c.len() as int;
    let lr = r.len() as int;
    let lit = seq![97u8, 61u8, 112u8, 44u8, 105u8, 61u8, 49u8, 44u8, 99u8, 61u8, 44u8, 114u8, 61u8, 44u8, 122u8, 61u8];
    assert forall|k: int| 0 <= k < s.len() implies #[trigger] s[k] < 128 && (
        (10 <= k < 10 + lc || 13 + lc <= k < 13 + lc + lr || 16 + lc + lr <= k < s.len()) ==> (s[k]
            != 44u8 && s[k] != 59u8)) && s[k] != 59u8 by {
        if k < 10 {
            assert(s[k] == s.subrange(0, 10)[k]);
        } else if k < 10 + lc {
            assert(s[k] == s.subrange(10, 10 + lc)[k - 10]);
        } else if k < 13 + lc {
            assert(s[k] == s.subrange(10 + lc, 13 + lc)[k - 10 - lc]);
        } else if k < 13 + lc + lr {
            assert(s[k] == s.subrange(13 + lc, 13 + lc + lr)[k - 13 - lc]);
        } else if k < 16 + lc + lr {
            assert(s[k] == s.subrange(13 + lc + lr, 16 + lc + lr)[k - 13 - lc - lr]);
        } else {
            assert(s[k] == s.subrange(16 + lc + lr, s.len() as int)[k - 16 - lc - lr]);
        }
    }
    lemma_ascii_valid_utf8(s);
    lemma_first_index_at(s, 59u8, 0, s.len() as int, s.len() as int);
}

/// `a=p,i=1,c=<columns>,r=<rows>,z=<z-index>` places with the given cell
/// size and stacking order, for all sizes and every `i32` z-index.
#[verifier::rlimit(30)]
pub proof fn lemma_display_command(columns: u32, rows: u32, z: i32)
    ensures
        spec_kitty_params(display_command(columns, rows, z)) matches Some(p) && p.image_id == 1
            && p.display_columns == columns && p.display_rows == rows && p.z_index == z,
{
    let s = display_command(columns, rows, z);
    lemma_display_layout(columns, rows, z);
    lemma_display_bytes(columns, rows, z);
    lemma_small_numbers();
    let lc = decimal_bytes(columns as nat).len() as int;
    let lr = decimal_bytes(rows as nat).len() as int;
    let e = s.len() as int;
    let st0 = initial_params();
    assert(s[3] == 44u8 && s[0] == 97u8 && s[1] == 61u8 && s[2] == 112u8);
    lemma_process_pair(st0, s, 0, e, 3);
    let st1 = KittyParams { action: spec_action(seq![112u8]), action_given: true, ..st0 };
    assert(s.subrange(2, 3) =~= seq![112u8]);
    assert(apply_pair(st0, s, 0, 1, 3) == Some(st1));
    assert(s[7] == 44u8 && s[4] == 105u8 && s[5] == 61u8 && s[6] == 49u8);
    lemma_process_pair(st1, s, 4, e, 7);
    assert(s.subrange(6, 7) =~= seq![49u8]);
    let st2 = KittyParams { image_id: 1, ..st1 };
    assert(apply_pair(st1, s, 4, 5, 7) == Some(st2));
    assert(s[10 + lc] == 44u8 && s[8] == 99u8 && s[9] == 61u8);
    lemma_process_pair(st2, s, 8, e, 10 + lc);
    lemma_parse_decimal_u32(columns);
    let st3 = KittyParams { display_columns: columns, ..st2 };
    assert(apply_pair(st2, s, 8, 9, 10 + lc) == Some(st3));
    assert(s[13 + lc + lr] == 44u8 && s[11 + lc] == 114u8 && s[12 + lc] == 61u8);
    lemma_process_pair(st3, s, 11 + lc, e, 13 + lc + lr);
    lemma_parse_decimal_u32(rows);
    let st4 = KittyParams { display_rows: rows, ..st3 };
    assert(apply_pair(st3, s, 11 + lc, 12 + lc, 13 + lc + lr) == Some(st4));
    assert(s[14 + lc + lr] == 122u8 && s[15 + lc + lr] == 61u8);
    lemma_process_last_pair(st4, s, 14 + lc + lr, e);
    lemma_parse_decimal_i32(z);
    let st5 = KittyParams { z_index: z, ..st4 };
    assert(apply_pair(st4, s, 14 + lc + lr, 15 + lc + lr, e) == Some(st5));
}

/// The command made of the single pair `<key>=<n>`.
pub open spec fn pair_command(key: u8, n: u32) -> Seq<u8> {
    seq![key, 61u8] + decimal_bytes(n as nat)
}

/// The numeric fields of parameters, in a fixed order: image id,
/// placement id, width, height, display columns, display rows, source x,
/// source y, source width, source height.
pub open spec fn numeric_fields(p: KittyParams) -> Seq<u32> {
    seq![
        p.image_id,
        p.placement_id,
        p.width,
        p.height,
        p.display_columns,
        p.display_rows,
        p.source_x,
        p.source_y,
        p.source_width,
        p.source_height,
    ]
}

/// Where the bytes of a single-pair command are, and that it is ASCII
/// without `,` or `;`.
proof fn lemma_pair_command_layout(key: u8, n: u32)
    requires
        key < 128,
        key != 44u8 && key != 59u8 && key != 61u8,
    ensures
        ({
            let s = pair_command(key, n);
            &&& s.len() > 2
            &&& s[0] == key
            &&& s[1] == 61u8
            &&& s.subrange(2, s.len() as int) =~= decimal_bytes(n as nat)
            &&& forall|k: int| 0 <= k < s.len() ==> #[trigger] s[k] != 44u8 && s[k] != 59u8
            &&& valid_utf8(s)
            &&& params_end(s) == s.len()
        }),
{
    let s = pair_command(key, n);
    let d = decimal_bytes(n as nat);
    lemma_decimal_bytes(n as nat);
    assert forall|k: int| 0 <= k < s.len() implies #[trigger] s[k] < 128 && s[k] != 44u8 && s[k]
        != 59u8 by {
        if k >= 2 {
            assert(s[k] == d[k - 2]);
            assert(is_digit(d[k - 2]));
        }
    }
    lemma_ascii_valid_utf8(s);
    lemma_first_index_at(s, 59u8, 0, s.len() as int, s.len() as int);
}

/// Reading a single numeric pair `<key>=<n>` from the parameters `st`.
proof fn lemma_numeric_pair(st: KittyParams, key: u8, n: u32)
    requires
        key == 105u8 || key == 112u8 || key == 115u8 || key == 118u8 || key == 99u8 || key == 114u8
            || key == 120u8 || key == 121u8 || key == 119u8 || key == 104u8,
    ensures
        ({
            let s = pair_command(key, n);
            &&& apply_pair(st, s, 0, 1, s.len() as int) == Some(
                if key == 105u8 {
                    KittyParams { image_id: n, ..st }
                } else if key == 112u8 {
                    KittyParams { placement_id: n, ..st }
                } else if key == 115u8 {
                    KittyParams { width: n, ..st }
                } else if key == 118u8 {
                    KittyParams { height: n, ..st }
                } else if key == 99u8 {
                    KittyParams { display_columns: n, ..st }
                } else if key == 114u8 {
                    KittyParams { display_rows: n, ..st }
                } else if key == 120u8 {
                    KittyParams { source_x: n, ..st }
                } else if key == 121u8 {
                    KittyParams { source_y: n, ..st }
                } else if key == 119u8 {
                    KittyParams { source_width: n, ..st }
                } else {
                    KittyParams { source_height: n, ..st }
                },
            )
            &&& process_params(st, s, 0, s.len() as int) == apply_pair(st, s, 0, 1, s.len() as int)
            &&& valid_utf8(s)
            &&& params_end(s) == s.len()
        }),
{
    lemma_pair_command_layout(key, n);
    lemma_parse_decimal_u32(n);
    let s = pair_command(key, n);
    lemma_process_last_pair(st, s, 0, s.len() as int);
}

/// Law: from any parameters read so far, a numeric pair sets the field its
/// key names to the number, and nothing else: `i` the image id, `p` the
/// placement id, `s`/`v` the width/height, `c`/`r` the display columns and
/// rows, `x`/`y`/`w`/`h` the source region. So a later pair for a key
/// replaces an earlier one, and pairs for different keys do not interfere.
pub proof fn lemma_numeric_pairs_set_their_fields(st: KittyParams, n: u32)
    ensures
        apply_pair(st, pair_command(105u8, n), 0, 1, pair_command(105u8, n).len() as int) == Some(
            KittyParams { image_id: n, ..st },
        ),
        apply_pair(st, pair_command(112u8, n), 0, 1, pair_command(112u8, n).len() as int) == Some(
            KittyParams { placement_id: n, ..st },
        ),
        apply_pair(st, pair_command(115u8, n), 0, 1, pair_command(115u8, n).len() as int) == Some(
            KittyParams { width: n, ..st },
        ),
        apply_pair(st, pair_command(118u8, n), 0, 1, pair_command(118u8, n).len() as int) == Some(
            KittyParams { height: n, ..st },
        ),
        apply_pair(st, pair_command(99u8, n), 0, 1, pair_command(99u8, n).len() as int) == Some(
            KittyParams { display_columns: n, ..st },
        ),
        apply_pair(st, pair_command(114u8, n), 0, 1, pair_command(114u8, n).len() as int) == Some(
            KittyParams { display_rows: n, ..st },
        ),
        apply_pair(st, pair_command(120u8, n), 0, 1, pair_command(120u8, n).len() as int) == Some(
            KittyParams { source_x: n, ..st },
        ),
        apply_pair(st, pair_command(121u8, n), 0, 1, pair_command(121u8, n).len() as int) == Some(
            KittyParams { source_y: n, ..st },
        ),
        apply_pair(st, pair_command(119u8, n), 0, 1, pair_command(119u8, n).len() as int) == Some(
            KittyParams { source_width: n, ..st },
        ),
        apply_pair(st, pair_command(104u8, n), 0, 1, pair_command(104u8, n).len() as int) == Some(
            KittyParams { source_height: n, ..st },
        ),
{
    lemma_numeric_pair(st, 105u8, n);
    lemma_numeric_pair(st, 112u8, n);
    lemma_numeric_pair(st, 115u8, n);
    lemma_numeric_pair(st, 118u8, n);
    lemma_numeric_pair(st, 99u8, n);
    lemma_numeric_pair(st, 114u8, n);
    lemma_numeric_pair(st, 120u8, n);
    lemma_numeric_pair(st, 121u8, n);
    lemma_numeric_pair(st, 119u8, n);
    lemma_numeric_pair(st, 104u8, n);
}

/// Law: the command `x=<n>` (and `y=`, `w=`, `h=`) parses, for every `u32`
/// number, to parameters whose source x (source y, source width, source
/// height) is the number and whose other numeric fields are 0.
pub proof fn lemma_source_region_pairs(n: u32)
    ensures
        spec_kitty_params(pair_command(120u8, n)) matches Some(p) && numeric_fields(p) == seq![
            0u32,
            0,
            0,
            0,
            0,
            0,
            n,
            0,
            0,
            0,
        ],
        spec_kitty_params(pair_command(121u8, n)) matches Some(p) && numeric_fields(p) == seq![
            0u32,
            0,
            0,
            0,
            0,
            0,
            0,
            n,
            0,
            0,
        ],
        spec_kitty_params(pair_command(119u8, n)) matches Some(p) && numeric_fields(p) == seq![
            0u32,
            0,
            0,
            0,
            0,
            0,
            0,
            0,
            n,
            0,
        ],
        spec_kitty_params(pair_command(104u8, n)) matches Some(p) && numeric_fields(p) == seq![
            0u32,
            0,
            0,
            0,
            0,
            0,
            0,
            0,
            0,
            n,
        ],
{
    let st0 = initial_params();
    lemma_numeric_pair(st0, 120u8, n);
    lemma_numeric_pair(st0, 121u8, n);
    lemma_numeric_pair(st0, 119u8, n);
    lemma_numeric_pair(st0, 104u8, n);
    assert(numeric_fields(KittyParams { source_x: n, ..st0 }) =~= seq![0u32, 0, 0, 0, 0, 0, n, 0, 0, 0]);
    assert(numeric_fields(KittyParams { source_y: n, ..st0 }) =~= seq![0u32, 0, 0, 0, 0, 0, 0, n, 0, 0]);
    assert(numeric_fields(KittyParams { source_width: n, ..st0 }) =~= seq![0u32, 0, 0, 0, 0, 0, 0, 0, n, 0]);
    assert(numeric_fields(KittyParams { source_height: n, ..st0 }) =~= seq![0u32, 0, 0, 0, 0, 0, 0, 0, 0, n]);
}

/// Law: the command `i=<n>` (`p=`, `s=`, `v=`, `c=`, `r=`) parses, for
/// every `u32` number, to parameters whose image id (placement id, width,
/// height, display columns, display rows) is the number and whose other
/// numeric fields are 0.
pub proof fn lemma_size_and_id_pairs(n: u32)
    ensures
        spec_kitty_params(pair_command(105u8, n)) matches Some(p) && numeric_fields(p) == seq![
            n,
            0,
            0,
            0,
            0,
            0,
            0,
            0,
            0,
            0,
        ],
        spec_kitty_params(pair_command(112u8, n)) matches Some(p) && numeric_fields(p) == seq![
            0u32,
            n,
            0,
            0,
            0,
            0,
            0,
            0,
            0,
            0,
        ],
        spec_kitty_params(pair_command(115u8, n)) matches Some(p) && numeric_fields(p) == seq![
            0u32,
            0,
            n,
            0,
            0,
            0,
            0,
            0,
            0,
            0,
        ],
        spec_kitty_params(pair_command(118u8, n)) matches Some(p) && numeric_fields(p) == seq![
            0u32,
            0,
            0,
            n,
            0,
            0,
            0,
            0,
            0,
            0,
        ],
        spec_kitty_params(pair_command(99u8, n)) matches Some(p) && numeric_fields(p) == seq![
            0u32,
            0,
            0,
            0,
            n,
            0,
            0,
            0,
            0,
            0,
        ],
        spec_kitty_params(pair_command(114u8, n)) matches Some(p) && numeric_fields(p) == seq![
            0u32,
            0,
            0,
            0,
            0,
            n,
            0,
            0,
            0,
            0,
        ],
{
    let st0 = initial_params();
    lemma_numeric_pair(st0, 105u8, n);
    lemma_numeric_pair(st0, 112u8, n);
    lemma_numeric_pair(st0, 115u8, n);
    lemma_numeric_pair(st0, 118u8, n);
    lemma_numeric_pair(st0, 99u8, n);
    lemma_numeric_pair(st0, 114u8, n);
    assert(numeric_fields(KittyParams { image_id: n, ..st0 }) =~= seq![n, 0, 0, 0, 0, 0, 0, 0, 0, 0]);
    assert(numeric_fields(KittyParams { placement_id: n, ..st0 }) =~= seq![0u32, n, 0, 0, 0, 0, 0, 0, 0, 0]);
    assert(numeric_fields(KittyParams { width: n, ..st0 }) =~= seq![0u32, 0, n, 0, 0, 0, 0, 0, 0, 0]);
    assert(numeric_fields(KittyParams { height: n, ..st0 }) =~= seq![0u32, 0, 0, n, 0, 0, 0, 0, 0, 0]);
    assert(numeric_fields(KittyParams { display_columns: n, ..st0 }) =~= seq![0u32, 0, 0, 0, n, 0, 0, 0, 0, 0]);
    assert(numeric_fields(KittyParams { display_rows: n, ..st0 }) =~= seq![0u32, 0, 0, 0, 0, n, 0, 0, 0, 0]);
}

/// The command made of the single pair `<key>=<value>`.
pub open spec fn value_command(key: u8, v: Seq<u8>) -> Seq<u8> {
    seq![key, 61u8] + v
}

/// Where the key and the value of a single-pair command are.
proof fn lemma_value_command(key: u8, v: Seq<u8>)
    ensures
        ({
            let s = value_command(key, v);
            &&& s.len() == v.len() + 2
            &&& s[0] == key
            &&& s.subrange(2, s.len() as int) =~= v
        }),
{
}

/// Law: from any parameters read so far, an `a` pair sets the action and
/// marks it as given, and changes nothing else: `t`/`T` transmit, `p`/`P`
/// transmit and display, `d`/`D` delete, `q`/`Q` query, `f`/`F` animation
/// frame, and any other value transmit and display.
pub proof fn lemma_action_pairs(st: KittyParams, v: Seq<u8>)
    ensures
        ({
            let r = apply_pair(st, value_command(97u8, v), 0, 1, v.len() + 2int);
            &&& (v == seq![116u8] || v == seq![84u8]) ==> r == Some(
                KittyParams { action: KittyAction::Transmit, action_given: true, ..st },
            )
            &&& (v == seq![112u8] || v == seq![80u8]) ==> r == Some(
                KittyParams { action: KittyAction::TransmitAndDisplay, action_given: true, ..st },
            )
            &&& (v == seq![100u8] || v == seq![68u8]) ==> r == Some(
                KittyParams { action: KittyAction::Delete, action_given: true, ..st },
            )
            &&& (v == seq![113u8] || v == seq![81u8]) ==> r == Some(
                KittyParams { action: KittyAction::Query, action_given: true, ..st },
            )
            &&& (v == seq![102u8] || v == seq![70u8]) ==> r == Some(
                KittyParams { action: KittyAction::AnimationFrame, action_given: true, ..st },
            )
            &&& !(v == seq![116u8] || v == seq![84u8] || v == seq![112u8] || v == seq![80u8] || v
                == seq![100u8] || v == seq![68u8] || v == seq![113u8] || v == seq![81u8] || v
                == seq![102u8] || v == seq![70u8]) ==> r == Some(
                KittyParams { action: KittyAction::TransmitAndDisplay, action_given: true, ..st },
            )
        }),
{
    lemma_value_command(97u8, v);
}

/// Law: from any parameters read so far, a `t` pair sets the transmission
/// mode and changes nothing else: `d`/`D` direct, `f`/`F` file, `t`/`T`
/// temporary file, `s`/`S` shared memory, and any other value direct.
pub proof fn lemma_transmission_pairs(st: KittyParams, v: Seq<u8>)
    ensures
        ({
            let r = apply_pair(st, value_command(116u8, v), 0, 1, v.len() + 2int);
            &&& (v == seq![100u8] || v == seq![68u8]) ==> r == Some(
                KittyParams { transmission: TransmissionMode::Direct, ..st },
            )
            &&& (v == seq![102u8] || v == seq![70u8]) ==> r == Some(
                KittyParams { transmission: TransmissionMode::File, ..st },
            )
            &&& (v == seq![116u8] || v == seq![84u8]) ==> r == Some(
                KittyParams { transmission: TransmissionMode::TempFile, ..st },
            )
            &&& (v == seq![115u8] || v == seq![83u8]) ==> r == Some(
                KittyParams { transmission: TransmissionMode::SharedMemory, ..st },
            )
            &&& !(v == seq![102u8] || v == seq![70u8] || v == seq![116u8] || v == seq![84u8] || v
                == seq![115u8] || v == seq![83u8]) ==> r == Some(
                KittyParams { transmission: TransmissionMode::Direct, ..st },
            )
        }),
{
    lemma_value_command(116u8, v);
}

/// Law: from any parameters read so far, an `f` pair sets the pixel format
/// and changes nothing else: `24` RGB, `32` RGBA, `100` PNG; any other
/// value is refused.
pub proof fn lemma_format_pairs(st: KittyParams, v: Seq<u8>)
    ensures
        ({
            let r = apply_pair(st, value_command(102u8, v), 0, 1, v.len() + 2int);
            &&& v == seq![50u8, 52u8] ==> r == Some(KittyParams { format: PixelFormat::Rgb, ..st })
            &&& v == seq![51u8, 50u8] ==> r == Some(
                KittyParams { format: PixelFormat::Rgba, ..st },
            )
            &&& v == seq![49u8, 48u8, 48u8] ==> r == Some(
                KittyParams { format: PixelFormat::Png, ..st },
            )
            &&& !(v == seq![50u8, 52u8] || v == seq![51u8, 50u8] || v == seq![49u8, 48u8, 48u8])
                ==> r is None
        }),
{
    lemma_value_command(102u8, v);
}

/// Law: from any parameters read so far, the pair `q=<n>` sets the quiet
/// level to `n` and changes nothing else when `n` fits in a byte, and is
/// refused when it does not.
pub proof fn lemma_quiet_pairs(st: KittyParams, n: u32)
    ensures
        ({
            let d = decimal_bytes(n as nat);
            let r = apply_pair(st, value_command(113u8, d), 0, 1, d.len() + 2int);
            &&& n <= 255 ==> r == Some(KittyParams { quiet: n as u8, ..st })
            &&& n > 255 ==> r is None
        }),
{
    let d = decimal_bytes(n as nat);
    lemma_decimal_bytes(n as nat);
    lemma_value_command(113u8, d);
    assert(is_digit(d[0]));
    assert(unsigned_part(d) == d);
}

/// Law: which images a delete command removes, by its `d` specifier:
/// `a`/`A` all; `i`/`I` the placement named by image and placement id when
/// both are set, the image when only its id is set, and all when no image
/// id is set; `c`/`C` those at the cursor; `p`/`P` with no column given,
/// the range at column 0, row 0; no specifier, or one not known, all.
pub proof fn lemma_delete_targets(p: KittyParams, input: Seq<u8>)
    ensures
        (p.delete_specifier == Some(97u8) || p.delete_specifier == Some(65u8))
            ==> spec_delete_target(p, input) == DeleteTarget::All,
        (p.delete_specifier == Some(105u8) || p.delete_specifier == Some(73u8)) && p.image_id > 0
            && p.placement_id > 0 ==> spec_delete_target(p, input) == (DeleteTarget::ByPlacement {
            image_id: ImageId(p.image_id),
            placement_id: p.placement_id,
        }),
        (p.delete_specifier == Some(105u8) || p.delete_specifier == Some(73u8)) && p.image_id > 0
            && p.placement_id == 0 ==> spec_delete_target(p, input) == DeleteTarget::ById(
            ImageId(p.image_id),
        ),
        (p.delete_specifier == Some(105u8) || p.delete_specifier == Some(73u8)) && p.image_id == 0
            ==> spec_delete_target(p, input) == DeleteTarget::All,
        (p.delete_specifier == Some(99u8) || p.delete_specifier == Some(67u8))
            ==> spec_delete_target(p, input) == DeleteTarget::AtCursor,
        p.delete_specifier is None ==> spec_delete_target(p, input) == DeleteTarget::All,
        (p.delete_specifier == Some(112u8) || p.delete_specifier == Some(80u8))
            && p.delete_value is None ==> spec_delete_target(p, input) == (DeleteTarget::InRange {
            column: 0,
            row: 0,
        }),
        (p.delete_specifier matches Some(c) && c != 97u8 && c != 65u8 && c != 105u8 && c != 73u8
            && c != 99u8 && c != 67u8 && c != 112u8 && c != 80u8) ==> spec_delete_target(p, input)
            == DeleteTarget::All,
{
}

} // verus!
