//! Decimal integer parsing with the rules of Rust's `FromStr` for integers:
//! an optional sign (`+`, and `-` for signed types) followed by at least one
//! ASCII digit, with the value in range.

use vstd::prelude::*;

verus! {

pub open spec fn is_digit(b: u8) -> bool {
    48 <= b <= 57
}

pub open spec fn all_digits(s: Seq<u8>) -> bool {
    forall|i: int| 0 <= i < s.len() ==> is_digit(#[trigger] s[i])
}

/// The value of a string of ASCII digits.
pub open spec fn digits_value(s: Seq<u8>) -> nat
    decreases s.len(),
{
    if s.len() == 0 {
        0
    } else {
        digits_value(s.drop_last()) * 10 + (s.last() - 48) as nat
    }
}

/// Digits without a leading `+`.
pub open spec fn unsigned_part(s: Seq<u8>) -> Seq<u8> {
    if s.len() > 0 && s[0] == 43 {
        s.drop_first()
    } else {
        s
    }
}

/// The value of `s` read as an unsigned decimal no larger than `max`.
pub open spec fn spec_parse_unsigned(s: Seq<u8>, max: nat) -> Option<nat> {
    let d = unsigned_part(s);
    if d.len() > 0 && all_digits(d) && digits_value(d) <= max {
        Some(digits_value(d))
    } else {
        None
    }
}

/// `s` read as a `u32`.
pub open spec fn spec_parse_u32(s: Seq<u8>) -> Option<u32> {
    match spec_parse_unsigned(s, u32::MAX as nat) {
        Some(v) => Some(v as u32),
        None => None,
    }
}

/// `s` read as a `u8`.
pub open spec fn spec_parse_u8(s: Seq<u8>) -> Option<u8> {
    match spec_parse_unsigned(s, u8::MAX as nat) {
        Some(v) => Some(v as u8),
        None => None,
    }
}

/// `s` read as an `i32`.
pub open spec fn spec_parse_i32(s: Seq<u8>) -> Option<i32> {
    if s.len() > 0 && s[0] == 45 {
        let d = s.drop_first();
        if d.len() > 0 && all_digits(d) && digits_value(d) <= 2147483648 {
            Some((0 - digits_value(d)) as i32)
        } else {
            None
        }
    } else {
        match spec_parse_unsigned(s, 2147483647) {
            Some(v) => Some(v as i32),
            None => None,
        }
    }
}

/// Why a string is not a number in range (the kinds of `std::num::IntErrorKind`).
#[derive(Clone, Copy, PartialEq, Eq, Structural)]
pub enum IntError {
    Empty,
    InvalidDigit,
    PosOverflow,
    NegOverflow,
}

impl IntError {
    /// The message std gives for this kind of error.
    pub fn message(self) -> (s: String)
        ensures
            s@ == int_error_message(self),
    {
        match self {
            IntError::Empty => String::from_str("cannot parse integer from empty string"),
            IntError::InvalidDigit => String::from_str("invalid digit found in string"),
            IntError::PosOverflow => String::from_str("number too large to fit in target type"),
            IntError::NegOverflow => String::from_str("number too small to fit in target type"),
        }
    }
}

/// The number of leading ASCII digits.
pub open spec fn digit_run(d: Seq<u8>) -> nat
    decreases d.len(),
{
    if d.len() == 0 || !is_digit(d[0]) {
        0
    } else {
        1 + digit_run(d.drop_first())
    }
}

/// Why `d` is not a number up to `limit`, scanning left to right: its
/// leading digits already exceed the limit, or else a non-digit follows
/// them.
pub open spec fn digits_error(d: Seq<u8>, limit: nat) -> IntError {
    if digits_value(d.take(digit_run(d) as int)) > limit {
        IntError::PosOverflow
    } else {
        IntError::InvalidDigit
    }
}

/// Why `s` is not an unsigned number up to `max`.
pub open spec fn unsigned_error(s: Seq<u8>, max: nat) -> IntError {
    if s.len() == 0 {
        IntError::Empty
    } else if s.len() == 1 && (s[0] == 43 || s[0] == 45) {
        IntError::InvalidDigit
    } else {
        digits_error(unsigned_part(s), max)
    }
}

/// Why `s` is not an `i32`.
pub open spec fn i32_error(s: Seq<u8>) -> IntError {
    if s.len() == 0 {
        IntError::Empty
    } else if s[0] == 45 {
        if s.len() == 1 {
            IntError::InvalidDigit
        } else {
            match digits_error(s.drop_first(), 2147483648) {
                IntError::PosOverflow => IntError::NegOverflow,
                e => e,
            }
        }
    } else {
        unsigned_error(s, 2147483647)
    }
}

/// The message std gives for a kind of error.
pub open spec fn int_error_message(e: IntError) -> Seq<char> {
    match e {
        IntError::Empty => "cannot parse integer from empty string"@,
        IntError::InvalidDigit => "invalid digit found in string"@,
        IntError::PosOverflow => "number too large to fit in target type"@,
        IntError::NegOverflow => "number too small to fit in target type"@,
    }
}

/// The leading digit run ends at the first non-digit.
proof fn lemma_digit_run(d: Seq<u8>, k: int)
    requires
        0 <= k <= d.len(),
        forall|j: int| 0 <= j < k ==> is_digit(#[trigger] d[j]),
    ensures
        digit_run(d) >= k,
        k == d.len() || !is_digit(d[k]) ==> digit_run(d) == k,
    decreases k,
{
    if k > 0 {
        assert forall|j: int| 0 <= j < k - 1 implies is_digit(#[trigger] d.drop_first()[j]) by {
            assert(d.drop_first()[j] == d[j + 1]);
        }
        lemma_digit_run(d.drop_first(), k - 1);
    }
}

proof fn lemma_digits_value_prefix(s: Seq<u8>, k: int)
    requires
        0 <= k <= s.len(),
    ensures
        digits_value(s.take(k)) <= digits_value(s),
    decreases s.len(),
{
    if k < s.len() {
        lemma_digits_value_prefix(s.drop_last(), k);
        assert(s.drop_last().take(k) =~= s.take(k));
    } else {
        assert(s.take(k) =~= s);
    }
}

/// The digit run is no longer than the sequence.
proof fn lemma_digit_run_bounded(d: Seq<u8>)
    ensures
        digit_run(d) <= d.len(),
    decreases d.len(),
{
    if d.len() > 0 && is_digit(d[0]) {
        lemma_digit_run_bounded(d.drop_first());
    }
}

/// Reads the digits `input[start..end]` (at least one) as a number no larger
/// than `limit`, scanning left to right: the first non-digit gives
/// `InvalidDigit`, the first digit that takes the value past `limit` gives
/// `PosOverflow`.
fn parse_digits(input: &[u8], start: usize, end: usize, limit: u64) -> (r: Result<u64, IntError>)
    requires
        start < end <= input@.len(),
        limit <= 4294967296,
    ensures
        ({
            let d = input@.subrange(start as int, end as int);
            match r {
                Ok(v) => all_digits(d) && digits_value(d) <= limit && v == digits_value(d),
                Err(e) => !(all_digits(d) && digits_value(d) <= limit) && e == digits_error(
                    d,
                    limit as nat,
                ),
            }
        }),
{
    let ghost d = input@.subrange(start as int, end as int);
    let mut acc: u64 = 0;
    let mut i: usize = start;
    while i < end
        invariant
            start <= i <= end <= input@.len(),
            limit <= 4294967296,
            d == input@.subrange(start as int, end as int),
            all_digits(d.take(i - start)),
            acc == digits_value(d.take(i - start)),
            acc <= limit,
        decreases end - i,
    {
        let b = input[i];
        let ghost k = i - start;
        proof {
            assert(d.take(k + 1).drop_last() =~= d.take(k));
            assert(d[k] == b);
        }
        if b < 48 || b > 57 {
            proof {
                assert(!is_digit(d[k]));
                assert forall|j: int| 0 <= j < k implies is_digit(#[trigger] d[j]) by {
                    assert(d[j] == d.take(k)[j]);
                }
                lemma_digit_run(d, k);
            }
            return Err(IntError::InvalidDigit);
        }
        acc = acc * 10 + (b - 48) as u64;
        if acc > limit {
            proof {
                if all_digits(d) {
                    lemma_digits_value_prefix(d, k + 1);
                }
                assert forall|j: int| 0 <= j < k + 1 implies is_digit(#[trigger] d[j]) by {
                    if j < k {
                        assert(d[j] == d.take(k)[j]);
                    }
                }
                lemma_digit_run(d, k + 1);
                let run = digit_run(d) as int;
                lemma_digit_run_bounded(d);
                lemma_digits_value_prefix(d.take(run), k + 1);
                assert(d.take(run).take(k + 1) =~= d.take(k + 1));
            }
            return Err(IntError::PosOverflow);
        }
        i += 1;
        proof {
            assert forall|j: int| 0 <= j < d.take(i - start).len() implies is_digit(
                #[trigger] d.take(i - start)[j],
            ) by {
                if j < k {
                    assert(d.take(i - start)[j] == d.take(k)[j]);
                }
            }
        }
    }
    proof {
        assert(d.take(end - start) =~= d);
    }
    Ok(acc)
}

/// Parses `input[start..end]` as an unsigned number no larger than `max`,
/// with the rules of Rust's `FromStr` for unsigned integers.
pub fn parse_unsigned(input: &[u8], start: usize, end: usize, max: u64) -> (r: Result<u64, IntError>)
    requires
        start <= end <= input@.len(),
        max < 4294967296,
    ensures
        match (r, spec_parse_unsigned(input@.subrange(start as int, end as int), max as nat)) {
            (Ok(v), Some(w)) => v == w,
            (Err(e), None) => e == unsigned_error(input@.subrange(start as int, end as int), max as nat),
            _ => false,
        },
{
    let ghost s = input@.subrange(start as int, end as int);
    if start == end {
        return Err(IntError::Empty);
    }
    if end - start == 1 && (input[start] == 43 || input[start] == 45) {
        return Err(IntError::InvalidDigit);
    }
    let first = if input[start] == 43 {
        start + 1
    } else {
        start
    };
    proof {
        assert(unsigned_part(s) =~= input@.subrange(first as int, end as int));
    }
    parse_digits(input, first, end, max)
}

/// Parses `input[start..end]` as an `i32` with the rules of Rust's `FromStr`.
pub fn parse_i32_range(input: &[u8], start: usize, end: usize) -> (r: Result<i32, IntError>)
    requires
        start <= end <= input@.len(),
    ensures
        match (r, spec_parse_i32(input@.subrange(start as int, end as int))) {
            (Ok(v), Some(w)) => v == w,
            (Err(e), None) => e == i32_error(input@.subrange(start as int, end as int)),
            _ => false,
        },
{
    let ghost s = input@.subrange(start as int, end as int);
    if start == end {
        return Err(IntError::Empty);
    }
    if input[start] == 45 {
        if end - start == 1 {
            return Err(IntError::InvalidDigit);
        }
        proof {
            assert(s.drop_first() =~= input@.subrange(start + 1, end as int));
        }
        match parse_digits(input, start + 1, end, 2147483648) {
            Ok(v) => Ok((0 - (v as i64)) as i32),
            Err(IntError::PosOverflow) => Err(IntError::NegOverflow),
            Err(e) => Err(e),
        }
    } else {
        match parse_unsigned(input, start, end, 2147483647) {
            Ok(v) => Ok(v as i32),
            Err(e) => Err(e),
        }
    }
}

/// Law: a decimal rendering of a `u32` without sign reads back as that value.
pub proof fn lemma_parse_u32_digits(s: Seq<u8>)
    requires
        s.len() > 0,
        s[0] != 43,
        all_digits(s),
        digits_value(s) <= u32::MAX,
    ensures
        spec_parse_u32(s) == Some(digits_value(s) as u32),
{
}

} // verus!
