//! Small text helpers shared by the other modules: decimal rendering of
//! integers, turning ASCII bytes into strings, and comparing, searching and
//! slicing strings by characters.

use vstd::prelude::*;
use vstd::string::{StrSliceExecFns, StringSliceAdditionalSpecFns};

verus! {

/// The ASCII digit character for a value below ten.
pub open spec fn digit_char(d: nat) -> char {
    (d + 48) as char
}

/// The decimal rendering of a natural number, without sign or leading zeros.
pub open spec fn decimal(n: nat) -> Seq<char>
    decreases n,
{
    if n < 10 {
        seq![digit_char(n)]
    } else {
        decimal(n / 10).push(digit_char(n % 10))
    }
}

/// Characters whose code points are the given bytes (meaningful for ASCII).
pub open spec fn ascii_chars(bytes: Seq<u8>) -> Seq<char> {
    bytes.map_values(|b: u8| b as char)
}

/// Every byte is below 128.
pub open spec fn all_ascii(bytes: Seq<u8>) -> bool {
    forall|i: int| 0 <= i < bytes.len() ==> #[trigger] bytes[i] < 128
}

/// Builds a `String` from ASCII bytes; wraps `String::from_utf8`, whose
/// documentation states that valid UTF-8 (which every ASCII byte string is)
/// is accepted and kept as is.
#[verifier::external_body]
fn string_from_ascii(bytes: Vec<u8>) -> (s: String)
    requires
        all_ascii(bytes@),
    ensures
        s@ == ascii_chars(bytes@),
{
    String::from_utf8(bytes).unwrap()
}

/// Renders `n` in decimal.
pub fn u64_to_string(n: u64) -> (s: String)
    ensures
        s@ == decimal(n as nat),
{
    let mut digits: Vec<u8> = Vec::new();
    let mut m: u64 = n;
    // digits are produced least significant first
    loop
        invariant_except_break
            decimal(n as nat) == decimal(m as nat) + ascii_chars(digits@),
        invariant
            all_ascii(digits@),
            m <= n,
        ensures
            all_ascii(digits@),
            decimal(n as nat) == ascii_chars(digits@),
        decreases m,
    {
        let d: u8 = (m % 10) as u8;
        let ghost old_digits = digits@;
        digits.insert(0, d + 48);
        proof {
            assert(ascii_chars(digits@) =~= seq![digit_char(d as nat)] + ascii_chars(old_digits));
            if m >= 10 {
                assert(decimal(m as nat) == decimal((m / 10) as nat).push(digit_char((m % 10) as nat)));
                assert(decimal((m / 10) as nat) + ascii_chars(digits@) =~= decimal((m / 10) as nat).push(digit_char((m % 10) as nat)) + ascii_chars(old_digits));
            } else {
                assert(decimal(m as nat) =~= seq![digit_char(m as nat)]);
                assert(decimal(n as nat) =~= ascii_chars(digits@));
            }
        }
        if m < 10 {
            break;
        }
        m = m / 10;
    }
    string_from_ascii(digits)
}

/// Whether two strings are equal, compared byte by byte.
pub fn str_equal(a: &str, b: &str) -> (r: bool)
    ensures
        r == (a@ == b@),
{
    let x = a.as_bytes();
    let y = b.as_bytes();
    proof {
        vstd::utf8::encode_utf8_decode_utf8(a@);
        vstd::utf8::encode_utf8_decode_utf8(b@);
    }
    if x.len() != y.len() {
        return false;
    }
    let mut i: usize = 0;
    while i < x.len()
        invariant
            x@ == a.spec_bytes(),
            y@ == b.spec_bytes(),
            vstd::utf8::decode_utf8(x@) == a@,
            vstd::utf8::decode_utf8(y@) == b@,
            x@.len() == y@.len(),
            i <= x@.len(),
            forall|j: int| 0 <= j < i ==> x@[j] == y@[j],
        decreases x@.len() - i,
    {
        if x[i] != y[i] {
            return false;
        }
        i += 1;
    }
    proof {
        assert(x@ =~= y@);
    }
    true
}

/// `prefix` is a prefix of `s`, character for character.
pub open spec fn has_prefix(s: Seq<char>, prefix: Seq<char>) -> bool {
    prefix.len() <= s.len() && s.subrange(0, prefix.len() as int) == prefix
}

/// `needle` occurs in `s` starting at character `i`.
pub open spec fn occurs_at(s: Seq<char>, needle: Seq<char>, i: int) -> bool {
    0 <= i && i + needle.len() <= s.len() && s.subrange(i, i + needle.len()) == needle
}

/// `needle` occurs somewhere in `s`.
pub open spec fn contains_seq(s: Seq<char>, needle: Seq<char>) -> bool {
    exists|i: int| occurs_at(s, needle, i)
}

/// Whether `s` agrees with `t` on the `n` characters from `at`.
fn agrees_at(s: &str, t: &str, at: usize, n: usize) -> (r: bool)
    requires
        at + n <= s@.len(),
        s@.len() <= usize::MAX,
        n <= t@.len(),
    ensures
        r == (s@.subrange(at as int, at + n) == t@.subrange(0, n as int)),
{
    let mut i: usize = 0;
    while i < n
        invariant
            at + n <= s@.len(),
            s@.len() <= usize::MAX,
            n <= t@.len(),
            i <= n,
            forall|j: int| 0 <= j < i ==> s@[at + j] == t@[j],
        decreases n - i,
    {
        if s.get_char(at + i) != t.get_char(i) {
            assert(s@.subrange(at as int, at + n)[i as int] != t@.subrange(0, n as int)[i as int]);
            return false;
        }
        i += 1;
    }
    assert(s@.subrange(at as int, at + n) =~= t@.subrange(0, n as int));
    true
}

/// Whether `s` begins with `prefix`.
pub fn starts_with(s: &str, prefix: &str) -> (r: bool)
    ensures
        r == has_prefix(s@, prefix@),
{
    let n = prefix.unicode_len();
    let m = s.unicode_len();
    if n > m {
        return false;
    }
    let r = agrees_at(s, prefix, 0, n);
    assert(prefix@.subrange(0, n as int) =~= prefix@);
    r
}

/// The characters of `s` from `from` on.
pub fn suffix_from(s: &str, from: usize) -> (r: &str)
    requires
        from <= s@.len(),
    ensures
        r@ == s@.subrange(from as int, s@.len() as int),
{
    let m = s.unicode_len();
    s.substring_char(from, m)
}

/// Whether `needle` occurs in `s`.
pub fn contains_str(s: &str, needle: &str) -> (r: bool)
    ensures
        r == contains_seq(s@, needle@),
{
    let n = needle.unicode_len();
    let m = s.unicode_len();
    if n > m {
        assert forall|i: int| !occurs_at(s@, needle@, i) by {}
        return false;
    }
    if n == 0 {
        assert(s@.subrange(0, 0) =~= needle@);
        assert(occurs_at(s@, needle@, 0));
        return true;
    }
    let mut i: usize = 0;
    while i <= m - n
        invariant
            n == needle@.len(),
            m == s@.len(),
            0 < n <= m,
            i <= m - n + 1,
            forall|j: int| 0 <= j < i ==> !occurs_at(s@, needle@, j),
        decreases m - n + 1 - i,
    {
        if agrees_at(s, needle, i, n) {
            assert(needle@.subrange(0, n as int) =~= needle@);
            assert(occurs_at(s@, needle@, i as int));
            return true;
        }
        assert(needle@.subrange(0, n as int) =~= needle@);
        i += 1;
    }
    assert forall|j: int| !occurs_at(s@, needle@, j) by {
        if 0 <= j && j < i {
        }
    }
    false
}

/// The Unicode lowercase form of a string, as `str::to_lowercase` computes
/// it.
pub uninterp spec fn lowercase(s: Seq<char>) -> Seq<char>;

/// Every character is ASCII.
pub open spec fn is_ascii_text(s: Seq<char>) -> bool {
    forall|i: int| 0 <= i < s.len() ==> (#[trigger] s[i] as u32) < 128
}

/// A character with ASCII capitals turned into small letters.
pub open spec fn ascii_lower_char(c: char) -> char {
    if 65 <= (c as u32) && (c as u32) <= 90 {
        ((c as u32) + 32) as char
    } else {
        c
    }
}

/// The text with ASCII capitals turned into small letters, all else kept.
pub open spec fn ascii_lower(s: Seq<char>) -> Seq<char> {
    s.map_values(|c: char| ascii_lower_char(c))
}

/// The lowercase form of `s`; wraps `str::to_lowercase`, which maps each
/// character by the Unicode lowercase mapping and depends on nothing but
/// its argument. On ASCII text that mapping turns each capital letter into
/// its small letter and keeps every other character, as
/// `str::to_ascii_lowercase` does.
#[verifier::external_body]
pub(crate) fn to_lowercase(s: &str) -> (r: String)
    ensures
        r@ == lowercase(s@),
        is_ascii_text(s@) ==> r@ == ascii_lower(s@),
{
    s.to_lowercase()
}

/// The decimal rendering of an integer, with `-` before a negative one.
pub open spec fn signed_decimal(n: int) -> Seq<char> {
    if n < 0 {
        "-"@ + decimal((0 - n) as nat)
    } else {
        decimal(n as nat)
    }
}

/// Renders `n` in decimal, with `-` before a negative one.
pub fn i32_to_string(n: i32) -> (s: String)
    ensures
        s@ == signed_decimal(n as int),
{
    if n < 0 {
        let magnitude: u64 = (0 - (n as i64)) as u64;
        String::from_str("-").concat(u64_to_string(magnitude).as_str())
    } else {
        u64_to_string(n as u64)
    }
}

/// ASCII lowercasing keeps text ASCII, and doing it twice is doing it once.
pub proof fn lemma_ascii_lower(s: Seq<char>)
    requires
        is_ascii_text(s),
    ensures
        is_ascii_text(ascii_lower(s)),
        ascii_lower(ascii_lower(s)) == ascii_lower(s),
        ascii_lower(s).len() == s.len(),
{
    let t = ascii_lower(s);
    assert forall|i: int| 0 <= i < t.len() implies (#[trigger] t[i] as u32) < 128
        && ascii_lower_char(t[i]) == t[i] by {
        let c = s[i];
        assert((c as u32) < 128);
        if 65 <= (c as u32) && (c as u32) <= 90 {
            assert(((c as u32) + 32) as char as u32 == (c as u32) + 32);
        }
    }
    assert(ascii_lower(t) =~= t);
}

} // verus!
