//! Resource URIs of the agent interface: `crux://pane/{id}/{resource}`.

use vstd::prelude::*;
use vstd::string::StrSliceExecFns;
use crate::text::{decimal, digit_char, has_prefix, starts_with, str_equal, suffix_from, u64_to_string};

verus! {

/// The prefix of every pane resource URI.
pub open spec fn pane_uri_prefix() -> Seq<char> {
    "crux://pane/"@
}

/// The index of the first occurrence of `c` in `s`.
pub open spec fn first_index_of(s: Seq<char>, c: char) -> Option<int>
    decreases s.len(),
{
    if s.len() == 0 {
        None
    } else if s[0] == c {
        Some(0)
    } else {
        match first_index_of(s.drop_first(), c) {
            Some(k) => Some(k + 1),
            None => None,
        }
    }
}

/// An ASCII decimal digit.
pub open spec fn is_digit_char(c: char) -> bool {
    '0' <= c <= '9'
}

/// The value of a string of decimal digits.
pub open spec fn digit_chars_value(s: Seq<char>) -> nat
    decreases s.len(),
{
    if s.len() == 0 {
        0
    } else {
        digit_chars_value(s.drop_last()) * 10 + (s.last() as nat - '0' as nat) as nat
    }
}

/// Every character is a decimal digit.
pub open spec fn all_digit_chars(s: Seq<char>) -> bool {
    forall|i: int| 0 <= i < s.len() ==> is_digit_char(#[trigger] s[i])
}

/// `s` without a leading `+`.
pub open spec fn unsigned_digits(s: Seq<char>) -> Seq<char> {
    if s.len() > 0 && s[0] == '+' {
        s.drop_first()
    } else {
        s
    }
}

/// The `u64` that `s` denotes as `str::parse::<u64>` reads it: an optional
/// `+` and at least one decimal digit, with a value that fits.
pub open spec fn spec_parse_u64(s: Seq<char>) -> Option<u64> {
    let d = unsigned_digits(s);
    if d.len() > 0 && all_digit_chars(d) && digit_chars_value(d) <= u64::MAX {
        Some(digit_chars_value(d) as u64)
    } else {
        None
    }
}

/// The pane id and resource type named by a URI.
pub open spec fn spec_parse_resource_uri(uri: Seq<char>) -> Option<(u64, Seq<char>)> {
    if !has_prefix(uri, pane_uri_prefix()) {
        None
    } else {
        let rest = uri.subrange(pane_uri_prefix().len() as int, uri.len() as int);
        match first_index_of(rest, '/') {
            None => None,
            Some(k) => match spec_parse_u64(rest.subrange(0, k)) {
                None => None,
                Some(id) => Some((id, rest.subrange(k + 1, rest.len() as int))),
            },
        }
    }
}

/// The index of the first `c` in `s`.
fn find_char(s: &str, c: char) -> (r: Option<usize>)
    ensures
        r matches Some(i) ==> i < s@.len(),
        match (r, first_index_of(s@, c)) {
            (Some(i), Some(k)) => i == k,
            (None, None) => true,
            _ => false,
        },
{
    let n = s.unicode_len();
    let mut i: usize = 0;
    while i < n
        invariant
            n == s@.len(),
            i <= n,
            forall|j: int| 0 <= j < i ==> s@[j] != c,
        decreases n - i,
    {
        if s.get_char(i) == c {
            proof {
                lemma_first_index_of(s@, c, i as int);
            }
            return Some(i);
        }
        i += 1;
    }
    proof {
        lemma_first_index_of_none(s@, c);
    }
    None
}

proof fn lemma_first_index_of(s: Seq<char>, c: char, i: int)
    requires
        0 <= i < s.len(),
        s[i] == c,
        forall|j: int| 0 <= j < i ==> s[j] != c,
    ensures
        first_index_of(s, c) == Some(i),
    decreases i,
{
    if i > 0 {
        lemma_first_index_of(s.drop_first(), c, i - 1);
    }
}

proof fn lemma_first_index_of_none(s: Seq<char>, c: char)
    requires
        forall|j: int| 0 <= j < s.len() ==> s[j] != c,
    ensures
        first_index_of(s, c) is None,
    decreases s.len(),
{
    if s.len() > 0 {
        lemma_first_index_of_none(s.drop_first(), c);
    }
}

/// Parse a `u64` as `str::parse` does.
pub fn parse_u64(s: &str) -> (r: Option<u64>)
    ensures
        r == spec_parse_u64(s@),
{
    let n = s.unicode_len();
    let start: usize = if n > 0 && s.get_char(0) == '+' {
        1
    } else {
        0
    };
    let ghost d = unsigned_digits(s@);
    assert(d =~= s@.subrange(start as int, n as int));
    if start == n {
        return None;
    }
    let mut value: u64 = 0;
    let mut i: usize = start;
    while i < n
        invariant
            n == s@.len(),
            start <= i <= n,
            start < n,
            d == unsigned_digits(s@),
            d =~= s@.subrange(start as int, n as int),
            forall|j: int| start <= j < i ==> is_digit_char(#[trigger] s@[j]),
            value == digit_chars_value(s@.subrange(start as int, i as int)),
        decreases n - i,
    {
        let c = s.get_char(i);
        if !('0' <= c && c <= '9') {
            assert(!is_digit_char(d[i - start]));
            return None;
        }
        let digit: u64 = (c as u32 - '0' as u32) as u64;
        assert(s@.subrange(start as int, i + 1).drop_last() =~= s@.subrange(start as int, i as int));
        assert(s@.subrange(start as int, i + 1).last() == c);
        assert(digit_chars_value(s@.subrange(start as int, i + 1)) == value * 10 + digit);
        match value.checked_mul(10) {
            Some(v10) => match v10.checked_add(digit) {
                Some(v) => {
                    value = v;
                },
                None => {
                    proof {
                        lemma_overflow_rejects(d, s@, start as int, i as int);
                    }
                    return None;
                },
            },
            None => {
                proof {
                    lemma_overflow_rejects(d, s@, start as int, i as int);
                }
                return None;
            },
        }
        i += 1;
    }
    Some(value)
}

/// Once the digits up to `i` exceed `u64::MAX`, the whole string is no
/// `u64`: either a later character is no digit, or the value is larger
/// still.
proof fn lemma_overflow_rejects(d: Seq<char>, s: Seq<char>, start: int, i: int)
    requires
        0 <= start <= i < s.len(),
        d =~= s.subrange(start, s.len() as int),
        digit_chars_value(s.subrange(start, i + 1)) > u64::MAX,
    ensures
        !(all_digit_chars(d) && digit_chars_value(d) <= u64::MAX),
{
    if all_digit_chars(d) {
        lemma_digits_value_prefix(d, i + 1 - start);
        assert(d.subrange(0, i + 1 - start) =~= s.subrange(start, i + 1));
    }
}

/// A prefix of a digit string never has a larger value.
proof fn lemma_digits_value_prefix(s: Seq<char>, k: int)
    requires
        0 <= k <= s.len(),
        forall|i: int| 0 <= i < s.len() ==> is_digit_char(#[trigger] s[i]),
    ensures
        digit_chars_value(s.subrange(0, k)) <= digit_chars_value(s),
    decreases s.len() - k,
{
    if k < s.len() {
        lemma_digits_value_prefix(s, k + 1);
        assert(s.subrange(0, k + 1).drop_last() =~= s.subrange(0, k));
    } else {
        assert(s.subrange(0, k) =~= s);
    }
}

/// Parse a resource URI such as `crux://pane/42/scrollback` into the pane
/// id and the resource type: everything after the first `/` that follows
/// the id.
pub fn parse_resource_uri(uri: &str) -> (r: Option<(u64, &str)>)
    ensures
        match (r, spec_parse_resource_uri(uri@)) {
            (Some((id, kind)), Some((sid, skind))) => id == sid && kind@ == skind,
            (None, None) => true,
            _ => false,
        },
{
    proof {
        reveal_strlit("crux://pane/");
    }
    if !starts_with(uri, "crux://pane/") {
        return None;
    }
    let rest = suffix_from(uri, 12);
    let slash = match find_char(rest, '/') {
        Some(k) => k,
        None => return None,
    };
    let n = rest.unicode_len();
    let id_str = rest.substring_char(0, slash);
    let kind = rest.substring_char(slash + 1, n);
    match parse_u64(id_str) {
        Some(id) => Some((id, kind)),
        None => None,
    }
}

/// The decimal rendering of a number consists of digits and has the
/// number's value.
proof fn lemma_decimal_digits(n: nat)
    ensures
        decimal(n).len() > 0,
        all_digit_chars(decimal(n)),
        digit_chars_value(decimal(n)) == n,
    decreases n,
{
    assert(digit_char(n % 10) as nat == n % 10 + 48);
    assert('0' as nat == 48);
    if n >= 10 {
        lemma_decimal_digits(n / 10);
        let d = decimal(n / 10);
        assert(decimal(n).drop_last() =~= d);
        assert(decimal(n).last() == digit_char(n % 10));
        assert((n / 10) * 10 + n % 10 == n) by (nonlinear_arith);
        assert(digit_chars_value(decimal(n)) == digit_chars_value(d) * 10 + (n % 10));
    } else {
        assert(decimal(n).drop_last() =~= Seq::<char>::empty());
        assert(decimal(n).last() == digit_char(n));
        assert(digit_chars_value(Seq::<char>::empty()) == 0);
        assert(n % 10 == n);
    }
}

/// A string without `c` followed by `c` has its first `c` at its end.
proof fn lemma_first_index_after(a: Seq<char>, c: char, b: Seq<char>)
    requires
        forall|j: int| 0 <= j < a.len() ==> a[j] != c,
    ensures
        first_index_of(a + seq![c] + b, c) == Some(a.len() as int),
{
    let s = a + seq![c] + b;
    lemma_first_index_of(s, c, a.len() as int);
}

/// The URI of a pane's resource parses back into the pane id and the
/// resource type, whatever the type holds (further `/` included).
pub proof fn lemma_resource_uri_round_trip(id: u64, kind: Seq<char>)
    ensures
        spec_parse_resource_uri(pane_uri_prefix() + decimal(id as nat) + "/"@ + kind) == Some(
            (id, kind),
        ),
{
    reveal_strlit("crux://pane/");
    reveal_strlit("/");
    let d = decimal(id as nat);
    lemma_decimal_digits(id as nat);
    let uri = pane_uri_prefix() + d + "/"@ + kind;
    assert(uri.subrange(0, 12) =~= pane_uri_prefix());
    let rest = uri.subrange(12, uri.len() as int);
    assert("/"@ =~= seq!['/']);
    assert(rest =~= d + seq!['/'] + kind);
    assert forall|j: int| 0 <= j < d.len() implies d[j] != '/' by {
        assert(is_digit_char(d[j]));
    }
    lemma_first_index_after(d, '/', kind);
    assert(rest.subrange(0, d.len() as int) =~= d);
    assert(rest.subrange(d.len() as int + 1, rest.len() as int) =~= kind);
    assert(is_digit_char(d[0]));
    assert(unsigned_digits(d) == d);
}

/// The resources a pane offers.
#[derive(Debug, Clone, Copy, PartialEq, Eq, Structural)]
pub enum ResourceKind {
    /// The scrollback buffer as plain text.
    Scrollback,
    /// The pane's state as JSON.
    State,
}

impl ResourceKind {
    /// The resource type as it appears in URIs.
    pub open spec fn spec_name(self) -> Seq<char> {
        match self {
            ResourceKind::Scrollback => "scrollback"@,
            ResourceKind::State => "state"@,
        }
    }

    /// The resource type as it appears in URIs.
    pub fn name(&self) -> (s: &'static str)
        ensures
            s@ == self.spec_name(),
    {
        match self {
            ResourceKind::Scrollback => "scrollback",
            ResourceKind::State => "state",
        }
    }
}

/// The resource kind a resource type names, or the message that refuses
/// an unknown one.
pub fn resource_kind(resource_type: &str) -> (r: Result<ResourceKind, String>)
    ensures
        resource_type@ == "scrollback"@ ==> r == Ok::<ResourceKind, String>(ResourceKind::Scrollback),
        resource_type@ == "state"@ ==> r == Ok::<ResourceKind, String>(ResourceKind::State),
        resource_type@ != "scrollback"@ && resource_type@ != "state"@ ==> (r matches Err(m) && m@
            == "unknown resource type: "@ + resource_type@),
{
    proof {
        reveal_strlit("scrollback");
        reveal_strlit("state");
        assert("scrollback"@.len() != "state"@.len());
    }
    if str_equal(resource_type, "scrollback") {
        Ok(ResourceKind::Scrollback)
    } else if str_equal(resource_type, "state") {
        Ok(ResourceKind::State)
    } else {
        Err(String::from_str("unknown resource type: ").concat(resource_type))
    }
}

/// The URI of a pane's resource.
pub open spec fn spec_resource_uri(pane_id: u64, kind: ResourceKind) -> Seq<char> {
    pane_uri_prefix() + decimal(pane_id as nat) + "/"@ + kind.spec_name()
}

/// The URI of a pane's resource: `crux://pane/{id}/{type}`.
pub fn resource_uri(pane_id: u64, kind: ResourceKind) -> (r: String)
    ensures
        r@ == spec_resource_uri(pane_id, kind),
{
    String::from_str("crux://pane/").concat(u64_to_string(pane_id).as_str()).concat("/").concat(kind.name())
}

/// A resource, or resource template, as listed to agents.
#[derive(Debug, Clone)]
pub struct ResourceSpec {
    /// The URI, or the URI template.
    pub uri: String,
    pub name: String,
    pub title: String,
    pub description: String,
    pub mime_type: String,
}

/// The listing of one resource of one pane.
pub open spec fn is_pane_resource(r: ResourceSpec, pane_id: u64, kind: ResourceKind) -> bool {
    &&& r.uri@ == spec_resource_uri(pane_id, kind)
    &&& r.name@ == "Pane "@ + decimal(pane_id as nat) + match kind {
        ResourceKind::Scrollback => " Scrollback"@,
        ResourceKind::State => " State"@,
    }
    &&& r.title@ == r.name@
    &&& r.description@ == match kind {
        ResourceKind::Scrollback => "Terminal scrollback buffer content"@,
        ResourceKind::State => "Full pane state as JSON"@,
    }
    &&& r.mime_type@ == match kind {
        ResourceKind::Scrollback => "text/plain"@,
        ResourceKind::State => "application/json"@,
    }
}

fn pane_resource(pane_id: u64, kind: ResourceKind) -> (r: ResourceSpec)
    ensures
        is_pane_resource(r, pane_id, kind),
{
    let id = u64_to_string(pane_id);
    let (suffix, description, mime): (&str, &str, &str) = match kind {
        ResourceKind::Scrollback => (" Scrollback", "Terminal scrollback buffer content", "text/plain"),
        ResourceKind::State => (" State", "Full pane state as JSON", "application/json"),
    };
    let name = String::from_str("Pane ").concat(id.as_str()).concat(suffix);
    ResourceSpec {
        uri: resource_uri(pane_id, kind),
        title: name.clone(),
        name,
        description: String::from_str(description),
        mime_type: String::from_str(mime),
    }
}

/// The ids of the entries that have one, in order.
pub open spec fn listed_ids(pane_ids: Seq<Option<u64>>) -> Seq<u64> {
    pane_ids.filter_map(|o: Option<u64>| o)
}

/// The resources of the listed panes: for each pane with an id, in order,
/// its scrollback and then its state; entries without an id are skipped.
pub fn pane_resources(pane_ids: &Vec<Option<u64>>) -> (r: Vec<ResourceSpec>)
    ensures
        r@.len() == 2 * listed_ids(pane_ids@).len(),
        forall|k: int|
            0 <= k < listed_ids(pane_ids@).len() ==> {
                &&& is_pane_resource(r@[2 * k], #[trigger] listed_ids(pane_ids@)[k], ResourceKind::Scrollback)
                &&& is_pane_resource(r@[2 * k + 1], listed_ids(pane_ids@)[k], ResourceKind::State)
            },
{
    let mut out: Vec<ResourceSpec> = Vec::new();
    let mut i: usize = 0;
    while i < pane_ids.len()
        invariant
            i <= pane_ids@.len(),
            out@.len() == 2 * listed_ids(pane_ids@.take(i as int)).len(),
            forall|k: int|
                0 <= k < listed_ids(pane_ids@.take(i as int)).len() ==> {
                    &&& is_pane_resource(
                        out@[2 * k],
                        #[trigger] listed_ids(pane_ids@.take(i as int))[k],
                        ResourceKind::Scrollback,
                    )
                    &&& is_pane_resource(out@[2 * k + 1], listed_ids(pane_ids@.take(i as int))[k], ResourceKind::State)
                },
        decreases pane_ids@.len() - i,
    {
        proof {
            pane_ids@.lemma_filter_map_take_succ(|o: Option<u64>| o, i as int);
        }
        let ghost prev = listed_ids(pane_ids@.take(i as int));
        match pane_ids[i] {
            Some(id) => {
                assert(listed_ids(pane_ids@.take(i + 1)) =~= prev.push(id));
                out.push(pane_resource(id, ResourceKind::Scrollback));
                out.push(pane_resource(id, ResourceKind::State));
                assert forall|k: int| 0 <= k < prev.len() + 1 implies {
                    &&& is_pane_resource(out@[2 * k], #[trigger] prev.push(id)[k], ResourceKind::Scrollback)
                    &&& is_pane_resource(out@[2 * k + 1], prev.push(id)[k], ResourceKind::State)
                } by {
                    if k < prev.len() {
                        assert(prev.push(id)[k] == prev[k]);
                    }
                }
            },
            None => {
                assert(listed_ids(pane_ids@.take(i + 1)) =~= prev);
            },
        }
        i += 1;
    }
    proof {
        assert(pane_ids@.take(pane_ids@.len() as int) =~= pane_ids@);
    }
    out
}

/// The resource templates: pane scrollback and pane state.
pub fn resource_templates() -> (r: Vec<ResourceSpec>)
    ensures
        r@.len() == 2,
        r@[0].uri@ == "crux://pane/{pane_id}/scrollback"@,
        r@[0].name@ == "Pane Scrollback"@,
        r@[0].title@ == "Pane Scrollback"@,
        r@[0].description@ == "Terminal scrollback buffer content for a pane"@,
        r@[0].mime_type@ == "text/plain"@,
        r@[1].uri@ == "crux://pane/{pane_id}/state"@,
        r@[1].name@ == "Pane State"@,
        r@[1].title@ == "Pane State"@,
        r@[1].description@ == "Full pane state as JSON (size, title, cursor, cwd)"@,
        r@[1].mime_type@ == "application/json"@,
{
    let mut r: Vec<ResourceSpec> = Vec::new();
    r.push(
        ResourceSpec {
            uri: String::from_str("crux://pane/{pane_id}/scrollback"),
            name: String::from_str("Pane Scrollback"),
            title: String::from_str("Pane Scrollback"),
            description: String::from_str("Terminal scrollback buffer content for a pane"),
            mime_type: String::from_str("text/plain"),
        },
    );
    r.push(
        ResourceSpec {
            uri: String::from_str("crux://pane/{pane_id}/state"),
            name: String::from_str("Pane State"),
            title: String::from_str("Pane State"),
            description: String::from_str("Full pane state as JSON (size, title, cursor, cwd)"),
            mime_type: String::from_str("application/json"),
        },
    );
    r
}

/// The URI of a pane's resource names that pane and that resource.
pub proof fn lemma_resource_uri_parses(pane_id: u64, kind: ResourceKind)
    ensures
        spec_parse_resource_uri(spec_resource_uri(pane_id, kind)) == Some((pane_id, kind.spec_name())),
{
    lemma_resource_uri_round_trip(pane_id, kind.spec_name());
}

} // verus!
