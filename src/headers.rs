//! Response headers as the HTTP client hands them over, and the header
//! heuristic.
use vstd::prelude::*;
use reqwest::header::{HeaderMap, HeaderValue};

verus! {

#[verifier::external_type_specification]
#[verifier::external_body]
#[verifier::reject_recursive_types(T)]
pub struct ExHeaderMap<T>(HeaderMap<T>);

#[verifier::external_type_specification]
#[verifier::external_body]
pub struct ExHeaderValue(HeaderValue);

/// Header names mapped to the values given under each.
pub type HeaderEntries = Map<Seq<char>, Seq<Seq<u8>>>;

/// What a header map holds: under each header name, in lower case as the map
/// stores names, the values given for it, as bytes, in insertion order.
pub uninterp spec fn header_entries(h: HeaderMap) -> HeaderEntries;

/// The first value under `name`, if there is one.
pub open spec fn first_header(h: HeaderEntries, name: Seq<char>) -> Option<Seq<u8>> {
    if h.contains_key(name) && h[name].len() > 0 {
        Some(h[name][0])
    } else {
        None
    }
}

/// A header name that the map looks up as it stands: lower-case ASCII
/// letters and `-`, not empty.
pub open spec fn lower_token(name: Seq<char>) -> bool {
    name.len() > 0 && forall|i: int| 0 <= i < name.len() ==> ('a' <= #[trigger] name[i] <= 'z' || name[i] == '-')
}

/// Relies on `HeaderMap::new`: the new map holds no header.
#[verifier::external_body]
pub(crate) fn empty_headers() -> (r: HeaderMap)
    ensures
        header_entries(r) == HeaderEntries::empty(),
{
    HeaderMap::new()
}

/// Relies on `HeaderMap::get` with a `&str` name, and `HeaderValue::as_bytes`:
/// a name of lower-case letters and `-` is looked up as it stands, and the
/// first value stored under it comes back, as its bytes.
#[verifier::external_body]
fn first_value(h: &HeaderMap, name: &str) -> (r: Option<Vec<u8>>)
    requires
        lower_token(name@),
    ensures
        match r {
            Some(v) => first_header(header_entries(*h), name@) == Some(v@),
            None => first_header(header_entries(*h), name@) is None,
        },
{
    h.get(name).map(|v| v.as_bytes().to_vec())
}

/// An ASCII upper-case letter turned to lower case; any other byte kept.
pub open spec fn fold_byte(b: u8) -> u8 {
    if 65 <= b <= 90 {
        (b + 32) as u8
    } else {
        b
    }
}

/// The bytes with ASCII letters case-folded.
pub open spec fn folded(s: Seq<u8>) -> Seq<u8> {
    s.map_values(|b: u8| fold_byte(b))
}

/// The bytes of `bigip`.
pub open spec fn bigip_mark() -> Seq<u8> {
    seq![98u8, 105u8, 103u8, 105u8, 112u8]
}

/// Whether `pat` occurs in `s` as a contiguous run.
pub open spec fn has_infix(s: Seq<u8>, pat: Seq<u8>) -> bool {
    exists|k: int| 0 <= k && k + pat.len() <= s.len() && #[trigger] s.subrange(k, k + pat.len()) == pat
}

/// Whether a header value, case-folded, contains `bigip`.
pub open spec fn names_bigip(value: Seq<u8>) -> bool {
    has_infix(folded(value), bigip_mark())
}

/// Whether the `server` header is present and its first value, case-folded,
/// contains `bigip`.
pub open spec fn server_names_bigip(h: HeaderEntries) -> bool {
    match first_header(h, "server"@) {
        Some(v) => names_bigip(v),
        None => false,
    }
}

fn fold(b: u8) -> (r: u8)
    ensures
        r == fold_byte(b),
{
    if 65 <= b && b <= 90 {
        b + 32
    } else {
        b
    }
}

fn bigip_at(value: &[u8], k: usize) -> (r: bool)
    requires
        k + 5 <= value@.len(),
    ensures
        r == (folded(value@).subrange(k as int, k + 5) == bigip_mark()),
{
    let ghost w = folded(value@).subrange(k as int, k + 5);
    assert(forall|m: int| 0 <= m < 5 ==> w[m] == fold_byte(#[trigger] value@[k + m]));
    let r = fold(value[k]) == 98 && fold(value[k + 1]) == 105 && fold(value[k + 2]) == 103
        && fold(value[k + 3]) == 105 && fold(value[k + 4]) == 112;
    proof {
        if r {
            assert(w =~= bigip_mark());
        } else {
            assert(w != bigip_mark()) by {
                if w == bigip_mark() {
                    assert(w[0] == 98 && w[1] == 105 && w[2] == 103 && w[3] == 105 && w[4] == 112);
                }
            }
        }
    }
    r
}

/// Whether a header value, with ASCII letters case-folded, contains `bigip`.
pub fn contains_bigip(value: &[u8]) -> (r: bool)
    ensures
        r == names_bigip(value@),
{
    if value.len() < 5 {
        return false;
    }
    let mut k: usize = 0;
    while k <= value.len() - 5
        invariant
            value@.len() >= 5,
            k <= value@.len() - 4,
            forall|j: int| 0 <= j < k ==> #[trigger] folded(value@).subrange(j, j + 5) != bigip_mark(),
        decreases value@.len() - k,
    {
        if bigip_at(value, k) {
            assert(folded(value@).subrange(k as int, k + bigip_mark().len()) == bigip_mark());
            return true;
        }
        k = k + 1;
    }
    assert forall|j: int| 0 <= j && j + bigip_mark().len() <= folded(value@).len() implies
        #[trigger] folded(value@).subrange(j, j + bigip_mark().len()) != bigip_mark() by {
        assert(folded(value@).subrange(j, j + 5) != bigip_mark());
    }
    false
}

/// Whether the `server` header is present and its value, with ASCII letters
/// case-folded, contains `bigip`.
pub fn bigip_by_header(headers: &HeaderMap) -> (r: bool)
    ensures
        r == server_names_bigip(header_entries(*headers)),
{
    proof {
        reveal_strlit("server");
    }
    match first_value(headers, "server") {
        Some(v) => contains_bigip(v.as_slice()),
        None => false,
    }
}

} // verus!
