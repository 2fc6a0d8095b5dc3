//! The headers of a message: which texts are names and values of headers,
//! and the map in which the transport holds them.

use crate::encoding::pairs_view;
use crate::text::{chars_of, code_point, lower_case};
use actix_web::http::header::{HeaderMap, HeaderName, HeaderValue};
use vstd::multiset::Multiset;
use vstd::prelude::*;

verus! {

/// `actix_web::http::header::HeaderMap`: the headers of a message, as the
/// transport holds them.
#[verifier::external_type_specification]
#[verifier::external_body]
pub struct ExHeaderMap(actix_web::http::header::HeaderMap);

/// The headers that a map holds, each as its name, in lower case, and its
/// value, read as text.
pub uninterp spec fn header_pairs(headers: HeaderMap) -> Multiset<(Seq<char>, Seq<char>)>;

/// Whether a character may stand in the name of a header: a letter, a
/// digit, or one of ``!"#$%&'*+-.^_`|~``.
pub open spec fn is_header_name_char(c: char) -> bool {
    let n = c as int;
    ||| 0x21 <= n <= 0x27
    ||| n == 0x2a
    ||| n == 0x2b
    ||| n == 0x2d
    ||| n == 0x2e
    ||| 0x30 <= n <= 0x39
    ||| 0x41 <= n <= 0x5a
    ||| 0x5e <= n <= 0x7a
    ||| n == 0x7c
    ||| n == 0x7e
}

/// Whether the transport takes a text as the name of a header: it has
/// between 1 and 65535 characters, each of which may stand in a name.
pub open spec fn is_header_name(name: Seq<char>) -> bool {
    &&& 1 <= name.len() <= 65535
    &&& forall|i: int| 0 <= i < name.len() ==> is_header_name_char(#[trigger] name[i])
}

/// Whether a character may stand in the value of a header: a tab, or any
/// character from the space on but U+007F.
pub open spec fn is_header_value_char(c: char) -> bool {
    c == '\t' || (c as int >= 0x20 && c as int != 0x7f)
}

/// Whether the transport takes a text as the value of a header: each of
/// its characters may stand in a value.
pub open spec fn is_header_value(value: Seq<char>) -> bool {
    forall|i: int| 0 <= i < value.len() ==> is_header_value_char(#[trigger] value[i])
}

/// Whether the transport takes a text as the name of a header.
pub fn check_header_name(name: &str) -> (ok: bool)
    ensures
        ok == is_header_name(name@),
{
    let chars = chars_of(name);
    if chars.len() < 1 || chars.len() > 65535 {
        return false;
    }
    let mut i: usize = 0;
    while i < chars.len()
        invariant
            i <= chars@.len(),
            chars@ == name@,
            forall|j: int| 0 <= j < i ==> is_header_name_char(#[trigger] chars@[j]),
        decreases chars@.len() - i,
    {
        let c: char = chars[i];
        let n: u32 = code_point(c);
        let ok = (0x21 <= n && n <= 0x27) || n == 0x2a || n == 0x2b || n == 0x2d || n == 0x2e || (
        0x30 <= n && n <= 0x39) || (0x41 <= n && n <= 0x5a) || (0x5e <= n && n <= 0x7a) || n
            == 0x7c || n == 0x7e;
        assert(ok == is_header_name_char(c));
        if !ok {
            return false;
        }
        i = i + 1;
    }
    true
}

/// Whether the transport takes a text as the value of a header.
pub fn check_header_value(value: &str) -> (ok: bool)
    ensures
        ok == is_header_value(value@),
{
    let chars = chars_of(value);
    let mut i: usize = 0;
    while i < chars.len()
        invariant
            i <= chars@.len(),
            chars@ == value@,
            forall|j: int| 0 <= j < i ==> is_header_value_char(#[trigger] chars@[j]),
        decreases chars@.len() - i,
    {
        let c: char = chars[i];
        let n: u32 = code_point(c);
        let ok = n == 0x09 || (n >= 0x20 && n != 0x7f);
        assert(ok == is_header_value_char(c)) by {
            assert((c == '\t') == (c as int == 0x09));
        }
        if !ok {
            return false;
        }
        i = i + 1;
    }
    true
}

/// No headers.
pub open spec fn no_headers() -> Multiset<(Seq<char>, Seq<char>)> {
    Multiset::empty()
}

/// The headers after one was set: those of its name have left, whatever
/// the case of the letters of the name, and the new one has come.
pub open spec fn with_header(
    headers: Multiset<(Seq<char>, Seq<char>)>,
    name: Seq<char>,
    value: Seq<char>,
) -> Multiset<(Seq<char>, Seq<char>)> {
    headers.filter(|header: (Seq<char>, Seq<char>)| header.0 != lower_case(name)).insert(
        (lower_case(name), value),
    )
}

/// `HeaderMap::clone` gives a map of the same headers.
pub assume_specification[ <actix_web::http::header::HeaderMap as Clone>::clone ](
    headers: &actix_web::http::header::HeaderMap,
) -> (copy: actix_web::http::header::HeaderMap)
    ensures
        header_pairs(copy) == header_pairs(*headers),
;

/// Calls `HeaderMap::new`: a map without headers.
#[verifier::external_body]
pub(crate) fn new_headers() -> (headers: HeaderMap)
    ensures
        header_pairs(headers) == no_headers(),
{
    HeaderMap::new()
}

/// Calls `HeaderMap::insert`, with the name made by `HeaderName::from_bytes`
/// and the value made by `HeaderValue::from_str`. The first takes the texts
/// that are names of headers, the second those that are values. Where both
/// are taken, the headers of that name leave the map and the new one comes;
/// otherwise nothing changes.
#[verifier::external_body]
pub(crate) fn insert_header(headers: &mut HeaderMap, name: &str, value: &str) -> (taken: bool)
    ensures
        taken == (is_header_name(name@) && is_header_value(value@)),
        taken ==> header_pairs(*final(headers)) == with_header(
            header_pairs(*old(headers)),
            name@,
            value@,
        ),
        !taken ==> header_pairs(*final(headers)) == header_pairs(*old(headers)),
{
    match (HeaderName::from_bytes(name.as_bytes()), HeaderValue::from_str(value)) {
        (Ok(name), Ok(value)) => {
            headers.insert(name, value);
            true
        },
        _ => false,
    }
}

/// Walks the map with `HeaderMap::iter` and hands out each header as its
/// name and its value, read as text. The order is that of the map.
#[verifier::external_body]
pub(crate) fn list_headers(headers: &HeaderMap) -> (list: Vec<(String, String)>)
    ensures
        pairs_view(list@).to_multiset() == header_pairs(*headers),
{
    let mut list = Vec::new();
    for (name, value) in headers.iter() {
        let text = String::from_utf8_lossy(value.as_bytes()).into_owned();
        list.push((name.as_str().to_owned(), text));
    }
    list
}

} // verus!
