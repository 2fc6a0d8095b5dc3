//! The encodings that other crates compute for this library: JSON string
//! literals, URL-encoded queries and printed dates. Each result has a name, and
//! the contracts of the library speak of that name.

use vstd::prelude::*;

verus! {

/// The JSON string literal for a text: the text between double quotes, with
/// the characters escaped that JSON does not allow between them.
pub uninterp spec fn json_string(text: Seq<char>) -> Seq<char>;

/// The `application/x-www-form-urlencoded` form of a list of pairs of a key
/// and a value.
pub uninterp spec fn url_encoded(pairs: Seq<(Seq<char>, Seq<char>)>) -> Seq<char>;

/// The date and time of day that lie `seconds` after 1970-01-01 00:00:00,
/// printed as a description of a format says; `None` where the description
/// is not one, or the date is outside the years that can be printed.
pub uninterp spec fn formatted_date(seconds: int, format: Seq<char>) -> Option<Seq<char>>;

/// The keys and values of a list of pairs, as sequences of characters.
pub open spec fn pairs_view(pairs: Seq<(String, String)>) -> Seq<(Seq<char>, Seq<char>)> {
    pairs.map_values(|pair: (String, String)| (pair.0@, pair.1@))
}

/// Calls `serde_json::to_string` on a text. The result is the JSON string
/// literal of the text; writing a text into memory does not fail.
#[verifier::external_body]
pub(crate) fn json_quote(text: &str) -> (quoted: Option<String>)
    ensures
        quoted is Some,
        quoted matches Some(q) ==> q@ == json_string(text@),
{
    serde_json::to_string(text).ok()
}

/// Calls `serde_urlencoded::to_string` on a list of pairs of texts. The result
/// is the encoded query; a sequence of pairs of texts is an input that the
/// encoder supports, so it does not fail.
#[verifier::external_body]
pub(crate) fn url_encode(pairs: &Vec<(String, String)>) -> (encoded: Option<String>)
    ensures
        encoded is Some,
        encoded matches Some(e) ==> e@ == url_encoded(pairs_view(pairs@)),
{
    serde_urlencoded::to_string(pairs).ok()
}

/// Reads the description of a format with
/// `time::format_description::parse_borrowed`, builds the date and time of
/// day `seconds` after the epoch with
/// `time::OffsetDateTime::from_unix_timestamp`, and prints it with
/// `OffsetDateTime::format`. Nothing is returned where the crate refuses the
/// description or the date, or cannot print.
#[verifier::external_body]
pub(crate) fn format_date(seconds: i64, format: &str) -> (printed: Option<String>)
    ensures
        printed.is_some() == formatted_date(seconds as int, format@).is_some(),
        printed matches Some(p) ==> p@ == formatted_date(seconds as int, format@).unwrap(),
{
    let description = time::format_description::parse_borrowed::<1>(format).ok()?;
    let date = time::OffsetDateTime::from_unix_timestamp(seconds).ok()?;
    date.format(&description).ok()
}

} // verus!
