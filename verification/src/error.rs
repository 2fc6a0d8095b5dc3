//! The failure that an endpoint returns: a status, a body of five optional
//! members and further headers, and how it is written on the wire.

use crate::encoding::{json_quote, json_string, pairs_view, url_encode, url_encoded};
use crate::header::{
    header_pairs, insert_header, is_header_name, is_header_value, list_headers, new_headers,
    no_headers, with_header,
};
use crate::text::{decimal, lower_case, push_decimal};
use actix_web::http::header::HeaderMap;
use vstd::prelude::*;

verus! {

/// The status of an HTTP response: a number of three digits.
#[derive(Debug, Clone, Copy, PartialEq, Eq, Structural)]
pub struct HttpStatusCode {
    code: u16,
}

impl HttpStatusCode {
    #[verifier::type_invariant]
    spec fn in_range(self) -> bool {
        100 <= self.code <= 999
    }

    /// The number of the status.
    pub closed spec fn value(self) -> int {
        self.code as int
    }

    /// Whether a number is a status: it has three digits.
    pub open spec fn is_status(code: int) -> bool {
        100 <= code <= 999
    }

    pub fn from_u16(code: u16) -> (status: Option<HttpStatusCode>)
        ensures
            status is Some <==> Self::is_status(code as int),
            status matches Some(s) ==> s.value() == code,
    {
        if 100 <= code && code <= 999 {
            Some(HttpStatusCode { code })
        } else {
            None
        }
    }

    pub fn as_u16(&self) -> (code: u16)
        ensures
            code == self.value(),
            Self::is_status(code as int),
    {
        proof {
            use_type_invariant(self);
        }
        self.code
    }

    pub fn ok() -> (status: HttpStatusCode)
        ensures
            status.value() == 200,
    {
        HttpStatusCode { code: 200 }
    }

    pub fn moved_permanently() -> (status: HttpStatusCode)
        ensures
            status.value() == 301,
    {
        HttpStatusCode { code: 301 }
    }

    pub fn bad_request() -> (status: HttpStatusCode)
        ensures
            status.value() == 400,
    {
        HttpStatusCode { code: 400 }
    }

    pub fn forbidden() -> (status: HttpStatusCode)
        ensures
            status.value() == 403,
    {
        HttpStatusCode { code: 403 }
    }

    pub fn not_found() -> (status: HttpStatusCode)
        ensures
            status.value() == 404,
    {
        HttpStatusCode { code: 404 }
    }

    pub fn internal_server_error() -> (status: HttpStatusCode)
        ensures
            status.value() == 500,
    {
        HttpStatusCode { code: 500 }
    }
}

impl Default for HttpStatusCode {
    fn default() -> (status: HttpStatusCode)
        ensures
            status.value() == 200,
    {
        HttpStatusCode::ok()
    }
}

/// The body of a failure. A text that is empty, or a code that is absent, is
/// a member that the body does not have.
#[derive(Debug, Clone, PartialEq, Eq)]
pub struct ErrorBody {
    /// Where the kind of failure is documented; the member `type`.
    pub docs_uri: String,
    pub title: String,
    pub detail: String,
    pub source: String,
    pub error_code: Option<u8>,
}

/// A failure: the status to answer with, the body, and headers to add.
#[derive(Debug, Clone)]
pub struct Error {
    pub http_code: HttpStatusCode,
    pub body: ErrorBody,
    pub headers: HeaderMap,
}

/// `"name":value`, a member of a JSON object. The value is JSON already.
pub open spec fn json_member(name: Seq<char>, value: Seq<char>) -> Seq<char> {
    seq!['"'] + name + seq!['"', ':'] + value
}

/// The members one after the other, with a comma between two of them.
pub open spec fn json_members(members: Seq<(Seq<char>, Seq<char>)>) -> Seq<char>
    decreases members.len(),
{
    if members.len() == 0 {
        Seq::empty()
    } else if members.len() == 1 {
        json_member(members[0].0, members[0].1)
    } else {
        json_members(members.drop_last()) + seq![','] + json_member(
            members.last().0,
            members.last().1,
        )
    }
}

/// A JSON object of the given members, names and values, without white space.
pub open spec fn json_object(members: Seq<(Seq<char>, Seq<char>)>) -> Seq<char> {
    seq!['{'] + json_members(members) + seq!['}']
}

/// Writes a JSON object. Each member is a name, written between double quotes
/// as it is, and a value that is JSON already.
pub fn write_json_object(members: &Vec<(String, String)>) -> (json: String)
    ensures
        json@ == json_object(pairs_view(members@)),
{
    let mut out = String::new();
    out.push('{');
    let mut i: usize = 0;
    while i < members.len()
        invariant
            i <= members@.len(),
            out@ == seq!['{'] + json_members(pairs_view(members@).take(i as int)),
        decreases members@.len() - i,
    {
        let ghost before = pairs_view(members@).take(i as int);
        let ghost now = pairs_view(members@).take(i + 1);
        assert(now.drop_last() == before);
        assert(now.last() == (members@[i as int].0@, members@[i as int].1@));
        if i > 0 {
            out.push(',');
        }
        out.push('"');
        out.append(members[i].0.as_str());
        out.push('"');
        out.push(':');
        out.append(members[i].1.as_str());
        assert(out@ == seq!['{'] + json_members(now));
        i = i + 1;
    }
    assert(pairs_view(members@).take(i as int) == pairs_view(members@));
    out.push('}');
    out
}

impl ErrorBody {
    /// Whether the body has no member at all.
    pub open spec fn spec_is_empty(&self) -> bool {
        &&& self.docs_uri@.len() == 0
        &&& self.title@.len() == 0
        &&& self.detail@.len() == 0
        &&& self.source@.len() == 0
        &&& self.error_code is None
    }

    /// The members that the body has, in the order `type`, `title`, `detail`,
    /// `source`, `error_code`, each with its value as JSON.
    pub open spec fn members(self) -> Seq<(Seq<char>, Seq<char>)> {
        let docs_uri = if self.docs_uri@.len() == 0 {
            Seq::empty()
        } else {
            seq![("type"@, json_string(self.docs_uri@))]
        };
        let title = if self.title@.len() == 0 {
            Seq::empty()
        } else {
            seq![("title"@, json_string(self.title@))]
        };
        let detail = if self.detail@.len() == 0 {
            Seq::empty()
        } else {
            seq![("detail"@, json_string(self.detail@))]
        };
        let source = if self.source@.len() == 0 {
            Seq::empty()
        } else {
            seq![("source"@, json_string(self.source@))]
        };
        let error_code = match self.error_code {
            None => Seq::empty(),
            Some(code) => seq![("error_code"@, decimal(code as nat))],
        };
        docs_uri + title + detail + source + error_code
    }

    /// The body as a JSON object.
    pub open spec fn json(self) -> Seq<char> {
        json_object(self.members())
    }

    /// The body as it is sent: nothing at all where it has no member, the
    /// JSON object otherwise.
    pub open spec fn wire(self) -> Seq<char> {
        if self.spec_is_empty() {
            Seq::empty()
        } else {
            self.json()
        }
    }

    #[verifier::when_used_as_spec(spec_is_empty)]
    pub fn is_empty(&self) -> (empty: bool)
        ensures
            empty == self.spec_is_empty(),
    {
        self.docs_uri.as_str().unicode_len() == 0 && self.title.as_str().unicode_len() == 0
            && self.detail.as_str().unicode_len() == 0 && self.source.as_str().unicode_len() == 0
            && self.error_code.is_none()
    }

    /// The body as a JSON object; `{}` for a body without members.
    pub fn to_json(&self) -> (json: String)
        ensures
            json@ == self.json(),
    {
        let mut members: Vec<(String, String)> = Vec::new();
        push_text_member(&mut members, "type", &self.docs_uri);
        push_text_member(&mut members, "title", &self.title);
        push_text_member(&mut members, "detail", &self.detail);
        push_text_member(&mut members, "source", &self.source);
        if let Some(code) = self.error_code {
            let mut value = String::new();
            push_decimal(&mut value, code as u64);
            let ghost before = pairs_view(members@);
            members.push((String::from_str("error_code"), value));
            assert(pairs_view(members@) == before.push(("error_code"@, decimal(code as nat))));
        }
        assert(pairs_view(members@) == self.members());
        write_json_object(&members)
    }

    /// The body as it is sent: empty where the body has no member.
    pub fn to_wire(&self) -> (body: String)
        ensures
            body@ == self.wire(),
            body@.len() == 0 <==> self.spec_is_empty(),
    {
        if self.is_empty() {
            String::new()
        } else {
            self.to_json()
        }
    }
}

/// A body without members is sent as nothing, and a body with a member as
/// an object, which is never nothing.
pub proof fn lemma_wire_is_empty_for_empty_body_only(body: ErrorBody)
    ensures
        body.wire().len() == 0 <==> body.spec_is_empty(),
        !body.spec_is_empty() ==> body.wire() == body.json() && body.wire()[0] == '{',
{
}

/// Adds the member `name` for a text, unless the text is empty.
fn push_text_member(members: &mut Vec<(String, String)>, name: &str, text: &String)
    ensures
        pairs_view(final(members)@) == pairs_view(old(members)@) + (if text@.len() == 0 {
            Seq::<(Seq<char>, Seq<char>)>::empty()
        } else {
            seq![(name@, json_string(text@))]
        }),
{
    if text.as_str().unicode_len() != 0 {
        match json_quote(text.as_str()) {
            Some(quoted) => {
                members.push((String::from_str(name), quoted));
            },
            None => {},
        }
    }
}

impl Default for ErrorBody {
    fn default() -> (body: ErrorBody)
        ensures
            body.spec_is_empty(),
    {
        ErrorBody {
            docs_uri: String::new(),
            title: String::new(),
            detail: String::new(),
            source: String::new(),
            error_code: None,
        }
    }
}

impl Default for Error {
    fn default() -> (error: Error)
        ensures
            error.http_code.value() == 200,
            error.body.spec_is_empty(),
            header_pairs(error.headers) == no_headers(),
    {
        Error { http_code: HttpStatusCode::default(), body: ErrorBody::default(), headers: new_headers() }
    }
}

impl Error {
    /// A failure with a status, and neither body nor headers.
    pub fn new(http_code: HttpStatusCode) -> (error: Error)
        ensures
            error.http_code == http_code,
            error.body.spec_is_empty(),
            header_pairs(error.headers) == no_headers(),
    {
        Error { http_code, body: ErrorBody::default(), headers: new_headers() }
    }

    pub fn bad_request() -> (error: Error)
        ensures
            error.http_code.value() == 400,
            error.body.spec_is_empty(),
            header_pairs(error.headers) == no_headers(),
    {
        Error::new(HttpStatusCode::bad_request())
    }

    pub fn forbidden() -> (error: Error)
        ensures
            error.http_code.value() == 403,
            error.body.spec_is_empty(),
            header_pairs(error.headers) == no_headers(),
    {
        Error::new(HttpStatusCode::forbidden())
    }

    pub fn not_found() -> (error: Error)
        ensures
            error.http_code.value() == 404,
            error.body.spec_is_empty(),
            header_pairs(error.headers) == no_headers(),
    {
        Error::new(HttpStatusCode::not_found())
    }

    /// A failure of the server itself; the detail is the cause in words.
    pub fn internal(cause: &str) -> (error: Error)
        ensures
            error.http_code.value() == 500,
            error.body.detail@ == cause@,
            error.body.docs_uri@.len() == 0,
            error.body.title@.len() == 0,
            error.body.source@.len() == 0,
            error.body.error_code is None,
            header_pairs(error.headers) == no_headers(),
    {
        Error::new(HttpStatusCode::internal_server_error()).detail(cause)
    }

    pub fn docs_uri(self, docs_uri: &str) -> (error: Error)
        ensures
            error.body.docs_uri@ == docs_uri@,
            error.body.title == self.body.title,
            error.body.detail == self.body.detail,
            error.body.source == self.body.source,
            error.body.error_code == self.body.error_code,
            error.http_code == self.http_code,
            error.headers == self.headers,
    {
        let mut error = self;
        error.body.docs_uri = String::from_str(docs_uri);
        error
    }

    pub fn title(self, title: &str) -> (error: Error)
        ensures
            error.body.title@ == title@,
            error.body.docs_uri == self.body.docs_uri,
            error.body.detail == self.body.detail,
            error.body.source == self.body.source,
            error.body.error_code == self.body.error_code,
            error.http_code == self.http_code,
            error.headers == self.headers,
    {
        let mut error = self;
        error.body.title = String::from_str(title);
        error
    }

    pub fn detail(self, detail: &str) -> (error: Error)
        ensures
            error.body.detail@ == detail@,
            error.body.docs_uri == self.body.docs_uri,
            error.body.title == self.body.title,
            error.body.source == self.body.source,
            error.body.error_code == self.body.error_code,
            error.http_code == self.http_code,
            error.headers == self.headers,
    {
        let mut error = self;
        error.body.detail = String::from_str(detail);
        error
    }

    pub fn source(self, source: &str) -> (error: Error)
        ensures
            error.body.source@ == source@,
            error.body.docs_uri == self.body.docs_uri,
            error.body.title == self.body.title,
            error.body.detail == self.body.detail,
            error.body.error_code == self.body.error_code,
            error.http_code == self.http_code,
            error.headers == self.headers,
    {
        let mut error = self;
        error.body.source = String::from_str(source);
        error
    }

    pub fn error_code(self, error_code: u8) -> (error: Error)
        ensures
            error.body.error_code == Some(error_code),
            error.body.docs_uri == self.body.docs_uri,
            error.body.title == self.body.title,
            error.body.detail == self.body.detail,
            error.body.source == self.body.source,
            error.http_code == self.http_code,
            error.headers == self.headers,
    {
        let mut error = self;
        error.body.error_code = Some(error_code);
        error
    }

    /// Sets a header, where the transport takes its name and its value: the
    /// headers of that name leave, and the new one comes.
    pub(crate) fn header(self, name: &str, value: &str) -> (set: Option<Error>)
        ensures
            set is Some <==> is_header_name(name@) && is_header_value(value@),
            set matches Some(error) ==> {
                &&& error.http_code == self.http_code
                &&& error.body == self.body
                &&& header_pairs(error.headers) == with_header(
                    header_pairs(self.headers),
                    name@,
                    value@,
                )
            },
    {
        let Error { http_code, body, headers } = self;
        let mut headers = headers;
        if insert_header(&mut headers, name, value) {
            Some(Error { http_code, body, headers })
        } else {
            None
        }
    }

    /// The headers of the failure, each as its name and its value, in the
    /// order in which the transport holds them.
    pub fn header_list(&self) -> (list: Vec<(String, String)>)
        ensures
            pairs_view(list@).to_multiset() == header_pairs(self.headers),
    {
        list_headers(&self.headers)
    }

    /// The failure that a response carries. A response without a body gives
    /// a failure without members; otherwise the body is what was decoded from
    /// it, and a body that could not be decoded is the error.
    pub fn parse<E>(http_code: HttpStatusCode, body: &str, decoded: Result<ErrorBody, E>) -> (parsed:
        Result<Error, E>)
        ensures
            body@.len() == 0 ==> parsed is Ok && parsed->Ok_0.body.spec_is_empty(),
            body@.len() != 0 ==> match decoded {
                Ok(b) => parsed is Ok && parsed->Ok_0.body == b,
                Err(e) => parsed == Err::<Error, E>(e),
            },
            parsed matches Ok(error) ==> error.http_code == http_code && header_pairs(error.headers) == no_headers(),
    {
        let body = if body.unicode_len() != 0 {
            match decoded {
                Ok(body) => body,
                Err(e) => {
                    return Err(e);
                },
            }
        } else {
            ErrorBody::default()
        };
        Ok(Error { http_code, body, headers: new_headers() })
    }

    /// The failure in words: the title, a colon and the detail.
    pub fn to_string(&self) -> (text: String)
        ensures
            text@ == self.body.title@ + ": "@ + self.body.detail@,
    {
        let mut text = self.body.title.clone();
        text.append(": ");
        text.append(self.body.detail.as_str());
        text
    }
}

/// Names and values of headers, as sequences of characters.
pub open spec fn headers_view(headers: Seq<(String, String)>) -> Seq<(Seq<char>, Seq<char>)> {
    pairs_view(headers)
}

/// The answer to a request for what has moved for good: where it is now, and
/// the query to send there.
#[derive(Debug)]
pub struct MovedPermanentlyError {
    location: String,
    query_part: Option<String>,
}

impl MovedPermanentlyError {
    pub closed spec fn location(self) -> Seq<char> {
        self.location@
    }

    /// The query, encoded, if there is one.
    pub closed spec fn query_part(self) -> Option<Seq<char>> {
        match self.query_part {
            Some(query) => Some(query@),
            None => None,
        }
    }

    /// The address to go to: the location, and behind a question mark the
    /// query, if there is one.
    pub open spec fn full_location(self) -> Seq<char> {
        match self.query_part() {
            Some(query) => self.location() + seq!['?'] + query,
            None => self.location(),
        }
    }

    pub fn new(location: String) -> (moved: MovedPermanentlyError)
        ensures
            moved.location() == location@,
            moved.query_part() is None,
    {
        MovedPermanentlyError { location, query_part: None }
    }

    /// Sets the query to the encoded form of the given pairs.
    pub fn with_query(self, query: &Vec<(String, String)>) -> (moved: MovedPermanentlyError)
        ensures
            moved.location() == self.location(),
            moved.query_part() == Some(url_encoded(pairs_view(query@))),
    {
        match url_encode(query) {
            Some(encoded) => self.with_encoded_query(encoded),
            None => self,
        }
    }

    /// Sets the query to a text that is encoded already.
    pub fn with_encoded_query(self, query: String) -> (moved: MovedPermanentlyError)
        ensures
            moved.location() == self.location(),
            moved.query_part() == Some(query@),
    {
        MovedPermanentlyError { location: self.location, query_part: Some(query) }
    }

    /// The failure to answer with: status 301, no body, and the header
    /// `location` alone. There is none where the address is no value of a
    /// header.
    pub fn into_error(self) -> (moved: Option<Error>)
        ensures
            moved is Some <==> is_header_value(self.full_location()),
            moved matches Some(error) ==> {
                &&& error.http_code.value() == 301
                &&& error.body.spec_is_empty()
                &&& header_pairs(error.headers) == no_headers().insert(
                    ("location"@, self.full_location()),
                )
            },
    {
        let mut full_location = self.location;
        match self.query_part {
            Some(query) => {
                full_location.push('?');
                full_location.append(query.as_str());
            },
            None => {},
        }
        assert(full_location@ == self.full_location());
        let fresh = Error::new(HttpStatusCode::moved_permanently());
        proof {
            reveal_strlit("location");
            assert(lower_case("location"@) == "location"@);
            assert(is_header_name("location"@));
            assert(no_headers().filter(
                |header: (Seq<char>, Seq<char>)| header.0 != lower_case("location"@),
            ) == no_headers());
        }
        fresh.header("location", full_location.as_str())
    }
}

} // verus!
