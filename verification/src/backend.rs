//! From a handler's result to a response: where the query of a request is
//! read from, how a result, a failure and a deprecation are written, and which
//! responses get a body of their own.

use crate::encoding::{format_date, formatted_date};
use crate::encoding::json_string;
use crate::error::{headers_view, json_object, Error, HttpStatusCode};
use crate::header::{header_pairs, no_headers};
use crate::scope::{ApiBackend, ApiScope, EndpointMutability, ExtendApiBackend};
use crate::withs::{Actuality, DateTime, NamedWith, With};
use vstd::prelude::*;
use vstd::std_specs::convert::{FromSpecImpl, IntoSpec};

verus! {

/// The methods that endpoints answer to.
#[derive(Debug, Clone, Copy, PartialEq, Eq, Structural)]
pub enum HttpMethod {
    Get,
    Post,
}

/// An endpoint that reads answers to `GET`, one that writes to `POST`.
pub open spec fn method_of(mutability: EndpointMutability) -> HttpMethod {
    match mutability {
        EndpointMutability::Immutable => HttpMethod::Get,
        EndpointMutability::Mutable => HttpMethod::Post,
    }
}

impl From<EndpointMutability> for HttpMethod {
    fn from(mutability: EndpointMutability) -> (method: Self) {
        match mutability {
            EndpointMutability::Immutable => HttpMethod::Get,
            EndpointMutability::Mutable => HttpMethod::Post,
        }
    }
}

impl FromSpecImpl<EndpointMutability> for HttpMethod {
    open spec fn obeys_from_spec() -> bool {
        true
    }

    open spec fn from_spec(mutability: EndpointMutability) -> Self {
        method_of(mutability)
    }
}

/// The part of a request that holds the query of an endpoint.
#[derive(Debug, Clone, Copy, PartialEq, Eq, Structural)]
pub enum QuerySource {
    /// The query string of the address.
    QueryString,
    /// The body, read as JSON.
    JsonBody,
}

/// A handler as the transport sees it: the name and the method of its route,
/// and the handler with the actuality of its endpoint.
#[derive(Debug, Clone)]
pub struct RequestHandler<F> {
    pub name: String,
    pub method: HttpMethod,
    pub inner: With<F>,
}

impl<F> From<NamedWith<F>> for RequestHandler<F> {
    fn from(f: NamedWith<F>) -> (handler: Self) {
        RequestHandler { name: f.name, method: HttpMethod::from(f.mutability), inner: f.inner }
    }
}

impl<F> FromSpecImpl<NamedWith<F>> for RequestHandler<F> {
    open spec fn obeys_from_spec() -> bool {
        true
    }

    open spec fn from_spec(f: NamedWith<F>) -> Self {
        RequestHandler { name: f.name, method: method_of(f.mutability), inner: f.inner }
    }
}

/// A response: the status, the headers in the order in which they are sent,
/// and the body.
#[derive(Debug, Clone, PartialEq, Eq)]
pub struct Response {
    pub status: HttpStatusCode,
    pub headers: Vec<(String, String)>,
    pub body: String,
}

/// How large the body of a response is.
#[derive(Debug, Clone, Copy, PartialEq, Eq, Structural)]
pub enum BodySize {
    /// There is no body.
    Absent,
    /// The body has this many bytes.
    Sized(u64),
    /// The body is a stream, of a length not known yet.
    Stream,
}

/// Where the query of an endpoint is read from: the query string for one
/// that reads, the body for one that writes.
pub open spec fn spec_query_source(mutability: EndpointMutability) -> QuerySource {
    match mutability {
        EndpointMutability::Immutable => QuerySource::QueryString,
        EndpointMutability::Mutable => QuerySource::JsonBody,
    }
}

/// The title of the failure to read a query.
pub open spec fn extraction_title(mutability: EndpointMutability) -> Seq<char> {
    match mutability {
        EndpointMutability::Immutable => "Query parse error"@,
        EndpointMutability::Mutable => "JSON body parse error"@,
    }
}

/// What is said about the end of a deprecated endpoint, given the printed
/// date of it, if one is set.
pub open spec fn spec_expiration_note(deadline: Option<Seq<char>>) -> Seq<char> {
    match deadline {
        Some(date) => "The old API is maintained until "@ + date + "."@,
        None => "Currently there is no specific date for disabling this endpoint."@,
    }
}

/// The warning that a deprecated endpoint adds to its results.
pub open spec fn spec_warning_text(
    deadline: Option<Seq<char>>,
    description: Option<Seq<char>>,
) -> Seq<char> {
    let text =
        "Deprecated API: this endpoint is deprecated, see documentation for an alternative. "@
        + spec_expiration_note(deadline);
    match description {
        Some(description) => text + " Additional information: "@ + description + "."@,
        None => text,
    }
}

/// The value of the header `warning` for a text: code 299, no agent, and the
/// text between double quotes.
pub open spec fn spec_warning_header(warning_text: Seq<char>) -> Seq<char> {
    "299 - \""@ + warning_text + "\""@
}

/// How the date on which an endpoint leaves is printed: the day of the
/// week and the month in three letters, as in
/// `Tue, 01 Jan 2019 00:00:00 GMT`.
pub open spec fn deadline_format() -> Seq<char> {
    "[weekday repr:short], [day] [month repr:short] [year] [hour]:[minute]:[second] GMT"@
}

/// The date on which an endpoint leaves, printed; the empty text for a date
/// that cannot be printed.
pub open spec fn printed_deadline(discontinued_on: Option<DateTime>) -> Option<Seq<char>> {
    match discontinued_on {
        Some(date) => Some(
            match formatted_date(date.seconds as int, deadline_format()) {
                Some(printed) => printed,
                None => Seq::empty(),
            },
        ),
        None => None,
    }
}

/// The value of the header `warning` that the results of an endpoint carry,
/// if it is deprecated.
pub open spec fn spec_deprecation_warning(actuality: Actuality) -> Option<Seq<char>> {
    match actuality {
        Actuality::Actual => None,
        Actuality::Deprecated { discontinued_on, description } => Some(
            spec_warning_header(
                spec_warning_text(
                    printed_deadline(discontinued_on),
                    match description {
                        Some(d) => Some(d@),
                        None => None,
                    },
                ),
            ),
        ),
    }
}

/// The headers of a result: the warning of a deprecated endpoint, then the
/// type of the body.
pub open spec fn result_headers(actuality: Actuality) -> Seq<(Seq<char>, Seq<char>)> {
    let content_type = seq![("content-type"@, "application/json"@)];
    match spec_deprecation_warning(actuality) {
        Some(warning) => seq![("warning"@, warning)] + content_type,
        None => content_type,
    }
}

/// Whether a list holds the headers of the response to a failure: the type
/// of the body first, then the headers of the failure itself, in the order
/// in which the transport holds them.
pub open spec fn failure_headers(headers: Seq<(Seq<char>, Seq<char>)>, error: Error) -> bool {
    &&& headers.len() >= 1
    &&& headers[0] == ("content-type"@, "application/problem+json"@)
    &&& headers.skip(1).to_multiset() == header_pairs(error.headers)
}

/// Whether a response of this size gets the body of a failure: it does where
/// it has no body, an empty one, or a stream.
pub open spec fn lacks_body(size: BodySize) -> bool {
    match size {
        BodySize::Absent => true,
        BodySize::Sized(n) => n == 0,
        BodySize::Stream => true,
    }
}

/// What is said of a path that no endpoint answers to.
pub open spec fn not_found_detail(path: Seq<char>) -> Seq<char> {
    "API endpoint `"@ + path + "` doesn't exist"@
}

/// Whether a text ends with another.
pub open spec fn ends_with(text: Seq<char>, end: Seq<char>) -> bool {
    end.len() <= text.len() && text.subrange(text.len() - end.len(), text.len() as int) == end
}

/// Whether a text holds another somewhere.
pub open spec fn holds(text: Seq<char>, part: Seq<char>) -> bool {
    exists|before: Seq<char>, after: Seq<char>| text == #[trigger] (before + part + after)
}

/// The warning of a deprecated endpoint that has a date and a description
/// holds the printed date, and ends with the description, between
/// `Additional information: ` and a full stop.
pub proof fn lemma_warning_with_date_and_description(date: Seq<char>, description: Seq<char>)
    ensures
        holds(spec_warning_text(Some(date), Some(description)), date),
        ends_with(
            spec_warning_text(Some(date), Some(description)),
            "Additional information: "@ + description + "."@,
        ),
        ends_with(
            spec_warning_header(spec_warning_text(Some(date), Some(description))),
            "Additional information: "@ + description + ".\""@,
        ),
{
    reveal_strlit(" Additional information: ");
    reveal_strlit("Additional information: ");
    reveal_strlit(".\"");
    reveal_strlit(".");
    reveal_strlit("\"");
    let before =
        "Deprecated API: this endpoint is deprecated, see documentation for an alternative. "@
        + "The old API is maintained until "@;
    let text = spec_warning_text(Some(date), Some(description));
    let end = "Additional information: "@ + description + "."@;
    assert(text == before + date + "."@ + " Additional information: "@ + description + "."@);
    assert(text == before + date + ("."@ + " Additional information: "@ + description + "."@));
    assert(text.subrange(text.len() - end.len(), text.len() as int) == end);
    let header = spec_warning_header(text);
    let quoted = "Additional information: "@ + description + ".\""@;
    assert(header.subrange(header.len() - quoted.len(), header.len() as int) == quoted);
}

/// The warning of a deprecated endpoint without a date says that no date
/// is set.
pub proof fn lemma_warning_without_date(description: Option<Seq<char>>)
    ensures
        holds(
            spec_warning_text(None, description),
            "Currently there is no specific date for disabling this endpoint."@,
        ),
{
    let before =
        "Deprecated API: this endpoint is deprecated, see documentation for an alternative. "@;
    let note = "Currently there is no specific date for disabling this endpoint."@;
    let text = spec_warning_text(None, description);
    match description {
        Some(d) => {
            assert(text == before + note + (" Additional information: "@ + d + "."@));
        },
        None => {
            assert(text == before + note + Seq::<char>::empty());
        },
    }
}

pub fn query_source(mutability: EndpointMutability) -> (source: QuerySource)
    ensures
        source == spec_query_source(mutability),
{
    match mutability {
        EndpointMutability::Immutable => QuerySource::QueryString,
        EndpointMutability::Mutable => QuerySource::JsonBody,
    }
}

/// The failure to answer with where the query of an endpoint cannot be read:
/// a bad request, with the words of the parser as its detail.
pub fn extraction_error(mutability: EndpointMutability, message: &str) -> (error: Error)
    ensures
        error.http_code.value() == 400,
        error.body.title@ == extraction_title(mutability),
        error.body.detail@ == message@,
        error.body.docs_uri@.len() == 0,
        error.body.source@.len() == 0,
        error.body.error_code is None,
        header_pairs(error.headers) == no_headers(),
{
    let title = match mutability {
        EndpointMutability::Immutable => "Query parse error",
        EndpointMutability::Mutable => "JSON body parse error",
    };
    Error::bad_request().title(title).detail(message)
}

/// The query of an endpoint, or the failure to answer with. `extracted` is
/// what the transport read from the part of the request that `query_source`
/// names: the query, or the words of the parser that refused it.
pub fn extract_query<Q>(mutability: EndpointMutability, extracted: Result<Q, String>) -> (query:
    Result<Q, Error>)
    ensures
        match extracted {
            Ok(q) => query == Ok::<Q, Error>(q),
            Err(message) => {
                &&& query matches Err(error)
                &&& error.http_code.value() == 400
                &&& error.body.title@ == extraction_title(mutability)
                &&& error.body.detail@ == message@
                &&& error.body.docs_uri@.len() == 0
                &&& error.body.source@.len() == 0
                &&& error.body.error_code is None
                &&& header_pairs(error.headers) == no_headers()
            },
        },
{
    match extracted {
        Ok(query) => Ok(query),
        Err(message) => Err(extraction_error(mutability, message.as_str())),
    }
}

pub fn expiration_note(deadline: Option<&str>) -> (note: String)
    ensures
        note@ == spec_expiration_note(
            match deadline {
                Some(d) => Some(d@),
                None => None,
            },
        ),
{
    match deadline {
        Some(date) => {
            let mut note = String::from_str("The old API is maintained until ");
            note.append(date);
            note.append(".");
            note
        },
        None => String::from_str("Currently there is no specific date for disabling this endpoint."),
    }
}

/// The warning of a deprecated endpoint, given the printed date on which it
/// leaves, if one is set, and what is said about it.
pub fn warning_text(deadline: Option<&str>, description: Option<&str>) -> (text: String)
    ensures
        text@ == spec_warning_text(
            match deadline {
                Some(d) => Some(d@),
                None => None,
            },
            match description {
                Some(d) => Some(d@),
                None => None,
            },
        ),
{
    let mut text = String::from_str(
        "Deprecated API: this endpoint is deprecated, see documentation for an alternative. ",
    );
    let note = expiration_note(deadline);
    text.append(note.as_str());
    match description {
        Some(description) => {
            text.append(" Additional information: ");
            text.append(description);
            text.append(".");
        },
        None => {},
    }
    text
}

pub fn create_warning_header(warning_text: &str) -> (header: String)
    ensures
        header@ == spec_warning_header(warning_text@),
{
    let mut header = String::from_str("299 - \"");
    header.append(warning_text);
    header.append("\"");
    header
}

/// The value of the header `warning` for the results of an endpoint: none for
/// a current one.
pub fn deprecation_warning(actuality: &Actuality) -> (warning: Option<String>)
    ensures
        match spec_deprecation_warning(*actuality) {
            Some(w) => warning matches Some(text) && text@ == w,
            None => warning is None,
        },
{
    match actuality {
        Actuality::Actual => None,
        Actuality::Deprecated { discontinued_on, description } => {
            let printed: Option<String> = match discontinued_on {
                Some(date) => Some(
                    match format_date(
                        date.seconds,
                        "[weekday repr:short], [day] [month repr:short] [year] [hour]:[minute]:[second] GMT",
                    ) {
                        Some(printed) => printed,
                        None => String::new(),
                    },
                ),
                None => None,
            };
            let deadline: Option<&str> = match &printed {
                Some(p) => Some(p.as_str()),
                None => None,
            };
            let about: Option<&str> = match description {
                Some(d) => Some(d.as_str()),
                None => None,
            };
            let text = warning_text(deadline, about);
            Some(create_warning_header(text.as_str()))
        },
    }
}

/// The response to a request that succeeded: status 200, the result as the
/// body, and the warning of a deprecated endpoint.
pub fn json_response(actuality: &Actuality, json: String) -> (response: Response)
    ensures
        response.status.value() == 200,
        headers_view(response.headers@) == result_headers(*actuality),
        response.body == json,
{
    let mut headers: Vec<(String, String)> = Vec::new();
    match deprecation_warning(actuality) {
        Some(warning) => {
            headers.push((String::from_str("warning"), warning));
        },
        None => {},
    }
    headers.push((String::from_str("content-type"), String::from_str("application/json")));
    assert(headers_view(headers@) == result_headers(*actuality));
    Response { status: HttpStatusCode::ok(), headers, body: json }
}

/// The response to a request that failed: the status of the failure, its
/// body as it is sent, and its headers behind the type of the body.
pub fn error_response(error: &Error) -> (response: Response)
    ensures
        response.status == error.http_code,
        failure_headers(headers_view(response.headers@), *error),
        response.body@ == error.body.wire(),
{
    let own = error.header_list();
    let mut headers: Vec<(String, String)> = Vec::new();
    headers.push((String::from_str("content-type"), String::from_str("application/problem+json")));
    let mut i: usize = 0;
    while i < own.len()
        invariant
            i <= own@.len(),
            headers_view(headers@) == seq![("content-type"@, "application/problem+json"@)]
                + headers_view(own@).take(i as int),
        decreases own@.len() - i,
    {
        let ghost before = headers_view(headers@);
        headers.push((own[i].0.clone(), own[i].1.clone()));
        assert(headers_view(headers@) == before.push(headers_view(own@)[i as int]));
        assert(headers_view(own@).take(i + 1) == headers_view(own@).take(i as int).push(
            headers_view(own@)[i as int],
        ));
        i = i + 1;
    }
    assert(headers_view(own@).take(i as int) == headers_view(own@));
    assert(headers_view(headers@).skip(1) == headers_view(own@));
    Response { status: error.http_code, headers, body: error.body.to_wire() }
}

/// What is to be done once the query of a request was read, or could not
/// be read.
#[derive(Debug)]
pub enum Dispatch<Q> {
    /// The handler is called with the query.
    Handle(Q),
    /// The handler is not called: this is the response.
    Answer(Response),
}

/// The members of the failure to read a query: the title, and the words of
/// the parser as the detail, if it said any.
pub open spec fn extraction_members(mutability: EndpointMutability, message: Seq<char>) -> Seq<
    (Seq<char>, Seq<char>),
> {
    seq![("title"@, json_string(extraction_title(mutability)))] + (if message.len() == 0 {
        Seq::empty()
    } else {
        seq![("detail"@, json_string(message))]
    })
}

/// What is to be done once the transport has read the query of a request,
/// or has failed to. With the query the handler is called. Without it the
/// handler is not called, and the request is answered with a bad request
/// that holds the words of the parser.
pub fn after_extraction<Q>(mutability: EndpointMutability, extracted: Result<Q, String>) -> (next:
    Dispatch<Q>)
    ensures
        match extracted {
            Ok(q) => next == Dispatch::Handle(q),
            Err(message) => next matches Dispatch::Answer(response) && refuses(
                response,
                mutability,
                message@,
            ),
        },
{
    match extract_query(mutability, extracted) {
        Ok(query) => Dispatch::Handle(query),
        Err(error) => {
            proof {
                reveal_strlit("Query parse error");
                reveal_strlit("JSON body parse error");
                let message = error.body.detail@;
                assert(error.body.title@.len() > 0);
                assert(error.body.members() == extraction_members(mutability, message));
            }
            let response = error_response(&error);
            proof {
                let rest = headers_view(response.headers@).skip(1);
                rest.to_multiset_ensures();
                assert(rest.len() == 0);
                assert(headers_view(response.headers@) == seq![
                    ("content-type"@, "application/problem+json"@),
                ]);
            }
            Dispatch::Answer(response)
        },
    }
}

/// Whether a response answers what a handler returned. A result is
/// answered with status 200, the result as the body, and the warning of a
/// deprecated endpoint. A failure is answered with its status, its body as
/// it is sent and its headers, and with no warning.
pub open spec fn answers(
    response: Response,
    actuality: Actuality,
    outcome: Result<String, Error>,
) -> bool {
    match outcome {
        Ok(json) => {
            &&& response.status.value() == 200
            &&& headers_view(response.headers@) == result_headers(actuality)
            &&& response.body == json
        },
        Err(error) => {
            &&& response.status == error.http_code
            &&& failure_headers(headers_view(response.headers@), error)
            &&& response.body@ == error.body.wire()
        },
    }
}

/// Whether a response refuses a request whose query could not be read: a
/// bad request of the type of a failure, with the words of the parser.
pub open spec fn refuses(
    response: Response,
    mutability: EndpointMutability,
    message: Seq<char>,
) -> bool {
    &&& response.status.value() == 400
    &&& headers_view(response.headers@) == seq![("content-type"@, "application/problem+json"@)]
    &&& response.body@ == json_object(extraction_members(mutability, message))
}

/// The whole way of a request through an endpoint whose handler returns at
/// once. A query that could not be read is refused, and the handler is not
/// called. With the query the handler is called, once, and the response
/// answers what it returned: its result, written as JSON, or its failure.
pub fn dispatch<Q, H: FnOnce(Q) -> Result<String, Error>>(
    mutability: EndpointMutability,
    actuality: &Actuality,
    extracted: Result<Q, String>,
    handler: H,
) -> (response: Response)
    requires
        extracted matches Ok(q) ==> handler.requires((q,)),
    ensures
        match extracted {
            Ok(q) => exists|outcome: Result<String, Error>|
                handler.ensures((q,), outcome) && #[trigger] answers(
                    response,
                    *actuality,
                    outcome,
                ),
            Err(message) => refuses(response, mutability, message@),
        },
{
    match after_extraction(mutability, extracted) {
        Dispatch::Handle(query) => {
            let outcome = handler(query);
            let response = respond(actuality, outcome);
            assert(answers(response, *actuality, outcome));
            response
        },
        Dispatch::Answer(response) => response,
    }
}

/// The response to a request, from what its handler returned: the result of
/// the endpoint as JSON, or the failure.
pub fn respond(actuality: &Actuality, outcome: Result<String, Error>) -> (response: Response)
    ensures
        answers(response, *actuality, outcome),
{
    match outcome {
        Ok(json) => json_response(actuality, json),
        Err(error) => error_response(&error),
    }
}

/// The failure for a request that no endpoint answers to.
pub fn method_not_found(path: &str) -> (error: Error)
    ensures
        error.http_code.value() == 404,
        error.body.title@ == "Method not found"@,
        error.body.detail@ == not_found_detail(path@),
        error.body.docs_uri@.len() == 0,
        error.body.source@.len() == 0,
        error.body.error_code is None,
        header_pairs(error.headers) == no_headers(),
{
    let mut detail = String::from_str("API endpoint `");
    detail.append(path);
    detail.append("` doesn't exist");
    Error::not_found().title("Method not found").detail(detail.as_str())
}

/// The failure for a request that was refused before it reached a handler.
pub fn bad_request() -> (error: Error)
    ensures
        error.http_code.value() == 400,
        error.body.title@ == "Bad request"@,
        error.body.detail@.len() == 0,
        error.body.docs_uri@.len() == 0,
        error.body.source@.len() == 0,
        error.body.error_code is None,
        header_pairs(error.headers) == no_headers(),
{
    Error::bad_request().title("Bad request")
}

/// The failure that takes the place of a response which the transport made
/// by itself, for a request to `path`: there is one for the statuses 404 and
/// 400, where the response lacks a body.
pub fn default_api_error(status: HttpStatusCode, size: BodySize, path: &str) -> (error: Option<
    Error,
>)
    ensures
        error is Some <==> lacks_body(size) && (status.value() == 404 || status.value() == 400),
        error matches Some(e) ==> {
            &&& e.http_code.value() == status.value()
            &&& e.body.title@ == (if status.value() == 404 {
                "Method not found"@
            } else {
                "Bad request"@
            })
            &&& e.body.detail@ == (if status.value() == 404 {
                not_found_detail(path@)
            } else {
                Seq::<char>::empty()
            })
            &&& e.body.docs_uri@.len() == 0
            &&& e.body.source@.len() == 0
            &&& e.body.error_code is None
            &&& header_pairs(e.headers) == no_headers()
        },
{
    let lacks = match size {
        BodySize::Absent => true,
        BodySize::Sized(n) => n == 0,
        BodySize::Stream => true,
    };
    if !lacks {
        None
    } else if status.as_u16() == 404 {
        Some(method_not_found(path))
    } else if status.as_u16() == 400 {
        Some(bad_request())
    } else {
        None
    }
}

/// The handlers of one scope, in the order in which they were registered.
#[derive(Debug, Clone)]
pub struct ApiBuilder<F> {
    handlers: Vec<RequestHandler<F>>,
}

impl<F> Default for ApiBuilder<F> {
    fn default() -> (builder: Self)
        ensures
            builder.handlers().len() == 0,
    {
        ApiBuilder::new()
    }
}

impl<F> ApiBuilder<F> {
    /// The handlers, in the order in which they came.
    pub closed spec fn handlers(&self) -> Seq<RequestHandler<F>> {
        self.handlers@
    }

    /// A builder without handlers.
    pub fn new() -> (builder: Self)
        ensures
            builder.handlers().len() == 0,
    {
        ApiBuilder { handlers: Vec::new() }
    }

    /// The number of handlers.
    pub fn len(&self) -> (n: usize)
        ensures
            n == self.handlers().len(),
    {
        self.handlers.len()
    }

    /// The handler at a place.
    pub fn handler(&self, i: usize) -> (handler: &RequestHandler<F>)
        requires
            i < self.handlers().len(),
        ensures
            *handler == self.handlers()[i as int],
    {
        &self.handlers[i]
    }
}

/// One route of a table: the service and the endpoint it leads to, the
/// method it answers to, and the place of its handler in the scope.
#[derive(Debug, Clone, PartialEq, Eq)]
pub struct Route {
    pub service: String,
    pub name: String,
    pub method: HttpMethod,
    pub index: usize,
}

/// What a route says.
pub struct RouteView {
    pub service: Seq<char>,
    pub name: Seq<char>,
    pub method: HttpMethod,
    pub index: nat,
}

impl View for Route {
    type V = RouteView;

    open spec fn view(&self) -> RouteView {
        RouteView {
            service: self.service@,
            name: self.name@,
            method: self.method,
            index: self.index as nat,
        }
    }
}

/// The routes wired under one prefix, in the order in which they were
/// wired. Which of two routes of the same name and method answers is for
/// the transport to say.
#[derive(Debug, Clone, PartialEq, Eq)]
pub struct RouteTable {
    pub prefix: String,
    pub routes: Vec<Route>,
}

/// What the routes of a list say.
pub open spec fn routes_view(routes: Seq<Route>) -> Seq<RouteView> {
    routes.map_values(|route: Route| route@)
}

/// The routes of the handlers of a scope, for a service of the given name.
pub open spec fn wired<F>(handlers: Seq<RequestHandler<F>>, service: Seq<char>) -> Seq<RouteView> {
    Seq::new(
        handlers.len(),
        |i: int|
            RouteView {
                service,
                name: handlers[i].name@,
                method: handlers[i].method,
                index: i as nat,
            },
    )
}

/// The routes of the scopes of a list of services, one service after the
/// other.
pub open spec fn flattened<F>(items: Seq<(Seq<char>, ApiScope<F>)>) -> Seq<RouteView>
    decreases items.len(),
{
    if items.len() == 0 {
        Seq::empty()
    } else {
        flattened(items.drop_last()) + wired(items.last().1.handlers(), items.last().0)
    }
}

impl<F> ApiBackend for ApiBuilder<F> {
    type Handler = RequestHandler<F>;

    type Backend = RouteTable;

    /// The handler comes behind those that are there.
    open spec fn takes(before: Self, handler: RequestHandler<F>, after: Self) -> bool {
        after.handlers() == before.handlers().push(handler)
    }

    /// The table keeps its prefix and its routes, and has behind them a
    /// route for every handler, under the prefix as the name of the service.
    open spec fn wires(&self, output: RouteTable, table: RouteTable) -> bool {
        &&& table.prefix == output.prefix
        &&& routes_view(table.routes@) == routes_view(output.routes@) + wired(
            self.handlers(),
            output.prefix@,
        )
    }

    fn raw_handler(&mut self, handler: RequestHandler<F>) -> (backend: &mut Self) {
        self.handlers.push(handler);
        self
    }

    fn wire(&self, output: RouteTable) -> (table: RouteTable) {
        let mut table = output;
        let mut i: usize = 0;
        while i < self.handlers.len()
            invariant
                i <= self.handlers@.len(),
                table.prefix == output.prefix,
                routes_view(table.routes@) == routes_view(output.routes@) + wired(
                    self.handlers@,
                    output.prefix@,
                ).take(i as int),
            decreases self.handlers@.len() - i,
        {
            let ghost before = routes_view(table.routes@);
            let route = Route {
                service: table.prefix.clone(),
                name: self.handlers[i].name.clone(),
                method: self.handlers[i].method,
                index: i,
            };
            table.routes.push(route);
            assert(routes_view(table.routes@) == before.push(route@));
            assert(wired(self.handlers@, output.prefix@).take(i + 1) == wired(
                self.handlers@,
                output.prefix@,
            ).take(i as int).push(route@));
            i = i + 1;
        }
        assert(wired(self.handlers@, output.prefix@).take(i as int) == wired(
            self.handlers@,
            output.prefix@,
        ));
        table
    }
}

impl RouteTable {
    /// A table without routes.
    pub fn scope(prefix: &str) -> (table: RouteTable)
        ensures
            table.prefix@ == prefix@,
            table.routes@.len() == 0,
    {
        RouteTable { prefix: String::from_str(prefix), routes: Vec::new() }
    }

    /// Adds the routes of another table behind those of this one.
    pub fn service(self, inner: RouteTable) -> (table: RouteTable)
        ensures
            table.prefix == self.prefix,
            routes_view(table.routes@) == routes_view(self.routes@) + routes_view(inner.routes@),
    {
        let mut table = self;
        let mut routes = inner.routes;
        let ghost before = routes_view(table.routes@);
        let ghost added = routes_view(routes@);
        table.routes.append(&mut routes);
        assert(routes_view(table.routes@) == before + added);
        table
    }
}

impl<F> ExtendApiBackend<F> for RouteTable {
    /// The table keeps its prefix and its routes, and has behind them the
    /// routes of each scope, under the name that the scope came with.
    open spec fn extends_to(self, items: Seq<(Seq<char>, ApiScope<F>)>, extended: Self) -> bool {
        &&& extended.prefix == self.prefix
        &&& routes_view(extended.routes@) == routes_view(self.routes@) + flattened(items)
    }

    fn extend(self, items: Vec<(&str, &ApiScope<F>)>) -> (extended: Self) {
        let mut table = self;
        let mut i: usize = 0;
        assert(crate::scope::items_view(items@).take(0) == Seq::<(Seq<char>, ApiScope<F>)>::empty());
        while i < items.len()
            invariant
                i <= items@.len(),
                table.prefix == self.prefix,
                routes_view(table.routes@) == routes_view(self.routes@) + flattened(
                    crate::scope::items_view(items@).take(i as int),
                ),
            decreases items@.len() - i,
        {
            let ghost done = crate::scope::items_view(items@).take(i as int);
            let ghost now = crate::scope::items_view(items@).take(i + 1);
            proof {
                assert(now.drop_last() == done);
                assert(now.last() == (items@[i as int].0@, *items@[i as int].1));
            }
            let ghost before = routes_view(table.routes@);
            let scope = items[i].1.builder().wire(RouteTable::scope(items[i].0));
            assert(routes_view(scope.routes@) == wired(now.last().1.handlers(), now.last().0));
            table = table.service(scope);
            assert(routes_view(table.routes@) == routes_view(self.routes@) + flattened(now));
            i = i + 1;
        }
        assert(crate::scope::items_view(items@).take(i as int) == crate::scope::items_view(items@));
        table
    }
}

} // verus!
