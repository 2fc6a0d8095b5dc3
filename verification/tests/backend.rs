use node_api::backend::{
    after_extraction, bad_request, dispatch, create_warning_header, default_api_error, deprecation_warning, error_response,
    expiration_note, extract_query, extraction_error, json_response, method_not_found,
    query_source, respond, warning_text, BodySize, Dispatch, HttpMethod, QuerySource,
    RequestHandler, Response,
};
use node_api::error::{Error, HttpStatusCode, MovedPermanentlyError};
use node_api::withs::{Actuality, DateTime, Deprecated, NamedWith, With};
use node_api::EndpointMutability;

const PREAMBLE: &str =
    "Deprecated API: this endpoint is deprecated, see documentation for an alternative. ";

/// What a failure holds: its status, its body and its headers.
fn parts(error: &Error) -> (u16, node_api::ErrorBody, Vec<(String, String)>) {
    (error.http_code.as_u16(), error.body.clone(), error.header_list())
}

fn header(name: &str, value: &str) -> (String, String) {
    (name.to_string(), value.to_string())
}

#[test]
fn methods_follow_mutability() {
    assert_eq!(HttpMethod::from(EndpointMutability::Immutable), HttpMethod::Get);
    assert_eq!(HttpMethod::from(EndpointMutability::Mutable), HttpMethod::Post);
}

#[test]
fn query_is_read_from_query_string_or_body() {
    assert_eq!(
        query_source(EndpointMutability::Immutable),
        QuerySource::QueryString
    );
    assert_eq!(query_source(EndpointMutability::Mutable), QuerySource::JsonBody);
}

#[test]
fn malformed_query_string_is_a_bad_request() {
    let extracted: Result<u32, String> = Err("invalid digit found in string".to_string());
    let error = extract_query(EndpointMutability::Immutable, extracted).unwrap_err();
    assert_eq!(error.http_code.as_u16(), 400);
    assert_eq!(error.body.title, "Query parse error");
    assert_eq!(error.body.detail, "invalid digit found in string");
    assert_eq!(
        error_response(&error).body,
        r#"{"title":"Query parse error","detail":"invalid digit found in string"}"#
    );
}

#[test]
fn malformed_json_body_is_a_bad_request() {
    let extracted: Result<u32, String> = Err("EOF while parsing".to_string());
    let error = extract_query(EndpointMutability::Mutable, extracted).unwrap_err();
    assert_eq!(error.http_code.as_u16(), 400);
    assert_eq!(error.body.title, "JSON body parse error");
    assert_eq!(error.body.detail, "EOF while parsing");
    assert_eq!(
        parts(&extraction_error(EndpointMutability::Mutable, "EOF while parsing")),
        parts(&error)
    );
}

#[test]
fn refused_query_is_answered_without_the_handler() {
    let extracted: Result<u32, String> = Err("missing field `x`".to_string());
    match after_extraction(EndpointMutability::Immutable, extracted) {
        Dispatch::Answer(response) => {
            assert_eq!(response.status.as_u16(), 400);
            assert_eq!(
                response.headers,
                vec![header("content-type", "application/problem+json")]
            );
            assert_eq!(
                response.body,
                r#"{"title":"Query parse error","detail":"missing field `x`"}"#
            );
        }
        Dispatch::Handle(_) => panic!("the handler must not be called"),
    }
    let extracted: Result<u32, String> = Err(String::new());
    match after_extraction(EndpointMutability::Mutable, extracted) {
        Dispatch::Answer(response) => {
            assert_eq!(response.status.as_u16(), 400);
            assert_eq!(response.body, r#"{"title":"JSON body parse error"}"#);
        }
        Dispatch::Handle(_) => panic!("the handler must not be called"),
    }
}

#[test]
fn dispatch_calls_the_handler_once_with_the_query() {
    let mut calls = Vec::new();
    let response = dispatch(
        EndpointMutability::Immutable,
        &Actuality::Actual,
        Ok::<u64, String>(1),
        |x| {
            calls.push(x);
            Ok(format!("{{\"x\":{}}}", x))
        },
    );
    assert_eq!(calls, vec![1]);
    assert_eq!(response.status.as_u16(), 200);
    assert_eq!(response.body, "{\"x\":1}");
    assert_eq!(response.headers, vec![header("content-type", "application/json")]);
}

#[test]
fn dispatch_answers_the_failure_of_the_handler() {
    let deprecated = Actuality::Deprecated { discontinued_on: None, description: None };
    let response = dispatch(
        EndpointMutability::Mutable,
        &deprecated,
        Ok::<u64, String>(1),
        |_| Err(Error::forbidden().title("No")),
    );
    assert_eq!(response, error_response(&Error::forbidden().title("No")));
    assert_eq!(response.headers, vec![header("content-type", "application/problem+json")]);
}

#[test]
fn dispatch_does_not_call_the_handler_after_a_refused_query() {
    let mut called = false;
    let response = dispatch(
        EndpointMutability::Mutable,
        &Actuality::Actual,
        Err::<u64, String>("EOF".to_string()),
        |_| {
            called = true;
            Ok("null".to_string())
        },
    );
    assert!(!called);
    assert_eq!(response.status.as_u16(), 400);
    assert_eq!(response.body, r#"{"title":"JSON body parse error","detail":"EOF"}"#);
}

#[test]
fn read_query_goes_to_the_handler() {
    let extracted: Result<u32, String> = Ok(7);
    match after_extraction(EndpointMutability::Mutable, extracted) {
        Dispatch::Handle(query) => assert_eq!(query, 7),
        Dispatch::Answer(_) => panic!("the handler must be called"),
    }
}

#[test]
fn well_formed_query_passes() {
    let extracted: Result<u32, String> = Ok(7);
    assert_eq!(extract_query(EndpointMutability::Immutable, extracted).ok(), Some(7));
    let extracted: Result<&str, String> = Ok("x");
    assert_eq!(extract_query(EndpointMutability::Mutable, extracted).ok(), Some("x"));
}

#[test]
fn expiration_notes() {
    assert_eq!(
        expiration_note(None),
        "Currently there is no specific date for disabling this endpoint."
    );
    assert_eq!(
        expiration_note(Some("Tue, 01 Jan 2019 00:00:00 GMT")),
        "The old API is maintained until Tue, 01 Jan 2019 00:00:00 GMT."
    );
}

#[test]
fn warning_texts() {
    assert_eq!(
        warning_text(None, None),
        format!(
            "{}Currently there is no specific date for disabling this endpoint.",
            PREAMBLE
        )
    );
    assert_eq!(
        warning_text(Some("D"), Some("X")),
        format!(
            "{}The old API is maintained until D. Additional information: X.",
            PREAMBLE
        )
    );
    assert_eq!(create_warning_header("text"), "299 - \"text\"");
    assert_eq!(create_warning_header(""), "299 - \"\"");
}

#[test]
fn actual_endpoint_has_no_warning() {
    assert_eq!(deprecation_warning(&Actuality::Actual), None);
    let response = json_response(&Actuality::Actual, "{\"x\":1}".to_string());
    assert_eq!(
        response,
        Response {
            status: HttpStatusCode::ok(),
            headers: vec![header("content-type", "application/json")],
            body: "{\"x\":1}".to_string(),
        }
    );
}

#[test]
fn deprecated_with_date_and_description() {
    let actuality = Actuality::Deprecated {
        discontinued_on: Some(DateTime { seconds: 1_546_300_800 }),
        description: Some("X".to_string()),
    };
    let warning = deprecation_warning(&actuality).unwrap();
    assert_eq!(
        warning,
        format!(
            "299 - \"{}The old API is maintained until Tue, 01 Jan 2019 00:00:00 GMT. \
             Additional information: X.\"",
            PREAMBLE
        )
    );
    assert!(warning.contains("Tue, 01 Jan 2019 00:00:00 GMT"));
    assert!(warning.ends_with("Additional information: X.\""));
    let response = json_response(&actuality, "null".to_string());
    assert_eq!(response.status.as_u16(), 200);
    assert_eq!(
        response.headers,
        vec![
            header("warning", &warning),
            header("content-type", "application/json")
        ]
    );
    assert_eq!(response.body, "null");
}

#[test]
fn deprecated_dates_are_printed_as_http_dates() {
    for (seconds, printed) in [
        (0, "Thu, 01 Jan 1970 00:00:00 GMT"),
        (-1, "Wed, 31 Dec 1969 23:59:59 GMT"),
        (951_827_696, "Tue, 29 Feb 2000 12:34:56 GMT"),
        (253_402_300_799, "Fri, 31 Dec 9999 23:59:59 GMT"),
    ] {
        let actuality = Actuality::Deprecated {
            discontinued_on: Some(DateTime { seconds }),
            description: None,
        };
        assert_eq!(
            deprecation_warning(&actuality).unwrap(),
            format!(
                "299 - \"{}The old API is maintained until {}.\"",
                PREAMBLE, printed
            )
        );
    }
}

#[test]
fn deprecated_date_out_of_range_prints_nothing() {
    let actuality = Actuality::Deprecated {
        discontinued_on: Some(DateTime { seconds: i64::MAX }),
        description: None,
    };
    assert_eq!(
        deprecation_warning(&actuality).unwrap(),
        format!("299 - \"{}The old API is maintained until .\"", PREAMBLE)
    );
}

#[test]
fn deprecated_without_date() {
    let actuality = Actuality::Deprecated {
        discontinued_on: None,
        description: None,
    };
    assert_eq!(
        deprecation_warning(&actuality).unwrap(),
        format!(
            "299 - \"{}Currently there is no specific date for disabling this endpoint.\"",
            PREAMBLE
        )
    );
    let described = Actuality::Deprecated {
        discontinued_on: None,
        description: Some("Use v2".to_string()),
    };
    assert_eq!(
        deprecation_warning(&described).unwrap(),
        format!(
            "299 - \"{}Currently there is no specific date for disabling this endpoint. \
             Additional information: Use v2.\"",
            PREAMBLE
        )
    );
}

#[test]
fn failure_becomes_problem_json() {
    let error = Error::forbidden().title("No").error_code(3);
    assert_eq!(
        error_response(&error),
        Response {
            status: HttpStatusCode::forbidden(),
            headers: vec![header("content-type", "application/problem+json")],
            body: r#"{"title":"No","error_code":3}"#.to_string(),
        }
    );
}

#[test]
fn failure_without_members_has_no_body() {
    let response = error_response(&Error::not_found());
    assert_eq!(response.status.as_u16(), 404);
    assert_eq!(response.body, "");
}

#[test]
fn redirect_carries_location_and_no_body() {
    let error = MovedPermanentlyError::new("/new".to_string())
        .with_query(&vec![("id".to_string(), "1 2".to_string())])
        .into_error()
        .unwrap();
    assert_eq!(
        error_response(&error),
        Response {
            status: HttpStatusCode::moved_permanently(),
            headers: vec![
                header("content-type", "application/problem+json"),
                header("location", "/new?id=1+2")
            ],
            body: String::new(),
        }
    );
}

#[test]
fn respond_maps_both_outcomes() {
    let ok = respond(&Actuality::Actual, Ok("[1]".to_string()));
    assert_eq!(ok, json_response(&Actuality::Actual, "[1]".to_string()));
    let deprecated = Actuality::Deprecated {
        discontinued_on: None,
        description: None,
    };
    let failed = respond(&deprecated, Err(Error::bad_request().title("Bad")));
    assert_eq!(failed, error_response(&Error::bad_request().title("Bad")));
    assert_eq!(failed.headers.len(), 1);
}

#[test]
fn unknown_path_is_method_not_found() {
    let error = method_not_found("/api/svc/nothing");
    assert_eq!(error.http_code.as_u16(), 404);
    assert_eq!(error.body.title, "Method not found");
    assert_eq!(
        error.body.detail,
        "API endpoint `/api/svc/nothing` doesn't exist"
    );
    assert_eq!(
        default_api_error(HttpStatusCode::not_found(), BodySize::Absent, "/api/svc/nothing")
            .as_ref()
            .map(parts),
        Some(parts(&error))
    );
}

#[test]
fn refused_request_is_bad_request() {
    let error = bad_request();
    assert_eq!(error.http_code.as_u16(), 400);
    assert_eq!(error.body.title, "Bad request");
    assert_eq!(error.body.detail, "");
    assert_eq!(
        default_api_error(HttpStatusCode::bad_request(), BodySize::Sized(0), "/x")
            .as_ref()
            .map(parts),
        Some(parts(&error))
    );
}

#[test]
fn default_errors_only_fill_missing_bodies() {
    let not_found = HttpStatusCode::not_found();
    assert!(default_api_error(not_found, BodySize::Stream, "/x").is_some());
    assert!(default_api_error(not_found, BodySize::Sized(0), "/x").is_some());
    assert!(default_api_error(not_found, BodySize::Sized(1), "/x").is_none());
    assert!(default_api_error(HttpStatusCode::bad_request(), BodySize::Sized(17), "/x").is_none());
    assert!(default_api_error(HttpStatusCode::forbidden(), BodySize::Absent, "/x").is_none());
    assert!(default_api_error(HttpStatusCode::ok(), BodySize::Absent, "/x").is_none());
}

#[test]
fn deprecated_builder_and_conversions() {
    let deprecated = Deprecated::new(1u8)
        .with_date(DateTime { seconds: 5 })
        .with_description("old");
    assert_eq!(deprecated.handler, 1);
    assert_eq!(deprecated.discontinued_on, Some(DateTime { seconds: 5 }));
    assert_eq!(deprecated.description.as_deref(), Some("old"));
    let other = deprecated.with_different_handler("h");
    assert_eq!(other.handler, "h");
    assert_eq!(other.discontinued_on, Some(DateTime { seconds: 5 }));
    assert_eq!(other.description.as_deref(), Some("old"));
    let with: With<&str> = other.into();
    assert_eq!(with.handler, "h");
    assert_eq!(
        with.actuality,
        Actuality::Deprecated {
            discontinued_on: Some(DateTime { seconds: 5 }),
            description: Some("old".to_string())
        }
    );
    let plain: With<u8> = With::from(2u8);
    assert_eq!(plain.actuality, Actuality::Actual);
    let fresh: Deprecated<u8> = Deprecated::from(3u8);
    assert_eq!(fresh.discontinued_on, None);
    assert_eq!(fresh.description, None);
}

#[test]
fn named_handlers_become_request_handlers() {
    let named: NamedWith<u8> = NamedWith::immutable("v1/ping", 7u8);
    assert_eq!(named.name, "v1/ping");
    assert_eq!(named.mutability, EndpointMutability::Immutable);
    let handler = RequestHandler::from(named);
    assert_eq!(handler.name, "v1/ping");
    assert_eq!(handler.method, HttpMethod::Get);
    assert_eq!(handler.inner.handler, 7);
    assert_eq!(handler.inner.actuality, Actuality::Actual);

    let named: NamedWith<u8> = NamedWith::mutable("v1/set", Deprecated::new(8u8));
    let handler = RequestHandler::from(named);
    assert_eq!(handler.method, HttpMethod::Post);
    assert_eq!(
        handler.inner.actuality,
        Actuality::Deprecated { discontinued_on: None, description: None }
    );

    let named: NamedWith<u8> = NamedWith::new("x", 9u8, EndpointMutability::Mutable);
    assert_eq!(named.mutability, EndpointMutability::Mutable);
    assert_eq!(named.inner.handler, 9);
}
