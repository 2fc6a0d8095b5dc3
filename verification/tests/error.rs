use node_api::error::{write_json_object, Error, ErrorBody, HttpStatusCode, MovedPermanentlyError};

fn pairs(list: &[(&str, &str)]) -> Vec<(String, String)> {
    list.iter()
        .map(|(k, v)| (k.to_string(), v.to_string()))
        .collect()
}

#[test]
fn status_codes_have_three_digits() {
    assert_eq!(HttpStatusCode::from_u16(99), None);
    assert_eq!(HttpStatusCode::from_u16(1000), None);
    assert_eq!(HttpStatusCode::from_u16(100).map(|s| s.as_u16()), Some(100));
    assert_eq!(HttpStatusCode::from_u16(999).map(|s| s.as_u16()), Some(999));
    assert_eq!(HttpStatusCode::from_u16(404), Some(HttpStatusCode::not_found()));
    assert_eq!(HttpStatusCode::default().as_u16(), 200);
    assert_eq!(HttpStatusCode::ok().as_u16(), 200);
    assert_eq!(HttpStatusCode::moved_permanently().as_u16(), 301);
    assert_eq!(HttpStatusCode::bad_request().as_u16(), 400);
    assert_eq!(HttpStatusCode::forbidden().as_u16(), 403);
    assert_eq!(HttpStatusCode::internal_server_error().as_u16(), 500);
}

#[test]
fn constructors_set_status_only() {
    for (error, code) in [
        (Error::bad_request(), 400),
        (Error::forbidden(), 403),
        (Error::not_found(), 404),
        (Error::default(), 200),
        (Error::new(HttpStatusCode::from_u16(418).unwrap()), 418),
    ] {
        assert_eq!(error.http_code.as_u16(), code);
        assert_eq!(error.body, ErrorBody::default());
        assert!(error.body.is_empty());
        assert!(error.headers.is_empty());
    }
}

#[test]
fn internal_sets_detail_from_cause() {
    let error = Error::internal("disk is full");
    assert_eq!(error.http_code.as_u16(), 500);
    assert_eq!(error.body.detail, "disk is full");
    assert_eq!(error.body.title, "");
    assert!(error.headers.is_empty());
}

#[test]
fn builder_methods_set_one_member_each() {
    let error = Error::bad_request()
        .docs_uri("http://docs")
        .title("Title")
        .detail("Detail")
        .source("1:svc")
        .error_code(7);
    assert_eq!(
        error.body,
        ErrorBody {
            docs_uri: "http://docs".to_string(),
            title: "Title".to_string(),
            detail: "Detail".to_string(),
            source: "1:svc".to_string(),
            error_code: Some(7),
        }
    );
    assert_eq!(error.http_code.as_u16(), 400);
    let again = error.title("Other");
    assert_eq!(again.body.title, "Other");
    assert_eq!(again.body.detail, "Detail");
    assert_eq!(again.body.error_code, Some(7));
}

#[test]
fn empty_body_is_sent_as_nothing() {
    let body = ErrorBody::default();
    assert!(body.is_empty());
    assert_eq!(body.to_wire(), "");
    assert_eq!(body.to_json(), "{}");
}

#[test]
fn any_member_forces_a_full_body() {
    let title = Error::not_found().title("T").body;
    assert!(!title.is_empty());
    assert_eq!(title.to_wire(), r#"{"title":"T"}"#);
    let detail = Error::not_found().detail("D").body;
    assert_eq!(detail.to_wire(), r#"{"detail":"D"}"#);
    let docs = Error::not_found().docs_uri("U").body;
    assert_eq!(docs.to_wire(), r#"{"type":"U"}"#);
    let source = Error::not_found().source("S").body;
    assert_eq!(source.to_wire(), r#"{"source":"S"}"#);
    let code = Error::not_found().error_code(0).body;
    assert!(!code.is_empty());
    assert_eq!(code.to_wire(), r#"{"error_code":0}"#);
}

#[test]
fn full_body_lists_members_in_order() {
    let body = Error::bad_request()
        .error_code(255)
        .source("s")
        .detail("d")
        .title("t")
        .docs_uri("u")
        .body;
    assert_eq!(
        body.to_json(),
        r#"{"type":"u","title":"t","detail":"d","source":"s","error_code":255}"#
    );
}

#[test]
fn texts_are_escaped_as_json() {
    let body = Error::bad_request()
        .title("a \"quoted\" \\ word")
        .detail("line\nbreak\ttab \u{1} é")
        .body;
    let json = body.to_json();
    assert_eq!(
        json,
        "{\"title\":\"a \\\"quoted\\\" \\\\ word\",\"detail\":\"line\\nbreak\\ttab \\u0001 é\"}"
    );
    let value: serde_json::Value = serde_json::from_str(&json).unwrap();
    assert_eq!(value["title"].as_str(), Some("a \"quoted\" \\ word"));
    assert_eq!(value["detail"].as_str(), Some("line\nbreak\ttab \u{1} é"));
    assert_eq!(value.as_object().map(|o| o.len()), Some(2));
}

#[test]
fn json_object_of_given_members() {
    assert_eq!(write_json_object(&Vec::new()), "{}");
    assert_eq!(
        write_json_object(&pairs(&[("a", "1"), ("b", "\"x\""), ("c", "[]")])),
        r#"{"a":1,"b":"x","c":[]}"#
    );
}

#[test]
fn parse_empty_body_gives_empty_members() {
    let decoded: Result<ErrorBody, String> = Err("EOF".to_string());
    let error = Error::parse(HttpStatusCode::not_found(), "", decoded).unwrap();
    assert_eq!(error.http_code.as_u16(), 404);
    assert!(error.body.is_empty());
    assert!(error.headers.is_empty());
}

#[test]
fn parse_takes_decoded_body() {
    let body = Error::bad_request().title("T").error_code(3).body;
    let decoded: Result<ErrorBody, String> = Ok(body.clone());
    let error = Error::parse(HttpStatusCode::bad_request(), &body.to_wire(), decoded).unwrap();
    assert_eq!(error.http_code.as_u16(), 400);
    assert_eq!(error.body, body);
    assert!(error.headers.is_empty());
}

#[test]
fn parse_hands_on_the_decoding_failure() {
    let decoded: Result<ErrorBody, String> = Err("expected value".to_string());
    let parsed = Error::parse(HttpStatusCode::bad_request(), "not json", decoded);
    assert_eq!(parsed.err(), Some("expected value".to_string()));
}

#[test]
fn wire_body_round_trips_through_its_members() {
    let body = Error::forbidden()
        .docs_uri("u")
        .title("t\"")
        .detail("d")
        .source("s")
        .error_code(9)
        .body;
    let value: serde_json::Value = serde_json::from_str(&body.to_wire()).unwrap();
    let decoded = ErrorBody {
        docs_uri: value["type"].as_str().unwrap().to_string(),
        title: value["title"].as_str().unwrap().to_string(),
        detail: value["detail"].as_str().unwrap().to_string(),
        source: value["source"].as_str().unwrap().to_string(),
        error_code: value["error_code"].as_u64().map(|c| c as u8),
    };
    let parsed: Result<Error, String> =
        Error::parse(HttpStatusCode::forbidden(), &body.to_wire(), Ok(decoded));
    assert_eq!(parsed.unwrap().body, body);
}

#[test]
fn error_in_words() {
    let error = Error::not_found().title("Method not found").detail("nothing here");
    assert_eq!(error.to_string(), "Method not found: nothing here");
    assert_eq!(Error::forbidden().to_string(), ": ");
}

#[test]
fn moved_without_query() {
    let error = MovedPermanentlyError::new("http://new/place".to_string())
        .into_error()
        .unwrap();
    assert_eq!(error.http_code.as_u16(), 301);
    assert!(error.body.is_empty());
    assert_eq!(error.body.to_wire(), "");
    assert_eq!(
        error.header_list(),
        pairs(&[("location", "http://new/place")])
    );
}

#[test]
fn moved_with_query_is_url_encoded() {
    let query = pairs(&[("a", "b c"), ("x", "ü&="), ("empty", "")]);
    let error = MovedPermanentlyError::new("/v2/item".to_string())
        .with_query(&query)
        .into_error()
        .unwrap();
    assert_eq!(error.http_code.as_u16(), 301);
    assert_eq!(
        error.header_list(),
        pairs(&[("location", "/v2/item?a=b+c&x=%C3%BC%26%3D&empty=")])
    );
}

#[test]
fn moved_with_empty_query_keeps_question_mark() {
    let error = MovedPermanentlyError::new("/v2".to_string())
        .with_query(&Vec::new())
        .into_error()
        .unwrap();
    assert_eq!(error.header_list(), pairs(&[("location", "/v2?")]));
}

#[test]
fn moved_with_encoded_query() {
    let error = MovedPermanentlyError::new("/v2".to_string())
        .with_encoded_query("k=v".to_string())
        .into_error()
        .unwrap();
    assert_eq!(error.header_list(), pairs(&[("location", "/v2?k=v")]));
}

#[test]
fn moved_to_what_is_no_header_value_gives_nothing() {
    assert!(MovedPermanentlyError::new("/a\nb".to_string()).into_error().is_none());
    assert!(MovedPermanentlyError::new("/a\u{7f}".to_string()).into_error().is_none());
    let moved = MovedPermanentlyError::new("/straße\t1".to_string()).into_error().unwrap();
    assert_eq!(moved.header_list(), pairs(&[("location", "/straße\t1")]));
}

#[test]
fn copies_of_failures_keep_their_headers() {
    let moved = MovedPermanentlyError::new("/v2".to_string()).into_error().unwrap();
    let copy = moved.clone().title("Moved");
    assert_eq!(copy.header_list(), pairs(&[("location", "/v2")]));
    assert_eq!(copy.http_code.as_u16(), 301);
    assert_eq!(copy.body.title, "Moved");
}
