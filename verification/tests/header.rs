use actix_web::http::header::{HeaderName, HeaderValue};
use node_api::cors::AllowOrigin;
use node_api::header::{check_header_name, check_header_value};
use node_api::WebServerConfig;

#[test]
fn names_of_headers_are_those_the_transport_takes() {
    for code in 0u32..0x300 {
        if let Some(c) = char::from_u32(code) {
            for name in [c.to_string(), format!("x{}", c), format!("{}-y", c)] {
                assert_eq!(
                    check_header_name(&name),
                    HeaderName::from_bytes(name.as_bytes()).is_ok(),
                    "{:?}",
                    name
                );
            }
        }
    }
    for name in ["", "location", "Location", "X-Custom_1", "content-type", "a b", "a:b", "é"] {
        assert_eq!(
            check_header_name(name),
            HeaderName::from_bytes(name.as_bytes()).is_ok(),
            "{:?}",
            name
        );
    }
}

#[test]
fn names_of_headers_have_a_greatest_length() {
    for length in [1usize, 63, 64, 65, 66, 1000, 65_534, 65_535, 65_536, 70_000] {
        let name = "a".repeat(length);
        assert_eq!(
            check_header_name(&name),
            HeaderName::from_bytes(name.as_bytes()).is_ok(),
            "length {}",
            length
        );
        assert_eq!(check_header_name(&name), length <= 65_535);
        let bad = format!("{} ", "a".repeat(length - 1));
        assert!(!check_header_name(&bad));
        assert!(HeaderName::from_bytes(bad.as_bytes()).is_err());
    }
}

#[test]
fn values_of_headers_are_those_the_transport_takes() {
    for code in 0u32..0x300 {
        if let Some(c) = char::from_u32(code) {
            for value in [c.to_string(), format!("/a{}b", c)] {
                assert_eq!(
                    check_header_value(&value),
                    HeaderValue::from_str(&value).is_ok(),
                    "{:?}",
                    value
                );
            }
        }
    }
    assert!(check_header_value(""));
    assert!(check_header_value("a\tb ü \u{10000}"));
    assert!(!check_header_value("a\nb"));
    assert!(!check_header_value("a\u{7f}"));
    assert!(!check_header_value("/#\u{1}"));
}

#[test]
fn rules_for_origins_tell_whether_their_hosts_can_be_sent() {
    let hosts = |list: &[&str]| AllowOrigin::Whitelist(list.iter().map(|h| h.to_string()).collect());
    assert!(AllowOrigin::Any.has_header_values());
    assert!(hosts(&[]).has_header_values());
    assert!(hosts(&["http://a.com", "*", "no address"]).has_header_values());
    assert!(!hosts(&["http://a.com", "http://a.com/#\n"]).has_header_values());
    assert!(!hosts(&["/#\u{1}"]).has_header_values());
    assert_eq!(
        AllowOrigin::from_str("http://a.com/#\u{1}, b.com").map(|rule| rule.has_header_values()),
        Ok(false)
    );
    let mut server = WebServerConfig::new("127.0.0.1:0".to_string());
    assert!(server.can_make_cors());
    server.allow_origin = Some(hosts(&["/#\u{1}"]));
    assert!(!server.can_make_cors());
    server.allow_origin = Some(hosts(&["http://a.com"]));
    assert!(server.can_make_cors());
}
