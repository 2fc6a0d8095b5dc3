use node_api::cors::{AllowOrigin, InvalidWhitelist, OriginShape};

fn hosts(list: &[&str]) -> Vec<String> {
    list.iter().map(|h| h.to_string()).collect()
}

#[test]
fn parse_star_is_any() {
    assert_eq!(AllowOrigin::from_str("*"), Ok(AllowOrigin::Any));
}

#[test]
fn parse_list_of_two_hosts() {
    assert_eq!(
        AllowOrigin::from_str("a.com, b.com"),
        Ok(AllowOrigin::Whitelist(hosts(&["a.com", "b.com"])))
    );
}

#[test]
fn parse_empty_text_fails() {
    assert_eq!(AllowOrigin::from_str(""), Err(InvalidWhitelist));
}

#[test]
fn parse_blank_pieces_fails() {
    assert_eq!(AllowOrigin::from_str(" , ,\t,"), Err(InvalidWhitelist));
    assert_eq!(
        InvalidWhitelist.to_string(),
        "Invalid AllowOrigin::Whitelist value"
    );
}

#[test]
fn parse_drops_empty_pieces_and_trims() {
    assert_eq!(
        AllowOrigin::from_str(",, http://a.com ,,\u{3000}b.com\u{a0},"),
        Ok(AllowOrigin::Whitelist(hosts(&["http://a.com", "b.com"])))
    );
}

#[test]
fn parse_keeps_inner_white_space() {
    assert_eq!(
        AllowOrigin::from_str(" a b "),
        Ok(AllowOrigin::Whitelist(hosts(&["a b"])))
    );
}

#[test]
fn parse_star_among_hosts_is_a_host() {
    assert_eq!(
        AllowOrigin::from_str("*, a.com"),
        Ok(AllowOrigin::Whitelist(hosts(&["*", "a.com"])))
    );
    assert_eq!(
        AllowOrigin::from_str(" *"),
        Ok(AllowOrigin::Whitelist(hosts(&["*"])))
    );
}

#[test]
fn serialize_any_is_star() {
    assert_eq!(
        AllowOrigin::Any.serialize(),
        OriginShape::Text("*".to_string())
    );
}

#[test]
fn serialize_one_host_is_bare_text() {
    assert_eq!(
        AllowOrigin::Whitelist(hosts(&["a.com"])).serialize(),
        OriginShape::Text("a.com".to_string())
    );
}

#[test]
fn serialize_two_hosts_is_list() {
    assert_eq!(
        AllowOrigin::Whitelist(hosts(&["a.com", "b.com"])).serialize(),
        OriginShape::List(hosts(&["a.com", "b.com"]))
    );
}

#[test]
fn serialize_no_host_is_empty_list() {
    assert_eq!(
        AllowOrigin::Whitelist(Vec::new()).serialize(),
        OriginShape::List(Vec::new())
    );
}

#[test]
fn deserialize_both_shapes() {
    assert_eq!(
        AllowOrigin::deserialize(OriginShape::Text("*".to_string())),
        AllowOrigin::Any
    );
    assert_eq!(
        AllowOrigin::deserialize(OriginShape::Text("a.com".to_string())),
        AllowOrigin::Whitelist(hosts(&["a.com"]))
    );
    assert_eq!(
        AllowOrigin::deserialize(OriginShape::List(hosts(&["a.com"]))),
        AllowOrigin::Whitelist(hosts(&["a.com"]))
    );
    assert_eq!(
        AllowOrigin::deserialize(OriginShape::List(hosts(&["a.com", "b.com"]))),
        AllowOrigin::Whitelist(hosts(&["a.com", "b.com"]))
    );
}

#[test]
fn shapes_round_trip() {
    for origin in [
        AllowOrigin::Any,
        AllowOrigin::Whitelist(Vec::new()),
        AllowOrigin::Whitelist(hosts(&["a.com"])),
        AllowOrigin::Whitelist(hosts(&["a.com", "b.com", "c.com"])),
        AllowOrigin::Whitelist(hosts(&["*", "a.com"])),
    ] {
        assert_eq!(AllowOrigin::deserialize(origin.serialize()), origin);
    }
}

#[test]
fn list_of_star_alone_reads_back_as_any() {
    let origin = AllowOrigin::Whitelist(hosts(&["*"]));
    assert_eq!(AllowOrigin::deserialize(origin.serialize()), AllowOrigin::Any);
}

#[test]
fn allows_members_only() {
    let list = AllowOrigin::Whitelist(hosts(&["http://a.com", "http://b.com"]));
    assert!(list.allows("http://b.com"));
    assert!(!list.allows("http://c.com"));
    assert!(!list.allows("http://a.com/"));
    assert!(AllowOrigin::Any.allows("http://c.com"));
    assert!(!AllowOrigin::Whitelist(Vec::new()).allows(""));
}
