use wallet713_broker::address::Address;
use wallet713_broker::address::AddressType;
use wallet713_broker::address::GrinboxAddress;
use wallet713_broker::address::KeybaseAddress;
use wallet713_broker::error::ParseError;

fn key_a() -> String {
    // 66 lower-case hex characters
    let mut s = String::new();
    for _ in 0..33 {
        s.push_str("ab");
    }
    s
}

#[test]
fn parse_grinbox_with_scheme() {
    let key = key_a();
    let text = format!("grinbox://{}", key);
    let a = Address::parse(&text).unwrap();
    match &a {
        Address::Grinbox(g) => {
            assert_eq!(g.public_key, key);
            assert_eq!(g.domain, "grinbox.io");
            assert_eq!(g.port, None);
        }
        _ => panic!("expected a relay address"),
    }
    assert_eq!(a.address_type(), AddressType::Grinbox);
}

#[test]
fn parse_grinbox_domain_port() {
    let key = key_a();
    let text = format!("grinbox://{}@relay.example.com:13420", key);
    let a = Address::parse(&text).unwrap();
    match &a {
        Address::Grinbox(g) => {
            assert_eq!(g.domain, "relay.example.com");
            assert_eq!(g.port, Some(13420));
        }
        _ => panic!("expected a relay address"),
    }
}

#[test]
fn parse_bare_key_defaults() {
    let key = key_a();
    let a = Address::parse(&key).unwrap();
    match &a {
        Address::Grinbox(g) => {
            assert_eq!(g.public_key, key);
            assert_eq!(g.domain, "grinbox.io");
        }
        _ => panic!("expected a relay address"),
    }
}

#[test]
fn round_trip_all_variants() {
    let key = key_a();
    let cases = vec![
        format!("grinbox://{}", key),
        format!("grinbox://{}@relay.example.com", key),
        format!("grinbox://{}@relay.example.com:4141", key),
        format!("grinbox://{}@grinbox.io:13420", key),
        "keybase://alice".to_string(),
        "keybase://alice:grin_slate_new".to_string(),
        "https://wallet.example.com/api".to_string(),
        "http://localhost/foreign".to_string(),
    ];
    for text in cases {
        let a = Address::parse(&text).unwrap();
        assert_eq!(a.to_text(), text, "canonical text must round-trip");
        let b = Address::parse(&a.to_text()).unwrap();
        assert_eq!(a, b);
    }
}

#[test]
fn stripped_is_idempotent() {
    let key = key_a();
    let cases = vec![
        format!("grinbox://{}@relay.example.com:4141", key),
        format!("grinbox://{}", key),
        "keybase://alice:grin_slate_new".to_string(),
        "https://wallet.example.com/api".to_string(),
    ];
    for text in cases {
        let a = Address::parse(&text).unwrap();
        let s1 = a.stripped();
        let again = Address::parse(&s1).unwrap();
        assert_eq!(again.stripped(), s1, "stripping twice changes nothing");
    }
}

#[test]
fn stripped_drops_port_and_topic() {
    let key = key_a();
    let a = Address::parse(&format!("grinbox://{}@relay.example.com:4141", key)).unwrap();
    assert_eq!(a.stripped(), format!("{}@relay.example.com", key));
    let b = Address::parse(&format!("grinbox://{}", key)).unwrap();
    assert_eq!(b.stripped(), key);
    let k = Address::parse("keybase://alice:grin_slate_new").unwrap();
    assert_eq!(k.stripped(), "alice");
}

#[test]
fn identity_ignores_port_and_topic() {
    let key = key_a();
    let a = Address::parse(&format!("grinbox://{}@relay.example.com:4141", key)).unwrap();
    let b = Address::parse(&format!("grinbox://{}@relay.example.com", key)).unwrap();
    assert!(a.same_identity(&b));
    let c = Address::parse(&format!("grinbox://{}", key)).unwrap();
    assert!(!a.same_identity(&c));
    let k1 = Address::parse("keybase://alice:grin_slate_new").unwrap();
    let k2 = Address::parse("keybase://alice").unwrap();
    assert!(k1.same_identity(&k2));
}

#[test]
fn parse_bare_username_as_chat() {
    let a = Address::parse("alice").unwrap();
    match &a {
        Address::Keybase(k) => {
            assert_eq!(k.username, "alice");
            assert_eq!(k.topic, None);
        }
        _ => panic!("expected a chat address"),
    }
}

#[test]
fn parse_errors() {
    assert_eq!(
        Address::parse("grinbox://nothex"),
        Err(ParseError::InvalidKey)
    );
    let key = key_a();
    assert_eq!(
        Address::parse(&format!("grinbox://{}@Bad_Domain", key)),
        Err(ParseError::InvalidDomain)
    );
    assert_eq!(
        Address::parse(&format!("grinbox://{}@relay.example.com:99999", key)),
        Err(ParseError::InvalidPort)
    );
    assert_eq!(
        Address::parse(&format!("grinbox://{}@relay.example.com:4x", key)),
        Err(ParseError::InvalidPort)
    );
    assert_eq!(
        Address::parse("keybase://Alice"),
        Err(ParseError::InvalidUsername)
    );
    assert_eq!(
        Address::parse("keybase://alice:"),
        Err(ParseError::InvalidTopic)
    );
    assert_eq!(Address::parse("https://"), Err(ParseError::InvalidUrl));
    assert_eq!(Address::parse("!!!"), Err(ParseError::UnknownScheme));
    assert_eq!(Address::parse(""), Err(ParseError::UnknownScheme));
}

#[test]
fn to_text_forms() {
    let g = GrinboxAddress {
        public_key: key_a(),
        domain: "grinbox.io".to_string(),
        port: None,
    };
    assert_eq!(g.to_text(), format!("grinbox://{}", key_a()));
    let g2 = GrinboxAddress {
        public_key: key_a(),
        domain: "grinbox.io".to_string(),
        port: Some(80),
    };
    assert_eq!(g2.to_text(), format!("grinbox://{}@grinbox.io:80", key_a()));
    let k = KeybaseAddress {
        username: "bob".to_string(),
        topic: Some("grin_slate_signed".to_string()),
    };
    assert_eq!(k.to_text(), "keybase://bob:grin_slate_signed");
}
