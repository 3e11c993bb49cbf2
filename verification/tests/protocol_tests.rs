use wallet713_broker::crypto::sign_challenge;
use wallet713_broker::crypto::verify_challenge;
use wallet713_broker::crypto::SecretKey;
use wallet713_broker::hexutil::hex_decode;
use wallet713_broker::hexutil::hex_encode;
use wallet713_broker::protocol::ProtocolRequest;

#[test]
fn hex_round_trip() {
    let bytes = vec![0x00u8, 0xff, 0x1a, 0x2b, 0x99];
    let text = hex_encode(&bytes);
    assert_eq!(text, "00ff1a2b99");
    assert_eq!(hex_decode(&text), Some(bytes));
    assert_eq!(hex_decode("abc"), None, "odd length is malformed");
    assert_eq!(hex_decode("zz"), None, "non-hex digits are malformed");
    assert_eq!(hex_decode("AB"), None, "upper case is not canonical");
    assert_eq!(hex_decode(""), Some(Vec::new()));
}

#[test]
fn challenge_request_encodes_exactly() {
    let r = ProtocolRequest::Challenge;
    assert_eq!(r.encode(), "{\"type\":\"Challenge\"}");
}

#[test]
fn subscribe_request_encodes_exactly() {
    let r = ProtocolRequest::Subscribe {
        address: "abcd".to_string(),
        signature: "00ff".to_string(),
    };
    assert_eq!(
        r.encode(),
        "{\"type\":\"Subscribe\",\"address\":\"abcd\",\"signature\":\"00ff\"}"
    );
}

#[test]
fn post_slate_request_escapes_payload() {
    let r = ProtocolRequest::PostSlate {
        from: "a".to_string(),
        to: "b".to_string(),
        payload: "{\"k\":\"v\\x\"}".to_string(),
        signature: "sig".to_string(),
    };
    let encoded = r.encode();
    // the embedded JSON document is escaped the way any JSON reader expects
    let expected_payload = serde_json::to_string("{\"k\":\"v\\x\"}").unwrap();
    let expected = format!(
        "{{\"type\":\"PostSlate\",\"from\":\"a\",\"to\":\"b\",\"str\":{},\"signature\":\"sig\"}}",
        expected_payload
    );
    assert_eq!(encoded, expected);
    // and the whole request is valid JSON carrying the embedded document
    let v: serde_json::Value = serde_json::from_str(&encoded).unwrap();
    assert_eq!(v["str"], "{\"k\":\"v\\x\"}");
}

#[test]
fn signature_round_trip_against_digest() {
    let sk = SecretKey::from_bytes(vec![5u8; 32]).unwrap();
    let pk = sk.public_key();
    let sig = sign_challenge("challenge-text", &sk);
    assert_eq!(sig.len(), 128, "a compact signature spelled in hex");
    assert!(verify_challenge("challenge-text", &sig, &pk));
    assert!(!verify_challenge("other-text", &sig, &pk));
    let other = SecretKey::from_bytes(vec![6u8; 32]).unwrap();
    assert!(!verify_challenge("challenge-text", &sig, &other.public_key()));
    assert!(!verify_challenge("challenge-text", "zz", &pk));
}

#[test]
fn envelope_encoding_is_exact_and_valid_json() {
    let dest = wallet713_broker::address::GrinboxAddress {
        public_key: "ab".repeat(33),
        domain: "grinbox.io".to_string(),
        port: Some(443),
    };
    let env = wallet713_broker::envelope::EncryptedMessage::from_parts(
        dest,
        "00ff",
        "0011223344556677",
        "000102030405060708090a0b",
    )
    .unwrap();
    let text = env.encode();
    let expected = format!(
        "{{\"destination\":{{\"public_key\":\"{}\",\"domain\":\"grinbox.io\",\"port\":443}},\"encrypted_message\":\"00ff\",\"salt\":\"0011223344556677\",\"nonce\":\"000102030405060708090a0b\"}}",
        "ab".repeat(33)
    );
    assert_eq!(text, expected);
    let v: serde_json::Value = serde_json::from_str(&text).unwrap();
    assert_eq!(v["destination"]["port"], 443);
    assert_eq!(v["salt"], "0011223344556677");
}

#[test]
fn swap_hook_accepts_and_does_nothing() {
    let processor = wallet713_broker::swap::SwapProcessor {};
    let from = wallet713_broker::address::Address::parse("keybase://alice").unwrap();
    assert!(processor.process_swap_message(&from, "{}").is_ok());
}

#[test]
fn control_characters_are_escaped() {
    // a server-issued value holding a control character still yields
    // valid JSON on the wire
    let r = ProtocolRequest::Subscribe {
        address: "abc".to_string(),
        signature: "line\none\ttab".to_string(),
    };
    let encoded = r.encode();
    assert!(encoded.contains("\\u000a"));
    assert!(encoded.contains("\\u0009"));
    let v: serde_json::Value = serde_json::from_str(&encoded).unwrap();
    assert_eq!(v["signature"], "line\none\ttab");
}
