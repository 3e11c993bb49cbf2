use wallet713_broker::address::Address;
use wallet713_broker::address::GrinboxAddress;
use wallet713_broker::crypto::sign_challenge;
use wallet713_broker::crypto::verify_challenge;
use wallet713_broker::crypto::SecretKey;
use wallet713_broker::envelope::encrypt;
use wallet713_broker::error::CloseReason;
use wallet713_broker::error::Error;
use wallet713_broker::grinbox::keepalive_action;
use wallet713_broker::grinbox::swallow_transport_error;
use wallet713_broker::grinbox::ConnectionMetadata;
use wallet713_broker::grinbox::GrinboxBroker;
use wallet713_broker::grinbox::GrinboxPublisher;
use wallet713_broker::grinbox::GrinboxSession;
use wallet713_broker::grinbox::GrinboxSubscriber;
use wallet713_broker::grinbox::InboundAction;
use wallet713_broker::grinbox::OpenEvent;
use wallet713_broker::grinbox::RetryDecision;
use wallet713_broker::grinbox::KEEPALIVE_INTERVAL_MS;
use wallet713_broker::grinbox::KEEPALIVE_TOKEN;
use wallet713_broker::protocol::ProtocolResponse;

fn sk(byte: u8) -> SecretKey {
    SecretKey::from_bytes(vec![byte; 32]).unwrap()
}

fn own_address(secret: &SecretKey) -> GrinboxAddress {
    GrinboxAddress {
        public_key: secret.public_key().to_hex(),
        domain: "grinbox.io".to_string(),
        port: None,
    }
}

#[test]
fn metadata_starts_fresh() {
    let m = ConnectionMetadata::new();
    assert_eq!(m.retries, 0);
    assert!(!m.connected_at_least_once);
}

#[test]
fn backoff_sequence_is_capped_doubling() {
    // a session drops after a successful open; every following attempt fails
    let mut broker = GrinboxBroker::new(false);
    let mut meta = ConnectionMetadata::new();
    let ev = broker.connection_opened(1, &mut meta);
    assert_eq!(ev, OpenEvent::Opened);
    let mut delays = Vec::new();
    for _ in 0..8 {
        match broker.after_connect_ended(false, &mut meta) {
            RetryDecision::Retry { delay_secs, .. } => delays.push(delay_secs),
            _ => panic!("must retry while the slot is populated"),
        }
    }
    assert_eq!(delays, vec![1, 2, 4, 8, 16, 32, 32, 32]);
}

#[test]
fn dropped_fires_once_per_loss() {
    let mut broker = GrinboxBroker::new(false);
    let mut meta = ConnectionMetadata::new();
    broker.connection_opened(1, &mut meta);
    let mut fires = 0;
    for _ in 0..6 {
        match broker.after_connect_ended(false, &mut meta) {
            RetryDecision::Retry { fire_dropped, .. } => {
                if fire_dropped {
                    fires += 1;
                }
            }
            _ => panic!("must retry"),
        }
    }
    assert_eq!(fires, 1, "one report per loss, not one per retry");
    // through the whole retry window the broker is not running, and a
    // publish fails fast instead of addressing the dead socket
    assert!(!broker.is_running());
    let other = sk(9);
    match broker.post_slate(
        &b"{}".to_vec(),
        &own_address(&other),
        &own_address(&sk(1)),
        &sk(1),
    ) {
        Err(Error::ClosedListener(name)) => assert_eq!(name, "mwcmq"),
        _ => panic!("no publish may appear to succeed while disconnected"),
    }
    // the connection recovers, then is lost again: one more report
    let ev = broker.connection_opened(2, &mut meta);
    assert_eq!(ev, OpenEvent::Reestablished);
    match broker.after_connect_ended(false, &mut meta) {
        RetryDecision::Retry { fire_dropped, .. } => assert!(fire_dropped),
        _ => panic!("must retry"),
    }
}

#[test]
fn no_drop_report_when_first_attempt_fails() {
    let mut broker = GrinboxBroker::new(false);
    let mut meta = ConnectionMetadata::new();
    // the slot was never populated: a failed first connect ends the run
    match broker.after_connect_ended(false, &mut meta) {
        RetryDecision::CloseAbnormal => {}
        _ => panic!("a failed first attempt is terminal"),
    }
    assert_eq!(
        GrinboxBroker::close_reason(false),
        CloseReason::Abnormal(Error::WebsocketAbnormalTermination)
    );
    assert_eq!(GrinboxBroker::close_reason(true), CloseReason::Normal);
}

#[test]
fn stop_clears_running_and_publish_fails_fast() {
    let secret = sk(1);
    let to_secret = sk(2);
    let address = own_address(&secret);
    let publisher = GrinboxPublisher::new(&address, &secret, false).unwrap();
    let mut subscriber = GrinboxSubscriber::new(&publisher).unwrap();
    assert!(!subscriber.is_running());
    let mut meta = ConnectionMetadata::new();
    subscriber.broker.connection_opened(7, &mut meta);
    assert!(subscriber.is_running());
    assert!(subscriber.stop());
    assert!(!subscriber.is_running());
    // a publish through a cleared slot never appears to succeed
    let to = Address::Grinbox(own_address(&to_secret));
    let payload = b"{}".to_vec();
    match subscriber.broker.post_slate(&payload, &own_address(&to_secret), &address, &secret) {
        Err(Error::ClosedListener(name)) => assert_eq!(name, "mwcmq"),
        _ => panic!("publishing without a connection must fail fast"),
    }
    match publisher.post_slate(&payload, &to) {
        Err(Error::ClosedListener(name)) => assert_eq!(name, "mwcmq"),
        _ => panic!("publishing without a connection must fail fast"),
    }
}

#[test]
fn post_slate_frames_signed_request() {
    let secret = sk(1);
    let to_secret = sk(2);
    let address = own_address(&secret);
    let to = own_address(&to_secret);
    let mut broker = GrinboxBroker::new(false);
    let mut meta = ConnectionMetadata::new();
    broker.connection_opened(7, &mut meta);
    broker.observe_challenge("challenge-7");
    let payload = b"{\"slate\":1}".to_vec();
    let (token, text, env) = broker.post_slate(&payload, &to, &address, &secret).unwrap();
    assert_eq!(token, 7);
    let env_json = env.encode();
    // the signature covers the envelope, both stripped addresses, and
    // the most recent server challenge
    let signed = format!(
        "{}{}{}{}",
        env_json,
        address.stripped(),
        to.stripped(),
        "challenge-7"
    );
    let signature = sign_challenge(&signed, &secret);
    let expected = format!(
        "{{\"type\":\"PostSlate\",\"from\":\"{}\",\"to\":\"{}\",\"str\":{},\"signature\":\"{}\"}}",
        address.stripped(),
        to.stripped(),
        serde_json::to_string(&env_json).unwrap(),
        signature
    );
    assert_eq!(text, expected);
}

#[test]
fn challenge_is_answered_with_one_signed_subscribe() {
    // scenario: the server opens with a challenge; the client must reply
    // with exactly one subscribe request whose signature verifies
    let secret = sk(1);
    let address = own_address(&secret);
    let mut session = GrinboxSession::new(&address, &secret);
    let response = ProtocolResponse::Challenge {
        challenge: "abc".to_string(),
    };
    let action = session.handle_response(&response);
    match action {
        InboundAction::Respond(text) => {
            let signature = sign_challenge("abc", &secret);
            let expected = format!(
                "{{\"type\":\"Subscribe\",\"address\":\"{}\",\"signature\":\"{}\"}}",
                address.public_key, signature
            );
            assert_eq!(text, expected);
            assert!(verify_challenge("abc", &signature, &secret.public_key()));
            assert!(!verify_challenge("abd", &signature, &secret.public_key()));
        }
        _ => panic!("a challenge must be answered with a subscribe request"),
    }
}

#[test]
fn slate_for_other_recipient_is_ignored() {
    // scenario: the envelope was encrypted for a different recipient key
    // than the subscriber's; nothing is delivered and nothing crashes
    let sender = sk(1);
    let receiver = sk(2);
    let other = sk(3);
    let receiver_address = own_address(&receiver);
    let payload = b"{\"slate\":1}".to_vec();
    // destination claims the receiver, but the seal is for someone else
    let env = encrypt(&payload, &receiver_address, &other.public_key(), &sender);
    let env_json = env.encode();
    let challenge = "abc";
    let from = sender.public_key().to_hex();
    let signed = format!(
        "{}{}{}{}",
        env_json,
        from,
        receiver_address.stripped(),
        challenge
    );
    let signature = sign_challenge(&signed, &sender);
    let response = ProtocolResponse::Slate {
        from,
        payload: env_json,
        challenge: challenge.to_string(),
        signature,
    };
    let mut session = GrinboxSession::new(&receiver_address, &receiver);
    let action = session.handle_response(&response);
    assert!(matches!(action, InboundAction::Ignore));
}

#[test]
fn genuine_slate_is_delivered_with_proof() {
    let sender = sk(1);
    let receiver = sk(2);
    let receiver_address = own_address(&receiver);
    let payload = b"{\"slate\":42}".to_vec();
    let env = encrypt(&payload, &receiver_address, &receiver.public_key(), &sender);
    let env_json = env.encode();
    let challenge = "abc";
    let from = sender.public_key().to_hex();
    let signed = format!(
        "{}{}{}{}",
        env_json,
        from,
        receiver_address.stripped(),
        challenge
    );
    let signature = sign_challenge(&signed, &sender);
    let response = ProtocolResponse::Slate {
        from: from.clone(),
        payload: env_json,
        challenge: challenge.to_string(),
        signature: signature.clone(),
    };
    let mut session = GrinboxSession::new(&receiver_address, &receiver);
    match session.handle_response(&response) {
        InboundAction::Deliver { payload: got, proof } => {
            assert_eq!(got, payload);
            assert_eq!(proof.message, payload);
            assert_eq!(proof.address.public_key, from);
            assert_eq!(proof.challenge, challenge);
            assert_eq!(proof.signature, signature);
        }
        _ => panic!("a genuine slate must be delivered"),
    }
}

#[test]
fn relay_errors_and_acks_are_ignored() {
    let secret = sk(1);
    let address = own_address(&secret);
    let mut session = GrinboxSession::new(&address, &secret);
    let err = ProtocolResponse::Error {
        kind: "bad".to_string(),
        description: "nope".to_string(),
    };
    assert!(matches!(session.handle_response(&err), InboundAction::Ignore));
    let ok = ProtocolResponse::Accepted;
    assert!(matches!(session.handle_response(&ok), InboundAction::Ignore));
}

#[test]
fn keepalive_and_error_classification() {
    assert_eq!(keepalive_action(KEEPALIVE_TOKEN), Some(KEEPALIVE_INTERVAL_MS));
    assert_eq!(keepalive_action(9), None);
    assert!(swallow_transport_error(true, Some(104)));
    assert!(!swallow_transport_error(false, Some(104)));
    assert!(!swallow_transport_error(true, Some(32)));
    assert!(!swallow_transport_error(true, None));
}

#[test]
fn connection_url_uses_scheme_and_default_port() {
    let secret = sk(1);
    let address = own_address(&secret);
    let secure = GrinboxBroker::new(false);
    assert_eq!(secure.connection_url(&address), "wss://grinbox.io:13420");
    let unsecure = GrinboxBroker::new(true);
    let mut pinned = own_address(&secret);
    pinned.domain = "relay.example.com".to_string();
    pinned.port = Some(8080);
    assert_eq!(unsecure.connection_url(&pinned), "ws://relay.example.com:8080");
}

#[test]
fn posted_slate_is_accepted_by_receiver() {
    // the two sides agree on what the signature covers: a request built
    // by the broker under the latest challenge passes the receiver's
    // proof verification with the same challenge
    let sender = sk(1);
    let receiver = sk(2);
    let sender_address = own_address(&sender);
    let receiver_address = own_address(&receiver);
    let mut broker = GrinboxBroker::new(false);
    let mut meta = ConnectionMetadata::new();
    broker.connection_opened(1, &mut meta);
    broker.observe_challenge("abc");
    let payload = b"{\"slate\":9}".to_vec();
    let (_, _, env) = broker
        .post_slate(&payload, &receiver_address, &sender_address, &sender)
        .unwrap();
    let env_json = env.encode();
    let signed = format!(
        "{}{}{}{}",
        env_json,
        sender_address.stripped(),
        receiver_address.stripped(),
        "abc"
    );
    let signature = sign_challenge(&signed, &sender);
    let (got, proof) = wallet713_broker::txproof::TxProof::from_response(
        &sender_address.stripped(),
        &env_json,
        "abc",
        &signature,
        &receiver,
        &receiver_address,
    )
    .unwrap();
    assert_eq!(got, payload);
    assert_eq!(proof.address.public_key, sender_address.public_key);
}
