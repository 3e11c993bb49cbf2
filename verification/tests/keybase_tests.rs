use wallet713_broker::address::Address;
use wallet713_broker::address::KeybaseAddress;
use wallet713_broker::error::Error;
use wallet713_broker::keybase::build_list_payload;
use wallet713_broker::keybase::build_read_payload;
use wallet713_broker::keybase::build_send_payload;
use wallet713_broker::keybase::check_send_response;
use wallet713_broker::keybase::filter_messages;
use wallet713_broker::keybase::reply_topic_for;
use wallet713_broker::keybase::select_channels;
use wallet713_broker::keybase::Conversation;
use wallet713_broker::keybase::KeybasePublisher;
use wallet713_broker::keybase::KeybaseSubscriber;
use wallet713_broker::keybase::PollEvent;
use wallet713_broker::keybase::PollOutcome;
use wallet713_broker::keybase::RelayMessage;
use wallet713_broker::keybase::UnreadMessage;
use wallet713_broker::keybase::SLEEP_DURATION_MS;

#[test]
fn first_query_failure_is_fatal() {
    // scenario: the relay query fails on the very first call; starting
    // the subscriber fails and the subscription is never opened
    let mut sub = KeybaseSubscriber::new(None).unwrap();
    sub.begin();
    match sub.poll_step(None) {
        PollOutcome::Fatal(e) => assert_eq!(e, Error::KeybaseNotFound),
        _ => panic!("a failure before any subscription is fatal for start"),
    }
}

#[test]
fn unread_message_is_delivered_with_remapped_topic() {
    // scenario: one unread message on the new-payload topic from alice;
    // the delivered address replies on the signed topic, which differs
    // from the topic the message arrived on
    let mut sub = KeybaseSubscriber::new(None).unwrap();
    sub.begin();
    let unread = vec![UnreadMessage {
        sender: "alice".to_string(),
        topic: "grin_slate_new".to_string(),
        body: "{\"slate\":1}".to_string(),
    }];
    match sub.poll_step(Some(unread)) {
        PollOutcome::Continue { events, sleep_ms } => {
            assert_eq!(sleep_ms, SLEEP_DURATION_MS);
            assert_eq!(events.len(), 2);
            assert!(matches!(events[0], PollEvent::Open));
            match &events[1] {
                PollEvent::Slate { from, payload } => {
                    assert_eq!(from.username, "alice");
                    let reply = from.topic.clone().unwrap();
                    assert_eq!(reply, "grin_slate_signed");
                    assert_ne!(reply, "grin_slate_new");
                    assert_eq!(payload, "{\"slate\":1}");
                }
                _ => panic!("the unread item must be delivered"),
            }
        }
        _ => panic!("a successful poll continues the loop"),
    }
}

#[test]
fn drop_fires_once_and_recovery_reestablishes() {
    let mut sub = KeybaseSubscriber::new(None).unwrap();
    sub.begin();
    // first poll succeeds with nothing unread: the subscription opens
    match sub.poll_step(Some(Vec::new())) {
        PollOutcome::Continue { events, .. } => {
            assert_eq!(events.len(), 1);
            assert!(matches!(events[0], PollEvent::Open));
        }
        _ => panic!("must continue"),
    }
    // the relay goes away: exactly one drop report, then silent retries
    match sub.poll_step(None) {
        PollOutcome::Continue { events, .. } => {
            assert_eq!(events.len(), 1);
            assert!(matches!(events[0], PollEvent::Dropped));
        }
        _ => panic!("must keep polling after a drop"),
    }
    for _ in 0..3 {
        match sub.poll_step(None) {
            PollOutcome::Continue { events, .. } => assert!(events.is_empty()),
            _ => panic!("polling itself is the retry mechanism"),
        }
    }
    // it answers again: one reestablishment
    match sub.poll_step(Some(Vec::new())) {
        PollOutcome::Continue { events, .. } => {
            assert_eq!(events.len(), 1);
            assert!(matches!(events[0], PollEvent::Reestablished));
        }
        _ => panic!("must continue"),
    }
}

#[test]
fn stop_is_acknowledged_and_observed() {
    let mut sub = KeybaseSubscriber::new(None).unwrap();
    sub.begin();
    assert!(sub.is_running());
    assert!(sub.stop());
    assert!(!sub.is_running());
    assert!(matches!(sub.poll_step(Some(Vec::new())), PollOutcome::Stopped));
}

#[test]
fn relay_payloads_are_exact() {
    assert_eq!(
        build_list_payload(),
        "{\"method\":\"list\",\"params\":{\"options\":{\"topic_type\":\"dev\"}}}"
    );
    assert_eq!(
        build_read_payload("alice", "grin_slate_new"),
        "{\"method\":\"read\",\"params\":{\"options\":{\"channel\":{\"name\":\"alice\",\"topic_type\":\"dev\",\"topic_name\":\"grin_slate_new\"},\"unread_only\":true,\"peek\":false}}}"
    );
    assert_eq!(
        build_send_payload("{\"x\":1}", "bob", "wallet713_grin_slate", None),
        "{\"method\":\"send\",\"params\":{\"options\":{\"channel\":{\"name\":\"bob\",\"topic_name\":\"wallet713_grin_slate\",\"topic_type\":\"dev\"},\"message\":{\"body\":\"{\\\"x\\\":1}\"}}}}"
    );
    let ttl = "5s".to_string();
    assert_eq!(
        build_send_payload("hi", "bob", "t1", Some(&ttl)),
        "{\"method\":\"send\",\"params\":{\"options\":{\"channel\":{\"name\":\"bob\",\"topic_name\":\"t1\",\"topic_type\":\"dev\"},\"message\":{\"body\":\"hi\"},\"exploding_lifetime\":\"5s\"}}}"
    );
}

#[test]
fn send_response_must_acknowledge() {
    let good = "message sent".to_string();
    assert!(check_send_response(Some(&good)).is_ok());
    let bad = "error".to_string();
    assert!(matches!(
        check_send_response(Some(&bad)),
        Err(Error::KeybaseMessageSendError)
    ));
    assert!(matches!(
        check_send_response(None),
        Err(Error::KeybaseMessageSendError)
    ));
}

#[test]
fn reply_topic_mapping() {
    assert_eq!(reply_topic_for("grin_slate_new"), "grin_slate_signed");
    assert_eq!(reply_topic_for("grin_slate_signed"), "wallet713_grin_slate");
    assert_eq!(reply_topic_for("anything"), "wallet713_grin_slate");
}

#[test]
fn channel_selection_filters_and_dedups() {
    let convs = vec![
        Conversation { channel: "alice".into(), topic: "grin_slate_new".into(), unread: true },
        Conversation { channel: "alice".into(), topic: "grin_slate_new".into(), unread: true },
        Conversation { channel: "bob".into(), topic: "off_topic".into(), unread: true },
        Conversation { channel: "carol".into(), topic: "grin_slate_signed".into(), unread: false },
        Conversation { channel: "dave".into(), topic: "wallet713_grin_slate".into(), unread: true },
    ];
    let topics = vec![
        "wallet713_grin_slate".to_string(),
        "grin_slate_new".to_string(),
        "grin_slate_signed".to_string(),
    ];
    let picked = select_channels(&convs, &topics);
    assert_eq!(picked.len(), 2);
    assert!(picked.contains(&("alice".to_string(), "grin_slate_new".to_string())));
    assert!(picked.contains(&("dave".to_string(), "wallet713_grin_slate".to_string())));
}

#[test]
fn message_filter_keeps_proper_unread_text() {
    let msgs = vec![
        RelayMessage { sender: "alice".into(), body: "one".into(), is_text: true, unread: true },
        RelayMessage { sender: "alice".into(), body: "read".into(), is_text: true, unread: false },
        RelayMessage { sender: "alice".into(), body: "pic".into(), is_text: false, unread: true },
        RelayMessage { sender: "".into(), body: "ghost".into(), is_text: true, unread: true },
        RelayMessage { sender: "bob".into(), body: "".into(), is_text: true, unread: true },
        RelayMessage { sender: "bob".into(), body: "two".into(), is_text: true, unread: true },
    ];
    let kept = filter_messages(&msgs, "grin_slate_new");
    assert_eq!(kept.len(), 2);
    assert_eq!(kept[0].sender, "alice");
    assert_eq!(kept[0].body, "one");
    assert_eq!(kept[0].topic, "grin_slate_new");
    assert_eq!(kept[1].sender, "bob");
    assert_eq!(kept[1].body, "two");
}

#[test]
fn publisher_exempts_wallet_identity_from_expiry() {
    let publisher = KeybasePublisher::new(Some("5s".to_string()), None).unwrap();
    let to_wallet = Address::Keybase(KeybaseAddress {
        username: "wallet713".to_string(),
        topic: None,
    });
    let to_alice = Address::Keybase(KeybaseAddress {
        username: "alice".to_string(),
        topic: Some("grin_slate_signed".to_string()),
    });
    let wallet_payload = publisher.post_slate("{\"s\":1}", &to_wallet).unwrap();
    assert!(!wallet_payload.contains("exploding_lifetime"));
    assert!(wallet_payload.contains("\"topic_name\":\"wallet713_grin_slate\""));
    let alice_payload = publisher.post_slate("{\"s\":1}", &to_alice).unwrap();
    assert!(alice_payload.contains("\"exploding_lifetime\":\"5s\""));
    assert!(alice_payload.contains("\"topic_name\":\"grin_slate_signed\""));
    assert!(alice_payload.contains("\"name\":\"alice\""));
    // only chat addresses can be posted to over this transport
    let relay = Address::parse(&"ab".repeat(33)).unwrap();
    assert!(publisher.post_slate("{}", &relay).is_err());
}
