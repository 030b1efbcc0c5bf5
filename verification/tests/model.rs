use push_fanout::model::{check_topic, PushPayload, Subscription, Urgency, TOPIC_MAX_LEN};

#[test]
fn topic_takes_the_url_safe_alphabet() {
    assert_eq!(TOPIC_MAX_LEN, 32);
    assert!(check_topic(""));
    assert!(check_topic("a"));
    assert!(check_topic("ABCDEFGHIJKLMNOPQRSTUVWXYZ"));
    assert!(check_topic("abcdefghijklmnopqrstuvwxyz"));
    assert!(check_topic("0123456789-_"));
    assert!(check_topic(&"x".repeat(32)));
}

#[test]
fn topic_refuses_other_characters_and_more_than_its_length() {
    assert!(!check_topic(&"x".repeat(33)));
    assert!(!check_topic(&"x".repeat(1000)));
    for topic in ["a b", "a+b", "a/b", "a=", "a.b", "a:b", "\u{e9}", "a\n", " ", "a,b", "@", "[", "`", "{"] {
        assert!(!check_topic(topic), "{:?}", topic);
    }
    let wide: String = std::iter::repeat('\u{1F600}').take(8).collect();
    assert_eq!(wide.len(), 32);
    assert!(!check_topic(&wide));
}

#[test]
fn payload_knows_whether_its_topic_is_one() {
    let mut payload =
        PushPayload { body: b"x".to_vec(), ttl: 0, urgency: Some(Urgency::High), topic: None };
    assert!(payload.has_valid_topic());
    payload.topic = Some("daily".to_string());
    assert!(payload.has_valid_topic());
    payload.topic = Some("daily news".to_string());
    assert!(!payload.has_valid_topic());
}

#[test]
fn copies_hold_what_the_values_hold() {
    let subscription = Subscription {
        endpoint: "https://push.example.com/1".to_string(),
        p256dh: "key".to_string(),
        auth: "secret".to_string(),
    };
    let copy = subscription.clone();
    assert_eq!(copy.endpoint, subscription.endpoint);
    assert_eq!(copy.p256dh, subscription.p256dh);
    assert_eq!(copy.auth, subscription.auth);
    let payload = PushPayload {
        body: vec![1, 2, 3],
        ttl: 77,
        urgency: Some(Urgency::Normal),
        topic: Some("t".to_string()),
    };
    let copy = payload.clone();
    assert_eq!(copy.body, vec![1, 2, 3]);
    assert_eq!(copy.ttl, 77);
    assert_eq!(copy.urgency, Some(Urgency::Normal));
    assert_eq!(copy.topic, Some("t".to_string()));
}
