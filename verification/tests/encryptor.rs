use push_fanout::encryptor::{accept, check_key_material, encrypt, fits, validate};
use push_fanout::framing::EncryptedMessage;
use push_fanout::model::{PushPayload, Subscription};
use push_fanout::outcome::ConstructionError;

struct Recipient {
    subscription: Subscription,
    keys: ece::EcKeyComponents,
    auth: Vec<u8>,
}

fn recipient() -> Recipient {
    let (pair, auth) = ece::generate_keypair_and_auth_secret().expect("a key pair");
    let keys = pair.raw_components().expect("the raw key");
    let subscription = Subscription {
        endpoint: "https://push.example.com/send/1".to_string(),
        p256dh: base64::encode_config(keys.public_key(), base64::URL_SAFE_NO_PAD),
        auth: base64::encode_config(auth, base64::URL_SAFE_NO_PAD),
    };
    Recipient { subscription, keys, auth: auth.to_vec() }
}

fn payload(body: &[u8]) -> PushPayload {
    PushPayload { body: body.to_vec(), ttl: 60, urgency: None, topic: None }
}

fn open(recipient: &Recipient, message: &EncryptedMessage) -> Vec<u8> {
    ece::decrypt(&recipient.keys, &recipient.auth, message.ciphertext()).expect("it opens")
}

#[test]
fn sealed_message_opens_to_the_body() {
    let recipient = recipient();
    let body = b"{\"title\":\"hello\",\"body\":\"world\"}";
    let message = encrypt(&recipient.subscription, &payload(body), 4096).unwrap();
    assert_ne!(message.ciphertext().as_slice(), body.as_slice());
    assert_eq!(open(&recipient, &message), body.to_vec());
}

#[test]
fn two_messages_for_one_body_differ_and_both_open() {
    let recipient = recipient();
    let body = b"the same body, twice";
    let one = encrypt(&recipient.subscription, &payload(body), 4096).unwrap();
    let two = encrypt(&recipient.subscription, &payload(body), 4096).unwrap();
    assert_ne!(one.ciphertext(), two.ciphertext());
    assert_ne!(one.salt(), two.salt());
    assert_ne!(one.key_id(), two.key_id());
    assert_eq!(open(&recipient, &one), body.to_vec());
    assert_eq!(open(&recipient, &two), body.to_vec());
}

#[test]
fn bodies_of_many_sizes_open_again() {
    let recipient = recipient();
    for len in [1usize, 2, 127, 128, 129, 255, 256, 1000, 2048, 3052] {
        let body: Vec<u8> = (0..len).map(|i| (i % 251) as u8).collect();
        let message = encrypt(&recipient.subscription, &payload(&body), 4096).unwrap();
        assert_eq!(open(&recipient, &message), body, "{}", len);
    }
}

#[test]
fn sealed_message_has_header_padded_body_and_tag() {
    let recipient = recipient();
    let sizes =
        [(1usize, 230usize), (4, 230), (127, 230), (128, 358), (129, 358), (3052, 3174)];
    for (len, sealed) in sizes {
        let body = vec![b'x'; len];
        let message = encrypt(&recipient.subscription, &payload(&body), 4096).unwrap();
        assert_eq!(message.len(), sealed, "{}", len);
        assert_eq!(message.ciphertext().len(), sealed);
        assert_eq!(message.record_size(), 4096);
        assert_eq!(message.salt().len(), 16);
        assert_eq!(message.salt(), message.ciphertext()[..16].to_vec());
        assert_eq!(message.key_id().len(), 65);
        assert_eq!(message.key_id()[0], 4);
        assert_eq!(message.key_id(), message.ciphertext()[21..86].to_vec());
    }
}

#[test]
fn fits_counts_header_padding_and_tag() {
    assert!(fits(0, 230));
    assert!(!fits(0, 229));
    assert!(fits(127, 230));
    assert!(!fits(128, 230));
    assert!(fits(128, 358));
    assert!(fits(3967, 4096));
    assert!(!fits(3968, 4096));
    assert!(fits(3839, 4070));
    assert!(fits(3840, 4070));
    assert!(!fits(3840, 4069));
    assert!(!fits(0, 0));
    assert!(!fits(0, 101));
    assert!(!fits(usize::MAX, usize::MAX));
    assert!(!fits(usize::MAX, 4096));
}

#[test]
fn body_that_would_not_fit_is_too_large() {
    let recipient = recipient();
    let body = vec![0u8; 3968];
    assert_eq!(
        validate(&recipient.subscription, &payload(&body), 4096),
        Err(ConstructionError::PayloadTooLarge)
    );
    assert!(matches!(
        encrypt(&recipient.subscription, &payload(&body), 4096),
        Err(ConstructionError::PayloadTooLarge)
    ));
    let small = vec![0u8; 128];
    assert!(matches!(
        encrypt(&recipient.subscription, &payload(&small), 357),
        Err(ConstructionError::PayloadTooLarge)
    ));
    assert!(encrypt(&recipient.subscription, &payload(&small), 358).is_ok());
}

#[test]
fn body_over_what_the_sealing_takes_is_too_large() {
    let recipient = recipient();
    let body = vec![0u8; 3053];
    assert_eq!(validate(&recipient.subscription, &payload(&body), 4096), Ok(()));
    assert!(matches!(
        encrypt(&recipient.subscription, &payload(&body), 4096),
        Err(ConstructionError::PayloadTooLarge)
    ));
}

#[test]
fn malformed_key_material_is_an_invalid_subscription() {
    let good = recipient();
    let key = good.keys.public_key().to_vec();
    let encode = |bytes: &[u8]| base64::encode_config(bytes, base64::URL_SAFE_NO_PAD);
    let mut compressed = key.clone();
    compressed[0] = 3;
    let mut long = key.clone();
    long.push(0);
    let cases: Vec<(String, String)> = vec![
        (encode(&key[..10]), good.subscription.auth.clone()),
        (encode(&key[..64]), good.subscription.auth.clone()),
        (encode(&long), good.subscription.auth.clone()),
        (encode(&compressed), good.subscription.auth.clone()),
        (String::new(), good.subscription.auth.clone()),
        ("not base64!".to_string(), good.subscription.auth.clone()),
        (good.subscription.p256dh.clone(), encode(&good.auth[..15])),
        (good.subscription.p256dh.clone(), encode(&[0u8; 17])),
        (good.subscription.p256dh.clone(), String::new()),
        (good.subscription.p256dh.clone(), "***".to_string()),
    ];
    for (p256dh, auth) in cases {
        let subscription =
            Subscription { endpoint: good.subscription.endpoint.clone(), p256dh, auth };
        assert_eq!(
            validate(&subscription, &payload(b"body"), 4096),
            Err(ConstructionError::InvalidSubscription)
        );
        assert!(matches!(
            encrypt(&subscription, &payload(b"body"), 4096),
            Err(ConstructionError::InvalidSubscription)
        ));
    }
}

#[test]
fn malformed_key_material_comes_before_size() {
    let good = recipient();
    let subscription = Subscription {
        endpoint: good.subscription.endpoint.clone(),
        p256dh: base64::encode_config(&good.keys.public_key()[..10], base64::URL_SAFE_NO_PAD),
        auth: good.subscription.auth.clone(),
    };
    let body = vec![0u8; 5000];
    assert_eq!(
        validate(&subscription, &payload(&body), 4096),
        Err(ConstructionError::InvalidSubscription)
    );
}

#[test]
fn key_that_is_no_point_of_the_curve_is_an_invalid_subscription() {
    let good = recipient();
    let mut key = vec![4u8];
    key.extend_from_slice(&[0xffu8; 64]);
    let subscription = Subscription {
        endpoint: good.subscription.endpoint.clone(),
        p256dh: base64::encode_config(&key, base64::URL_SAFE_NO_PAD),
        auth: good.subscription.auth.clone(),
    };
    assert_eq!(validate(&subscription, &payload(b"body"), 4096), Ok(()));
    assert!(matches!(
        encrypt(&subscription, &payload(b"body"), 4096),
        Err(ConstructionError::InvalidSubscription)
    ));
}

#[test]
fn padded_key_text_is_read_too() {
    let good = recipient();
    let subscription = Subscription {
        endpoint: good.subscription.endpoint.clone(),
        p256dh: base64::encode_config(good.keys.public_key(), base64::URL_SAFE),
        auth: base64::encode_config(&good.auth, base64::URL_SAFE),
    };
    assert!(subscription.p256dh.ends_with('='));
    let message = encrypt(&subscription, &payload(b"padded"), 4096).unwrap();
    assert_eq!(open(&good, &message), b"padded".to_vec());
}

#[test]
fn topic_is_none_of_the_sealing() {
    let recipient = recipient();
    let mut with_topic = payload(b"body");
    with_topic.topic = Some("not a topic!".to_string());
    let message = encrypt(&recipient.subscription, &with_topic, 4096).unwrap();
    assert_eq!(open(&recipient, &message), b"body".to_vec());
}

#[test]
fn empty_body_is_refused_by_the_sealing() {
    let recipient = recipient();
    assert_eq!(validate(&recipient.subscription, &payload(b""), 4096), Ok(()));
    assert!(matches!(
        encrypt(&recipient.subscription, &payload(b""), 4096),
        Err(ConstructionError::InvalidSubscription)
    ));
}

#[test]
fn unparsable_endpoint_is_refused_by_the_sealing() {
    let mut recipient = recipient();
    recipient.subscription.endpoint = "https://exa mple.com/".to_string();
    assert!(matches!(
        encrypt(&recipient.subscription, &payload(b"body"), 4096),
        Err(ConstructionError::BadRequest)
    ));
}

#[test]
fn key_material_is_checked_by_length_and_first_byte() {
    let mut key = vec![4u8; 65];
    let secret = vec![0u8; 16];
    assert!(check_key_material(&Some(key.clone()), &Some(secret.clone())));
    assert!(!check_key_material(&None, &Some(secret.clone())));
    assert!(!check_key_material(&Some(key.clone()), &None));
    assert!(!check_key_material(&None, &None));
    assert!(!check_key_material(&Some(key.clone()), &Some(vec![0u8; 15])));
    assert!(!check_key_material(&Some(key.clone()), &Some(vec![0u8; 17])));
    assert!(!check_key_material(&Some(key[..64].to_vec()), &Some(secret.clone())));
    assert!(!check_key_material(&Some(Vec::new()), &Some(secret.clone())));
    key[0] = 2;
    assert!(!check_key_material(&Some(key), &Some(secret)));
}

#[test]
fn accept_checks_layout_then_limit() {
    let mut frame = vec![0u8; 103];
    frame[16..20].copy_from_slice(&4096u32.to_be_bytes());
    frame[20] = 65;
    frame[21] = 4;
    let accepted = accept(103, Ok(frame.clone())).unwrap();
    assert_eq!(accepted.ciphertext(), &frame);
    assert!(matches!(accept(102, Ok(frame.clone())), Err(ConstructionError::PayloadTooLarge)));
    assert!(matches!(
        accept(4096, Ok(frame[..102].to_vec())),
        Err(ConstructionError::Unspecified)
    ));
    assert!(matches!(accept(4096, Ok(Vec::new())), Err(ConstructionError::Unspecified)));
    assert!(matches!(accept(0, Ok(Vec::new())), Err(ConstructionError::Unspecified)));
    for error in [
        ConstructionError::BadRequest,
        ConstructionError::InvalidSubscription,
        ConstructionError::PayloadTooLarge,
        ConstructionError::InvalidClaims,
        ConstructionError::Unspecified,
    ] {
        assert_eq!(accept(4096, Err(error)).err(), Some(error));
    }
}

#[test]
fn key_material_is_read_out_of_its_text() {
    let good = recipient();
    assert_eq!(good.subscription.decode_public_key(), Some(good.keys.public_key().to_vec()));
    assert_eq!(good.subscription.decode_auth_secret(), Some(good.auth.clone()));
    let odd = Subscription {
        endpoint: String::new(),
        p256dh: "AQID".to_string(),
        auth: "not base64url".to_string(),
    };
    assert_eq!(odd.decode_public_key(), Some(vec![1u8, 2, 3]));
    assert_eq!(odd.decode_auth_secret(), None);
    let url_safe = Subscription {
        endpoint: String::new(),
        p256dh: "-_8".to_string(),
        auth: "+/8".to_string(),
    };
    assert_eq!(url_safe.decode_public_key(), Some(vec![0xfb, 0xff]));
    assert_eq!(url_safe.decode_auth_secret(), None);
}
