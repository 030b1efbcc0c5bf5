use push_fanout::dispatcher::{classify, classify_status, TransportEvent};
use push_fanout::model::{DispatchConfig, MESSAGE_SIZE_LIMIT, SEND_TIMEOUT_SECS};
use push_fanout::outcome::{ConstructionError, DeliveryOutcome, RejectReason, TransportFault};

#[test]
fn status_of_the_success_class_is_a_delivery() {
    assert_eq!(classify_status(200), DeliveryOutcome::Delivered);
    assert_eq!(classify_status(201), DeliveryOutcome::Delivered);
    assert_eq!(classify_status(299), DeliveryOutcome::Delivered);
}

#[test]
fn named_statuses_have_their_outcome() {
    assert_eq!(classify_status(400), DeliveryOutcome::Rejected(RejectReason::BadRequest));
    assert_eq!(classify_status(401), DeliveryOutcome::Unauthorized);
    assert_eq!(classify_status(404), DeliveryOutcome::NotFound);
    assert_eq!(classify_status(410), DeliveryOutcome::Expired);
    assert_eq!(classify_status(413), DeliveryOutcome::TooLarge);
}

#[test]
fn server_errors_are_transport_errors() {
    assert_eq!(
        classify_status(500),
        DeliveryOutcome::TransportError(TransportFault::ServerError)
    );
    assert_eq!(
        classify_status(503),
        DeliveryOutcome::TransportError(TransportFault::ServerError)
    );
    assert_eq!(
        classify_status(599),
        DeliveryOutcome::TransportError(TransportFault::ServerError)
    );
}

#[test]
fn unknown_statuses_are_transport_errors() {
    for status in [0u16, 100, 199, 300, 302, 403, 418, 429, 600, 65535] {
        assert_eq!(
            classify_status(status),
            DeliveryOutcome::TransportError(TransportFault::UnexpectedStatus)
        );
    }
}

#[test]
fn timeout_is_timeout_and_faults_pass_through() {
    assert_eq!(classify(TransportEvent::TimedOut), DeliveryOutcome::Timeout);
    assert_eq!(
        classify(TransportEvent::Failed(TransportFault::Tls)),
        DeliveryOutcome::TransportError(TransportFault::Tls)
    );
    assert_eq!(
        classify(TransportEvent::Failed(TransportFault::Io)),
        DeliveryOutcome::TransportError(TransportFault::Io)
    );
    assert_eq!(classify(TransportEvent::Status(201)), DeliveryOutcome::Delivered);
    assert_eq!(classify(TransportEvent::Status(410)), DeliveryOutcome::Expired);
}

#[test]
fn labels_are_ok_or_a_short_description() {
    assert_eq!(DeliveryOutcome::Delivered.label(), "ok");
    assert_eq!(DeliveryOutcome::Timeout.label(), "timeout");
    assert_eq!(DeliveryOutcome::Expired.label(), "endpoint_not_valid");
    assert_eq!(DeliveryOutcome::NotFound.label(), "endpoint_not_found");
    assert_eq!(DeliveryOutcome::TooLarge.label(), "payload_too_large");
    assert_eq!(DeliveryOutcome::Unauthorized.label(), "unauthorized");
    assert_eq!(
        DeliveryOutcome::Rejected(RejectReason::InvalidSubscription).label(),
        "invalid_crypto_keys"
    );
    assert_eq!(DeliveryOutcome::Rejected(RejectReason::MalformedEndpoint).label(), "invalid_uri");
    assert_eq!(DeliveryOutcome::Rejected(RejectReason::InvalidTopic).label(), "invalid_topic");
    assert_eq!(DeliveryOutcome::Rejected(RejectReason::InvalidClaims).label(), "invalidClaims");
    assert_eq!(DeliveryOutcome::Rejected(RejectReason::BadRequest).label(), "bad_request");
    assert_eq!(
        DeliveryOutcome::TransportError(TransportFault::ServerError).label(),
        "server_error"
    );
    assert_eq!(DeliveryOutcome::TransportError(TransportFault::UnexpectedStatus).label(), "other");
    assert_eq!(DeliveryOutcome::TransportError(TransportFault::Tls).label(), "tls_error");
    assert_eq!(DeliveryOutcome::TransportError(TransportFault::Ssl).label(), "ssl_error");
    assert_eq!(DeliveryOutcome::TransportError(TransportFault::Io).label(), "io_error");
    assert_eq!(
        DeliveryOutcome::TransportError(TransportFault::InvalidResponse).label(),
        "invalid_response"
    );
    assert_eq!(
        DeliveryOutcome::TransportError(TransportFault::Unspecified).label(),
        "unspecified"
    );
}

#[test]
fn only_a_delivery_is_labelled_ok() {
    let outcomes = [
        DeliveryOutcome::Rejected(RejectReason::MalformedEndpoint),
        DeliveryOutcome::Rejected(RejectReason::InvalidSubscription),
        DeliveryOutcome::Rejected(RejectReason::InvalidTopic),
        DeliveryOutcome::Rejected(RejectReason::InvalidClaims),
        DeliveryOutcome::Rejected(RejectReason::BadRequest),
        DeliveryOutcome::Expired,
        DeliveryOutcome::NotFound,
        DeliveryOutcome::TooLarge,
        DeliveryOutcome::Unauthorized,
        DeliveryOutcome::Timeout,
        DeliveryOutcome::TransportError(TransportFault::ServerError),
        DeliveryOutcome::TransportError(TransportFault::UnexpectedStatus),
        DeliveryOutcome::TransportError(TransportFault::Tls),
        DeliveryOutcome::TransportError(TransportFault::Ssl),
        DeliveryOutcome::TransportError(TransportFault::Io),
        DeliveryOutcome::TransportError(TransportFault::InvalidResponse),
        DeliveryOutcome::TransportError(TransportFault::Unspecified),
    ];
    assert!(DeliveryOutcome::Delivered.is_delivered());
    for outcome in outcomes {
        assert!(!outcome.is_delivered());
        assert_ne!(outcome.label(), "ok");
    }
}

#[test]
fn construction_errors_have_their_outcome() {
    assert_eq!(
        ConstructionError::BadRequest.outcome(),
        DeliveryOutcome::Rejected(RejectReason::MalformedEndpoint)
    );
    assert_eq!(
        ConstructionError::InvalidSubscription.outcome(),
        DeliveryOutcome::Rejected(RejectReason::InvalidSubscription)
    );
    assert_eq!(ConstructionError::PayloadTooLarge.outcome(), DeliveryOutcome::TooLarge);
    assert_eq!(
        ConstructionError::InvalidClaims.outcome(),
        DeliveryOutcome::Rejected(RejectReason::InvalidClaims)
    );
    assert_eq!(
        ConstructionError::Unspecified.outcome(),
        DeliveryOutcome::TransportError(TransportFault::Unspecified)
    );
}

#[test]
fn standard_limits() {
    let config = DispatchConfig::standard();
    assert_eq!(config.message_size_limit, 4096);
    assert_eq!(config.timeout_secs, 10);
    assert_eq!(MESSAGE_SIZE_LIMIT, 4096);
    assert_eq!(SEND_TIMEOUT_SECS, 10);
}

#[test]
fn descriptions_of_refusals_stand_for_construction_errors() {
    assert_eq!(ConstructionError::from_description("invalid_uri"), ConstructionError::BadRequest);
    assert_eq!(
        ConstructionError::from_description("invalid_crypto_keys"),
        ConstructionError::InvalidSubscription
    );
    assert_eq!(
        ConstructionError::from_description("missing_crypto_keys"),
        ConstructionError::InvalidSubscription
    );
    assert_eq!(
        ConstructionError::from_description("payload_too_large"),
        ConstructionError::PayloadTooLarge
    );
    assert_eq!(
        ConstructionError::from_description("invalidClaims"),
        ConstructionError::InvalidClaims
    );
    for other in [
        "",
        "unspecified",
        "unauthorized",
        "bad_request",
        "server_error",
        "not_implemented",
        "endpoint_not_valid",
        "endpoint_not_found",
        "tls_error",
        "ssl_error",
        "io_error",
        "invalid_package_name",
        "invalid_ttl",
        "invalid_topic",
        "invalid_response",
        "other",
        "invalid_claims",
        "Invalid_uri",
        "invalid_uri ",
        "invalid_ur",
    ] {
        assert_eq!(
            ConstructionError::from_description(other),
            ConstructionError::Unspecified,
            "{}",
            other
        );
    }
}

#[test]
fn descriptions_are_those_of_the_errors_of_signer_and_sealing() {
    let cases = [
        (web_push::WebPushError::InvalidUri, ConstructionError::BadRequest),
        (web_push::WebPushError::InvalidCryptoKeys, ConstructionError::InvalidSubscription),
        (web_push::WebPushError::MissingCryptoKeys, ConstructionError::InvalidSubscription),
        (web_push::WebPushError::PayloadTooLarge, ConstructionError::PayloadTooLarge),
        (web_push::WebPushError::InvalidClaims, ConstructionError::InvalidClaims),
        (web_push::WebPushError::Unspecified, ConstructionError::Unspecified),
        (web_push::WebPushError::InvalidTopic, ConstructionError::Unspecified),
        (web_push::WebPushError::Other("x".to_string()), ConstructionError::Unspecified),
    ];
    for (error, expected) in cases {
        assert_eq!(ConstructionError::from_description(error.short_description()), expected);
    }
}
