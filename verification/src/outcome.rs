//! What became of one delivery, and the short text a report shows for it.

use vstd::prelude::*;

use crate::text::same_text;

verus! {

/// Why a delivery was refused before or by the push service.
#[derive(Clone, Copy, Debug, PartialEq, Eq, Structural)]
pub enum RejectReason {
    /// The endpoint is no URL with a scheme and an authority.
    MalformedEndpoint,
    /// The recipient's key material is malformed.
    InvalidSubscription,
    /// The topic is no valid topic name.
    InvalidTopic,
    /// The claims of the VAPID token were refused by the signer.
    InvalidClaims,
    /// The push service answered that the request was badly formed.
    BadRequest,
}

/// A failure that is neither the recipient's nor the sender's to mend.
#[derive(Clone, Copy, Debug, PartialEq, Eq, Structural)]
pub enum TransportFault {
    /// The push service answered with a status of the 5xx class.
    ServerError,
    /// The push service answered with a status that has no meaning here.
    UnexpectedStatus,
    /// No secure connection could be set up.
    Tls,
    /// The secure connection failed at signing.
    Ssl,
    /// The connection failed while sending or receiving.
    Io,
    /// The answer of the push service could not be read.
    InvalidResponse,
    /// Any other failure.
    Unspecified,
}

/// The outcome of one delivery to one subscription.
#[derive(Clone, Copy, Debug, PartialEq, Eq, Structural)]
pub enum DeliveryOutcome {
    Delivered,
    Rejected(RejectReason),
    Expired,
    NotFound,
    TooLarge,
    Unauthorized,
    Timeout,
    TransportError(TransportFault),
}

/// Why no request could be put together for a subscription.
#[derive(Clone, Copy, Debug, PartialEq, Eq, Structural)]
pub enum ConstructionError {
    /// The endpoint is malformed: a bad request, for this recipient only.
    BadRequest,
    /// The recipient's key material is malformed.
    InvalidSubscription,
    /// The sealed message would be larger than push services take.
    PayloadTooLarge,
    /// The signer refused the claims.
    InvalidClaims,
    /// Signing or sealing failed for a reason that is not told.
    Unspecified,
}

impl ConstructionError {
    /// The outcome a delivery has when it ends in this error.
    pub open spec fn outcome_of(self) -> DeliveryOutcome {
        match self {
            ConstructionError::BadRequest => DeliveryOutcome::Rejected(
                RejectReason::MalformedEndpoint,
            ),
            ConstructionError::InvalidSubscription => DeliveryOutcome::Rejected(
                RejectReason::InvalidSubscription,
            ),
            ConstructionError::PayloadTooLarge => DeliveryOutcome::TooLarge,
            ConstructionError::InvalidClaims => DeliveryOutcome::Rejected(
                RejectReason::InvalidClaims,
            ),
            ConstructionError::Unspecified => DeliveryOutcome::TransportError(
                TransportFault::Unspecified,
            ),
        }
    }

    /// The error that a short description of the signer or of the sealing
    /// stands for. A description that names no error of putting a request
    /// together stands for a failure that is not told.
    pub open spec fn of_description(text: Seq<char>) -> ConstructionError {
        if text == "invalid_uri"@ {
            ConstructionError::BadRequest
        } else if text == "invalid_crypto_keys"@ || text == "missing_crypto_keys"@ {
            ConstructionError::InvalidSubscription
        } else if text == "payload_too_large"@ {
            ConstructionError::PayloadTooLarge
        } else if text == "invalidClaims"@ {
            ConstructionError::InvalidClaims
        } else {
            ConstructionError::Unspecified
        }
    }

    /// The error that a short description of the signer or of the sealing
    /// stands for.
    pub fn from_description(text: &str) -> (error: ConstructionError)
        ensures
            error == ConstructionError::of_description(text@),
    {
        if same_text(text, "invalid_uri") {
            ConstructionError::BadRequest
        } else if same_text(text, "invalid_crypto_keys") || same_text(text, "missing_crypto_keys") {
            ConstructionError::InvalidSubscription
        } else if same_text(text, "payload_too_large") {
            ConstructionError::PayloadTooLarge
        } else if same_text(text, "invalidClaims") {
            ConstructionError::InvalidClaims
        } else {
            ConstructionError::Unspecified
        }
    }

    pub fn outcome(self) -> (outcome: DeliveryOutcome)
        ensures
            outcome == self.outcome_of(),
            outcome.is_construction_failure(),
    {
        match self {
            ConstructionError::BadRequest => DeliveryOutcome::Rejected(
                RejectReason::MalformedEndpoint,
            ),
            ConstructionError::InvalidSubscription => DeliveryOutcome::Rejected(
                RejectReason::InvalidSubscription,
            ),
            ConstructionError::PayloadTooLarge => DeliveryOutcome::TooLarge,
            ConstructionError::InvalidClaims => DeliveryOutcome::Rejected(
                RejectReason::InvalidClaims,
            ),
            ConstructionError::Unspecified => DeliveryOutcome::TransportError(
                TransportFault::Unspecified,
            ),
        }
    }
}

impl RejectReason {
    /// The text a report shows for a refusal.
    pub open spec fn label_text(self) -> Seq<char> {
        match self {
            RejectReason::MalformedEndpoint => "invalid_uri"@,
            RejectReason::InvalidSubscription => "invalid_crypto_keys"@,
            RejectReason::InvalidTopic => "invalid_topic"@,
            RejectReason::InvalidClaims => "invalidClaims"@,
            RejectReason::BadRequest => "bad_request"@,
        }
    }
}

impl TransportFault {
    /// The text a report shows for a transport failure.
    pub open spec fn label_text(self) -> Seq<char> {
        match self {
            TransportFault::ServerError => "server_error"@,
            TransportFault::UnexpectedStatus => "other"@,
            TransportFault::Tls => "tls_error"@,
            TransportFault::Ssl => "ssl_error"@,
            TransportFault::Io => "io_error"@,
            TransportFault::InvalidResponse => "invalid_response"@,
            TransportFault::Unspecified => "unspecified"@,
        }
    }
}

impl DeliveryOutcome {
    /// Whether the message reached the push service and was accepted.
    pub open spec fn delivered(self) -> bool {
        self == DeliveryOutcome::Delivered
    }

    /// Whether the outcome is that of a refusal to sign or to seal: the
    /// outcome of some [`ConstructionError`].
    pub open spec fn is_construction_failure(self) -> bool {
        exists|error: ConstructionError| self == #[trigger] error.outcome_of()
    }

    /// The text a report shows for the outcome: `ok` for a delivery, a short
    /// description of the failure otherwise.
    pub open spec fn label_text(self) -> Seq<char> {
        match self {
            DeliveryOutcome::Delivered => "ok"@,
            DeliveryOutcome::Rejected(reason) => reason.label_text(),
            DeliveryOutcome::Expired => "endpoint_not_valid"@,
            DeliveryOutcome::NotFound => "endpoint_not_found"@,
            DeliveryOutcome::TooLarge => "payload_too_large"@,
            DeliveryOutcome::Unauthorized => "unauthorized"@,
            DeliveryOutcome::Timeout => "timeout"@,
            DeliveryOutcome::TransportError(fault) => fault.label_text(),
        }
    }

    pub fn is_delivered(&self) -> (r: bool)
        ensures
            r == self.delivered(),
    {
        match self {
            DeliveryOutcome::Delivered => true,
            _ => false,
        }
    }

    pub fn label(&self) -> (text: &'static str)
        ensures
            text@ == self.label_text(),
    {
        match self {
            DeliveryOutcome::Delivered => "ok",
            DeliveryOutcome::Rejected(RejectReason::MalformedEndpoint) => "invalid_uri",
            DeliveryOutcome::Rejected(RejectReason::InvalidSubscription) => "invalid_crypto_keys",
            DeliveryOutcome::Rejected(RejectReason::InvalidTopic) => "invalid_topic",
            DeliveryOutcome::Rejected(RejectReason::InvalidClaims) => "invalidClaims",
            DeliveryOutcome::Rejected(RejectReason::BadRequest) => "bad_request",
            DeliveryOutcome::Expired => "endpoint_not_valid",
            DeliveryOutcome::NotFound => "endpoint_not_found",
            DeliveryOutcome::TooLarge => "payload_too_large",
            DeliveryOutcome::Unauthorized => "unauthorized",
            DeliveryOutcome::Timeout => "timeout",
            DeliveryOutcome::TransportError(TransportFault::ServerError) => "server_error",
            DeliveryOutcome::TransportError(TransportFault::UnexpectedStatus) => "other",
            DeliveryOutcome::TransportError(TransportFault::Tls) => "tls_error",
            DeliveryOutcome::TransportError(TransportFault::Ssl) => "ssl_error",
            DeliveryOutcome::TransportError(TransportFault::Io) => "io_error",
            DeliveryOutcome::TransportError(TransportFault::InvalidResponse) => "invalid_response",
            DeliveryOutcome::TransportError(TransportFault::Unspecified) => "unspecified",
        }
    }
}

/// A report shows `ok` for a delivery and for nothing else.
pub proof fn lemma_label_ok_iff_delivered(outcome: DeliveryOutcome)
    ensures
        outcome.label_text() == "ok"@ <==> outcome.delivered(),
{
    reveal_strlit("ok");
    reveal_strlit("invalid_uri");
    reveal_strlit("invalid_crypto_keys");
    reveal_strlit("invalid_topic");
    reveal_strlit("invalidClaims");
    reveal_strlit("bad_request");
    reveal_strlit("endpoint_not_valid");
    reveal_strlit("endpoint_not_found");
    reveal_strlit("payload_too_large");
    reveal_strlit("unauthorized");
    reveal_strlit("timeout");
    reveal_strlit("server_error");
    reveal_strlit("other");
    reveal_strlit("tls_error");
    reveal_strlit("ssl_error");
    reveal_strlit("io_error");
    reveal_strlit("invalid_response");
    reveal_strlit("unspecified");
    if !outcome.delivered() {
        assert(outcome.label_text().len() != 2);
    }
}

/// The outcomes of refusals to sign or to seal, one by one. None of them is
/// a delivery, and none comes from the push service alone.
pub proof fn lemma_construction_failures(outcome: DeliveryOutcome)
    ensures
        outcome.is_construction_failure() <==> {
            ||| outcome == DeliveryOutcome::Rejected(RejectReason::MalformedEndpoint)
            ||| outcome == DeliveryOutcome::Rejected(RejectReason::InvalidSubscription)
            ||| outcome == DeliveryOutcome::Rejected(RejectReason::InvalidClaims)
            ||| outcome == DeliveryOutcome::TooLarge
            ||| outcome == DeliveryOutcome::TransportError(TransportFault::Unspecified)
        },
        outcome.is_construction_failure() ==> !outcome.delivered(),
{
    assert(DeliveryOutcome::Rejected(RejectReason::MalformedEndpoint)
        == ConstructionError::BadRequest.outcome_of());
    assert(DeliveryOutcome::Rejected(RejectReason::InvalidSubscription)
        == ConstructionError::InvalidSubscription.outcome_of());
    assert(DeliveryOutcome::Rejected(RejectReason::InvalidClaims)
        == ConstructionError::InvalidClaims.outcome_of());
    assert(DeliveryOutcome::TooLarge == ConstructionError::PayloadTooLarge.outcome_of());
    assert(DeliveryOutcome::TransportError(TransportFault::Unspecified)
        == ConstructionError::Unspecified.outcome_of());
}

} // verus!
