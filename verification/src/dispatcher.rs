//! One delivery: the request that is put together for a recipient, and the
//! outcome that what the transport reports amounts to.
//!
//! [`prepare`] ends in a request or in the outcome that makes sending
//! pointless; [`classify`] turns the transport's report on a request that was
//! sent into the outcome. [`conclude`] takes what `prepare` ended in and
//! calls a transport that is handed in where there is a request; [`deliver`]
//! is the two in a row. One request is made per delivery, and none is sent
//! twice.

use vstd::prelude::*;

use crate::encryptor::{local_refusal, seal, validate};
use crate::framing::{is_frame, EncryptedMessage};
use crate::model::{DispatchConfig, PushPayload, Subscription, Urgency};
use crate::origin::{audience_of, has_origin, origin_of};
use crate::outcome::{DeliveryOutcome, RejectReason, TransportFault};
use crate::vapid::{expiry_at, sign_for, vapid_header, IdentityView, VapidAssertion, VapidIdentity};

verus! {

/// All that a transport needs to send one message to one recipient.
pub struct OutboundRequest {
    /// Where the request goes.
    pub endpoint: String,
    pub ttl: u32,
    pub urgency: Option<Urgency>,
    pub topic: Option<String>,
    /// What the sender asserts, as signed for this endpoint.
    pub assertion: VapidAssertion,
    /// The value of the `Authorization` header, which carries the assertion.
    pub authorization: String,
    /// The body of the request.
    pub message: EncryptedMessage,
    /// Seconds after which the transport gives the request up.
    pub timeout_secs: u64,
}

impl OutboundRequest {
    /// The topic as text, if there is one.
    pub open spec fn topic_text(&self) -> Option<Seq<char>> {
        match self.topic {
            Some(topic) => Some(topic@),
            None => None,
        }
    }
}

/// What a transport reports of one request.
#[derive(Clone, Copy, Debug, PartialEq, Eq, Structural)]
pub enum TransportEvent {
    /// The push service answered with this HTTP status.
    Status(u16),
    /// No answer was had.
    Failed(TransportFault),
    /// No answer came in time. Whether the request arrived is not known.
    TimedOut,
}

/// The outcome that an HTTP status of the push service stands for. A status
/// that is not named here is a failure of the transport.
pub open spec fn outcome_of_status(status: u16) -> DeliveryOutcome {
    if 200 <= status <= 299 {
        DeliveryOutcome::Delivered
    } else if status == 400 {
        DeliveryOutcome::Rejected(RejectReason::BadRequest)
    } else if status == 401 {
        DeliveryOutcome::Unauthorized
    } else if status == 404 {
        DeliveryOutcome::NotFound
    } else if status == 410 {
        DeliveryOutcome::Expired
    } else if status == 413 {
        DeliveryOutcome::TooLarge
    } else if 500 <= status <= 599 {
        DeliveryOutcome::TransportError(TransportFault::ServerError)
    } else {
        DeliveryOutcome::TransportError(TransportFault::UnexpectedStatus)
    }
}

/// The outcome that a report of the transport stands for.
pub open spec fn outcome_of_event(event: TransportEvent) -> DeliveryOutcome {
    match event {
        TransportEvent::Status(status) => outcome_of_status(status),
        TransportEvent::Failed(fault) => DeliveryOutcome::TransportError(fault),
        TransportEvent::TimedOut => DeliveryOutcome::Timeout,
    }
}

/// The outcome that is owed to a subscription and a payload as they stand,
/// without signing or sealing anything: an endpoint without an origin, then
/// malformed key material, then a body that would not fit, then a topic that
/// can name none.
pub open spec fn local_verdict(
    subscription: Subscription,
    payload: PushPayload,
    config: DispatchConfig,
) -> Option<DeliveryOutcome> {
    if !has_origin(subscription.endpoint@) {
        Some(DeliveryOutcome::Rejected(RejectReason::MalformedEndpoint))
    } else {
        match local_refusal(subscription, payload.body@.len(), config.message_size_limit) {
            Some(error) => Some(error.outcome_of()),
            None => if payload.topic_ok() {
                None
            } else {
                Some(DeliveryOutcome::Rejected(RejectReason::InvalidTopic))
            },
        }
    }
}

/// Whether `request` is the request for `subscription` and `payload`, made
/// by `identity` at `now` within `config`.
pub open spec fn request_matches(
    request: OutboundRequest,
    identity: IdentityView,
    subscription: Subscription,
    payload: PushPayload,
    config: DispatchConfig,
    now: u64,
) -> bool {
    &&& request.endpoint@ == subscription.endpoint@
    &&& request.ttl == payload.ttl
    &&& request.urgency == payload.urgency
    &&& request.topic_text() == payload.topic_text()
    &&& request.assertion.audience@ == origin_of(subscription.endpoint@)
    &&& request.assertion.expiry == expiry_at(now)
    &&& request.assertion.subject@ == identity.subject
    &&& request.assertion.public_key@ == identity.public_key
    &&& request.authorization@ == vapid_header(request.assertion.token@, identity.public_key)
    &&& is_frame(request.message@)
    &&& request.message@.len() <= config.message_size_limit
    &&& request.timeout_secs == config.timeout_secs
}

/// What [`prepare`] may end in: the outcome that is owed without signing or
/// sealing, where one is; else a failure of signing or sealing, or the
/// request.
pub open spec fn prepared(
    identity: IdentityView,
    subscription: Subscription,
    payload: PushPayload,
    config: DispatchConfig,
    now: u64,
    result: Result<OutboundRequest, DeliveryOutcome>,
) -> bool {
    match result {
        Err(outcome) => settles_unsent(subscription, payload, config, outcome),
        Ok(request) => local_verdict(subscription, payload, config) is None && request_matches(
            request,
            identity,
            subscription,
            payload,
            config,
            now,
        ),
    }
}

/// Whether `outcome` may be the outcome of a delivery for which nothing was
/// sent: the outcome that is owed as things stand, where one is, and else
/// the outcome of a refusal to sign or to seal.
pub open spec fn settles_unsent(
    subscription: Subscription,
    payload: PushPayload,
    config: DispatchConfig,
    outcome: DeliveryOutcome,
) -> bool {
    match local_verdict(subscription, payload, config) {
        Some(owed) => outcome == owed,
        None => outcome.is_construction_failure(),
    }
}

/// Whether `outcome` may be the outcome of the delivery to `subscription`
/// where `transport` does the sending: either nothing was sent and the
/// outcome is one of those that need no sending, or nothing stood against
/// sending, the request was made as [`request_matches`] says, and the outcome
/// is what the transport's report on that request amounts to.
pub open spec fn sent_through<T: Fn(OutboundRequest) -> TransportEvent>(
    transport: T,
    identity: IdentityView,
    subscription: Subscription,
    payload: PushPayload,
    config: DispatchConfig,
    now: u64,
    outcome: DeliveryOutcome,
) -> bool {
    ||| settles_unsent(subscription, payload, config, outcome)
    ||| {
        &&& local_verdict(subscription, payload, config) is None
        &&& exists|request: OutboundRequest, event: TransportEvent|
            {
                &&& request_matches(request, identity, subscription, payload, config, now)
                &&& #[trigger] call_ensures(transport, (request,), event)
                &&& outcome == outcome_of_event(event)
            }
    }
}

/// The outcome that an HTTP status of the push service stands for.
pub fn classify_status(status: u16) -> (outcome: DeliveryOutcome)
    ensures
        outcome == outcome_of_status(status),
{
    if 200 <= status && status <= 299 {
        DeliveryOutcome::Delivered
    } else if status == 400 {
        DeliveryOutcome::Rejected(RejectReason::BadRequest)
    } else if status == 401 {
        DeliveryOutcome::Unauthorized
    } else if status == 404 {
        DeliveryOutcome::NotFound
    } else if status == 410 {
        DeliveryOutcome::Expired
    } else if status == 413 {
        DeliveryOutcome::TooLarge
    } else if 500 <= status && status <= 599 {
        DeliveryOutcome::TransportError(TransportFault::ServerError)
    } else {
        DeliveryOutcome::TransportError(TransportFault::UnexpectedStatus)
    }
}

/// The outcome of a delivery whose request was sent, from what the transport
/// reports of it. Time that ran out is a timeout, whatever else is known.
pub fn classify(event: TransportEvent) -> (outcome: DeliveryOutcome)
    ensures
        outcome == outcome_of_event(event),
{
    match event {
        TransportEvent::Status(status) => classify_status(status),
        TransportEvent::Failed(fault) => DeliveryOutcome::TransportError(fault),
        TransportEvent::TimedOut => DeliveryOutcome::Timeout,
    }
}

fn copy_topic(topic: &Option<String>) -> (copy: Option<String>)
    ensures
        match (*topic, copy) {
            (Some(a), Some(b)) => a@ == b@,
            (None, None) => true,
            _ => false,
        },
{
    match topic {
        Some(text) => Some(text.clone()),
        None => None,
    }
}

/// The request that carries `assertion` and `message` to the recipient of
/// `subscription`: endpoint, time to live, urgency and topic as they were
/// asked for, and the assertion in the `Authorization` header also.
pub fn compose(
    subscription: &Subscription,
    payload: &PushPayload,
    config: &DispatchConfig,
    assertion: VapidAssertion,
    message: EncryptedMessage,
) -> (request: OutboundRequest)
    ensures
        request.endpoint@ == subscription.endpoint@,
        request.ttl == payload.ttl,
        request.urgency == payload.urgency,
        request.topic_text() == payload.topic_text(),
        request.assertion == assertion,
        request.authorization@ == vapid_header(assertion.token@, assertion.public_key@),
        request.message == message,
        request.timeout_secs == config.timeout_secs,
{
    let authorization = assertion.authorization();
    OutboundRequest {
        endpoint: subscription.endpoint.clone(),
        ttl: payload.ttl,
        urgency: payload.urgency,
        topic: copy_topic(&payload.topic),
        assertion,
        authorization,
        message,
        timeout_secs: config.timeout_secs,
    }
}

/// Puts together the request that delivers `payload` to the recipient of
/// `subscription`, or names the outcome that makes sending pointless.
///
/// What can be told without signing or sealing is told first, in the order
/// of [`local_verdict`]. Then the assertion is signed for the origin of the
/// endpoint and the body is sealed for the recipient; a refusal of either is
/// the outcome. A request is returned only where all of it succeeded, so for
/// any other outcome nothing exists that could be sent.
pub fn prepare(
    identity: &VapidIdentity,
    subscription: &Subscription,
    payload: &PushPayload,
    config: &DispatchConfig,
    now: u64,
) -> (r: Result<OutboundRequest, DeliveryOutcome>)
    ensures
        prepared(identity@, *subscription, *payload, *config, now, r),
        local_verdict(*subscription, *payload, *config) matches Some(owed) ==> r == Err::<
            OutboundRequest,
            DeliveryOutcome,
        >(owed),
{
    let audience = match audience_of(subscription.endpoint.as_str()) {
        Some(audience) => audience,
        None => {
            return Err(DeliveryOutcome::Rejected(RejectReason::MalformedEndpoint));
        },
    };
    match validate(subscription, payload, config.message_size_limit) {
        Err(error) => {
            return Err(error.outcome());
        },
        Ok(()) => {},
    }
    if !payload.has_valid_topic() {
        return Err(DeliveryOutcome::Rejected(RejectReason::InvalidTopic));
    }
    let assertion = match sign_for(identity, subscription.endpoint.as_str(), audience, now) {
        Ok(assertion) => assertion,
        Err(error) => {
            return Err(error.outcome());
        },
    };
    let message = match seal(subscription, payload, config.message_size_limit) {
        Ok(message) => message,
        Err(error) => {
            return Err(error.outcome());
        },
    };
    Ok(compose(subscription, payload, config, assertion, message))
}

/// Whether `outcome` is what a delivery ends in, given what [`prepare`] ended
/// in: the outcome that was named, or what a report of `transport` on the
/// request amounts to.
pub open spec fn concludes<T: Fn(OutboundRequest) -> TransportEvent>(
    transport: T,
    prepared: Result<OutboundRequest, DeliveryOutcome>,
    outcome: DeliveryOutcome,
) -> bool {
    match prepared {
        Err(owed) => outcome == owed,
        Ok(request) => exists|event: TransportEvent|
            #[trigger] call_ensures(transport, (request,), event) && outcome == outcome_of_event(
                event,
            ),
    }
}

/// Ends a delivery, given what [`prepare`] ended in. An outcome that was
/// named stands, and the transport is not called. A request is handed to
/// the transport, once, and the outcome is what its report amounts to.
pub fn conclude<T: Fn(OutboundRequest) -> TransportEvent>(
    prepared: Result<OutboundRequest, DeliveryOutcome>,
    transport: &T,
) -> (outcome: DeliveryOutcome)
    requires
        prepared matches Ok(request) ==> call_requires(*transport, (request,)),
    ensures
        concludes(*transport, prepared, outcome),
{
    match prepared {
        Err(owed) => owed,
        Ok(request) => classify(transport(request)),
    }
}

/// Delivers `payload` to the recipient of `subscription`: puts the request
/// together, hands it to `transport` once, and names the outcome.
///
/// Where [`prepare`] ends in an outcome, that is the outcome and the
/// transport is not called. Otherwise the transport is called with the
/// request, and the outcome is what its report amounts to; a report that
/// time ran out is a timeout, whatever the transport has done by then. The
/// transport is called at most once: nothing is tried again.
pub fn deliver<T: Fn(OutboundRequest) -> TransportEvent>(
    identity: &VapidIdentity,
    transport: &T,
    subscription: &Subscription,
    payload: &PushPayload,
    config: &DispatchConfig,
    now: u64,
) -> (outcome: DeliveryOutcome)
    requires
        forall|request: OutboundRequest|
            request_matches(request, identity@, *subscription, *payload, *config, now)
                ==> #[trigger] call_requires(*transport, (request,)),
    ensures
        sent_through(*transport, identity@, *subscription, *payload, *config, now, outcome),
        local_verdict(*subscription, *payload, *config) matches Some(owed) ==> outcome == owed,
{
    conclude(prepare(identity, subscription, payload, config, now), transport)
}

} // verus!
