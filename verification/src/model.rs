//! The values a batch is made of: who receives, what is sent, and within
//! which limits.

use vstd::prelude::*;

use crate::outside::{base64url_decoded, decode_base64url};
use crate::text::{alpha, chars_of, digit, is_alpha, is_digit};

verus! {

/// What decoded bytes hold, if anything was decoded.
pub open spec fn bytes_of(decoded: Option<Vec<u8>>) -> Option<Seq<u8>> {
    match decoded {
        Some(bytes) => Some(bytes@),
        None => None,
    }
}

/// One recipient: where its push service listens, and the key material the
/// payload is sealed with. The keys are held as the browser hands them out,
/// in base64url text.
#[derive(Debug)]
pub struct Subscription {
    /// URL of the recipient at its push service. It identifies the recipient
    /// in a report.
    pub endpoint: String,
    /// The recipient's public key: an uncompressed P-256 point, in base64url.
    pub p256dh: String,
    /// The recipient's authentication secret: 16 bytes, in base64url.
    pub auth: String,
}

impl Clone for Subscription {
    fn clone(&self) -> (copy: Subscription)
        ensures
            copy == *self,
    {
        Subscription {
            endpoint: self.endpoint.clone(),
            p256dh: self.p256dh.clone(),
            auth: self.auth.clone(),
        }
    }
}

impl Subscription {
    /// The bytes of the public key, where `p256dh` is base64url text.
    pub open spec fn public_key(&self) -> Option<Seq<u8>> {
        base64url_decoded(self.p256dh@)
    }

    /// The bytes of the authentication secret, where `auth` is base64url text.
    pub open spec fn auth_secret(&self) -> Option<Seq<u8>> {
        base64url_decoded(self.auth@)
    }

    /// Reads the public key out of its text.
    pub fn decode_public_key(&self) -> (key: Option<Vec<u8>>)
        ensures
            bytes_of(key) == self.public_key(),
    {
        decode_base64url(self.p256dh.as_str())
    }

    /// Reads the authentication secret out of its text.
    pub fn decode_auth_secret(&self) -> (secret: Option<Vec<u8>>)
        ensures
            bytes_of(secret) == self.auth_secret(),
    {
        decode_base64url(self.auth.as_str())
    }
}

/// How important a message is to its recipient.
#[derive(Clone, Copy, Debug, PartialEq, Eq, Structural)]
pub enum Urgency {
    VeryLow,
    Low,
    Normal,
    High,
}

/// Most characters a topic may have.
pub const TOPIC_MAX_LEN: usize = 32;

/// A character that a topic may hold: one of the URL-safe base64 alphabet.
pub open spec fn is_topic_char(c: char) -> bool {
    is_alpha(c) || is_digit(c) || c == '-' || c == '_'
}

/// Whether `text` can name a topic: at most 32 characters, each of the
/// URL-safe base64 alphabet.
pub open spec fn is_topic(text: Seq<char>) -> bool {
    &&& text.len() <= TOPIC_MAX_LEN
    &&& forall|i: int| 0 <= i < text.len() ==> is_topic_char(#[trigger] text[i])
}

/// Whether `text` can name a topic.
pub fn check_topic(text: &str) -> (ok: bool)
    ensures
        ok == is_topic(text@),
{
    let chars = chars_of(text);
    if chars.len() > TOPIC_MAX_LEN {
        return false;
    }
    let mut i: usize = 0;
    while i < chars.len()
        invariant
            i <= chars.len(),
            chars@ == text@,
            forall|k: int| 0 <= k < i ==> is_topic_char(#[trigger] chars[k]),
        decreases chars.len() - i,
    {
        let c = chars[i];
        if !(alpha(c) || digit(c) || c == '-' || c == '_') {
            return false;
        }
        i += 1;
    }
    true
}

/// What is sent to every recipient of a batch.
#[derive(Debug)]
pub struct PushPayload {
    /// The plain message.
    pub body: Vec<u8>,
    /// Seconds the push service keeps the message for a recipient that is
    /// not reachable.
    pub ttl: u32,
    pub urgency: Option<Urgency>,
    /// Name under which a later message replaces this one at the push service.
    pub topic: Option<String>,
}

impl Clone for PushPayload {
    fn clone(&self) -> (copy: PushPayload)
        ensures
            copy.body@ == self.body@,
            copy.ttl == self.ttl,
            copy.urgency == self.urgency,
            copy.topic_text() == self.topic_text(),
    {
        PushPayload {
            body: self.body.clone(),
            ttl: self.ttl,
            urgency: self.urgency,
            topic: match &self.topic {
                Some(topic) => Some(topic.clone()),
                None => None,
            },
        }
    }
}

impl PushPayload {
    /// The topic as text, if there is one.
    pub open spec fn topic_text(&self) -> Option<Seq<char>> {
        match self.topic {
            Some(topic) => Some(topic@),
            None => None,
        }
    }

    /// Whether the topic, if there is one, can name a topic.
    pub open spec fn topic_ok(&self) -> bool {
        match self.topic {
            Some(topic) => is_topic(topic@),
            None => true,
        }
    }

    pub fn has_valid_topic(&self) -> (ok: bool)
        ensures
            ok == self.topic_ok(),
    {
        match &self.topic {
            Some(topic) => check_topic(topic.as_str()),
            None => true,
        }
    }
}

/// The limits a batch is dispatched within.
#[derive(Clone, Copy, Debug, PartialEq, Eq, Structural)]
pub struct DispatchConfig {
    /// Most bytes a sealed message may have.
    pub message_size_limit: usize,
    /// Seconds a transport may take over one request.
    pub timeout_secs: u64,
}

/// Most bytes of a sealed message that push services are known to take.
/// The sealing has a bound of its own, on the body: it takes 3052 bytes and
/// no more. A body between that and what this limit leaves room for is
/// refused by the sealing, with the same outcome and nothing sent.
pub const MESSAGE_SIZE_LIMIT: usize = 4096;

/// Seconds after which a request counts as unanswered.
pub const SEND_TIMEOUT_SECS: u64 = 10;

impl DispatchConfig {
    /// The limits that suit the common push services.
    pub fn standard() -> (config: DispatchConfig)
        ensures
            config.message_size_limit == MESSAGE_SIZE_LIMIT,
            config.timeout_secs == SEND_TIMEOUT_SECS,
    {
        DispatchConfig { message_size_limit: MESSAGE_SIZE_LIMIT, timeout_secs: SEND_TIMEOUT_SECS }
    }
}

} // verus!
