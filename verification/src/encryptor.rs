//! Sealing a payload for one recipient.
//!
//! What can be told from the subscription and the size of the body is told
//! here, before anything is computed: malformed key material and a body that
//! would not fit. The sealing itself (key agreement, key derivation,
//! authenticated encryption) is `web_push`'s; what it hands back is checked
//! against the layout and the limit before it is accepted.

use vstd::prelude::*;

use crate::framing::{is_frame, EncryptedMessage, HEADER_LEN, PUBLIC_KEY_LEN, TAG_LEN, UNCOMPRESSED_POINT};
use crate::model::{bytes_of, PushPayload, Subscription};
use crate::outcome::ConstructionError;
use crate::outside::seal_body;

verus! {

/// Bytes of an authentication secret.
pub const AUTH_SECRET_LEN: usize = 16;

/// A body is padded to the next multiple of this many bytes before it is
/// sealed, and by a full block where it is a multiple already.
pub const PADDING_BLOCK: usize = 128;

/// Whether key material has the form that a subscription must have: a public
/// key that is an uncompressed point, and a secret of 16 bytes.
pub open spec fn key_material_ok(public_key: Option<Seq<u8>>, auth_secret: Option<Seq<u8>>) -> bool {
    &&& public_key matches Some(key) && key.len() == PUBLIC_KEY_LEN && key[0] == UNCOMPRESSED_POINT
    &&& auth_secret matches Some(secret) && secret.len() == AUTH_SECRET_LEN
}

/// The bytes a sealed message has for a body of `body_len` bytes: header,
/// padded body and tag.
pub open spec fn sealed_len(body_len: nat) -> nat {
    HEADER_LEN as nat + (body_len / PADDING_BLOCK as nat + 1) * PADDING_BLOCK as nat
        + TAG_LEN as nat
}

/// The refusal that is owed to a subscription and a body as they stand, if
/// any: malformed key material first, then a size over the limit.
pub open spec fn local_refusal(subscription: Subscription, body_len: nat, limit: usize) -> Option<
    ConstructionError,
> {
    if !key_material_ok(subscription.public_key(), subscription.auth_secret()) {
        Some(ConstructionError::InvalidSubscription)
    } else if sealed_len(body_len) > limit {
        Some(ConstructionError::PayloadTooLarge)
    } else {
        None
    }
}

/// What becomes of the sealing's result: a refusal is passed on; bytes that
/// are no sealed message are an unspecified failure; a message over the limit
/// is too large; anything else is the message.
pub open spec fn accepted(limit: usize, sealed: Result<Seq<u8>, ConstructionError>) -> Result<
    Seq<u8>,
    ConstructionError,
> {
    match sealed {
        Err(error) => Err(error),
        Ok(bytes) => if !is_frame(bytes) {
            Err(ConstructionError::Unspecified)
        } else if bytes.len() > limit {
            Err(ConstructionError::PayloadTooLarge)
        } else {
            Ok(bytes)
        },
    }
}

/// Whether a sealed message for a body of `body_len` bytes stays within
/// `limit`.
pub fn fits(body_len: usize, limit: usize) -> (r: bool)
    ensures
        r == (sealed_len(body_len as nat) <= limit),
{
    if limit < HEADER_LEN + TAG_LEN {
        return false;
    }
    let room: usize = limit - (HEADER_LEN + TAG_LEN);
    let blocks: usize = body_len / PADDING_BLOCK + 1;
    blocks <= room / PADDING_BLOCK
}

/// Whether decoded key material has the form that a subscription must have.
pub fn check_key_material(public_key: &Option<Vec<u8>>, auth_secret: &Option<Vec<u8>>) -> (ok: bool)
    ensures
        ok == key_material_ok(bytes_of(*public_key), bytes_of(*auth_secret)),
{
    match (public_key, auth_secret) {
        (Some(key), Some(secret)) => key.len() == PUBLIC_KEY_LEN && key[0] == UNCOMPRESSED_POINT
            && secret.len() == AUTH_SECRET_LEN,
        _ => false,
    }
}

/// Checks what can be told without sealing: the form of the key material and
/// the size the sealed message would have.
pub fn validate(subscription: &Subscription, payload: &PushPayload, limit: usize) -> (r: Result<
    (),
    ConstructionError,
>)
    ensures
        r == match local_refusal(*subscription, payload.body@.len(), limit) {
            Some(error) => Err::<(), ConstructionError>(error),
            None => Ok(()),
        },
{
    let public_key = subscription.decode_public_key();
    let auth_secret = subscription.decode_auth_secret();
    if !check_key_material(&public_key, &auth_secret) {
        Err(ConstructionError::InvalidSubscription)
    } else if !fits(payload.body.len(), limit) {
        Err(ConstructionError::PayloadTooLarge)
    } else {
        Ok(())
    }
}

/// Takes what the sealing handed back: see [`accepted`].
pub fn accept(limit: usize, sealed: Result<Vec<u8>, ConstructionError>) -> (r: Result<
    EncryptedMessage,
    ConstructionError,
>)
    ensures
        match accepted(
            limit,
            match sealed {
                Ok(bytes) => Ok(bytes@),
                Err(error) => Err(error),
            },
        ) {
            Ok(bytes) => r matches Ok(message) && message@ == bytes,
            Err(error) => r matches Err(e) && e == error,
        },
{
    match sealed {
        Err(error) => Err(error),
        Ok(bytes) => {
            let len = bytes.len();
            match EncryptedMessage::from_bytes(bytes) {
                None => Err(ConstructionError::Unspecified),
                Some(message) => if len > limit {
                    Err(ConstructionError::PayloadTooLarge)
                } else {
                    Ok(message)
                },
            }
        },
    }
}

/// Has the body sealed and takes what comes back.
pub(crate) fn seal(subscription: &Subscription, payload: &PushPayload, limit: usize) -> (r: Result<
    EncryptedMessage,
    ConstructionError,
>)
    ensures
        r matches Ok(message) ==> is_frame(message@) && message@.len() <= limit,
{
    let sealed = match seal_body(subscription, payload.body.as_slice()) {
        Ok(Some(bytes)) => Ok(bytes),
        Ok(None) => Err(ConstructionError::Unspecified),
        Err(error) => Err(ConstructionError::from_description(error.short_description())),
    };
    accept(limit, sealed)
}

/// Seals the body of `payload` for the recipient of `subscription`, into a
/// message of at most `limit` bytes.
///
/// Malformed key material and a body that would not fit are refused without
/// any computation, in that order. Whether the key is a point of the curve
/// is for the sealing to say; so is the refusal of an empty body. Every call
/// draws a fresh key pair and a fresh salt: two messages for one body share
/// neither.
pub fn encrypt(subscription: &Subscription, payload: &PushPayload, limit: usize) -> (r: Result<
    EncryptedMessage,
    ConstructionError,
>)
    ensures
        local_refusal(*subscription, payload.body@.len(), limit) matches Some(error) ==> r == Err::<
            EncryptedMessage,
            ConstructionError,
        >(error),
        r matches Ok(message) ==> is_frame(message@) && message@.len() <= limit,
{
    match validate(subscription, payload, limit) {
        Err(error) => Err(error),
        Ok(()) => seal(subscription, payload, limit),
    }
}

} // verus!
