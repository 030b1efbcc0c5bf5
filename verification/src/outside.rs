//! The calls into `web_push` and `base64`. Nothing in this file is proved:
//! each contract states what the called code is relied on to do.

use vstd::prelude::*;

use crate::model::Subscription;

verus! {

/// `web_push::PartialVapidSignatureBuilder`: a VAPID signing key that is not
/// yet bound to a subscription. Nothing is known of what it holds.
#[verifier::external_type_specification]
#[verifier::external_body]
pub struct ExPartialVapidSignatureBuilder(web_push::PartialVapidSignatureBuilder);

/// `web_push::WebPushError`. Nothing is known of what it holds.
#[verifier::external_type_specification]
#[verifier::external_body]
pub struct ExWebPushError(web_push::WebPushError);

/// The bytes that `base64::decode_config` with `URL_SAFE` reads from `text`,
/// or `None` where it refuses `text`.
pub uninterp spec fn base64url_decoded(text: Seq<char>) -> Option<Seq<u8>>;

/// The text that `base64::encode_config` with `URL_SAFE_NO_PAD` writes for
/// `bytes`.
pub uninterp spec fn base64url_encoded(bytes: Seq<u8>) -> Seq<char>;

/// `base64::decode_config` with the `URL_SAFE` alphabet. The call reads
/// nothing but `text`, so its result is a function of `text`: the contract
/// gives that function a name and says no more.
#[verifier::external_body]
pub(crate) fn decode_base64url(text: &str) -> (decoded: Option<Vec<u8>>)
    ensures
        match decoded {
            Some(bytes) => base64url_decoded(text@) == Some(bytes@),
            None => base64url_decoded(text@) is None,
        },
{
    base64::decode_config(text, base64::URL_SAFE).ok()
}

/// `base64::encode_config` with the `URL_SAFE_NO_PAD` alphabet. The call
/// reads nothing but `bytes`, so its result is a function of `bytes`: the
/// contract gives that function a name and says no more.
#[verifier::external_body]
pub(crate) fn encode_base64url(bytes: &[u8]) -> (text: String)
    ensures
        text@ == base64url_encoded(bytes@),
{
    base64::encode_config(bytes, base64::URL_SAFE_NO_PAD)
}

/// `PartialVapidSignatureBuilder::get_public_key`: the public half of the
/// signing key, as the bytes of an uncompressed point. Such a point is
/// written as the byte 4 and two coordinates of 32 bytes each.
pub assume_specification[ web_push::PartialVapidSignatureBuilder::get_public_key ](
    signer: &web_push::PartialVapidSignatureBuilder,
) -> (key: Vec<u8>)
    ensures
        key@.len() == 65,
        key@[0] == 4,
;

/// `VapidSignatureBuilder::build`, on a copy of `signer` bound to `endpoint`
/// and with the claims `aud`, `exp` and `sub` set to the values given: the
/// signed token, or the signer's refusal. The token holds the time of the
/// call and a random signature, so nothing is claimed of it.
#[verifier::external_body]
pub(crate) fn vapid_token(
    signer: &web_push::PartialVapidSignatureBuilder,
    endpoint: &str,
    audience: &str,
    expiry: u64,
    subject: &str,
) -> (signed: Result<String, web_push::WebPushError>)
{
    let info = web_push::SubscriptionInfo::new(endpoint, "", "");
    let mut builder = signer.clone().add_sub_info(&info);
    builder.add_claim("aud", audience);
    builder.add_claim("exp", expiry);
    builder.add_claim("sub", subject);
    builder.build().map(|signature| signature.auth_t)
}

/// `WebPushMessageBuilder::build` with the `aes128gcm` encoding, on the
/// subscription and the body given: the sealed body of the message that was
/// built, if it has one, or the builder's refusal. The sealing draws a fresh
/// key pair and a fresh salt, so nothing is claimed of the bytes.
#[verifier::external_body]
pub(crate) fn seal_body(subscription: &Subscription, body: &[u8]) -> (sealed: Result<
    Option<Vec<u8>>,
    web_push::WebPushError,
>)
{
    let info = web_push::SubscriptionInfo::new(
        subscription.endpoint.as_str(),
        subscription.p256dh.as_str(),
        subscription.auth.as_str(),
    );
    let mut builder = web_push::WebPushMessageBuilder::new(&info);
    builder.set_payload(web_push::ContentEncoding::Aes128Gcm, body);
    Ok(builder.build()?.payload.map(|sealed| sealed.content))
}

/// `WebPushError::short_description`: the short text that `web_push` has
/// for each of its errors. Nothing is known of the error, so nothing is
/// claimed of the text.
pub assume_specification[ web_push::WebPushError::short_description ](
    error: &web_push::WebPushError,
) -> &'static str
;

} // verus!
