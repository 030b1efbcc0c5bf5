//! Who sends, and the signed assertion that tells a push service so.
//!
//! An assertion is made for one endpoint: its audience is the origin of that
//! endpoint, so that a token made for one push service is of no use at
//! another. The signature over the claims is `web_push`'s.

use vstd::prelude::*;
use vstd::string::*;

use crate::framing::{PUBLIC_KEY_LEN, UNCOMPRESSED_POINT};
use crate::origin::{audience_of, has_origin, origin_of};
use crate::outcome::ConstructionError;
use crate::outside::{base64url_encoded, encode_base64url, vapid_token};
use crate::text::{chars_of, has_prefix, starts_with};

verus! {

/// Seconds for which an assertion is valid: twelve hours, half of what push
/// services allow, so that a clock that runs ahead does no harm.
pub const TOKEN_VALIDITY_SECS: u64 = 43_200;

/// The longest validity that push services accept: a day.
pub const MAX_VALIDITY_SECS: u64 = 86_400;

/// Whether `subject` names a contact: a `mailto:` or an `https://` URI with
/// something behind the scheme.
pub open spec fn is_contact_uri(subject: Seq<char>) -> bool {
    ||| starts_with(subject, "mailto:"@) && subject.len() > "mailto:"@.len()
    ||| starts_with(subject, "https://"@) && subject.len() > "https://"@.len()
}

/// Whether `key` is an uncompressed point in bytes.
pub open spec fn is_uncompressed_point(key: Seq<u8>) -> bool {
    key.len() == PUBLIC_KEY_LEN && key[0] == UNCOMPRESSED_POINT
}

/// The time at which an assertion made at `now` expires, in seconds since
/// the epoch: `TOKEN_VALIDITY_SECS` later, or at the end of time where that
/// is sooner. The signer writes no time of 2^32 seconds or more into a
/// token; up to then the token says what the assertion says.
pub open spec fn expiry_at(now: u64) -> u64 {
    if now + TOKEN_VALIDITY_SECS > u64::MAX {
        u64::MAX
    } else {
        (now + TOKEN_VALIDITY_SECS) as u64
    }
}

/// The value of the `Authorization` header for a token and the public key it
/// is checked with.
pub open spec fn vapid_header(token: Seq<char>, public_key: Seq<u8>) -> Seq<char> {
    "vapid t="@ + token + ", k="@ + base64url_encoded(public_key)
}

/// Why an identity cannot be used.
#[derive(Clone, Copy, Debug, PartialEq, Eq, Structural)]
pub enum ConfigError {
    /// The subject is no contact URI.
    MalformedSubject,
    /// The public key is no uncompressed point.
    MalformedKey,
    /// The public key is not the one that belongs to the signing key.
    MismatchedKey,
}

/// What an identity is known by.
pub struct IdentityView {
    pub subject: Seq<char>,
    pub public_key: Seq<u8>,
}

/// The sender of a batch: a contact, and the key pair that signs for it.
/// Made once, and only read afterwards.
pub struct VapidIdentity {
    subject: String,
    signing_key: web_push::PartialVapidSignatureBuilder,
    public_key: Vec<u8>,
}

impl View for VapidIdentity {
    type V = IdentityView;

    closed spec fn view(&self) -> IdentityView {
        IdentityView { subject: self.subject@, public_key: self.public_key@ }
    }
}

/// What a signed assertion states, and the proof of it.
#[derive(Debug)]
pub struct VapidAssertion {
    /// The origin the assertion is valid for.
    pub audience: String,
    /// Seconds since the epoch after which it is valid no longer.
    pub expiry: u64,
    /// The contact of the sender.
    pub subject: String,
    /// The claims, signed, in compact form.
    pub token: String,
    /// The public key the signature is checked with.
    pub public_key: Vec<u8>,
}

impl Clone for VapidAssertion {
    fn clone(&self) -> (copy: VapidAssertion)
        ensures
            copy.audience@ == self.audience@,
            copy.expiry == self.expiry,
            copy.subject@ == self.subject@,
            copy.token@ == self.token@,
            copy.public_key@ == self.public_key@,
    {
        VapidAssertion {
            audience: self.audience.clone(),
            expiry: self.expiry,
            subject: self.subject.clone(),
            token: self.token.clone(),
            public_key: self.public_key.clone(),
        }
    }
}

fn contact_uri(subject: &str) -> (r: bool)
    ensures
        r == is_contact_uri(subject@),
{
    let chars = chars_of(subject);
    let mailto = chars_of("mailto:");
    let https = chars_of("https://");
    (has_prefix(&chars, &mailto) && chars.len() > mailto.len()) || (has_prefix(&chars, &https)
        && chars.len() > https.len())
}

fn uncompressed_point(key: &Vec<u8>) -> (r: bool)
    ensures
        r == is_uncompressed_point(key@),
{
    key.len() == PUBLIC_KEY_LEN && key[0] == UNCOMPRESSED_POINT
}

fn same_bytes(one: &Vec<u8>, other: &Vec<u8>) -> (r: bool)
    ensures
        r == (one@ == other@),
{
    if one.len() != other.len() {
        return false;
    }
    let mut i: usize = 0;
    while i < one.len()
        invariant
            i <= one.len() == other.len(),
            one@.subrange(0, i as int) == other@.subrange(0, i as int),
        decreases one.len() - i,
    {
        if one[i] != other[i] {
            return false;
        }
        assert(one@.subrange(0, i + 1) =~= one@.subrange(0, i as int).push(one@[i as int]));
        assert(other@.subrange(0, i + 1) =~= other@.subrange(0, i as int).push(other@[i as int]));
        i += 1;
    }
    assert(one@.subrange(0, one.len() as int) =~= one@);
    assert(other@.subrange(0, other.len() as int) =~= other@);
    true
}

/// What stands against an identity of these parts, if anything does, where
/// `own_key` is the public key that the signing key gives as its own: the
/// subject is tested first, then the form of the public key, then whether it
/// is the signing key's own.
pub open spec fn parts_refusal(subject: Seq<char>, public_key: Seq<u8>, own_key: Seq<u8>) -> Option<
    ConfigError,
> {
    if !is_contact_uri(subject) {
        Some(ConfigError::MalformedSubject)
    } else if !is_uncompressed_point(public_key) {
        Some(ConfigError::MalformedKey)
    } else if public_key != own_key {
        Some(ConfigError::MismatchedKey)
    } else {
        None
    }
}

/// Tests the parts of an identity against each other: see [`parts_refusal`].
pub fn check_parts(subject: &str, public_key: &Vec<u8>, own_key: &Vec<u8>) -> (r: Result<
    (),
    ConfigError,
>)
    ensures
        r == match parts_refusal(subject@, public_key@, own_key@) {
            Some(error) => Err::<(), ConfigError>(error),
            None => Ok(()),
        },
{
    if !contact_uri(subject) {
        Err(ConfigError::MalformedSubject)
    } else if !uncompressed_point(public_key) {
        Err(ConfigError::MalformedKey)
    } else if !same_bytes(public_key, own_key) {
        Err(ConfigError::MismatchedKey)
    } else {
        Ok(())
    }
}

impl VapidIdentity {
    #[verifier::type_invariant]
    spec fn usable(&self) -> bool {
        is_contact_uri(self.subject@) && is_uncompressed_point(self.public_key@)
    }

    /// An identity from its parts, where they fit. The subject is tested
    /// first, then the form of the public key, then whether it is the one
    /// that the signing key gives as its own: a key that does not belong to
    /// the signing key would not verify what that key signs.
    pub fn from_parts(
        subject: String,
        signing_key: web_push::PartialVapidSignatureBuilder,
        public_key: Vec<u8>,
    ) -> (r: Result<VapidIdentity, ConfigError>)
        ensures
            !is_contact_uri(subject@) ==> r matches Err(ConfigError::MalformedSubject),
            is_contact_uri(subject@) && !is_uncompressed_point(public_key@) ==> r matches Err(
                ConfigError::MalformedKey,
            ),
            is_contact_uri(subject@) && is_uncompressed_point(public_key@) ==> match r {
                Ok(identity) => identity@.subject == subject@ && identity@.public_key
                    == public_key@,
                Err(error) => error == ConfigError::MismatchedKey,
            },
    {
        let own_key = signing_key.get_public_key();
        match check_parts(subject.as_str(), &public_key, &own_key) {
            Ok(()) => Ok(VapidIdentity { subject, signing_key, public_key }),
            Err(error) => Err(error),
        }
    }

    /// An identity for `subject` that signs with `signing_key`. The public
    /// key is the one that the signing key gives as its own.
    pub fn new(subject: String, signing_key: web_push::PartialVapidSignatureBuilder) -> (r: Result<
        VapidIdentity,
        ConfigError,
    >)
        ensures
            match r {
                Ok(identity) => is_contact_uri(subject@) && identity@.subject == subject@
                    && is_uncompressed_point(identity@.public_key),
                Err(error) => error == ConfigError::MalformedSubject && !is_contact_uri(subject@),
            },
    {
        let public_key = signing_key.get_public_key();
        match check_parts(subject.as_str(), &public_key, &public_key) {
            Ok(()) => Ok(VapidIdentity { subject, signing_key, public_key }),
            Err(error) => Err(error),
        }
    }

    pub fn subject(&self) -> (subject: &String)
        ensures
            subject@ == self@.subject,
            is_contact_uri(subject@),
    {
        proof {
            use_type_invariant(self);
        }
        &self.subject
    }

    pub fn public_key(&self) -> (key: &Vec<u8>)
        ensures
            key@ == self@.public_key,
            is_uncompressed_point(key@),
    {
        proof {
            use_type_invariant(self);
        }
        &self.public_key
    }
}

/// The time at which an assertion made at `now` expires.
pub fn expiry_for(now: u64) -> (expiry: u64)
    ensures
        expiry == expiry_at(now),
        now <= expiry <= now + MAX_VALIDITY_SECS,
{
    now.saturating_add(TOKEN_VALIDITY_SECS)
}

/// The assertion that results once the signer has answered: its refusal is
/// passed on, and its token is put beside what was signed.
pub fn assertion_from(
    identity: &VapidIdentity,
    audience: String,
    expiry: u64,
    signed: Result<String, ConstructionError>,
) -> (r: Result<VapidAssertion, ConstructionError>)
    ensures
        match signed {
            Err(error) => r matches Err(e) && e == error,
            Ok(token) => r matches Ok(assertion) && assertion.audience@ == audience@
                && assertion.expiry == expiry && assertion.subject@ == identity@.subject
                && assertion.token@ == token@ && assertion.public_key@ == identity@.public_key,
        },
{
    match signed {
        Err(error) => Err(error),
        Ok(token) => Ok(
            VapidAssertion {
                audience,
                expiry,
                subject: identity.subject().clone(),
                token,
                public_key: identity.public_key().clone(),
            },
        ),
    }
}

/// Has the claims signed: `audience`, the expiry that belongs to `now`, and
/// the subject of `identity`.
pub(crate) fn sign_for(identity: &VapidIdentity, endpoint: &str, audience: String, now: u64) -> (r:
    Result<VapidAssertion, ConstructionError>)
    ensures
        r matches Ok(assertion) ==> {
            &&& assertion.audience@ == audience@
            &&& assertion.expiry == expiry_at(now)
            &&& assertion.subject@ == identity@.subject
            &&& assertion.public_key@ == identity@.public_key
        },
{
    let expiry = expiry_for(now);
    let signed = match vapid_token(
        &identity.signing_key,
        endpoint,
        audience.as_str(),
        expiry,
        identity.subject().as_str(),
    ) {
        Ok(token) => Ok(token),
        Err(error) => Err(ConstructionError::from_description(error.short_description())),
    };
    assertion_from(identity, audience, expiry, signed)
}

/// Signs, in the name of `identity`, an assertion for the push service
/// behind `endpoint`, valid from `now` (seconds since the epoch).
///
/// An endpoint without an origin is a bad request, and nothing is signed
/// for it. Otherwise the signer decides; where it signs, the assertion names
/// the origin of the endpoint as its audience, never more of the endpoint.
pub fn sign(identity: &VapidIdentity, endpoint: &str, now: u64) -> (r: Result<
    VapidAssertion,
    ConstructionError,
>)
    ensures
        !has_origin(endpoint@) ==> r matches Err(ConstructionError::BadRequest),
        r matches Ok(assertion) ==> {
            &&& has_origin(endpoint@)
            &&& assertion.audience@ == origin_of(endpoint@)
            &&& assertion.expiry == expiry_at(now)
            &&& assertion.subject@ == identity@.subject
            &&& assertion.public_key@ == identity@.public_key
        },
{
    match audience_of(endpoint) {
        None => Err(ConstructionError::BadRequest),
        Some(audience) => sign_for(identity, endpoint, audience, now),
    }
}

impl VapidAssertion {
    /// The value of the `Authorization` header that carries the assertion.
    pub fn authorization(&self) -> (header: String)
        ensures
            header@ == vapid_header(self.token@, self.public_key@),
    {
        let mut header = String::from_str("vapid t=");
        header.append(self.token.as_str());
        header.append(", k=");
        let key = encode_base64url(self.public_key.as_slice());
        header.append(key.as_str());
        header
    }
}

} // verus!
