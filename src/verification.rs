use vstd::prelude::*;
use crate::claims::{
    claims_outcome, expired, ClaimPolicy, ClaimPolicyView, ClaimsView, IdentityView, TokenClaims,
    VerifiedIdentity, validate_claims,
};
use crate::error::VerificationError;
use crate::jwks::{lookup_key, select, select_outcome, Jwk, JwkView, KeySet};
use crate::token::{parse_outcome, parse_token, ParsedToken, TokenParts};

verus! {

/// Whether `signature` (base64url) is a valid RSASSA-PKCS1-v1_5 SHA-256
/// signature of `message` under the RSA public key with base64url modulus
/// `n` and exponent `e`, as `jsonwebtoken` judges it. False when the key
/// components or the signature do not decode.
pub uninterp spec fn rs256_verifies(signature: Seq<char>, message: Seq<char>, n: Seq<char>, e: Seq<char>) -> bool;

/// Relies on jsonwebtoken::DecodingKey::from_rsa_components, which decodes
/// the key components, and jsonwebtoken::crypto::verify with RS256, which
/// checks the signature under that key. Either failing is a refusal. With an
/// RSA key and RS256 neither panics.
#[verifier::external_body]
fn rs256_signature_valid(signature: &str, message: &str, n: &str, e: &str) -> (r: bool)
    ensures
        r == rs256_verifies(signature@, message@, n@, e@),
{
    match jsonwebtoken::DecodingKey::from_rsa_components(n, e) {
        Ok(key) => match jsonwebtoken::crypto::verify(signature, message.as_bytes(), &key, jsonwebtoken::Algorithm::RS256) {
            Ok(valid) => valid,
            Err(_) => false,
        },
        Err(_) => false,
    }
}

/// The verdict on a token's signature under the key that resolution
/// produced; false when there is no key.
pub open spec fn signature_verdict(t: TokenParts, key: Result<JwkView, VerificationError>) -> bool {
    match key {
        Ok(k) => rs256_verifies(t.signature, t.signing_input, k.n, k.e),
        Err(_) => false,
    }
}

/// The signature check over a resolved key: a failed key resolution passes through
/// untouched, before any signature check; with a key, the signature either
/// matches or the token is refused.
pub open spec fn signature_stage(key: Result<JwkView, VerificationError>, signature_valid: bool) -> Result<
    (),
    VerificationError,
> {
    match key {
        Err(e) => Err(e),
        Ok(_) => if signature_valid {
            Ok(())
        } else {
            Err(VerificationError::InvalidSignature)
        },
    }
}

/// The result once the signature stage is known: claims are looked at only
/// after the signature was accepted. `None` stands for a payload that does
/// not decode to claims.
pub open spec fn conclusion(
    signature: Result<(), VerificationError>,
    claims: Option<ClaimsView>,
    policy: ClaimPolicyView,
    now: int,
) -> Result<IdentityView, VerificationError> {
    match signature {
        Err(e) => Err(e),
        Ok(_) => match claims {
            None => Err(VerificationError::MalformedToken),
            Some(c) => claims_outcome(c, policy, now),
        },
    }
}

/// A whole verification, terminal at the first failure: parsing, key
/// resolution, the signature under the resolved key, then the claims.
/// `claims` is what the payload decodes to (`None` if it does not).
pub open spec fn verification_outcome(
    parsed: Result<TokenParts, VerificationError>,
    key: Result<JwkView, VerificationError>,
    claims: Option<ClaimsView>,
    policy: ClaimPolicyView,
    now: int,
) -> Result<IdentityView, VerificationError> {
    match parsed {
        Err(e) => Err(e),
        Ok(t) => conclusion(signature_stage(key, signature_verdict(t, key)), claims, policy, now),
    }
}

pub open spec fn key_view(key: Result<Jwk, VerificationError>) -> Result<JwkView, VerificationError> {
    match key {
        Ok(k) => Ok(k@),
        Err(e) => Err(e),
    }
}

/// Checks the token's signature under the key that resolution produced. A
/// resolution failure is returned as it is and no signature is checked.
pub fn check_signature(token: &ParsedToken, key: &Result<Jwk, VerificationError>) -> (r: Result<
    (),
    VerificationError,
>)
    ensures
        r == signature_stage(key_view(*key), signature_verdict(token@, key_view(*key))),
{
    match key {
        Err(e) => Err(*e),
        Ok(k) => {
            if rs256_signature_valid(
                token.signature.as_str(),
                token.signing_input.as_str(),
                k.n.as_str(),
                k.e.as_str(),
            ) {
                Ok(())
            } else {
                Err(VerificationError::InvalidSignature)
            }
        },
    }
}

/// Finishes a verification once the signature stage is known and the
/// payload has been decoded (`None` when it does not decode).
pub fn conclude(
    signature: Result<(), VerificationError>,
    claims: &Option<TokenClaims>,
    policy: &ClaimPolicy,
    now: i64,
) -> (r: Result<VerifiedIdentity, VerificationError>)
    ensures
        match r {
            Ok(id) => conclusion(signature, claims_view(*claims), policy@, now as int) == Ok::<
                IdentityView,
                VerificationError,
            >(id@),
            Err(e) => conclusion(signature, claims_view(*claims), policy@, now as int) == Err::<
                IdentityView,
                VerificationError,
            >(e),
        },
{
    match signature {
        Err(e) => Err(e),
        Ok(()) => match claims {
            None => Err(VerificationError::MalformedToken),
            Some(c) => validate_claims(c, policy, now),
        },
    }
}

pub open spec fn claims_view(c: Option<TokenClaims>) -> Option<ClaimsView> {
    match c {
        Some(c) => Some(c@),
        None => None,
    }
}

/// Verification against a given key set, up to the claims: parses the
/// token, selects its key and checks the signature. On success the token's payload may be decoded
/// and handed to `conclude`.
pub fn verify_with_key_set(raw: &str, keys: &KeySet) -> (r: Result<ParsedToken, VerificationError>)
    ensures
        parse_outcome(raw@) matches Err(e) ==> r == Err::<ParsedToken, VerificationError>(e),
        parse_outcome(raw@) matches Ok(t) ==> match signature_stage(
            select_outcome(keys@.keys, Some(t.kid)),
            signature_verdict(t, select_outcome(keys@.keys, Some(t.kid))),
        ) {
            Ok(_) => r matches Ok(p) && p@ == t,
            Err(e) => r == Err::<ParsedToken, VerificationError>(e),
        },
{
    let token = match parse_token(raw) {
        Ok(t) => t,
        Err(e) => {
            return Err(e);
        },
    };
    let kid = Some(token.kid.clone());
    let key = select(keys, &kid);
    assert(key_view(key) == select_outcome(keys@.keys, Some(token@.kid)));
    match check_signature(&token, &key) {
        Ok(()) => Ok(token),
        Err(e) => Err(e),
    }
}

/// A token signed by a key of the current set, whose claims are valid at
/// the time of verification, is accepted, and the identity's subject is
/// the token's subject claim.
pub proof fn lemma_valid_token_accepted(
    raw: Seq<char>,
    keys: Seq<JwkView>,
    claims: ClaimsView,
    policy: ClaimPolicyView,
    now: int,
)
    requires
        parse_outcome(raw) is Ok,
        lookup_key(keys, parse_outcome(raw)->Ok_0.kid) is Some,
        signature_verdict(
            parse_outcome(raw)->Ok_0,
            select_outcome(keys, Some(parse_outcome(raw)->Ok_0.kid)),
        ),
        claims_outcome(claims, policy, now) is Ok,
    ensures
        verification_outcome(
            parse_outcome(raw),
            select_outcome(keys, Some(parse_outcome(raw)->Ok_0.kid)),
            Some(claims),
            policy,
            now,
        ) matches Ok(id) && Some(id.subject) == claims.sub && Some(id.email) == claims.email,
{
}

/// A token whose signature does not verify under the resolved key is
/// refused with `InvalidSignature`, whatever its claims say: the signature
/// is checked before any claim.
pub proof fn lemma_bad_signature_refused(
    parsed: TokenParts,
    key: JwkView,
    claims: Option<ClaimsView>,
    policy: ClaimPolicyView,
    now: int,
)
    requires
        !rs256_verifies(parsed.signature, parsed.signing_input, key.n, key.e),
    ensures
        verification_outcome(Ok(parsed), Ok(key), claims, policy, now) == Err::<
            IdentityView,
            VerificationError,
        >(VerificationError::InvalidSignature),
{
}

/// A token whose expiry lies in the past beyond the skew is refused with
/// `TokenExpired` once its signature verifies; with a bad signature it is
/// refused for the signature first.
pub proof fn lemma_expired_token_refused(
    parsed: TokenParts,
    key: JwkView,
    claims: ClaimsView,
    policy: ClaimPolicyView,
    now: int,
)
    requires
        claims.exp is Some,
        claims.exp->Some_0 < now - policy.clock_skew,
    ensures
        expired(claims, policy, now),
        verification_outcome(Ok(parsed), Ok(key), Some(claims), policy, now) == Err::<
            IdentityView,
            VerificationError,
        >(
            if rs256_verifies(parsed.signature, parsed.signing_input, key.n, key.e) {
                VerificationError::TokenExpired
            } else {
                VerificationError::InvalidSignature
            },
        ),
{
}

/// A key resolution failure ends the verification with that failure,
/// before any signature check or claim.
pub proof fn lemma_key_failure_ends_verification(
    parsed: TokenParts,
    error: VerificationError,
    claims: Option<ClaimsView>,
    policy: ClaimPolicyView,
    now: int,
)
    ensures
        !signature_verdict(parsed, Err(error)),
        verification_outcome(Ok(parsed), Err(error), claims, policy, now) == Err::<
            IdentityView,
            VerificationError,
        >(error),
{
}

} // verus!
