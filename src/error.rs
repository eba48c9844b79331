use vstd::prelude::*;

verus! {

/// Why a token was not accepted. Every failure ends the verification call
/// that produced it.
#[derive(Debug, Clone, Copy, PartialEq, Eq, Structural)]
pub enum VerificationError {
    /// The token is not three non-empty dot-separated ASCII segments, or
    /// its header or payload cannot be decoded.
    MalformedToken,
    /// The header names another algorithm than the one this verifier accepts.
    AlgorithmMismatch,
    /// The header carries no key id.
    MissingKid,
    /// No key of the current key set has the token's key id.
    UnknownKey,
    /// No usable key set exists: the provider could not be reached and no
    /// earlier key set is recent enough to fall back on.
    KeySetUnavailable,
    /// Fetching the key set failed, or it held no usable key.
    FetchError,
    /// The signature does not match the header and payload under the key.
    InvalidSignature,
    /// The expiry claim is absent or lies in the past beyond the clock skew.
    TokenExpired,
    /// The not-before claim lies in the future beyond the clock skew.
    TokenNotYetValid,
    /// The issuer claim is absent or differs from the expected issuer.
    IssuerMismatch,
    /// The expected audience is not among the audience claim's values.
    AudienceMismatch,
    /// The subject or email claim is absent.
    MissingClaim,
}

} // verus!
