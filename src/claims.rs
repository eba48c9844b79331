use vstd::prelude::*;
use crate::error::VerificationError;
use crate::token::opt_view;

verus! {

/// The registered claims of a token's payload. A claim that the payload
/// does not hold is `None` (or an empty audience list), never a default.
pub struct TokenClaims {
    pub sub: Option<String>,
    pub email: Option<String>,
    pub iss: Option<String>,
    pub aud: Vec<String>,
    pub iat: Option<i64>,
    pub exp: Option<i64>,
    pub nbf: Option<i64>,
}

pub struct ClaimsView {
    pub sub: Option<Seq<char>>,
    pub email: Option<Seq<char>>,
    pub iss: Option<Seq<char>>,
    pub aud: Seq<Seq<char>>,
    pub iat: Option<int>,
    pub exp: Option<int>,
    pub nbf: Option<int>,
}

pub open spec fn opt_int(o: Option<i64>) -> Option<int> {
    match o {
        Some(v) => Some(v as int),
        None => None,
    }
}

impl View for TokenClaims {
    type V = ClaimsView;

    open spec fn view(&self) -> ClaimsView {
        ClaimsView {
            sub: opt_view(self.sub),
            email: opt_view(self.email),
            iss: opt_view(self.iss),
            aud: self.aud@.map_values(|a: String| a@),
            iat: opt_int(self.iat),
            exp: opt_int(self.exp),
            nbf: opt_int(self.nbf),
        }
    }
}

/// What claims must say to be accepted: the issuer, the audience if one is
/// enforced, and the clock skew tolerated on `exp` and `nbf` (seconds).
pub struct ClaimPolicy {
    pub issuer: String,
    pub audience: Option<String>,
    pub clock_skew: u32,
}

pub struct ClaimPolicyView {
    pub issuer: Seq<char>,
    pub audience: Option<Seq<char>>,
    pub clock_skew: int,
}

impl View for ClaimPolicy {
    type V = ClaimPolicyView;

    open spec fn view(&self) -> ClaimPolicyView {
        ClaimPolicyView {
            issuer: self.issuer@,
            audience: opt_view(self.audience),
            clock_skew: self.clock_skew as int,
        }
    }
}

/// The caller's identity, built only from a token whose signature and
/// claims were both accepted.
pub struct VerifiedIdentity {
    pub subject: String,
    pub email: String,
    pub expires_at: i64,
}

pub struct IdentityView {
    pub subject: Seq<char>,
    pub email: Seq<char>,
    pub expires_at: int,
}

impl View for VerifiedIdentity {
    type V = IdentityView;

    open spec fn view(&self) -> IdentityView {
        IdentityView { subject: self.subject@, email: self.email@, expires_at: self.expires_at as int }
    }
}

/// The token has expired at `now`: `exp` is absent, or `exp + skew <= now`.
pub open spec fn expired(c: ClaimsView, p: ClaimPolicyView, now: int) -> bool {
    match c.exp {
        None => true,
        Some(exp) => exp + p.clock_skew <= now,
    }
}

/// The token is not valid yet at `now`: `nbf` is present and `nbf - skew > now`.
pub open spec fn not_yet_valid(c: ClaimsView, p: ClaimPolicyView, now: int) -> bool {
    match c.nbf {
        None => false,
        Some(nbf) => nbf - p.clock_skew > now,
    }
}

pub open spec fn issuer_matches(c: ClaimsView, p: ClaimPolicyView) -> bool {
    c.iss == Some(p.issuer)
}

pub open spec fn audience_matches(c: ClaimsView, p: ClaimPolicyView) -> bool {
    match p.audience {
        None => true,
        Some(a) => c.aud.contains(a),
    }
}

/// Claim validation and identity extraction, in order, ending at the first
/// failure.
pub open spec fn claims_outcome(c: ClaimsView, p: ClaimPolicyView, now: int) -> Result<
    IdentityView,
    VerificationError,
> {
    if expired(c, p, now) {
        Err(VerificationError::TokenExpired)
    } else if not_yet_valid(c, p, now) {
        Err(VerificationError::TokenNotYetValid)
    } else if !issuer_matches(c, p) {
        Err(VerificationError::IssuerMismatch)
    } else if !audience_matches(c, p) {
        Err(VerificationError::AudienceMismatch)
    } else if c.sub is None || c.email is None {
        Err(VerificationError::MissingClaim)
    } else {
        Ok(
            IdentityView {
                subject: c.sub->Some_0,
                email: c.email->Some_0,
                expires_at: c.exp->Some_0,
            },
        )
    }
}

fn contains_audience(aud: &Vec<String>, a: &String) -> (r: bool)
    ensures
        r == aud@.map_values(|s: String| s@).contains(a@),
{
    let ghost all = aud@.map_values(|s: String| s@);
    let mut i: usize = 0;
    while i < aud.len()
        invariant
            i <= aud@.len(),
            all == aud@.map_values(|s: String| s@),
            forall|k: int| 0 <= k < i ==> all[k] != a@,
        decreases aud.len() - i,
    {
        if aud[i] == *a {
            assert(all[i as int] == a@);
            return true;
        }
        i = i + 1;
    }
    false
}

/// Validates the claims of a token whose signature has been verified, and
/// builds the identity from them.
pub fn validate_claims(claims: &TokenClaims, policy: &ClaimPolicy, now: i64) -> (r: Result<
    VerifiedIdentity,
    VerificationError,
>)
    ensures
        match r {
            Ok(id) => claims_outcome(claims@, policy@, now as int) == Ok::<
                IdentityView,
                VerificationError,
            >(id@),
            Err(e) => claims_outcome(claims@, policy@, now as int) == Err::<
                IdentityView,
                VerificationError,
            >(e),
        },
{
    let skew = policy.clock_skew as i128;
    let exp = match claims.exp {
        None => {
            return Err(VerificationError::TokenExpired);
        },
        Some(exp) => exp,
    };
    if exp as i128 + skew <= now as i128 {
        return Err(VerificationError::TokenExpired);
    }
    match claims.nbf {
        Some(nbf) => {
            if nbf as i128 - skew > now as i128 {
                return Err(VerificationError::TokenNotYetValid);
            }
        },
        None => {},
    }
    match &claims.iss {
        Some(iss) => {
            if !(*iss == policy.issuer) {
                return Err(VerificationError::IssuerMismatch);
            }
        },
        None => {
            return Err(VerificationError::IssuerMismatch);
        },
    }
    match &policy.audience {
        Some(a) => {
            if !contains_audience(&claims.aud, a) {
                return Err(VerificationError::AudienceMismatch);
            }
        },
        None => {},
    }
    match (&claims.sub, &claims.email) {
        (Some(sub), Some(email)) => Ok(
            VerifiedIdentity { subject: sub.clone(), email: email.clone(), expires_at: exp },
        ),
        _ => Err(VerificationError::MissingClaim),
    }
}

} // verus!
