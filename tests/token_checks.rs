use budget_api::cache::{KeyLookup, KeySetCache};
use budget_api::claims::{validate_claims, ClaimPolicy, TokenClaims};
use budget_api::error::VerificationError;
use budget_api::jwks::{build_key_set, select, Jwk, KeySet, RawJwk};
use budget_api::token::parse_token;
use budget_api::verification::{check_signature, conclude, verify_with_key_set};

const HEADER_RS256_K1: &str = "eyJhbGciOiJSUzI1NiIsInR5cCI6IkpXVCIsImtpZCI6ImsxIn0";
const HEADER_HS256_K1: &str = "eyJhbGciOiJIUzI1NiIsInR5cCI6IkpXVCIsImtpZCI6ImsxIn0";
const HEADER_RS256_NO_KID: &str = "eyJhbGciOiJSUzI1NiIsInR5cCI6IkpXVCJ9";
const HEADER_NONE_K1: &str = "eyJhbGciOiJub25lIiwidHlwIjoiSldUIiwia2lkIjoiazEifQ";

const PAYLOAD_PARTS: [&str; 3] = [
    "eyJpc3MiOiJodHRwczovL3NlY3VyZXRva2VuLmdvb2dsZS5jb20vYnVkZ2V0LWFwcCIsImF1ZCI6",
    "ImJ1ZGdldC1hcHAiLCJzdWIiOiJ1c2VyLTEiLCJlbWFpbCI6ImFAZXhhbXBsZS5jb20iLCJpYXQi",
    "OjE3MDAwMDAwMDAsImV4cCI6MTcwMDAwMzYwMH0",
];

const SIGNATURE_PARTS: [&str; 5] = [
    "WmSxIFg9RGMMhPQMu_jk4BbwZrBKShKQKQF_FPCG7KnGfkDFplCN5TQ6jHdvd0NOvq43IQkbZNBz",
    "JutxNnSVjTtvxPEMCDRHJY8DPSVMJ1P87a5AzXyx5KrQcUT2-PHv17A53nURQkgM1nDyba-HXaFN",
    "B_gMULl4FfcvkN2fUVuwUQpvGZ0KBUP5Srk8UaXtskVwfs7cw6X1Ugs-ET8JEl2Ooq6nlGfLD44p",
    "vF7c_AYk_gxPdeUuO7hzszcm5KNtpD_lf7r5TMxH7m1_MBiwNRx4gLk1l4NEKfDPjxHm7f_hSed3",
    "PzSiBHYa0fxq11IWiP3Qs97ao0SnKD2so8IgCQ",
];

const MODULUS_PARTS: [&str; 5] = [
    "qpp4Y6all-owj6YSdAl0K1Y54QWEfpHbO3YFAaYF8iNBMnP_z1k5fsmzmIyjfZEHkFq6WH0iquOw",
    "tdjzox0xSBHkq6yTVgtGl_UluWGp5M-NS65WCIGG7bwWBeDCZPrHCAMsDPReAWyA0SlhDmozRcro",
    "qkRaO8WLxTmjeKv7FMCNX1hsbgWCFvZWiLfr4sXYKf2ZliFnLaIBg18PNEFA-zJqj9SYsN7fAJ8f",
    "ry9iFk8IHrV2dujZR7vTCHFttthO4Th26dNYQvBDNGFkzFp-TmQI-utg5FwEliQsooMTR-95haT5",
    "_WAgR2BlmI7dNVqVeolxVOspv81hfVTtUFTs4w",
];

const ISSUED_AT: i64 = 1700000000;
const EXPIRES_AT: i64 = 1700003600;

fn payload() -> String {
    PAYLOAD_PARTS.concat()
}

fn signature() -> String {
    SIGNATURE_PARTS.concat()
}

fn token_with_header(header: &str) -> String {
    format!("{}.{}.{}", header, payload(), signature())
}

fn valid_token() -> String {
    token_with_header(HEADER_RS256_K1)
}

fn provider_key(kid: &str) -> Jwk {
    Jwk {
        kid: kid.to_string(),
        kty: "RSA".to_string(),
        alg: "RS256".to_string(),
        n: MODULUS_PARTS.concat(),
        e: "AQAB".to_string(),
    }
}

fn key_set(kids: &[&str]) -> KeySet {
    KeySet { keys: kids.iter().map(|k| provider_key(k)).collect(), fetched_at: ISSUED_AT, lifetime: 3600 }
}

fn policy() -> ClaimPolicy {
    ClaimPolicy {
        issuer: "https://securetoken.google.com/budget-app".to_string(),
        audience: Some("budget-app".to_string()),
        clock_skew: 30,
    }
}

/// The claims that the signed payload holds.
fn signed_claims() -> TokenClaims {
    TokenClaims {
        sub: Some("user-1".to_string()),
        email: Some("a@example.com".to_string()),
        iss: Some("https://securetoken.google.com/budget-app".to_string()),
        aud: vec!["budget-app".to_string()],
        iat: Some(ISSUED_AT),
        exp: Some(EXPIRES_AT),
        nbf: None,
    }
}

fn flip_signature_char(token: &str) -> String {
    let mut chars: Vec<char> = token.chars().collect();
    let i = token.rfind('.').unwrap() + 5;
    chars[i] = if chars[i] == 'A' { 'B' } else { 'A' };
    chars.into_iter().collect()
}

#[test]
fn parse_splits_valid_token() {
    let raw = valid_token();
    let t = parse_token(&raw).unwrap();
    assert_eq!(t.kid, "k1");
    assert_eq!(t.payload, payload());
    assert_eq!(t.signature, signature());
    assert_eq!(t.signing_input, format!("{}.{}", HEADER_RS256_K1, payload()));
}

#[test]
fn parse_rejects_bad_framing() {
    let p = payload();
    let s = signature();
    for raw in [
        String::new(),
        "abc".to_string(),
        format!("{}.{}", HEADER_RS256_K1, p),
        format!("{}.{}.{}.x", HEADER_RS256_K1, p, s),
        format!(".{}.{}", p, s),
        format!("{}..{}", HEADER_RS256_K1, s),
        format!("{}.{}.", HEADER_RS256_K1, p),
        format!("{}.{}.{}é", HEADER_RS256_K1, p, s),
    ] {
        assert_eq!(parse_token(&raw).err(), Some(VerificationError::MalformedToken), "{}", raw);
    }
}

#[test]
fn parse_rejects_undecodable_header() {
    let raw = token_with_header("bm90LWpzb24");
    assert_eq!(parse_token(&raw).err(), Some(VerificationError::MalformedToken));
    let raw = token_with_header(HEADER_NONE_K1);
    assert_eq!(parse_token(&raw).err(), Some(VerificationError::MalformedToken));
}

#[test]
fn parse_rejects_other_algorithm() {
    let raw = token_with_header(HEADER_HS256_K1);
    assert_eq!(parse_token(&raw).err(), Some(VerificationError::AlgorithmMismatch));
}

#[test]
fn parse_rejects_missing_kid() {
    let raw = token_with_header(HEADER_RS256_NO_KID);
    assert_eq!(parse_token(&raw).err(), Some(VerificationError::MissingKid));
}

#[test]
fn valid_token_yields_subject() {
    let keys = key_set(&["k0", "k1"]);
    let t = verify_with_key_set(&valid_token(), &keys).unwrap();
    assert_eq!(t.kid, "k1");
    let id = conclude(Ok(()), &Some(signed_claims()), &policy(), ISSUED_AT + 10).unwrap();
    assert_eq!(id.subject, "user-1");
    assert_eq!(id.email, "a@example.com");
    assert_eq!(id.expires_at, EXPIRES_AT);
}

#[test]
fn flipped_signature_is_invalid_signature() {
    let keys = key_set(&["k1"]);
    let raw = flip_signature_char(&valid_token());
    assert_ne!(raw, valid_token());
    let r = verify_with_key_set(&raw, &keys);
    assert_eq!(r.err(), Some(VerificationError::InvalidSignature));
    let r = conclude(Err(VerificationError::InvalidSignature), &Some(signed_claims()), &policy(), EXPIRES_AT + 3600);
    assert_eq!(r.err(), Some(VerificationError::InvalidSignature));
}

#[test]
fn expired_token_fails_after_signature() {
    let keys = key_set(&["k1"]);
    assert!(verify_with_key_set(&valid_token(), &keys).is_ok());
    let r = conclude(Ok(()), &Some(signed_claims()), &policy(), EXPIRES_AT + 31);
    assert_eq!(r.err(), Some(VerificationError::TokenExpired));
    let r = conclude(Ok(()), &Some(signed_claims()), &policy(), EXPIRES_AT + 29);
    assert!(r.is_ok());
}

#[test]
fn unknown_kid_in_key_set() {
    let keys = key_set(&["k0"]);
    assert_eq!(verify_with_key_set(&valid_token(), &keys).err(), Some(VerificationError::UnknownKey));
}

#[test]
fn undecodable_key_refuses_signature() {
    let t = parse_token(&valid_token()).unwrap();
    let mut key = provider_key("k1");
    key.n = "not*base64".to_string();
    assert_eq!(check_signature(&t, &Ok(key)), Err(VerificationError::InvalidSignature));
    assert_eq!(check_signature(&t, &Ok(provider_key("k1"))), Ok(()));
}

#[test]
fn key_error_passes_through_signature_stage() {
    let t = parse_token(&valid_token()).unwrap();
    let r = check_signature(&t, &Err(VerificationError::KeySetUnavailable));
    assert_eq!(r, Err(VerificationError::KeySetUnavailable));
}

#[test]
fn undecodable_payload_is_malformed() {
    let r = conclude(Ok(()), &None, &policy(), ISSUED_AT);
    assert_eq!(r.err(), Some(VerificationError::MalformedToken));
}

#[test]
fn claims_rules_in_order() {
    let now = ISSUED_AT + 100;
    let mut c = signed_claims();
    c.exp = None;
    assert_eq!(validate_claims(&c, &policy(), now).err(), Some(VerificationError::TokenExpired));

    let mut c = signed_claims();
    c.nbf = Some(now + 31);
    assert_eq!(validate_claims(&c, &policy(), now).err(), Some(VerificationError::TokenNotYetValid));
    c.nbf = Some(now + 30);
    assert!(validate_claims(&c, &policy(), now).is_ok());

    let mut c = signed_claims();
    c.iss = Some("https://elsewhere".to_string());
    assert_eq!(validate_claims(&c, &policy(), now).err(), Some(VerificationError::IssuerMismatch));
    c.iss = None;
    assert_eq!(validate_claims(&c, &policy(), now).err(), Some(VerificationError::IssuerMismatch));

    let mut c = signed_claims();
    c.aud = vec!["other".to_string()];
    assert_eq!(validate_claims(&c, &policy(), now).err(), Some(VerificationError::AudienceMismatch));
    c.aud = vec!["other".to_string(), "budget-app".to_string()];
    assert!(validate_claims(&c, &policy(), now).is_ok());
    let mut open = policy();
    open.audience = None;
    c.aud = Vec::new();
    assert!(validate_claims(&c, &open, now).is_ok());

    let mut c = signed_claims();
    c.email = None;
    assert_eq!(validate_claims(&c, &policy(), now).err(), Some(VerificationError::MissingClaim));

    let mut c = signed_claims();
    c.exp = Some(now - 100);
    c.iss = None;
    assert_eq!(validate_claims(&c, &policy(), now).err(), Some(VerificationError::TokenExpired));
}

#[test]
fn select_reports_missing_and_unknown_kid() {
    let keys = key_set(&["k1"]);
    assert_eq!(select(&keys, &None).err(), Some(VerificationError::MissingKid));
    assert_eq!(select(&keys, &Some("k2".to_string())).err(), Some(VerificationError::UnknownKey));
    assert_eq!(select(&keys, &Some("k1".to_string())).unwrap().kid, "k1");
}

fn raw(kid: Option<&str>, n: Option<&str>) -> RawJwk {
    RawJwk {
        kid: kid.map(|s| s.to_string()),
        kty: Some("RSA".to_string()),
        alg: Some("RS256".to_string()),
        n: n.map(|s| s.to_string()),
        e: Some("AQAB".to_string()),
    }
}

#[test]
fn build_drops_incomplete_and_repeated_entries() {
    let entries = vec![raw(Some("a"), Some("n1")), raw(None, Some("n2")), raw(Some("b"), None), raw(Some("a"), Some("n3")), raw(Some("c"), Some("n4"))];
    let set = build_key_set(&entries, 100, 60).unwrap();
    let kids: Vec<&str> = set.keys.iter().map(|k| k.kid.as_str()).collect();
    assert_eq!(kids, vec!["a", "c"]);
    assert_eq!(set.keys[0].n, "n1");
    assert_eq!(set.fetched_at, 100);
    assert_eq!(set.lifetime, 60);
}

#[test]
fn build_without_usable_entry_is_fetch_error() {
    assert_eq!(build_key_set(&Vec::new(), 0, 60).err(), Some(VerificationError::FetchError));
    let entries = vec![raw(None, Some("n"))];
    assert_eq!(build_key_set(&entries, 0, 60).err(), Some(VerificationError::FetchError));
}

#[test]
fn cached_key_verifies_token_end_to_end() {
    let mut cache = KeySetCache::new(4);
    let kid = "k1".to_string();
    let now = ISSUED_AT + 5;
    let seq = match cache.lookup(&kid, now, false) {
        KeyLookup::Fetch(s) => s,
        _ => panic!("expected a fetch"),
    };
    cache.complete_fetch(seq, Ok(key_set(&["k1"])));
    let key = match cache.lookup(&kid, now, true) {
        KeyLookup::Found { key, stale } => {
            assert!(!stale);
            key
        }
        _ => panic!("expected the key"),
    };
    let t = parse_token(&valid_token()).unwrap();
    assert_eq!(check_signature(&t, &Ok(key)), Ok(()));
    let id = conclude(Ok(()), &Some(signed_claims()), &policy(), now).unwrap();
    assert_eq!(id.subject, "user-1");
}

#[test]
fn same_token_verifies_twice_independently() {
    let keys = key_set(&["k1"]);
    let first = verify_with_key_set(&valid_token(), &keys).unwrap();
    let second = verify_with_key_set(&valid_token(), &keys).unwrap();
    assert_eq!(first.kid, second.kid);
    assert_eq!(first.payload, second.payload);
    let a = conclude(Ok(()), &Some(signed_claims()), &policy(), ISSUED_AT).unwrap();
    let b = conclude(Ok(()), &Some(signed_claims()), &policy(), ISSUED_AT).unwrap();
    assert_eq!(a.subject, b.subject);
    assert_eq!(keys.keys.len(), 1);
}
