use budget_api::cache::{KeyLookup, KeySetCache};
use budget_api::error::VerificationError;
use budget_api::jwks::{Jwk, KeySet};

fn key(kid: &str) -> Jwk {
    Jwk {
        kid: kid.to_string(),
        kty: "RSA".to_string(),
        alg: "RS256".to_string(),
        n: format!("modulus-{}", kid),
        e: "AQAB".to_string(),
    }
}

fn set(kids: &[&str], fetched_at: i64, lifetime: u32) -> KeySet {
    KeySet { keys: kids.iter().map(|k| key(k)).collect(), fetched_at, lifetime }
}

fn expect_fetch(l: KeyLookup) -> u64 {
    match l {
        KeyLookup::Fetch(s) => s,
        _ => panic!("expected a fetch"),
    }
}

fn expect_found(l: KeyLookup) -> (Jwk, bool) {
    match l {
        KeyLookup::Found { key, stale } => (key, stale),
        _ => panic!("expected a key"),
    }
}

fn expect_failed(l: KeyLookup) -> VerificationError {
    match l {
        KeyLookup::Failed(e) => e,
        _ => panic!("expected a failure"),
    }
}

fn warm_cache(kids: &[&str], fetched_at: i64, lifetime: u32) -> KeySetCache {
    let mut c = KeySetCache::new(3);
    let seq = expect_fetch(c.lookup(&"any".to_string(), fetched_at, false));
    c.complete_fetch(seq, Ok(set(kids, fetched_at, lifetime)));
    assert!(!c.fetch_in_flight());
    c
}

#[test]
fn warm_lookup_twice_fetches_nothing() {
    let mut c = warm_cache(&["k1"], 1000, 60);
    let before = c.next_fetch_number();
    let (a, sa) = expect_found(c.lookup(&"k1".to_string(), 1030, false));
    let (b, sb) = expect_found(c.lookup(&"k1".to_string(), 1030, false));
    assert_eq!(a.n, "modulus-k1");
    assert_eq!(a.n, b.n);
    assert!(!sa && !sb);
    assert_eq!(c.next_fetch_number(), before);
    assert!(!c.fetch_in_flight());
}

#[test]
fn concurrent_lookups_on_expired_set_share_one_fetch() {
    let mut c = warm_cache(&["k1"], 1000, 60);
    let now = 1061;
    let seq = expect_fetch(c.lookup(&"k1".to_string(), now, false));
    for _ in 0..4 {
        assert!(matches!(c.lookup(&"k1".to_string(), now, false), KeyLookup::Wait));
    }
    c.complete_fetch(seq, Ok(set(&["k1"], now, 60)));
    for _ in 0..5 {
        let (k, stale) = expect_found(c.lookup(&"k1".to_string(), now, true));
        assert_eq!(k.kid, "k1");
        assert!(!stale);
    }
    assert_eq!(c.next_fetch_number(), seq + 1);
}

#[test]
fn cold_start_lookups_share_one_fetch() {
    let mut c = KeySetCache::new(3);
    let seq = expect_fetch(c.lookup(&"k1".to_string(), 0, false));
    assert_eq!(seq, 1);
    assert!(matches!(c.lookup(&"k2".to_string(), 0, false), KeyLookup::Wait));
    assert!(c.fetch_in_flight());
}

#[test]
fn unknown_kid_forces_one_refresh() {
    let mut c = warm_cache(&["k1"], 1000, 600);
    let seq = expect_fetch(c.lookup(&"k9".to_string(), 1010, false));
    c.complete_fetch(seq, Ok(set(&["k1", "k2"], 1010, 600)));
    let next = c.next_fetch_number();
    assert_eq!(expect_failed(c.lookup(&"k9".to_string(), 1010, true)), VerificationError::UnknownKey);
    assert_eq!(c.next_fetch_number(), next);
    assert!(!c.fetch_in_flight());
}

#[test]
fn rotated_key_found_after_forced_refresh() {
    let mut c = warm_cache(&["k1"], 1000, 600);
    let seq = expect_fetch(c.lookup(&"k2".to_string(), 1010, false));
    c.complete_fetch(seq, Ok(set(&["k2"], 1010, 600)));
    let (k, _) = expect_found(c.lookup(&"k2".to_string(), 1010, true));
    assert_eq!(k.kid, "k2");
    assert_eq!(expect_failed(c.lookup(&"k1".to_string(), 1010, true)), VerificationError::UnknownKey);
}

#[test]
fn fetch_failure_serves_cached_set() {
    let mut c = warm_cache(&["k1"], 1000, 60);
    let now = 1100;
    let seq = expect_fetch(c.lookup(&"k1".to_string(), now, false));
    c.complete_fetch(seq, Err(VerificationError::FetchError));
    let (k, stale) = expect_found(c.lookup(&"k1".to_string(), now, true));
    assert_eq!(k.kid, "k1");
    assert!(stale);
}

#[test]
fn fetch_failure_past_hard_limit_fails_closed() {
    let mut c = warm_cache(&["k1"], 1000, 60);
    let now = 1000 + 3 * 60 + 1;
    let seq = expect_fetch(c.lookup(&"k1".to_string(), now, false));
    c.complete_fetch(seq, Err(VerificationError::FetchError));
    assert_eq!(expect_failed(c.lookup(&"k1".to_string(), now, true)), VerificationError::KeySetUnavailable);
}

#[test]
fn fetch_failure_without_key_set_fails_closed() {
    let mut c = KeySetCache::new(3);
    let seq = expect_fetch(c.lookup(&"k1".to_string(), 50, false));
    c.complete_fetch(seq, Err(VerificationError::FetchError));
    assert_eq!(expect_failed(c.lookup(&"k1".to_string(), 50, true)), VerificationError::KeySetUnavailable);
    assert_eq!(expect_failed(c.lookup(&"k2".to_string(), 50, true)), VerificationError::KeySetUnavailable);
}

#[test]
fn result_of_other_fetch_is_discarded() {
    let mut c = KeySetCache::new(3);
    let seq = expect_fetch(c.lookup(&"k1".to_string(), 0, false));
    c.complete_fetch(seq + 5, Ok(set(&["k1"], 0, 60)));
    assert!(c.fetch_in_flight());
    c.complete_fetch(seq, Err(VerificationError::FetchError));
    c.complete_fetch(seq, Ok(set(&["k1"], 0, 60)));
    assert_eq!(expect_failed(c.lookup(&"k1".to_string(), 0, true)), VerificationError::KeySetUnavailable);
}
