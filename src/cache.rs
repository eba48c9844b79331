use vstd::prelude::*;
use crate::error::VerificationError;
use crate::jwks::{lookup_key, Jwk, JwkView, KeySet, KeySetView};
use crate::claims::{claims_outcome, ClaimPolicyView, ClaimsView, IdentityView};
use crate::token::TokenParts;
use crate::verification::{rs256_verifies, verification_outcome};

verus! {

/// The shared cache of the provider's key set, as a state machine: callers
/// ask it for keys, and it tells them when to fetch and when to wait, so
/// that concurrent callers share one fetch. The fetch itself, and the
/// waiting, are the caller's.
pub struct KeySetCache {
    current: Option<KeySet>,
    installed_seq: u64,
    next_seq: u64,
    in_flight: Option<u64>,
    hard_limit_factor: u32,
}

/// Model of the cache: the installed key set and the sequence number of the
/// fetch that produced it, the number the next fetch will get, the fetch in
/// flight if any, and how many lifetimes an old set may still be served
/// when the provider cannot be reached.
pub struct CacheView {
    pub current: Option<KeySetView>,
    pub installed_seq: int,
    pub next_seq: int,
    pub in_flight: Option<int>,
    pub hard_limit_factor: int,
}

/// What a key lookup tells its caller.
pub enum KeyLookup {
    /// The key; `stale` when it comes from a set past its lifetime, served
    /// because a refresh failed.
    Found { key: Jwk, stale: bool },
    /// The caller must fetch the key set and report it with
    /// `complete_fetch` under this sequence number, then look up again
    /// with `refreshed` set.
    Fetch(u64),
    /// Another caller's fetch is in flight: once it completes, look up
    /// again with `refreshed` set.
    Wait,
    /// No key can be had for this lookup.
    Failed(VerificationError),
}

pub enum LookupView {
    Found { key: JwkView, stale: bool },
    Fetch(int),
    Wait,
    Failed(VerificationError),
}

impl View for KeyLookup {
    type V = LookupView;

    open spec fn view(&self) -> LookupView {
        match self {
            KeyLookup::Found { key, stale } => LookupView::Found { key: key@, stale: *stale },
            KeyLookup::Fetch(s) => LookupView::Fetch(*s as int),
            KeyLookup::Wait => LookupView::Wait,
            KeyLookup::Failed(e) => LookupView::Failed(*e),
        }
    }
}

impl View for KeySetCache {
    type V = CacheView;

    closed spec fn view(&self) -> CacheView {
        CacheView {
            current: match self.current {
                Some(s) => Some(s@),
                None => None,
            },
            installed_seq: self.installed_seq as int,
            next_seq: self.next_seq as int,
            in_flight: match self.in_flight {
                Some(s) => Some(s as int),
                None => None,
            },
            hard_limit_factor: self.hard_limit_factor as int,
        }
    }
}

/// A set is fresh while its age does not exceed its lifetime.
pub open spec fn is_fresh(s: KeySetView, now: int) -> bool {
    now - s.fetched_at <= s.lifetime
}

/// The outer limit up to which a set past its lifetime may still be served
/// when a refresh fails.
pub open spec fn within_hard_limit(s: KeySetView, now: int, factor: int) -> bool {
    now - s.fetched_at <= s.lifetime * factor
}

pub open spec fn has_fresh_set(c: CacheView, now: int) -> bool {
    c.current is Some && is_fresh(c.current->Some_0, now)
}

/// Fetch numbers grow: the installed set's number lies below the next
/// number to be handed out, and the fetch in flight, if any, is the newest
/// one started.
pub open spec fn cache_wf(c: CacheView) -> bool {
    &&& 0 <= c.installed_seq < c.next_seq
    &&& c.in_flight matches Some(s) ==> c.installed_seq < s && s == c.next_seq - 1
}

/// A refresh is asked for: join the fetch in flight, or start one.
pub open spec fn refresh_step(c: CacheView) -> (CacheView, LookupView) {
    if c.in_flight is Some {
        (c, LookupView::Wait)
    } else {
        (CacheView { next_seq: c.next_seq + 1, in_flight: Some(c.next_seq), ..c }, LookupView::Fetch(c.next_seq))
    }
}

/// After a refresh that left no fresh set: serve the old set within the
/// outer limit, else fail closed.
pub open spec fn fallback(c: CacheView, kid: Seq<char>, now: int) -> LookupView {
    if c.current is Some && within_hard_limit(c.current->Some_0, now, c.hard_limit_factor) {
        match lookup_key(c.current->Some_0.keys, kid) {
            Some(k) => LookupView::Found { key: k, stale: true },
            None => LookupView::Failed(VerificationError::UnknownKey),
        }
    } else {
        LookupView::Failed(VerificationError::KeySetUnavailable)
    }
}

/// One key lookup. `refreshed` says that this lookup already caused or
/// waited for a refresh, and may not cause another.
pub open spec fn lookup_step(c: CacheView, kid: Seq<char>, now: int, refreshed: bool) -> (
    CacheView,
    LookupView,
) {
    if has_fresh_set(c, now) {
        match lookup_key(c.current->Some_0.keys, kid) {
            Some(k) => (c, LookupView::Found { key: k, stale: false }),
            None => if refreshed {
                (c, LookupView::Failed(VerificationError::UnknownKey))
            } else {
                refresh_step(c)
            },
        }
    } else if !refreshed {
        refresh_step(c)
    } else {
        (c, fallback(c, kid, now))
    }
}

pub open spec fn fetch_view(r: Result<KeySet, VerificationError>) -> Result<KeySetView, VerificationError> {
    match r {
        Ok(s) => Ok(s@),
        Err(e) => Err(e),
    }
}

/// A fetch completes. Only the fetch in flight counts: its set replaces the
/// old one whole, and a failure keeps the old one. The result of any other
/// fetch is discarded.
pub open spec fn complete_step(c: CacheView, seq: int, result: Result<KeySetView, VerificationError>) -> CacheView {
    if c.in_flight == Some(seq) {
        match result {
            Ok(s) => CacheView { current: Some(s), installed_seq: seq, in_flight: None, ..c },
            Err(_) => CacheView { in_flight: None, ..c },
        }
    } else {
        c
    }
}

impl KeySetCache {
    pub open spec fn wf(&self) -> bool {
        cache_wf(self@)
    }

    /// An empty cache that serves a set up to `hard_limit_factor` times its
    /// lifetime when the provider cannot be reached.
    pub fn new(hard_limit_factor: u32) -> (r: KeySetCache)
        ensures
            r.wf(),
            r@ == (CacheView {
                current: None,
                installed_seq: 0,
                next_seq: 1,
                in_flight: None,
                hard_limit_factor: hard_limit_factor as int,
            }),
    {
        KeySetCache { current: None, installed_seq: 0, next_seq: 1, in_flight: None, hard_limit_factor }
    }

    /// Whether a fetch is in flight.
    pub fn fetch_in_flight(&self) -> (r: bool)
        ensures
            r == self@.in_flight is Some,
    {
        self.in_flight.is_some()
    }

    /// The sequence number the next fetch will get.
    pub fn next_fetch_number(&self) -> (r: u64)
        ensures
            r == self@.next_seq,
    {
        self.next_seq
    }

    fn refresh(&mut self) -> (r: KeyLookup)
        requires
            old(self).wf(),
            old(self)@.next_seq < u64::MAX,
        ensures
            final(self).wf(),
            (final(self)@, r@) == refresh_step(old(self)@),
    {
        if self.in_flight.is_some() {
            KeyLookup::Wait
        } else {
            let seq = self.next_seq;
            self.next_seq = seq + 1;
            self.in_flight = Some(seq);
            KeyLookup::Fetch(seq)
        }
    }

    /// Looks up the key with id `kid` at time `now` (seconds).
    pub fn lookup(&mut self, kid: &String, now: i64, refreshed: bool) -> (r: KeyLookup)
        requires
            old(self).wf(),
            old(self)@.next_seq < u64::MAX,
        ensures
            final(self).wf(),
            (final(self)@, r@) == lookup_step(old(self)@, kid@, now as int, refreshed),
    {
        let fresh = match &self.current {
            Some(s) => now as i128 - s.fetched_at as i128 <= s.lifetime as i128,
            None => false,
        };
        if fresh {
            let found = match &self.current {
                Some(s) => s.find(kid),
                None => None,
            };
            match found {
                Some(k) => KeyLookup::Found { key: k, stale: false },
                None => if refreshed {
                    KeyLookup::Failed(VerificationError::UnknownKey)
                } else {
                    self.refresh()
                },
            }
        } else if !refreshed {
            self.refresh()
        } else {
            let factor = self.hard_limit_factor;
            match &self.current {
                Some(s) => {
                    let lifetime = s.lifetime;
                    assert((lifetime as int) * (factor as int) <= 0xffff_ffff * 0xffff_ffffint) by (nonlinear_arith)
                        requires
                            lifetime <= 0xffff_ffff,
                            factor <= 0xffff_ffff,
                    ;
                    assert(0 <= (lifetime as int) * (factor as int)) by (nonlinear_arith)
                        requires
                            0 <= lifetime,
                            0 <= factor,
                    ;
                    let limit = lifetime as i128 * factor as i128;
                    if now as i128 - s.fetched_at as i128 <= limit {
                        match s.find(kid) {
                            Some(k) => KeyLookup::Found { key: k, stale: true },
                            None => KeyLookup::Failed(VerificationError::UnknownKey),
                        }
                    } else {
                        KeyLookup::Failed(VerificationError::KeySetUnavailable)
                    }
                },
                None => KeyLookup::Failed(VerificationError::KeySetUnavailable),
            }
        }
    }

    /// Reports the end of fetch `seq`: a fetched set, or why there is none.
    pub fn complete_fetch(&mut self, seq: u64, result: Result<KeySet, VerificationError>)
        requires
            old(self).wf(),
        ensures
            final(self).wf(),
            final(self)@ == complete_step(old(self)@, seq as int, fetch_view(result)),
    {
        if self.in_flight == Some(seq) {
            self.in_flight = None;
            match result {
                Ok(s) => {
                    self.current = Some(s);
                    self.installed_seq = seq;
                },
                Err(_) => {},
            }
        }
    }
}

/// Key set replacement is ordered: only the fetch in flight, always the
/// newest one started, can replace the set, and the installed fetch number
/// only grows.
pub proof fn lemma_replacement_in_fetch_order(
    c: CacheView,
    seq: int,
    result: Result<KeySetView, VerificationError>,
)
    requires
        cache_wf(c),
    ensures
        cache_wf(complete_step(c, seq, result)),
        complete_step(c, seq, result).installed_seq >= c.installed_seq,
        complete_step(c, seq, result).current != c.current ==> {
            &&& c.in_flight == Some(seq)
            &&& seq == complete_step(c, seq, result).installed_seq
            &&& seq > c.installed_seq
            &&& result == Ok::<KeySetView, VerificationError>(complete_step(c, seq, result).current->Some_0)
        },
        c.in_flight != Some(seq) ==> complete_step(c, seq, result) == c,
{
}

/// Lookups made one after another, none of them after a refresh.
pub open spec fn run_lookups(c: CacheView, kids: Seq<Seq<char>>, now: int) -> (
    CacheView,
    Seq<LookupView>,
)
    decreases kids.len(),
{
    if kids.len() == 0 {
        (c, Seq::empty())
    } else {
        let (c1, a) = lookup_step(c, kids[0], now, false);
        let (c2, rest) = run_lookups(c1, kids.drop_first(), now);
        (c2, seq![a] + rest)
    }
}

/// How many of `actions` tell their caller to fetch.
pub open spec fn fetch_count(actions: Seq<LookupView>) -> nat
    decreases actions.len(),
{
    if actions.len() == 0 {
        0
    } else {
        (if actions[0] is Fetch {
            1nat
        } else {
            0nat
        }) + fetch_count(actions.drop_first())
    }
}

/// With a warm set that holds the key, a lookup serves it and leaves the
/// cache as it was, so repeating it gives the same key and fetches nothing.
pub proof fn lemma_warm_lookup_idempotent(c: CacheView, kid: Seq<char>, now: int)
    requires
        has_fresh_set(c, now),
        lookup_key(c.current->Some_0.keys, kid) is Some,
    ensures
        lookup_step(c, kid, now, false) == (c, LookupView::Found {
            key: lookup_key(c.current->Some_0.keys, kid)->Some_0,
            stale: false,
        }),
        lookup_step(lookup_step(c, kid, now, false).0, kid, now, false) == lookup_step(c, kid, now, false),
{
}

proof fn lemma_lookups_wait(c: CacheView, kids: Seq<Seq<char>>, now: int)
    requires
        c.in_flight is Some,
        !has_fresh_set(c, now),
    ensures
        run_lookups(c, kids, now).0 == c,
        run_lookups(c, kids, now).1.len() == kids.len(),
        forall|i: int| 0 <= i < kids.len() ==> run_lookups(c, kids, now).1[i] == LookupView::Wait,
        fetch_count(run_lookups(c, kids, now).1) == 0,
    decreases kids.len(),
{
    if kids.len() > 0 {
        lemma_lookups_wait(c, kids.drop_first(), now);
        let rest = run_lookups(c, kids.drop_first(), now).1;
        let all = run_lookups(c, kids, now).1;
        assert(all == seq![LookupView::Wait] + rest);
        assert(all.drop_first() =~= rest);
        assert forall|i: int| 0 <= i < kids.len() implies all[i] == LookupView::Wait by {
            if i > 0 {
                assert(all[i] == rest[i - 1]);
            }
        }
    }
}

/// Single flight: any number of lookups against an expired (or absent) key
/// set, with no fetch in flight, start exactly one fetch, the first; every
/// other lookup waits for that fetch.
pub proof fn lemma_single_flight(c: CacheView, kids: Seq<Seq<char>>, now: int)
    requires
        cache_wf(c),
        c.in_flight is None,
        !has_fresh_set(c, now),
        kids.len() > 0,
    ensures
        fetch_count(run_lookups(c, kids, now).1) == 1,
        run_lookups(c, kids, now).1[0] == LookupView::Fetch(c.next_seq),
        forall|i: int| 0 < i < kids.len() ==> run_lookups(c, kids, now).1[i] == LookupView::Wait,
        run_lookups(c, kids, now).0.in_flight == Some(c.next_seq),
{
    let (c1, a) = lookup_step(c, kids[0], now, false);
    assert(a == LookupView::Fetch(c.next_seq));
    assert(!has_fresh_set(c1, now));
    lemma_lookups_wait(c1, kids.drop_first(), now);
    let rest = run_lookups(c1, kids.drop_first(), now).1;
    let all = run_lookups(c, kids, now).1;
    assert(all == seq![a] + rest);
    assert(all.drop_first() =~= rest);
    assert forall|i: int| 0 < i < kids.len() implies all[i] == LookupView::Wait by {
        assert(all[i] == rest[i - 1]);
    }
}

/// A lookup made after its refresh never refreshes again and never changes
/// the cache; if the key is still missing from a usable set, it fails with
/// `UnknownKey`.
pub proof fn lemma_no_second_refresh(c: CacheView, kid: Seq<char>, now: int)
    ensures
        lookup_step(c, kid, now, true).0 == c,
        lookup_step(c, kid, now, true).1 is Found || lookup_step(c, kid, now, true).1 is Failed,
        c.current is Some && lookup_key(c.current->Some_0.keys, kid) is None && (is_fresh(
            c.current->Some_0,
            now,
        ) || within_hard_limit(c.current->Some_0, now, c.hard_limit_factor)) ==> lookup_step(
            c,
            kid,
            now,
            true,
        ).1 == LookupView::Failed(VerificationError::UnknownKey),
{
}

/// Unknown key id: against a fresh set that lacks it, a lookup starts one
/// forced refresh; once that fetch completes, whatever it brought, the
/// lookup made after it starts no other, and fails with `UnknownKey` if
/// the fresh set still lacks the key id.
pub proof fn lemma_unknown_kid_one_refresh(
    c: CacheView,
    kid: Seq<char>,
    now: int,
    result: Result<KeySetView, VerificationError>,
)
    requires
        cache_wf(c),
        c.in_flight is None,
        has_fresh_set(c, now),
        lookup_key(c.current->Some_0.keys, kid) is None,
    ensures
        lookup_step(c, kid, now, false).1 == LookupView::Fetch(c.next_seq),
        ({
            let c2 = complete_step(lookup_step(c, kid, now, false).0, c.next_seq, result);
            &&& lookup_step(c2, kid, now, true).0 == c2
            &&& !(lookup_step(c2, kid, now, true).1 is Fetch)
            &&& has_fresh_set(c2, now) && lookup_key(c2.current->Some_0.keys, kid) is None
                ==> lookup_step(c2, kid, now, true).1 == LookupView::Failed(
                VerificationError::UnknownKey,
            )
        }),
{
}

/// A failed fetch while the previous set may still be served: the key is
/// served from the cached set, marked stale if the set is past its
/// lifetime.
pub proof fn lemma_fetch_failure_serves_cached_set(
    c: CacheView,
    kid: Seq<char>,
    now: int,
    error: VerificationError,
)
    requires
        cache_wf(c),
        c.in_flight is None,
        c.current is Some,
        within_hard_limit(c.current->Some_0, now, c.hard_limit_factor),
        lookup_key(c.current->Some_0.keys, kid) is Some,
    ensures
        ({
            let (c1, a1) = lookup_step(c, kid, now, false);
            let c2 = complete_step(c1, c.next_seq, Err(error));
            let key = lookup_key(c.current->Some_0.keys, kid)->Some_0;
            if is_fresh(c.current->Some_0, now) {
                a1 == LookupView::Found { key, stale: false }
            } else {
                &&& a1 == LookupView::Fetch(c.next_seq)
                &&& lookup_step(c2, kid, now, true).1 == LookupView::Found { key, stale: true }
            }
        }),
{
}

/// A failed fetch while the cached set may still be served does not stop a
/// verification: a token signed by the cached key, with valid claims, is
/// accepted with the cached key, whether it was served right away or after
/// the failed refresh.
pub proof fn lemma_fetch_failure_still_verifies(
    c: CacheView,
    t: TokenParts,
    claims: ClaimsView,
    policy: ClaimPolicyView,
    now: int,
    error: VerificationError,
)
    requires
        cache_wf(c),
        c.in_flight is None,
        c.current is Some,
        within_hard_limit(c.current->Some_0, now, c.hard_limit_factor),
        lookup_key(c.current->Some_0.keys, t.kid) is Some,
        ({
            let k = lookup_key(c.current->Some_0.keys, t.kid)->Some_0;
            rs256_verifies(t.signature, t.signing_input, k.n, k.e)
        }),
        claims_outcome(claims, policy, now) is Ok,
    ensures
        ({
            let (c1, a1) = lookup_step(c, t.kid, now, false);
            let served = if a1 is Found {
                a1
            } else {
                lookup_step(complete_step(c1, c.next_seq, Err(error)), t.kid, now, true).1
            };
            &&& served is Found
            &&& verification_outcome(
                Ok(t),
                Ok(served->Found_key),
                Some(claims),
                policy,
                now,
            ) is Ok
        }),
{
    lemma_fetch_failure_serves_cached_set(c, t.kid, now, error);
}

/// A failed fetch with no earlier set: the lookup fails closed with
/// `KeySetUnavailable`, and the verification ends there, before any
/// signature check.
pub proof fn lemma_no_key_set_fails_closed(
    c: CacheView,
    t: TokenParts,
    claims: Option<ClaimsView>,
    policy: ClaimPolicyView,
    now: int,
    error: VerificationError,
)
    requires
        cache_wf(c),
        c.in_flight is None,
        c.current is None,
    ensures
        ({
            let (c1, a1) = lookup_step(c, t.kid, now, false);
            let c2 = complete_step(c1, c.next_seq, Err(error));
            &&& a1 == LookupView::Fetch(c.next_seq)
            &&& lookup_step(c2, t.kid, now, true).1 == LookupView::Failed(
                VerificationError::KeySetUnavailable,
            )
        }),
        verification_outcome(Ok(t), Err(VerificationError::KeySetUnavailable), claims, policy, now)
            == Err::<IdentityView, VerificationError>(VerificationError::KeySetUnavailable),
{
}

} // verus!
