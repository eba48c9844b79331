use vstd::prelude::*;
use crate::error::VerificationError;
use crate::token::opt_view;

verus! {

/// One public key of the provider: its key id, key type, algorithm, and the
/// RSA modulus and exponent as unpadded base64url of big-endian integers.
pub struct Jwk {
    pub kid: String,
    pub kty: String,
    pub alg: String,
    pub n: String,
    pub e: String,
}

pub struct JwkView {
    pub kid: Seq<char>,
    pub kty: Seq<char>,
    pub alg: Seq<char>,
    pub n: Seq<char>,
    pub e: Seq<char>,
}

impl View for Jwk {
    type V = JwkView;

    open spec fn view(&self) -> JwkView {
        JwkView { kid: self.kid@, kty: self.kty@, alg: self.alg@, n: self.n@, e: self.e@ }
    }
}

impl Jwk {
    pub fn clone_key(&self) -> (r: Jwk)
        ensures
            r@ == self@,
    {
        Jwk {
            kid: self.kid.clone(),
            kty: self.kty.clone(),
            alg: self.alg.clone(),
            n: self.n.clone(),
            e: self.e.clone(),
        }
    }
}

/// A key entry as the provider's document gives it: any field may be absent.
pub struct RawJwk {
    pub kid: Option<String>,
    pub kty: Option<String>,
    pub alg: Option<String>,
    pub n: Option<String>,
    pub e: Option<String>,
}

pub struct RawJwkView {
    pub kid: Option<Seq<char>>,
    pub kty: Option<Seq<char>>,
    pub alg: Option<Seq<char>>,
    pub n: Option<Seq<char>>,
    pub e: Option<Seq<char>>,
}

impl View for RawJwk {
    type V = RawJwkView;

    open spec fn view(&self) -> RawJwkView {
        RawJwkView {
            kid: opt_view(self.kid),
            kty: opt_view(self.kty),
            alg: opt_view(self.alg),
            n: opt_view(self.n),
            e: opt_view(self.e),
        }
    }
}

/// The key an entry stands for, if it has every required field (key id,
/// algorithm, modulus, exponent). An absent key type reads as empty.
pub open spec fn complete_key(r: RawJwkView) -> Option<JwkView> {
    if r.kid is Some && r.alg is Some && r.n is Some && r.e is Some {
        Some(
            JwkView {
                kid: r.kid->Some_0,
                kty: match r.kty {
                    Some(t) => t,
                    None => Seq::empty(),
                },
                alg: r.alg->Some_0,
                n: r.n->Some_0,
                e: r.e->Some_0,
            },
        )
    } else {
        None
    }
}

/// The first key of `keys` whose key id is `kid`.
pub open spec fn lookup_key(keys: Seq<JwkView>, kid: Seq<char>) -> Option<JwkView>
    decreases keys.len(),
{
    if keys.len() == 0 {
        None
    } else if keys[0].kid == kid {
        Some(keys[0])
    } else {
        lookup_key(keys.drop_first(), kid)
    }
}

/// Key ids are unique within `keys`.
pub open spec fn unique_kids(keys: Seq<JwkView>) -> bool {
    forall|i: int, j: int|
        0 <= i < keys.len() && 0 <= j < keys.len() && i != j ==> keys[i].kid != keys[j].kid
}

/// The keys kept from the first `n` entries of a document: complete entries
/// whose key id was not seen before, in document order.
pub open spec fn collected_keys(raw: Seq<RawJwkView>, n: int) -> Seq<JwkView>
    decreases n,
{
    if n <= 0 {
        Seq::empty()
    } else {
        let prev = collected_keys(raw, n - 1);
        match complete_key(raw[n - 1]) {
            Some(k) => if lookup_key(prev, k.kid) is Some {
                prev
            } else {
                prev.push(k)
            },
            None => prev,
        }
    }
}

/// An immutable snapshot of the provider's keys, with the time it was
/// fetched and how long it may be served (seconds).
pub struct KeySet {
    pub keys: Vec<Jwk>,
    pub fetched_at: i64,
    pub lifetime: u32,
}

pub struct KeySetView {
    pub keys: Seq<JwkView>,
    pub fetched_at: int,
    pub lifetime: int,
}

impl View for KeySet {
    type V = KeySetView;

    open spec fn view(&self) -> KeySetView {
        KeySetView {
            keys: self.keys@.map_values(|k: Jwk| k@),
            fetched_at: self.fetched_at as int,
            lifetime: self.lifetime as int,
        }
    }
}

proof fn lemma_lookup_absent(keys: Seq<JwkView>, kid: Seq<char>)
    ensures
        lookup_key(keys, kid) is None <==> forall|i: int| 0 <= i < keys.len() ==> keys[i].kid != kid,
        lookup_key(keys, kid) is Some ==> exists|i: int|
            0 <= i < keys.len() && keys[i] == lookup_key(keys, kid)->Some_0 && keys[i].kid == kid,
    decreases keys.len(),
{
    if keys.len() > 0 {
        lemma_lookup_absent(keys.drop_first(), kid);
        if lookup_key(keys, kid) is None {
            assert forall|i: int| 0 <= i < keys.len() implies keys[i].kid != kid by {
                if i > 0 {
                    assert(keys.drop_first()[i - 1] == keys[i]);
                }
            }
        }
        if lookup_key(keys, kid) is Some && keys[0].kid != kid {
            let i = choose|i: int|
                0 <= i < keys.drop_first().len() && keys.drop_first()[i] == lookup_key(
                    keys.drop_first(),
                    kid,
                )->Some_0 && keys.drop_first()[i].kid == kid;
            assert(keys[i + 1] == keys.drop_first()[i]);
        }
        if forall|i: int| 0 <= i < keys.len() ==> keys[i].kid != kid {
            assert(keys[0].kid != kid);
            assert forall|i: int| 0 <= i < keys.drop_first().len() implies keys.drop_first()[i].kid
                != kid by {
                assert(keys.drop_first()[i] == keys[i + 1]);
            }
        }
    }
}

/// Every collected key set has unique key ids.
pub proof fn lemma_collected_unique(raw: Seq<RawJwkView>, n: int)
    requires
        0 <= n <= raw.len(),
    ensures
        unique_kids(collected_keys(raw, n)),
    decreases n,
{
    if n > 0 {
        lemma_collected_unique(raw, n - 1);
        let prev = collected_keys(raw, n - 1);
        if let Some(k) = complete_key(raw[n - 1]) {
            if lookup_key(prev, k.kid) is None {
                lemma_lookup_absent(prev, k.kid);
                let next = prev.push(k);
                assert forall|i: int, j: int|
                    0 <= i < next.len() && 0 <= j < next.len() && i != j implies next[i].kid
                    != next[j].kid by {
                    if i < prev.len() && j < prev.len() {
                        assert(next[i] == prev[i] && next[j] == prev[j]);
                    } else if i < prev.len() {
                        assert(next[i] == prev[i]);
                    } else if j < prev.len() {
                        assert(next[j] == prev[j]);
                    }
                }
            }
        }
    }
}

fn find_key_index(keys: &Vec<Jwk>, kid: &String) -> (r: Option<usize>)
    ensures
        match r {
            Some(i) => i < keys@.len() && lookup_key(keys@.map_values(|k: Jwk| k@), kid@) == Some(
                keys@[i as int]@,
            ),
            None => lookup_key(keys@.map_values(|k: Jwk| k@), kid@) is None,
        },
{
    let ghost all = keys@.map_values(|k: Jwk| k@);
    let mut i: usize = 0;
    assert(all.subrange(0, all.len() as int) =~= all);
    while i < keys.len()
        invariant
            i <= keys@.len(),
            all == keys@.map_values(|k: Jwk| k@),
            lookup_key(all, kid@) == lookup_key(all.subrange(i as int, all.len() as int), kid@),
        decreases keys.len() - i,
    {
        let ghost rest = all.subrange(i as int, all.len() as int);
        assert(rest[0] == keys@[i as int]@);
        if keys[i].kid == *kid {
            return Some(i);
        }
        assert(rest.drop_first() =~= all.subrange(i + 1, all.len() as int));
        i = i + 1;
    }
    assert(all.subrange(i as int, all.len() as int) =~= Seq::<JwkView>::empty());
    None
}

impl KeySet {
    /// The key with the given key id, looked up in this snapshot alone.
    pub fn find(&self, kid: &String) -> (r: Option<Jwk>)
        ensures
            match r {
                Some(k) => lookup_key(self@.keys, kid@) == Some(k@),
                None => lookup_key(self@.keys, kid@) is None,
            },
    {
        match find_key_index(&self.keys, kid) {
            Some(i) => Some(self.keys[i].clone_key()),
            None => None,
        }
    }
}

/// Key selection: the key named by a header's key id, or why there is none.
pub open spec fn select_outcome(keys: Seq<JwkView>, kid: Option<Seq<char>>) -> Result<
    JwkView,
    VerificationError,
> {
    match kid {
        None => Err(VerificationError::MissingKid),
        Some(k) => match lookup_key(keys, k) {
            Some(key) => Ok(key),
            None => Err(VerificationError::UnknownKey),
        },
    }
}

/// Looks up a header's key id in a key set.
pub fn select(keys: &KeySet, kid: &Option<String>) -> (r: Result<Jwk, VerificationError>)
    ensures
        match r {
            Ok(k) => select_outcome(keys@.keys, opt_view(*kid)) == Ok::<
                JwkView,
                VerificationError,
            >(k@),
            Err(e) => select_outcome(keys@.keys, opt_view(*kid)) == Err::<
                JwkView,
                VerificationError,
            >(e),
        },
{
    match kid {
        None => Err(VerificationError::MissingKid),
        Some(k) => match keys.find(k) {
            Some(key) => Ok(key),
            None => Err(VerificationError::UnknownKey),
        },
    }
}

fn copy_opt(o: &Option<String>) -> (r: Option<String>)
    ensures
        opt_view(r) == opt_view(*o),
{
    match o {
        Some(s) => Some(s.clone()),
        None => None,
    }
}

/// Builds a key set from the entries of a fetched document. Entries that
/// lack a required field, and entries whose key id came earlier, are
/// dropped; a document with no usable entry is a failed fetch.
pub fn build_key_set(entries: &Vec<RawJwk>, fetched_at: i64, lifetime: u32) -> (r: Result<
    KeySet,
    VerificationError,
>)
    ensures
        match r {
            Ok(set) => {
                &&& set@.keys == collected_keys(entries@.map_values(|e: RawJwk| e@), entries@.len() as int)
                &&& set@.keys.len() > 0
                &&& unique_kids(set@.keys)
                &&& set.fetched_at == fetched_at
                &&& set.lifetime == lifetime
            },
            Err(e) => e == VerificationError::FetchError && collected_keys(
                entries@.map_values(|e: RawJwk| e@),
                entries@.len() as int,
            ).len() == 0,
        },
{
    let ghost raw = entries@.map_values(|e: RawJwk| e@);
    let mut keys: Vec<Jwk> = Vec::new();
    let mut i: usize = 0;
    while i < entries.len()
        invariant
            i <= entries@.len(),
            raw == entries@.map_values(|e: RawJwk| e@),
            keys@.map_values(|k: Jwk| k@) == collected_keys(raw, i as int),
        decreases entries.len() - i,
    {
        let entry = &entries[i];
        assert(raw[i as int] == entry@);
        let ghost prev = collected_keys(raw, i as int);
        match (&entry.kid, &entry.alg, &entry.n, &entry.e) {
            (Some(kid), Some(alg), Some(n), Some(e)) => {
                let seen = find_key_index(&keys, kid);
                if seen.is_none() {
                    let kty = match &entry.kty {
                        Some(t) => t.clone(),
                        None => String::new(),
                    };
                    let key = Jwk {
                        kid: kid.clone(),
                        kty,
                        alg: alg.clone(),
                        n: n.clone(),
                        e: e.clone(),
                    };
                    keys.push(key);
                    assert(keys@.map_values(|k: Jwk| k@) =~= prev.push(key@));
                }
            },
            _ => {},
        }
        i = i + 1;
    }
    if keys.len() == 0 {
        assert(keys@.map_values(|k: Jwk| k@).len() == 0);
        return Err(VerificationError::FetchError);
    }
    proof {
        lemma_collected_unique(raw, entries@.len() as int);
    }
    Ok(KeySet { keys, fetched_at, lifetime })
}

} // verus!
