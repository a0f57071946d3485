//! The in-memory cache: string keys, JSON values, optional time-to-live.
//!
//! Expiry is lazy: every `get` (and `exists`, which is defined through it)
//! first sweeps the whole store and drops every entry whose expiry has
//! passed, then looks the key up with an independent liveness check against
//! the same clock reading. Once an entry's expiry has passed, no `get` or
//! `exists` observes it again, however long it sat unreaped. `set`, `delete`
//! and `clear` do not sweep.

use vstd::prelude::*;
use crate::strmap::StrMap;

verus! {

/// One stored cache entry: the value and the absolute expiry instant, if
/// any. No expiry means the entry never expires.
pub struct CacheEntry {
    /// The cached value.
    pub value: serde_json::Value,
    /// Seconds since the Unix epoch after which the entry is dead, or
    /// nothing for an entry that never expires.
    pub expires_at: Option<i64>,
}

/// Builds an entry.
pub open spec fn entry(value: serde_json::Value, expires_at: Option<i64>) -> CacheEntry {
    CacheEntry { value, expires_at }
}

/// Whether an entry is alive at `now`: it never expires, or its expiry is
/// strictly in the future.
pub open spec fn live(e: CacheEntry, now: i64) -> bool {
    match e.expires_at {
        Some(t) => t > now,
        None => true,
    }
}

/// What a lookup at `now` returns from a store: the value, provided the key
/// is present and its entry is alive.
pub open spec fn lookup_at(m: Map<Seq<char>, CacheEntry>, key: Seq<char>, now: i64) -> Option<
    serde_json::Value,
> {
    if m.contains_key(key) && live(m[key], now) {
        Some(m[key].value)
    } else {
        None
    }
}

/// A store after the full-scan sweep at `now`: exactly the entries alive at
/// `now`, unchanged.
pub open spec fn reaped(m: Map<Seq<char>, CacheEntry>, now: i64) -> Map<Seq<char>, CacheEntry> {
    Map::new(|k: Seq<char>| m.contains_key(k) && live(m[k], now), |k: Seq<char>| m[k])
}

/// The absolute expiry instant written by a `set` at `now` with the given
/// time-to-live: `now + ttl`, or nothing for no time-to-live. A sum beyond
/// the representable range saturates to the greatest representable instant.
pub open spec fn spec_expiry(now: i64, ttl: Option<u64>) -> Option<i64> {
    match ttl {
        Some(s) => if s <= i64::MAX && now + s <= i64::MAX {
            Some((now + s) as i64)
        } else {
            Some(i64::MAX)
        },
        None => None,
    }
}

/// The in-memory cache store.
pub struct MemoryCacheProvider {
    inner: StrMap<CacheEntry>,
}

impl MemoryCacheProvider {
    /// The key-to-entry mapping this cache holds.
    pub closed spec fn view(&self) -> Map<Seq<char>, CacheEntry> {
        self.inner@
    }

    /// Well-formedness, established by `new` and preserved by every method.
    pub closed spec fn wf(&self) -> bool {
        self.inner.wf()
    }

    /// Creates an empty cache.
    pub fn new() -> (r: Self)
        ensures
            r.wf(),
            r@ == Map::<Seq<char>, CacheEntry>::empty(),
    {
        MemoryCacheProvider { inner: StrMap::new() }
    }

    /// The full-scan sweep: drops every entry dead at `now`.
    fn reap(&mut self, now: i64)
        requires
            old(self).wf(),
        ensures
            final(self).wf(),
            final(self)@ == reaped(old(self)@, now),
    {
        let ghost m0 = old(self).inner@;
        let n = self.inner.len();
        let mut expired: Vec<String> = Vec::new();
        for i in 0..n
            invariant
                *self == *old(self),
                self.wf(),
                m0 == self.inner@,
                n == self.inner.keys().len(),
                forall|p: int| 0 <= p < expired@.len() ==> m0.contains_key(expired@[p]@) && !live(
                    m0[expired@[p]@],
                    now,
                ),
                forall|j: int|
                    0 <= j < i && m0.contains_key(self.inner.keys()[j]) && !live(
                        m0[self.inner.keys()[j]],
                        now,
                    ) ==> exists|p: int|
                        0 <= p < expired@.len() && expired@[p]@ == self.inner.keys()[j],
        {
            let ghost ks = self.inner.keys();
            let e = self.inner.value_at(i);
            let dead = match e.expires_at {
                Some(t) => t <= now,
                None => false,
            };
            proof {
                assert(self.inner@ == m0);
                assert(m0.contains_key(ks[i as int]));
                assert(m0[ks[i as int]] == *e);
                assert(dead == !live(m0[ks[i as int]], now));
            }
            let ghost ex0 = expired@;
            if dead {
                expired.push(self.inner.key_at(i).clone());
                proof {
                    assert(expired@[ex0.len() as int]@ == ks[i as int]);
                    assert forall|p: int|
                        0 <= p < expired@.len() implies m0.contains_key(expired@[p]@) && !live(
                        m0[expired@[p]@],
                        now,
                    ) by {
                        if p < ex0.len() {
                            assert(expired@[p] == ex0[p]);
                        } else {
                            assert(expired@[p]@ == ks[i as int]);
                        }
                    }
                    assert forall|j: int|
                        0 <= j < i + 1 && m0.contains_key(ks[j]) && !live(m0[ks[j]], now)
                        implies exists|p: int|
                        0 <= p < expired@.len() && expired@[p]@ == ks[j] by {
                        if j < i {
                            let p = choose|p: int| 0 <= p < ex0.len() && ex0[p]@ == ks[j];
                            assert(expired@[p] == ex0[p]);
                            assert(expired@[p]@ == ks[j]);
                        } else {
                            assert(expired@[ex0.len() as int]@ == ks[j]);
                        }
                    }
                }
            } else {
                proof {
                    assert(live(m0[ks[i as int]], now));
                    assert forall|j: int|
                        0 <= j < i + 1 && m0.contains_key(ks[j]) && !live(m0[ks[j]], now)
                        implies exists|p: int|
                        0 <= p < expired@.len() && expired@[p]@ == ks[j] by {
                        assert(j < i);
                    }
                }
            }
        }
        proof {
            self.inner.lemma_keys();
        }
        let en = expired.len();
        for p in 0..en
            invariant
                en == expired@.len(),
                self.wf(),
                m0 == old(self).inner@,
                forall|k: Seq<char>|
                    self.inner@.contains_key(k) <==> (m0.contains_key(k) && !(exists|q: int|
                        0 <= q < p && expired@[q]@ == k)),
                forall|k: Seq<char>| self.inner@.contains_key(k) ==> self.inner@[k] == m0[k],
                forall|q: int| 0 <= q < expired@.len() ==> m0.contains_key(expired@[q]@) && !live(
                    m0[expired@[q]@],
                    now,
                ),
                forall|k: Seq<char>|
                    m0.contains_key(k) && !live(m0[k], now) ==> exists|q: int|
                        0 <= q < expired@.len() && expired@[q]@ == k,
        {
            let ghost before = self.inner@;
            self.inner.remove(expired[p].as_str());
            proof {
                assert forall|k: Seq<char>|
                    self.inner@.contains_key(k) <==> (m0.contains_key(k) && !(exists|q: int|
                        0 <= q < p + 1 && expired@[q]@ == k)) by {
                    if self.inner@.contains_key(k) {
                        assert(before.contains_key(k) && k != expired@[p as int]@);
                    }
                    if m0.contains_key(k) && !(exists|q: int|
                        0 <= q < p + 1 && expired@[q]@ == k) {
                        assert(!(exists|q: int| 0 <= q < p && expired@[q]@ == k));
                        assert(before.contains_key(k));
                        assert(k != expired@[p as int]@);
                    }
                }
            }
        }
        proof {
            let m1 = self.inner@;
            assert forall|k: Seq<char>|
                m1.contains_key(k) <==> (m0.contains_key(k) && live(m0[k], now)) by {
                if m0.contains_key(k) && !live(m0[k], now) {
                    let q = choose|q: int| 0 <= q < expired@.len() && expired@[q]@ == k;
                    assert(!m1.contains_key(k));
                }
            }
            assert forall|k: Seq<char>|
                #[trigger] reaped(m0, now).contains_key(k) implies m1.contains_key(k) && m1[k]
                == reaped(m0, now)[k] by {
                assert(m0.contains_key(k) && live(m0[k], now));
            }
            assert(m1 =~= reaped(m0, now));
        }
    }

    /// Sweeps dead entries, then returns the value under `key`, provided it
    /// is present and alive at `now`. An entry whose expiry has passed is
    /// never returned.
    pub fn get_at(&mut self, key: &str, now: i64) -> (r: Option<serde_json::Value>)
        requires
            old(self).wf(),
        ensures
            final(self).wf(),
            final(self)@ == reaped(old(self)@, now),
            r == lookup_at(old(self)@, key@, now),
    {
        self.reap(now);
        match self.inner.get(key) {
            Some(e) => {
                let live_now = match e.expires_at {
                    Some(t) => t > now,
                    None => true,
                };
                if live_now {
                    Some(e.value.clone())
                } else {
                    None
                }
            },
            None => None,
        }
    }

    /// Stores `value` under `key`. A time-to-live fixes the absolute expiry
    /// at `now + ttl`; none means the entry never expires. No sweep.
    pub fn set_at(&mut self, key: String, value: serde_json::Value, ttl: Option<u64>, now: i64)
        requires
            old(self).wf(),
        ensures
            final(self).wf(),
            final(self)@ == old(self)@.insert(key@, entry(value, spec_expiry(now, ttl))),
    {
        let expires_at: Option<i64> = match ttl {
            Some(s) => {
                if s <= (i64::MAX as u64) && now <= i64::MAX - (s as i64) {
                    Some(now + (s as i64))
                } else {
                    Some(i64::MAX)
                }
            },
            None => None,
        };
        self.inner.insert(key, CacheEntry { value, expires_at });
    }

    /// Removes the entry under `key`, if any. No sweep.
    pub fn delete(&mut self, key: &str)
        requires
            old(self).wf(),
        ensures
            final(self).wf(),
            final(self)@ == old(self)@.remove(key@),
    {
        self.inner.remove(key);
    }

    /// Whether `key` holds a live value at `now`; defined through `get_at`,
    /// so it sweeps too.
    pub fn exists_at(&mut self, key: &str, now: i64) -> (r: bool)
        requires
            old(self).wf(),
        ensures
            final(self).wf(),
            final(self)@ == reaped(old(self)@, now),
            r == (lookup_at(old(self)@, key@, now) is Some),
    {
        self.get_at(key, now).is_some()
    }

    /// Removes every entry. No sweep.
    pub fn clear(&mut self)
        ensures
            final(self).wf(),
            final(self)@ == Map::<Seq<char>, CacheEntry>::empty(),
    {
        self.inner.clear();
    }

    /// `get_at` against the wall clock.
    pub fn get(&mut self, key: &str) -> (r: Option<serde_json::Value>)
        requires
            old(self).wf(),
        ensures
            final(self).wf(),
            exists|now: i64|
                final(self)@ == reaped(old(self)@, now) && r == lookup_at(old(self)@, key@, now),
    {
        let now = crate::clock::now_seconds();
        let r = self.get_at(key, now);
        proof {
            assert(self@ == reaped(old(self)@, now) && r == lookup_at(old(self)@, key@, now));
        }
        r
    }

    /// `set_at` against the wall clock.
    pub fn set(&mut self, key: String, value: serde_json::Value, ttl: Option<u64>)
        requires
            old(self).wf(),
        ensures
            final(self).wf(),
            exists|now: i64|
                final(self)@ == old(self)@.insert(key@, entry(value, spec_expiry(now, ttl))),
    {
        let now = crate::clock::now_seconds();
        self.set_at(key, value, ttl, now);
        let ghost witness = now;
        proof {
            assert(self@ == old(self)@.insert(key@, entry(value, spec_expiry(witness, ttl))));
        }
    }

    /// `exists_at` against the wall clock.
    pub fn exists_now(&mut self, key: &str) -> (r: bool)
        requires
            old(self).wf(),
        ensures
            final(self).wf(),
            exists|now: i64|
                final(self)@ == reaped(old(self)@, now) && r == (lookup_at(old(self)@, key@, now)
                    is Some),
    {
        let now = crate::clock::now_seconds();
        let r = self.exists_at(key, now);
        proof {
            assert(self@ == reaped(old(self)@, now) && r == (lookup_at(old(self)@, key@, now)
                is Some));
        }
        r
    }
}

impl Default for MemoryCacheProvider {
    /// The default cache is empty.
    fn default() -> (r: Self)
        ensures
            r.wf(),
            r@ == Map::<Seq<char>, CacheEntry>::empty(),
    {
        MemoryCacheProvider::new()
    }
}

/// Law: a value set with a time-to-live is returned by every lookup
/// strictly before its expiry and by none at or after it, however long the
/// store goes unswept.
pub proof fn lemma_ttl_expiry(
    m: Map<Seq<char>, CacheEntry>,
    key: Seq<char>,
    value: serde_json::Value,
    ttl: u64,
    now: i64,
    later: i64,
)
    ensures
        lookup_at(m.insert(key, entry(value, spec_expiry(now, Some(ttl)))), key, later) == if
            spec_expiry(now, Some(ttl)) matches Some(t) && t > later {
            Some(value)
        } else {
            None::<serde_json::Value>
        },
{
}

/// Law: a value set without a time-to-live is returned by every later
/// lookup, however much time has passed.
pub proof fn lemma_no_ttl_persists(
    m: Map<Seq<char>, CacheEntry>,
    key: Seq<char>,
    value: serde_json::Value,
    later: i64,
)
    ensures
        lookup_at(m.insert(key, entry(value, None)), key, later) == Some(value),
{
}

/// Law: after `clear` the store is empty, so a lookup of any key at any
/// time returns nothing.
pub proof fn lemma_clear_empties(key: Seq<char>, now: i64)
    ensures
        lookup_at(Map::<Seq<char>, CacheEntry>::empty(), key, now) == None::<serde_json::Value>,
{
}

/// Law: the sweep never changes what a later lookup returns — it only
/// removes entries that the lookup's own liveness check would reject.
pub proof fn lemma_reap_preserves_lookup(
    m: Map<Seq<char>, CacheEntry>,
    key: Seq<char>,
    now: i64,
    later: i64,
)
    requires
        now <= later,
    ensures
        lookup_at(reaped(m, now), key, later) == lookup_at(m, key, later),
{
}

} // verus!
