use vstd::prelude::*;
use std::collections::HashMap;
use crate::identity::Identity;
use crate::ratelimit::elapsed;
use crate::token::AuthToken;
use vstd::std_specs::iter::IteratorSpec;

verus! {

broadcast use vstd::std_specs::hash::group_hash_axioms;

/// How long an issued token stays valid, in milliseconds.
pub const TTL_MS: u64 = 15_000;

/// How often expired tokens are swept out, in milliseconds.
pub const SWEEP_INTERVAL_MS: u64 = 60_000;

/// What the cache holds for one token: when it was issued, and for whom.
#[derive(Debug, Clone, Copy, PartialEq, Eq, Structural)]
pub struct TimedCacheEntry {
    pub timestamp: u64,
    pub data: Identity,
}

/// Whether an entry issued at `timestamp` is still within its time-to-live.
pub open spec fn fresh(e: TimedCacheEntry, now: u64) -> bool {
    elapsed(now, e.timestamp) < TTL_MS
}

/// What is left of `m` after a sweep at `now`: the entries still fresh.
pub open spec fn swept(m: Map<u64, TimedCacheEntry>, now: u64) -> Map<u64, TimedCacheEntry> {
    Map::new(|k: u64| m.contains_key(k) && fresh(m[k], now), |k: u64| m[k])
}

/// The entry held for token value `k` in `m`, if any.
pub open spec fn entry_of(m: Map<u64, TimedCacheEntry>, k: u64) -> Option<TimedCacheEntry> {
    if m.contains_key(k) {
        Some(m[k])
    } else {
        None
    }
}

/// Issued tokens and the identity each stands for. Lookups are destructive:
/// a token is good for one use.
pub struct TimedCache {
    inner: HashMap<u64, TimedCacheEntry>,
}

/// The keys of `m`, each once.
fn keys_of(m: &HashMap<u64, TimedCacheEntry>) -> (r: Vec<u64>)
    ensures
        r@.to_set() == m@.dom(),
        r@.no_duplicates(),
{
    let ghost ks = vstd::std_specs::hash::spec_keys_iter(m).remaining();
    let mut r: Vec<u64> = Vec::new();
    for k in it: m.keys()
        invariant
            it.seq() == ks,
            r@ =~= ks.subrange(0, it.index() as int).unref(),
    {
        r.push(*k);
    }
    assert(r@ =~= ks.unref());
    r
}

impl TimedCache {
    /// The token values held, each with its entry.
    pub closed spec fn view(&self) -> Map<u64, TimedCacheEntry> {
        self.inner@
    }

    /// An empty cache.
    pub fn new() -> (r: Self)
        ensures
            r.view() == Map::<u64, TimedCacheEntry>::empty(),
    {
        TimedCache { inner: HashMap::new() }
    }

    /// Stores (or overwrites) the entry of `k`: `v`, issued at `now`.
    pub fn insert(&mut self, k: AuthToken, v: Identity, now: u64)
        ensures
            final(self).view() == old(self).view().insert(
                k.unique,
                TimedCacheEntry { timestamp: now, data: v },
            ),
    {
        self.inner.insert(k.unique, TimedCacheEntry { timestamp: now, data: v });
    }

    /// Takes the identity that `k` stands for, if `k` is held, and removes
    /// `k` whatever its age.
    pub fn take(&mut self, k: &AuthToken) -> (r: Option<Identity>)
        ensures
            final(self).view() == old(self).view().remove(k.unique),
            old(self).view().contains_key(k.unique) ==> r == Some(
                old(self).view()[k.unique].data,
            ),
            !old(self).view().contains_key(k.unique) ==> r is None,
    {
        match self.inner.remove(&k.unique) {
            Some(e) => Some(e.data),
            None => None,
        }
    }

    /// Hands the entry of `k` (if any) to `f`, and removes `k` unless `f`
    /// returns true.
    pub fn run<F: FnOnce(Option<TimedCacheEntry>) -> bool>(&mut self, k: &AuthToken, f: F)
        requires
            f.requires((entry_of(old(self).view(), k.unique),)),
        ensures
            exists|keep: bool|
                {
                    &&& #[trigger] f.ensures((entry_of(old(self).view(), k.unique),), keep)
                    &&& keep ==> final(self).view() == old(self).view()
                    &&& !keep ==> final(self).view() == old(self).view().remove(k.unique)
                },
    {
        let e = match self.inner.get(&k.unique) {
            Some(e) => Some(*e),
            None => None,
        };
        let keep = f(e);
        if !keep {
            self.inner.remove(&k.unique);
        }
    }

    /// Removes every entry older than the time-to-live at `now`.
    pub fn sweep(&mut self, now: u64)
        ensures
            final(self).view() == swept(old(self).view(), now),
    {
        let ghost m0 = self.inner@;
        let keys = keys_of(&self.inner);
        let mut i: usize = 0;
        while i < keys.len()
            invariant
                i <= keys@.len(),
                keys@.to_set() == m0.dom(),
                keys@.no_duplicates(),
                forall|t: int|
                    0 <= t < i ==> (self.inner@.contains_key(#[trigger] keys@[t]) <==> fresh(
                        m0[keys@[t]],
                        now,
                    )),
                forall|t: int| i <= t < keys@.len() ==> self.inner@.contains_key(#[trigger] keys@[t]),
                forall|k: u64| #[trigger]
                    self.inner@.contains_key(k) ==> m0.contains_key(k) && self.inner@[k] == m0[k],
            decreases keys.len() - i,
        {
            let k = keys[i];
            assert(keys@.to_set().contains(k));
            let stale = match self.inner.get(&k) {
                Some(e) => !(e.timestamp <= now && now - e.timestamp < TTL_MS || e.timestamp > now),
                None => false,
            };
            if stale {
                self.inner.remove(&k);
            }
            assert forall|t: int| 0 <= t < keys@.len() && t != i implies keys@[t] != k by {
            }
            i = i + 1;
        }
        assert forall|k: u64| #[trigger] m0.contains_key(k) implies (self.inner@.contains_key(k)
            <==> fresh(m0[k], now)) by {
            assert(keys@.to_set().contains(k));
            let t = choose|t: int| 0 <= t < keys@.len() && #[trigger] keys@[t] == k;
        }
        assert(self.inner@ =~= swept(m0, now));
    }
}

} // verus!
