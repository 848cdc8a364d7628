use vstd::prelude::*;
use std::collections::HashMap;
use crate::error::AuthError;

verus! {

broadcast use vstd::std_specs::hash::group_hash_axioms;

/// Events admitted per source within one window.
pub const MAX: usize = 60;

/// The length of the trailing window, in milliseconds (ten minutes).
pub const TIMEOUT_MS: u64 = 600_000;

/// The network address a request came from.
#[derive(Debug, Clone, Copy, PartialEq, Eq, Hash)]
pub enum ClientAddr {
    /// An IPv4 address, most significant octet first.
    V4(u32),
    /// An IPv6 address, most significant segment first.
    V6(u128),
}

/// Loopback: `127.0.0.0/8` for IPv4, `::1` for IPv6.
pub open spec fn loopback(a: ClientAddr) -> bool {
    match a {
        ClientAddr::V4(x) => x / 0x100_0000 == 127,
        ClientAddr::V6(x) => x == 1,
    }
}

/// Milliseconds from `t` to `now`; zero if `t` lies ahead.
pub open spec fn elapsed(now: u64, t: u64) -> int {
    if now >= t {
        now - t
    } else {
        0
    }
}

/// Whether an event at `t` still counts at `now`.
pub open spec fn in_window(now: u64, t: u64) -> bool {
    elapsed(now, t) < TIMEOUT_MS
}

/// The events of `w` that still count at `now`, in their order.
pub open spec fn recent(w: Seq<u64>, now: u64) -> Seq<u64>
    decreases w.len(),
{
    if w.len() == 0 {
        seq![]
    } else if in_window(now, w.last()) {
        recent(w.drop_last(), now).push(w.last())
    } else {
        recent(w.drop_last(), now)
    }
}

/// Whether a source whose recorded events are `w` is admitted at `now`:
/// counting the new event, at most `MAX` fall in the trailing window.
pub open spec fn admits(w: Seq<u64>, now: u64) -> bool {
    recent(w, now).len() < MAX
}

/// An event that happens now counts now.
pub proof fn lemma_recent_push_now(w: Seq<u64>, now: u64)
    ensures
        recent(w.push(now), now) == recent(w, now).push(now),
{
    assert(w.push(now).drop_last() =~= w);
}

/// Only events of `w` count, so at most as many as `w` holds.
pub proof fn lemma_recent_len_le(w: Seq<u64>, now: u64)
    ensures
        recent(w, now).len() <= w.len(),
    decreases w.len(),
{
    if w.len() > 0 {
        lemma_recent_len_le(w.drop_last(), now);
    }
}

/// Once one event of `w` has aged out, fewer events count than `w` holds.
pub proof fn lemma_recent_len_lt(w: Seq<u64>, now: u64, i: int)
    requires
        0 <= i < w.len(),
        !in_window(now, w[i]),
    ensures
        recent(w, now).len() < w.len(),
    decreases w.len(),
{
    lemma_recent_len_le(w.drop_last(), now);
    if i < w.len() - 1 {
        assert(w.drop_last()[i] == w[i]);
        lemma_recent_len_lt(w.drop_last(), now, i);
    }
}

/// When every recorded event still counts, none is dropped.
pub proof fn lemma_recent_all(w: Seq<u64>, now: u64)
    requires
        forall|i: int| 0 <= i < w.len() ==> in_window(now, #[trigger] w[i]),
    ensures
        recent(w, now) == w,
    decreases w.len(),
{
    if w.len() > 0 {
        assert forall|i: int| 0 <= i < w.drop_last().len() implies in_window(
            now,
            #[trigger] w.drop_last()[i],
        ) by {
            assert(w.drop_last()[i] == w[i]);
        }
        lemma_recent_all(w.drop_last(), now);
        assert(w.drop_last().push(w.last()) =~= w);
    }
}

/// A source with sixty events inside the trailing window is refused: the
/// sixty-first event within ten minutes is not admitted.
pub proof fn lemma_limit_reached(w: Seq<u64>, now: u64)
    requires
        w.len() >= MAX,
        forall|i: int| 0 <= i < w.len() ==> in_window(now, #[trigger] w[i]),
    ensures
        !admits(w, now),
{
    lemma_recent_all(w, now);
}

/// Once one of at most sixty recorded events has aged out of the window,
/// fewer than sixty count and the next event is admitted.
pub proof fn lemma_admitted_after_aging(w: Seq<u64>, now: u64, i: int)
    requires
        w.len() <= MAX,
        0 <= i < w.len(),
        !in_window(now, w[i]),
    ensures
        admits(w, now),
{
    lemma_recent_len_lt(w, now, i);
}

/// Per-source sliding-window counter.
pub struct RateLimiter {
    v4: HashMap<u32, Vec<u64>>,
    v6: HashMap<u128, Vec<u64>>,
}

impl ClientAddr {
    /// Whether this is a loopback address, which is never limited.
    pub fn is_loopback(&self) -> (r: bool)
        ensures
            r == loopback(*self),
    {
        match self {
            ClientAddr::V4(x) => *x / 0x100_0000 == 127,
            ClientAddr::V6(x) => *x == 1,
        }
    }
}

/// The events of `w` that still count at `now`.
fn retain_recent(w: &Vec<u64>, now: u64) -> (r: Vec<u64>)
    ensures
        r@ == recent(w@, now),
{
    let mut r: Vec<u64> = Vec::new();
    let mut i: usize = 0;
    while i < w.len()
        invariant
            i <= w@.len(),
            r@ == recent(w@.subrange(0, i as int), now),
        decreases w.len() - i,
    {
        let t = w[i];
        assert(w@.subrange(0, i + 1).drop_last() =~= w@.subrange(0, i as int));
        if t <= now && now - t < TIMEOUT_MS || t > now {
            r.push(t);
        }
        i = i + 1;
    }
    assert(w@.subrange(0, w@.len() as int) =~= w@);
    r
}

impl RateLimiter {
    /// The recorded events of source `a`, oldest first.
    pub closed spec fn window(&self, a: ClientAddr) -> Seq<u64> {
        match a {
            ClientAddr::V4(x) => if self.v4@.contains_key(x) {
                self.v4@[x]@
            } else {
                seq![]
            },
            ClientAddr::V6(x) => if self.v6@.contains_key(x) {
                self.v6@[x]@
            } else {
                seq![]
            },
        }
    }

    /// A limiter that has recorded nothing.
    pub fn new() -> (r: Self)
        ensures
            forall|a: ClientAddr| #[trigger] r.window(a) == Seq::<u64>::empty(),
    {
        RateLimiter { v4: HashMap::new(), v6: HashMap::new() }
    }

    /// Records an event of `addr` at `now` and says whether it is admitted:
    /// whether, counting it, at most `MAX` events of `addr` fall in the
    /// trailing window. Loopback sources are admitted and not recorded.
    pub fn check(&mut self, addr: ClientAddr, now: u64) -> (allowed: bool)
        ensures
            loopback(addr) ==> allowed && forall|a: ClientAddr|
                #[trigger] final(self).window(a) == old(self).window(a),
            !loopback(addr) ==> {
                &&& allowed == admits(old(self).window(addr), now)
                &&& final(self).window(addr) == recent(old(self).window(addr), now).push(now)
                &&& forall|a: ClientAddr|
                    a != addr ==> #[trigger] final(self).window(a) == old(self).window(a)
            },
    {
        if addr.is_loopback() {
            return true;
        }
        let ghost w = self.window(addr);
        proof {
            lemma_recent_push_now(w, now);
        }
        match addr {
            ClientAddr::V4(x) => {
                let mut v = match self.v4.remove(&x) {
                    Some(v) => v,
                    None => Vec::new(),
                };
                assert(v@ == w);
                v.push(now);
                let kept = retain_recent(&v, now);
                let n = kept.len();
                self.v4.insert(x, kept);
                assert(self.window(addr) == recent(w, now).push(now));
                n <= MAX
            },
            ClientAddr::V6(x) => {
                let mut v = match self.v6.remove(&x) {
                    Some(v) => v,
                    None => Vec::new(),
                };
                assert(v@ == w);
                v.push(now);
                let kept = retain_recent(&v, now);
                let n = kept.len();
                self.v6.insert(x, kept);
                assert(self.window(addr) == recent(w, now).push(now));
                n <= MAX
            },
        }
    }

    /// Lets a privileged operation of `addr` at `now` through, or refuses it
    /// with `RateLimit`; the event is recorded as `check` records it.
    pub fn gate(&mut self, addr: ClientAddr, now: u64) -> (r: Result<(), AuthError>)
        ensures
            loopback(addr) ==> r is Ok && forall|a: ClientAddr|
                #[trigger] final(self).window(a) == old(self).window(a),
            !loopback(addr) ==> {
                &&& (r is Ok <==> admits(old(self).window(addr), now))
                &&& (r is Err ==> r->Err_0 is RateLimit)
                &&& final(self).window(addr) == recent(old(self).window(addr), now).push(now)
                &&& forall|a: ClientAddr|
                    a != addr ==> #[trigger] final(self).window(a) == old(self).window(a)
            },
    {
        if self.check(addr, now) {
            Ok(())
        } else {
            Err(AuthError::RateLimit)
        }
    }
}

} // verus!
