use auth_core::cache::{TimedCache, TimedCacheEntry, SWEEP_INTERVAL_MS, TTL_MS};
use auth_core::identity::Identity;
use auth_core::token::AuthToken;

const T: AuthToken = AuthToken { unique: 99 };
const ID: Identity = Identity { value: 0x1234 };

#[test]
fn take_is_single_use() {
    let mut c = TimedCache::new();
    c.insert(T, ID, 0);
    assert_eq!(c.take(&T), Some(ID));
    assert_eq!(c.take(&T), None);
}

#[test]
fn take_of_unknown_token_is_none() {
    let mut c = TimedCache::new();
    c.insert(T, ID, 0);
    assert_eq!(c.take(&AuthToken { unique: 100 }), None);
    assert_eq!(c.take(&T), Some(ID));
}

#[test]
fn insert_overwrites() {
    let mut c = TimedCache::new();
    c.insert(T, ID, 0);
    c.insert(T, Identity { value: 5 }, 1);
    assert_eq!(c.take(&T), Some(Identity { value: 5 }));
}

#[test]
fn sweep_drops_only_stale_entries() {
    let mut c = TimedCache::new();
    let old = AuthToken { unique: 1 };
    let young = AuthToken { unique: 2 };
    c.insert(old, ID, 0);
    c.insert(young, Identity { value: 2 }, SWEEP_INTERVAL_MS - 1_000);
    c.sweep(SWEEP_INTERVAL_MS);
    assert_eq!(c.take(&old), None);
    assert_eq!(c.take(&young), Some(Identity { value: 2 }));
}

#[test]
fn sweep_keeps_entry_just_under_ttl() {
    let mut c = TimedCache::new();
    c.insert(T, ID, 1_000);
    c.sweep(1_000 + TTL_MS - 1);
    assert_eq!(c.take(&T), Some(ID));
    c.insert(T, ID, 1_000);
    c.sweep(1_000 + TTL_MS);
    assert_eq!(c.take(&T), None);
}

#[test]
fn run_keeps_or_removes() {
    let mut c = TimedCache::new();
    c.insert(T, ID, 3);
    c.run(&T, |e: Option<TimedCacheEntry>| {
        assert_eq!(e, Some(TimedCacheEntry { timestamp: 3, data: ID }));
        true
    });
    c.run(&T, |e: Option<TimedCacheEntry>| e.is_none());
    assert_eq!(c.take(&T), None);
    c.run(&T, |e: Option<TimedCacheEntry>| e.is_none());
}
