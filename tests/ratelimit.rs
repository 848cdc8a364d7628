use auth_core::error::AuthError;
use auth_core::ratelimit::{ClientAddr, RateLimiter, MAX, TIMEOUT_MS};

const SOURCE: ClientAddr = ClientAddr::V4(0x0A00_0001);

#[test]
fn sixty_first_call_in_window_is_refused() {
    let mut l = RateLimiter::new();
    for i in 0..60u64 {
        assert!(l.check(SOURCE, 1_000 + i), "call {} refused", i + 1);
    }
    assert!(!l.check(SOURCE, 1_060));
}

#[test]
fn calls_are_admitted_again_once_old_ones_age_out() {
    let mut l = RateLimiter::new();
    for i in 0..60u64 {
        assert!(l.check(SOURCE, i));
    }
    // The oldest event (at 0) has aged out: 59 remain, plus this one.
    assert!(l.check(SOURCE, TIMEOUT_MS));
    // Still sixty within the window ending now.
    assert!(!l.check(SOURCE, TIMEOUT_MS));
}

#[test]
fn a_refused_call_still_counts() {
    let mut l = RateLimiter::new();
    for i in 0..61u64 {
        l.check(SOURCE, i);
    }
    // Events at 1..=60 still count once the one at 0 ages out.
    assert!(!l.check(SOURCE, TIMEOUT_MS));
    // Once everything has aged out, the count starts over.
    assert!(l.check(SOURCE, 10 * TIMEOUT_MS));
}

#[test]
fn loopback_is_never_limited() {
    let mut l = RateLimiter::new();
    for i in 0..200u64 {
        assert!(l.check(ClientAddr::V4(0x7F00_0001), i));
        assert!(l.check(ClientAddr::V6(1), i));
    }
    assert!(ClientAddr::V4(0x7F12_3456).is_loopback());
    assert!(!ClientAddr::V4(0x0A00_0001).is_loopback());
    assert!(!ClientAddr::V6(2).is_loopback());
}

#[test]
fn sources_are_counted_apart() {
    let mut l = RateLimiter::new();
    for i in 0..(MAX as u64) {
        assert!(l.check(SOURCE, i));
    }
    assert!(l.check(ClientAddr::V4(0x0A00_0002), 100));
    assert!(l.check(ClientAddr::V6(0x0A00_0001), 100));
    assert!(!l.check(SOURCE, 100));
}

#[test]
fn gate_reports_rate_limit() {
    let mut l = RateLimiter::new();
    for i in 0..60u64 {
        assert!(l.gate(SOURCE, i).is_ok());
    }
    assert!(matches!(l.gate(SOURCE, 60), Err(AuthError::RateLimit)));
}
