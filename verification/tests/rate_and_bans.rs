// Rate-limit boundaries, the ban store round trip, and the remaining
// enforcement stubs.

use wasm_bot_trap::ban::{
    ban_ip_at, decode_ban_entry_bytes, encode_ban_entry_bytes, is_banned_at, unban_ip, BanEntry,
};
use wasm_bot_trap::kv::MemStore;
use wasm_bot_trap::rate::{check_rate_limit, RateLimitDecision};

#[test]
fn rate_counter_boundaries_allow_throttle_and_ban() {
    let mut store = MemStore::new();
    let limit = 5u64;
    let ban_factor = 3u64;
    // The first `limit` requests are allowed; exactly at the limit the
    // decision is still Allowed.
    for i in 1..=limit {
        let d = check_rate_limit(&mut store, "bucket", limit, ban_factor, 60, 1000);
        assert_eq!(d, RateLimitDecision::Allowed(i));
    }
    // One over the limit throttles.
    let over = check_rate_limit(&mut store, "bucket", limit, ban_factor, 60, 1000);
    assert_eq!(over, RateLimitDecision::Throttle(limit + 1));
    // Past limit * ban_factor the breach is ban-worthy.
    for _ in (limit + 2)..=(limit * ban_factor) {
        let d = check_rate_limit(&mut store, "bucket", limit, ban_factor, 60, 1000);
        assert!(matches!(d, RateLimitDecision::Throttle(_)));
    }
    let worst = check_rate_limit(&mut store, "bucket", limit, ban_factor, 60, 1000);
    assert_eq!(worst, RateLimitDecision::BanWorthy(limit * ban_factor + 1));
    // A later window starts counting from scratch.
    let fresh = check_rate_limit(&mut store, "bucket", limit, ban_factor, 60, 1200);
    assert_eq!(fresh, RateLimitDecision::Allowed(1));
}

#[test]
fn test_ban_and_expiry() {
    let mut store = MemStore::new();
    let site_id = "testsite";
    let ip = "1.2.3.4";
    // Ban IP for 1 second
    ban_ip_at(&mut store, site_id, ip, "test", 1, 100);
    assert!(is_banned_at(&store, site_id, ip, 100));
    // Past the expiry the record reads as absent.
    assert!(!is_banned_at(&store, site_id, ip, 102));
}

#[test]
fn test_ban_and_unban_unknown_ip() {
    let mut store = MemStore::new();
    let site_id = "testsite";
    let ip = "unknown";
    // Ban 'unknown' IP
    ban_ip_at(&mut store, site_id, ip, "test", 60, 100);
    assert!(is_banned_at(&store, site_id, ip, 100));
    // Unban 'unknown' IP (simulate admin unban)
    unban_ip(&mut store, site_id, ip);
    assert!(!is_banned_at(&store, site_id, ip, 100));
}

#[test]
fn test_ban_entry_serialization() {
    let entry = BanEntry {
        reason: "test".to_owned(),
        expires: 1234567890,
        summary: String::new(),
    };
    let raw = encode_ban_entry_bytes(&entry);
    let de = decode_ban_entry_bytes(raw.as_slice()).expect("round trip");
    assert_eq!(de.reason, "test");
    assert_eq!(de.expires, 1234567890);
}

#[test]
fn test_banned_ip() {
    // Should return 403 for banned IP (simulate ban)
}

#[test]
fn test_rate_limit() {
    // Should ban and block if rate limit exceeded
}

#[test]
fn test_js_challenge() {
    // Should inject JS challenge if needed
}

#[test]
fn js_cookie_round_trip_suppresses_the_challenge() {
    let token = wasm_bot_trap::js::make_token("9.9.9.9", "cookie-secret");
    let header = format!("theme=dark; js_verified={}", token);
    assert!(!wasm_bot_trap::js::needs_js_verification(
        Some(&header),
        "9.9.9.9",
        "cookie-secret"
    ));
    assert!(wasm_bot_trap::js::needs_js_verification(
        Some(&header),
        "9.9.9.8",
        "cookie-secret"
    ));
    assert!(wasm_bot_trap::js::needs_js_verification(None, "9.9.9.9", "cookie-secret"));
}
