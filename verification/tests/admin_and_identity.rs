// Event logging, admin gatekeeping, identity buckets and the small
// derivations the other components lean on.

use wasm_bot_trap::admin::{
    decode_event_entry_bytes, eventlog_key, log_event, sanitize_path, EventLogEntry, EventType,
};
use wasm_bot_trap::auth::{get_admin_id, is_admin_ip_allowed, is_authorized};
use wasm_bot_trap::buckets::{bucket_ip, sanitize_addr, ua_bucket};
use wasm_bot_trap::kv::{KeyValueStore, MemStore};

#[test]
fn bucket_ip_coarsens_dotted_addresses() {
    assert_eq!(bucket_ip("198.51.100.10"), "198.51.100.0");
    assert_eq!(bucket_ip("10.1.2.3"), "10.1.2.0");
    // Addresses without a dot are sanitized whole.
    assert_eq!(bucket_ip("fe80::1%eth0"), "fe80::1_eth0");
    assert_eq!(sanitize_addr("a b;c"), "a_b_c");
}

#[test]
fn ua_bucket_is_a_stable_short_digest() {
    let a = ua_bucket("TestUA/1.0");
    let b = ua_bucket("TestUA/1.0");
    let c = ua_bucket("OtherUA/2.0");
    assert_eq!(a, b);
    assert_eq!(a.len(), 12);
    assert_ne!(a, c);
}

#[test]
fn event_log_appends_one_line_per_entry() {
    let mut store = MemStore::new();
    let entry = EventLogEntry {
        ts: 7200,
        event: "ban".to_string(),
        ip: "1.2.3.4".to_string(),
        reason: "rate".to_string(),
        outcome: "short_ban".to_string(),
        admin: String::new(),
    };
    log_event(&mut store, &entry);
    log_event(&mut store, &entry);
    let key = eventlog_key(7200);
    assert_eq!(key, "eventlog:2");
    let raw = store.get(key.as_str()).unwrap().expect("log exists");
    let lines: Vec<&[u8]> = raw.split(|b| *b == b'\n').filter(|l| !l.is_empty()).collect();
    assert_eq!(lines.len(), 2);
    let decoded = decode_event_entry_bytes(lines[0]).expect("entry decodes");
    assert_eq!(decoded.ts, 7200);
    assert_eq!(decoded.reason, "rate");
}

#[test]
fn event_types_have_stable_labels() {
    assert_eq!(EventType::Ban.as_str(), "ban");
    assert_eq!(EventType::Unban.as_str(), "unban");
    assert_eq!(EventType::Challenge.as_str(), "challenge");
    assert_eq!(EventType::Block.as_str(), "block");
    assert_eq!(EventType::AdminAction.as_str(), "admin_action");
}

#[test]
fn admin_paths_are_a_closed_set() {
    assert!(sanitize_path("/admin"));
    assert!(sanitize_path("/admin/ban"));
    assert!(sanitize_path("/admin/unban"));
    assert!(sanitize_path("/admin/analytics"));
    assert!(sanitize_path("/admin/events"));
    assert!(!sanitize_path("/admin/../etc"));
    assert!(!sanitize_path("/admin/other"));
}

#[test]
fn authorization_requires_the_exact_bearer_token() {
    let good = "Bearer k-123".to_string();
    let bad = "Bearer k-124".to_string();
    let short = "Bearer".to_string();
    assert!(is_authorized(Some(&good), "k-123"));
    assert!(!is_authorized(Some(&bad), "k-123"));
    assert!(!is_authorized(Some(&short), "k-123"));
    assert!(!is_authorized(None, "k-123"));
    assert_eq!(get_admin_id(true), "admin");
    assert_eq!(get_admin_id(false), "-");
}

#[test]
fn admin_allowlist_is_open_when_empty() {
    let empty: Vec<String> = Vec::new();
    assert!(is_admin_ip_allowed("9.9.9.9", &empty));
    let listed = vec!["127.0.0.1".to_string(), "::1".to_string()];
    assert!(is_admin_ip_allowed("::1", &listed));
    assert!(!is_admin_ip_allowed("9.9.9.9", &listed));
}

#[test]
fn browser_versions_are_read_from_the_user_agent() {
    let ua = "Mozilla/5.0 Chrome/120.0.0 Safari/537.36";
    assert_eq!(wasm_bot_trap::js::extract_version(ua, "Chrome"), Some(120));
    assert_eq!(wasm_bot_trap::js::extract_version(ua, "Safari"), Some(537));
    assert_eq!(wasm_bot_trap::js::extract_version(ua, "Firefox"), None);
    let whitelist = vec![("Chrome".to_string(), 100u64)];
    assert!(!wasm_bot_trap::js::needs_js_verification_with_whitelist(
        None,
        "1.2.3.4",
        "s",
        ua,
        &whitelist
    ));
}

#[test]
fn hash_prefix_and_catalog_are_stable() {
    let h = wasm_bot_trap::crypto::hash_prefix("abc", 8);
    assert_eq!(h.len(), 8);
    assert_eq!(h, wasm_bot_trap::crypto::hash_prefix("abc", 8));
    let catalog = wasm_bot_trap::fingerprint::fingerprint_signal_catalog();
    assert_eq!(catalog.len(), 6);
    assert_eq!(catalog[0].0, "fp_ua_ch_mismatch");
    assert_eq!(
        wasm_bot_trap::router::challenge_puzzle_path(),
        "/challenge/puzzle"
    );
    assert_eq!(
        wasm_bot_trap::router::challenge_not_a_bot_path(),
        "/challenge/not-a-bot"
    );
}
