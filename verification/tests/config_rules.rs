// Configuration parsing rules, the KV loader and the TTL cache.

use wasm_bot_trap::config::{
    challenge_config_mutable_from_env, clear_runtime_cache_for_tests, config_key, defaults,
    encode_config_bytes, invalidate_runtime_cache, load_runtime_cached_for_tests,
    parse_admin_config_write_enabled, parse_botness_weight, parse_challenge_threshold,
    parse_maze_threshold, Config, ConfigCache, ConfigLoadError,
};
use wasm_bot_trap::kv::{KeyValueStore, MemStore};

#[test]
fn parse_challenge_threshold_defaults_to_3() {
    assert_eq!(parse_challenge_threshold(None), 3);
}

#[test]
fn parse_challenge_threshold_clamps_range() {
    assert_eq!(parse_challenge_threshold(Some("0")), 1);
    assert_eq!(parse_challenge_threshold(Some("99")), 10);
    assert_eq!(parse_challenge_threshold(Some("5")), 5);
    assert_eq!(parse_challenge_threshold(Some("junk")), 3);
}

#[test]
fn parse_maze_threshold_clamps_range() {
    assert_eq!(parse_maze_threshold(Some("0")), 1);
    assert_eq!(parse_maze_threshold(Some("99")), 10);
    assert_eq!(parse_maze_threshold(Some("6")), 6);
    assert_eq!(parse_maze_threshold(Some("junk")), 6);
}

#[test]
fn parse_botness_weight_clamps_range() {
    assert_eq!(parse_botness_weight(Some("0"), 3), 0);
    assert_eq!(parse_botness_weight(Some("11"), 3), 10);
    assert_eq!(parse_botness_weight(Some("4"), 3), 4);
    assert_eq!(parse_botness_weight(Some("junk"), 3), 3);
}

#[test]
fn challenge_config_mutable_from_env_parses_values() {
    assert!(challenge_config_mutable_from_env(Some("1")));
    assert!(challenge_config_mutable_from_env(Some("true")));
    assert!(challenge_config_mutable_from_env(Some("TRUE")));
    assert!(!challenge_config_mutable_from_env(Some("0")));
    assert!(!challenge_config_mutable_from_env(Some("false")));
    assert!(!challenge_config_mutable_from_env(None));
}

#[test]
fn parse_admin_config_write_defaults_to_disabled() {
    assert!(!parse_admin_config_write_enabled(None));
    assert!(!parse_admin_config_write_enabled(Some("junk")));
    assert!(parse_admin_config_write_enabled(Some("true")));
    assert!(parse_admin_config_write_enabled(Some("1")));
    assert!(!parse_admin_config_write_enabled(Some("false")));
}

#[test]
fn load_config_missing_returns_error() {
    let store = MemStore::new();
    let result = Config::load(&store, "default");
    assert!(matches!(result, Err(ConfigLoadError::MissingConfig)));
}

fn store_config_with_rate_limit(store: &mut MemStore, rate_limit: u64) {
    let mut cfg = defaults();
    cfg.rate_limit = rate_limit;
    let key = config_key("default");
    let raw = encode_config_bytes(&cfg);
    store.set(key.as_str(), raw.as_slice()).unwrap();
}

#[test]
fn runtime_config_cache_hits_within_ttl() {
    let mut cache = ConfigCache::new();
    let mut store = MemStore::new();
    store_config_with_rate_limit(&mut store, 101);

    let first = load_runtime_cached_for_tests(&mut cache, &store, "default", 100, 2).unwrap();
    // A new stored value must not be seen while the snapshot is fresh.
    store_config_with_rate_limit(&mut store, 202);
    let second = load_runtime_cached_for_tests(&mut cache, &store, "default", 101, 2).unwrap();

    assert_eq!(first.rate_limit, 101);
    assert_eq!(second.rate_limit, 101);
}

#[test]
fn runtime_config_cache_refreshes_after_ttl() {
    let mut cache = ConfigCache::new();
    let mut store = MemStore::new();
    store_config_with_rate_limit(&mut store, 111);

    let _ = load_runtime_cached_for_tests(&mut cache, &store, "default", 100, 2).unwrap();
    store_config_with_rate_limit(&mut store, 222);
    let refreshed = load_runtime_cached_for_tests(&mut cache, &store, "default", 103, 2).unwrap();

    assert_eq!(refreshed.rate_limit, 222);
    clear_runtime_cache_for_tests(&mut cache);
}

#[test]
fn runtime_config_cache_invalidation_forces_reload() {
    let mut cache = ConfigCache::new();
    let mut store = MemStore::new();
    store_config_with_rate_limit(&mut store, 120);

    let first = load_runtime_cached_for_tests(&mut cache, &store, "default", 100, 2).unwrap();
    assert_eq!(first.rate_limit, 120);

    store_config_with_rate_limit(&mut store, 220);
    invalidate_runtime_cache(&mut cache, "default");

    let refreshed = load_runtime_cached_for_tests(&mut cache, &store, "default", 101, 2).unwrap();
    assert_eq!(refreshed.rate_limit, 220);
}
