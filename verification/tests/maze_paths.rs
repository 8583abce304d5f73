// Maze route derivation, path admission, the seeded generator, the
// stable state keys and the escalation ladder.

use wasm_bot_trap::envelope::token_replay_key;
use wasm_bot_trap::maze::policy::{high_confidence_escalation_action, MazeFallbackAction};
use wasm_bot_trap::maze::rng::SeededRng;
use wasm_bot_trap::maze::state::checkpoint_key;
use wasm_bot_trap::maze::{
    assets_prefix, checkpoint_path, entry_path, is_maze_path, issue_links_path, path_prefix,
    root_path, route_segment,
};

const SEGMENT: &str = "ab12cd34ef56";

#[test]
fn maze_path_helpers_are_accepted() {
    assert!(is_maze_path(root_path(SEGMENT).as_str(), SEGMENT));
    assert!(is_maze_path(path_prefix(SEGMENT).as_str(), SEGMENT));
    assert!(is_maze_path(entry_path(SEGMENT, "entry-segment").as_str(), SEGMENT));
    assert!(is_maze_path(checkpoint_path(SEGMENT).as_str(), SEGMENT));
    assert!(is_maze_path(issue_links_path(SEGMENT).as_str(), SEGMENT));
    assert!(is_maze_path(
        format!("{}/maze.abcd123.min.css", assets_prefix(SEGMENT)).as_str(),
        SEGMENT,
    ));
}

#[test]
fn legacy_named_routes_are_rejected() {
    assert!(!is_maze_path("/maze/legacy-entry", SEGMENT));
    assert!(!is_maze_path("/maze/checkpoint", SEGMENT));
    assert!(!is_maze_path("/maze/issue-links", SEGMENT));
    assert!(!is_maze_path("/trap/legacy-entry", SEGMENT));
}

#[test]
fn malformed_prefix_variants_are_rejected() {
    assert!(!is_maze_path(format!("{}{}", path_prefix(SEGMENT), "/double-slash").as_str(), SEGMENT));
    assert!(!is_maze_path(
        format!("{}{}", path_prefix(SEGMENT), "invalid..segment").as_str(),
        SEGMENT,
    ));
    assert!(!is_maze_path(
        format!("{}{}", path_prefix(SEGMENT), "bad%2Fencoding").as_str(),
        SEGMENT,
    ));
    assert!(!is_maze_path("/_/deadbeef1234/segment", SEGMENT));
}

#[test]
fn route_segment_is_stable_and_short() {
    let a = route_segment("first-secret");
    let b = route_segment("first-secret");
    let c = route_segment("second-secret");
    assert_eq!(a, b);
    assert_eq!(a.len(), 12);
    assert_ne!(a, c);
}

#[test]
fn test_is_maze_path() {
    assert!(wasm_bot_trap::trap::is_maze_path("/trap/abc123"));
    assert!(wasm_bot_trap::trap::is_maze_path("/maze/def456"));
    assert!(!wasm_bot_trap::trap::is_maze_path("/admin/config"));
    assert!(!wasm_bot_trap::trap::is_maze_path("/api/data"));
}

#[test]
fn test_seeded_rng_deterministic() {
    let mut rng1 = SeededRng::new(12345);
    let mut rng2 = SeededRng::new(12345);

    for _ in 0..10 {
        assert_eq!(rng1.next(), rng2.next());
    }
}

#[test]
fn test_seeded_rng_different_seeds() {
    let mut rng1 = SeededRng::new(11111);
    let mut rng2 = SeededRng::new(22222);

    // Very unlikely to match
    assert_ne!(rng1.next(), rng2.next());
}

#[test]
fn helper_keys_are_stable() {
    assert_eq!(token_replay_key("f", "o"), "maze:token:seen:f:o");
    assert_eq!(checkpoint_key("f", "ip"), "maze:checkpoint:f:ip");
}

#[test]
fn high_confidence_escalation_transitions_from_challenge_to_block() {
    assert_eq!(high_confidence_escalation_action(1), None);
    assert_eq!(
        high_confidence_escalation_action(2),
        Some(MazeFallbackAction::Challenge)
    );
    assert_eq!(
        high_confidence_escalation_action(3),
        Some(MazeFallbackAction::Block)
    );
}

#[test]
fn replay_state_detects_seen() {
    let mut store = wasm_bot_trap::kv::MemStore::new();
    let key = token_replay_key("flow", "op");
    wasm_bot_trap::kv::KeyValueStore::set(&mut store, key.as_str(), b"9999999999")
        .expect("set replay key");
    assert!(wasm_bot_trap::maze::state::replay_seen(&store, "flow", "op", 1));
}
