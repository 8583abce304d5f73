// The maze engine end to end over the in-memory store: entry pages,
// token admission, budget-open fallback, child budgets and hidden-link
// issuance.

use wasm_bot_trap::config::{defaults, Config};
use wasm_bot_trap::kv::MemStore;
use wasm_bot_trap::maze::policy::MazeFallbackReason;
use wasm_bot_trap::maze::runtime::{handle_issue_links, match_maze_asset, maze_script_path, maze_style_path, maze_worker_path, serve, MazeServeDecision, MAZE_SCRIPT_JS, MAZE_STYLE_CSS, MAZE_WORKER_JS};

const SECRET: &str = "maze-secret";
const SEGMENT: &str = "ab12cd34ef56";
const NOW_MS: u64 = 1_700_000_000_000;

fn entry_path(suffix: &str) -> String {
    wasm_bot_trap::maze::entry_path(SEGMENT, suffix)
}

fn first_maze_link(html: &str) -> Option<String> {
    for fragment in html.split("<a href=\"") {
        if !fragment.contains("data-link-kind=\"maze\"") {
            continue;
        }
        let end = fragment.find('"')?;
        return Some(fragment[..end].to_string());
    }
    None
}

fn bootstrap_field<'a>(html: &'a str, key: &str) -> Option<&'a str> {
    let marker = "<script id=\"maze-bootstrap\" type=\"application/json\">";
    let start = html.find(marker)? + marker.len();
    let end = start + html[start..].find("</script>")?;
    let json = &html[start..end];
    let needle = format!("\"{}\":", key);
    let at = json.find(needle.as_str())? + needle.len();
    let rest = &json[at..];
    if let Some(stripped) = rest.strip_prefix('"') {
        let stop = stripped.find('"')?;
        Some(&stripped[..stop])
    } else {
        let stop = rest.find([',', '}'])?;
        Some(&rest[..stop])
    }
}

fn serve_path(store: &mut MemStore, cfg: &Config, path: &str, mt: Option<&String>) ->
    MazeServeDecision {
    serve(
        store,
        cfg,
        SECRET,
        SEGMENT,
        mt,
        None,
        "198.51.100.45",
        "BudgetBot/1.0",
        path,
        None,
        NOW_MS,
    )
}

#[test]
fn invalid_token_maps_to_fallback() {
    let mut store = MemStore::new();
    let cfg = defaults();
    let bad = "bad-token".to_owned();
    let path = entry_path("abc");
    let decision = serve_path(&mut store, &cfg, path.as_str(), Some(&bad));
    match decision {
        MazeServeDecision::Fallback(fallback) => {
            assert!(matches!(
                fallback.reason,
                MazeFallbackReason::TokenInvalid | MazeFallbackReason::TokenBindingMismatch
            ));
        }
        MazeServeDecision::Serve(_) => panic!("expected fallback decision"),
    }
}

#[test]
fn budget_open_fallback_uses_compact_shell_not_legacy_inline_page() {
    let mut store = MemStore::new();
    let mut cfg = defaults();
    cfg.maze_rollout_phase = "instrument".to_owned();
    cfg.maze_max_concurrent_global = 0;

    let path = entry_path("budget-open");
    let decision = serve_path(&mut store, &cfg, path.as_str(), None);
    let rendered = match decision {
        MazeServeDecision::Serve(r) => r,
        MazeServeDecision::Fallback(_) => panic!("expected maze serve decision"),
    };
    assert!(
        !rendered.html.contains("<style>"),
        "budget-open path should not use an inline style sheet"
    );
    assert!(rendered
        .html
        .contains(wasm_bot_trap::maze::runtime::maze_script_path(SEGMENT).as_str()));
}

#[test]
fn live_maze_html_does_not_include_giveaway_markers_by_default() {
    let mut store = MemStore::new();
    let cfg = defaults();
    let path = entry_path("entry");
    let decision = serve_path(&mut store, &cfg, path.as_str(), None);
    match decision {
        MazeServeDecision::Serve(rendered) => {
            assert!(!rendered.html.contains("Variant maze-v"));
            assert!(!rendered
                .html
                .contains("Synthetic navigation surface. Not authoritative content."));
        }
        MazeServeDecision::Fallback(_) => panic!("expected served maze page"),
    }
}

#[test]
fn child_token_branch_budget_decrements_from_parent_budget() {
    let mut store = MemStore::new();
    let mut cfg = defaults();
    cfg.maze_token_branch_budget = 4;
    cfg.maze_server_visible_links = 1;

    let path = entry_path("budget-decrement");
    let decision = serve_path(&mut store, &cfg, path.as_str(), None);
    let rendered = match decision {
        MazeServeDecision::Serve(r) => r,
        MazeServeDecision::Fallback(_) => panic!("expected maze page"),
    };
    let first_link = first_maze_link(rendered.html.as_str()).expect("expected maze link");
    let raw_token = first_link
        .split("?mt=")
        .nth(1)
        .expect("expected mt token")
        .to_string();
    let parsed = wasm_bot_trap::maze::token::verify(raw_token.as_str(), SECRET, None)
        .unwrap_or_else(|_| panic!("token should verify"));
    assert_eq!(parsed.branch_budget, 3);
}

fn issue_body(html: &str, requested: u64) -> Vec<u8> {
    let token = bootstrap_field(html, "checkpoint_token").unwrap_or("").to_string();
    let flow_id = bootstrap_field(html, "flow_id").unwrap_or("").to_string();
    let nonce = bootstrap_field(html, "entropy_nonce").unwrap_or("").to_string();
    let prefix = bootstrap_field(html, "path_prefix").unwrap_or("").to_string();
    let seed = bootstrap_field(html, "seed").unwrap_or("0").to_string();
    let sig = bootstrap_field(html, "seed_sig").unwrap_or("").to_string();
    let hidden = bootstrap_field(html, "hidden_count").unwrap_or("0").to_string();
    let seg_len = bootstrap_field(html, "segment_len").unwrap_or("16").to_string();
    format!(
        "{{\"parent_token\":\"{}\",\"flow_id\":\"{}\",\"entropy_nonce\":\"{}\",\"path_prefix\":\"{}\",\"seed\":{},\"seed_sig\":\"{}\",\"hidden_count\":{},\"requested_hidden_count\":{},\"segment_len\":{}}}",
        token, flow_id, nonce, prefix, seed, sig, hidden, requested, seg_len
    )
    .into_bytes()
}

fn traverse_to_child(store: &mut MemStore, cfg: &Config, suffix: &str) -> String {
    let path = entry_path(suffix);
    let entry = serve_path(store, cfg, path.as_str(), None);
    let entry_page = match entry {
        MazeServeDecision::Serve(r) => r,
        MazeServeDecision::Fallback(_) => panic!("entry should serve maze"),
    };
    let first_link = first_maze_link(entry_page.html.as_str()).expect("first link should exist");
    let child_path = first_link.split('?').next().expect("path should exist").to_string();
    let raw_token = first_link.split("?mt=").nth(1).expect("mt token").to_string();
    let child = serve_path(store, cfg, child_path.as_str(), Some(&raw_token));
    match child {
        MazeServeDecision::Serve(r) => r.html,
        MazeServeDecision::Fallback(_) => panic!("child should serve maze"),
    }
}

#[test]
fn branch_budget_caps_progressive_link_issuance() {
    let mut store = MemStore::new();
    let mut cfg = defaults();
    cfg.maze_token_branch_budget = 1;
    cfg.maze_client_expansion_enabled = true;
    cfg.maze_checkpoint_every_nodes = 100;

    let child_html = traverse_to_child(&mut store, &cfg, "branch-budget-entry");
    let body = issue_body(child_html.as_str(), 6);
    let (status, links) = handle_issue_links(
        &mut store, &cfg, SECRET, SEGMENT, body.as_slice(), "198.51.100.45", "BudgetBot/1.0",
        NOW_MS,
    );
    assert_eq!(status, 200);
    assert_eq!(links.len(), 1);
}

#[test]
fn issue_links_rejects_tampered_seed_signature() {
    let mut store = MemStore::new();
    let mut cfg = defaults();
    cfg.maze_client_expansion_enabled = true;
    cfg.maze_checkpoint_every_nodes = 100;
    cfg.maze_server_visible_links = 1;

    let child_html = traverse_to_child(&mut store, &cfg, "issue-links-entry");
    let valid = issue_body(child_html.as_str(), 2);
    let tampered = String::from_utf8(valid.clone())
        .unwrap()
        .replace("\"seed_sig\":\"", "\"seed_sig\":\"ff");
    let (bad_status, _) = handle_issue_links(
        &mut store, &cfg, SECRET, SEGMENT, tampered.as_bytes(), "198.51.100.45", "BudgetBot/1.0",
        NOW_MS,
    );
    assert_eq!(bad_status, 403);
    let (ok_status, _) = handle_issue_links(
        &mut store, &cfg, SECRET, SEGMENT, valid.as_slice(), "198.51.100.45", "BudgetBot/1.0",
        NOW_MS,
    );
    assert_eq!(ok_status, 200);
}

#[test]
fn issue_links_rejects_parent_token_replay() {
    let mut store = MemStore::new();
    let mut cfg = defaults();
    cfg.maze_client_expansion_enabled = true;
    cfg.maze_server_visible_links = 1;
    cfg.maze_token_branch_budget = 3;
    cfg.maze_checkpoint_every_nodes = 100;

    let child_html = traverse_to_child(&mut store, &cfg, "issue-links-replay-entry");
    let body = issue_body(child_html.as_str(), 1);
    let (first, _) = handle_issue_links(
        &mut store, &cfg, SECRET, SEGMENT, body.as_slice(), "198.51.100.45", "BudgetBot/1.0",
        NOW_MS,
    );
    assert_eq!(first, 200);
    let (replayed, _) = handle_issue_links(
        &mut store, &cfg, SECRET, SEGMENT, body.as_slice(), "198.51.100.45", "BudgetBot/1.0",
        NOW_MS,
    );
    assert_eq!(replayed, 409);
}

#[test]
fn deep_links_carry_micro_pow_difficulty() {
    let mut store = MemStore::new();
    let mut cfg = defaults();
    cfg.maze_micro_pow_depth_start = 1;
    cfg.maze_micro_pow_base_difficulty = 4;

    let path = entry_path("pow-entry");
    let decision = serve_path(&mut store, &cfg, path.as_str(), None);
    let rendered = match decision {
        MazeServeDecision::Serve(r) => r,
        MazeServeDecision::Fallback(_) => panic!("expected maze page"),
    };
    assert!(rendered.html.contains("data-pow-difficulty=\"4\""));
}

fn deep_token(cfg: &Config, path: &str, flow: &str) -> wasm_bot_trap::envelope::OperationEnvelope {
    wasm_bot_trap::envelope::OperationEnvelope {
        operation_id: "deep-op-1".to_owned(),
        flow_id: flow.to_owned(),
        step_id: "maze_traversal".to_owned(),
        step_index: 5,
        token_version: wasm_bot_trap::envelope::TOKEN_VERSION,
        issued_at: NOW_MS / 1000,
        expires_at: NOW_MS / 1000 + cfg.maze_token_ttl_seconds,
        ip_bucket: wasm_bot_trap::buckets::bucket_ip("198.51.100.45"),
        ua_bucket: wasm_bot_trap::buckets::ua_bucket("BudgetBot/1.0"),
        path_class: "maze".to_owned(),
        grid_size: 0,
        transform_count: 0,
        seed_value: 0,
        path_prefix: wasm_bot_trap::maze::path_prefix(SEGMENT),
        path_digest: wasm_bot_trap::maze::token::digest(path),
        depth: 5,
        branch_budget: 2,
        entropy_nonce: "nonce".to_owned(),
        variant_id: 0,
        prev_digest: "pd".to_owned(),
    }
}

#[test]
fn checkpoint_enforcement_blocks_then_admits_after_the_beacon() {
    let mut store = MemStore::new();
    let mut cfg = defaults();
    cfg.maze_client_expansion_enabled = true;
    cfg.maze_checkpoint_every_nodes = 2;
    cfg.maze_no_js_fallback_max_depth = 2;

    let path = entry_path("deep-node");
    let token = deep_token(&cfg, path.as_str(), "deep-flow");
    // The predecessor's chain marker must exist for depth past one.
    let chain_key = wasm_bot_trap::maze::state::token_chain_key("deep-flow", "pd");
    wasm_bot_trap::kv::KeyValueStore::set(&mut store, chain_key.as_str(), b"9999999999")
        .unwrap();
    let raw = wasm_bot_trap::maze::token::sign(&token, SECRET);

    // Past the cadence with no beacon on file: checkpoint-missing.
    let first = serve_path(&mut store, &cfg, path.as_str(), Some(&raw));
    match first {
        MazeServeDecision::Fallback(f) => {
            assert_eq!(f.reason, MazeFallbackReason::CheckpointMissing)
        }
        MazeServeDecision::Serve(_) => panic!("expected checkpoint fallback"),
    }

    // The beacon records the traversal state with a 204.
    let body = format!(
        "{{\"token\":\"{}\",\"flow_id\":\"deep-flow\",\"depth\":5,\"checkpoint_reason\":\"page_load\"}}",
        raw
    );
    let status = wasm_bot_trap::maze::runtime::handle_checkpoint(
        &mut store, &cfg, SECRET, body.as_bytes(), "198.51.100.45", "BudgetBot/1.0", NOW_MS,
    );
    assert_eq!(status, 204);

    // With the checkpoint on file the same token is admitted.
    let second = serve_path(&mut store, &cfg, path.as_str(), Some(&raw));
    match second {
        MazeServeDecision::Serve(rendered) => assert_eq!(rendered.depth, 5),
        MazeServeDecision::Fallback(_) => panic!("expected served page after the beacon"),
    }

    // Presenting the consumed token again is a replay. As the second
    // high-confidence violation of this bucket it takes the escalation
    // action for a count of two: a challenge.
    let third = serve_path(&mut store, &cfg, path.as_str(), Some(&raw));
    match third {
        MazeServeDecision::Fallback(f) => {
            assert_eq!(f.reason, MazeFallbackReason::TokenReplay);
            assert_eq!(f.action, wasm_bot_trap::maze::policy::MazeFallbackAction::Challenge);
        }
        MazeServeDecision::Serve(_) => panic!("expected replay fallback"),
    }
}

#[test]
fn checkpoint_beacon_rejects_a_binding_mismatch() {
    let mut store = MemStore::new();
    let cfg = defaults();
    let path = entry_path("deep-node");
    let token = deep_token(&cfg, path.as_str(), "other-flow");
    let raw = wasm_bot_trap::maze::token::sign(&token, SECRET);
    let body = format!("{{\"token\":\"{}\"}}", raw);
    // A different address fails the binding check.
    let status = wasm_bot_trap::maze::runtime::handle_checkpoint(
        &mut store, &cfg, SECRET, body.as_bytes(), "203.0.113.9", "BudgetBot/1.0", NOW_MS,
    );
    assert_eq!(status, 403);
}

#[test]
fn tampered_token_signature_is_an_invalid_token() {
    // Mint a real maze token, flip one byte of its signature portion,
    // and present it: the fallback reason is an invalid token.
    let mut store = MemStore::new();
    let cfg = defaults();
    let path = entry_path("tamper-flow");
    let token = {
        let child = wasm_bot_trap::maze::token::issue_child_token(
            None,
            path.as_str(),
            wasm_bot_trap::maze::path_prefix(SEGMENT).as_str(),
            wasm_bot_trap::buckets::bucket_ip("198.51.100.45").as_str(),
            wasm_bot_trap::buckets::ua_bucket("BudgetBot/1.0").as_str(),
            cfg.maze_token_ttl_seconds,
            cfg.maze_token_max_depth,
            cfg.maze_token_branch_budget,
            "nonce-a",
            0,
            NOW_MS / 1000,
        );
        wasm_bot_trap::maze::token::sign(&child, SECRET)
    };
    let dot = token.rfind('.').expect("signed token carries a dot");
    let mut bytes = token.clone().into_bytes();
    let flip = dot + 1 + (bytes.len() - dot - 1) / 2;
    bytes[flip] = if bytes[flip] == b'A' { b'B' } else { b'A' };
    let tampered = String::from_utf8(bytes).unwrap();
    let decision = serve_path(&mut store, &cfg, path.as_str(), Some(&tampered));
    match decision {
        MazeServeDecision::Fallback(fallback) => {
            assert_eq!(fallback.reason, MazeFallbackReason::TokenInvalid);
        }
        MazeServeDecision::Serve(_) => panic!("expected fallback decision"),
    }
}

#[test]
fn asset_paths_match_and_serve_their_content() {
    let style = maze_style_path(SEGMENT);
    let script = maze_script_path(SEGMENT);
    let worker = maze_worker_path(SEGMENT);
    let (body, kind) = match_maze_asset(SEGMENT, style.as_str()).expect("style path is an asset");
    assert_eq!(body, MAZE_STYLE_CSS);
    assert_eq!(kind, "text/css");
    let (body, kind) = match_maze_asset(SEGMENT, script.as_str()).expect("script path is an asset");
    assert_eq!(body, MAZE_SCRIPT_JS);
    assert_eq!(kind, "application/javascript");
    let (body, kind) = match_maze_asset(SEGMENT, worker.as_str()).expect("worker path is an asset");
    assert_eq!(body, MAZE_WORKER_JS);
    assert_eq!(kind, "application/javascript");
    assert!(match_maze_asset(SEGMENT, "/_/ab12cd34ef56/assets/other.css").is_none());
}
