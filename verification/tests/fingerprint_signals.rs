// Fingerprint signal extraction: header, transport, temporal and
// behavior detectors over the in-memory store.

use wasm_bot_trap::botness::SignalAccumulator;
use wasm_bot_trap::fingerprint::{collect_bot_signals, RequestEvidence};
use wasm_bot_trap::kv::MemStore;

fn evidence(ua: &str, sec_ch_ua: &str) -> RequestEvidence {
    RequestEvidence {
        user_agent: ua.to_owned(),
        sec_ch_ua: sec_ch_ua.to_owned(),
        sec_ch_ua_mobile: String::new(),
        edge_ja3: String::new(),
        edge_ja4: String::new(),
        edge_browser_family: String::new(),
        edge_score_high: false,
        edge_score_present: false,
        has_js_verified_cookie: false,
        has_persistence_cookie: false,
    }
}

fn signal_active(signals: &[wasm_bot_trap::botness::BotSignal], key: &str) -> bool {
    signals
        .iter()
        .find(|signal| signal.key == key)
        .map(|signal| signal.active)
        .unwrap_or(false)
}

#[test]
fn detects_ua_client_hint_mismatch() {
    let mut store = MemStore::new();
    let req = evidence("Mozilla/5.0 Chrome/120.0", "\"Firefox\";v=\"122\"");
    let signals = collect_bot_signals(
        &mut store, &req, true, true, 300, 3, "fp-secret", "203.0.113.10", false, 1_700_000_000,
    );
    assert!(signal_active(&signals, "fp_ua_ch_mismatch"));
}

#[test]
fn detects_ua_transport_family_mismatch_when_headers_are_trusted() {
    let mut store = MemStore::new();
    let mut req = evidence("Mozilla/5.0 Chrome/120.0", "");
    req.edge_browser_family = "firefox".to_owned();
    let signals = collect_bot_signals(
        &mut store, &req, true, true, 300, 3, "fp-secret", "203.0.113.10", true, 1_700_000_000,
    );
    assert!(signal_active(&signals, "fp_ua_transport_mismatch"));
}

#[test]
fn marks_untrusted_transport_headers_as_signal() {
    let mut store = MemStore::new();
    let mut req = evidence("Mozilla/5.0 Chrome/120.0", "");
    req.edge_ja4 = "t13d1516h2_8daaf6152771_b6f405a00624".to_owned();
    let signals = collect_bot_signals(
        &mut store, &req, true, true, 300, 3, "fp-secret", "203.0.113.11", false, 1_700_000_000,
    );
    assert!(signal_active(&signals, "fp_untrusted_transport_header"));
}

#[test]
fn detects_temporal_impossible_transition_in_same_window() {
    let mut store = MemStore::new();
    let req_chrome = evidence("Mozilla/5.0 Chrome/120.0", "");
    let req_safari = evidence("Mozilla/5.0 Version/17.0 Safari/605.1.15", "");
    let _first = collect_bot_signals(
        &mut store, &req_chrome, true, true, 120, 3, "fp-secret", "203.0.113.12", true,
        1_700_000_000,
    );
    let second = collect_bot_signals(
        &mut store, &req_safari, true, true, 120, 3, "fp-secret", "203.0.113.12", true,
        1_700_000_030,
    );
    assert!(signal_active(&second, "fp_temporal_transition"));
}

#[test]
fn detects_flow_violation_after_threshold() {
    let mut store = MemStore::new();
    let req = evidence("Mozilla/5.0 Chrome/120.0", "\"Firefox\";v=\"122\"");
    let _first = collect_bot_signals(
        &mut store, &req, true, true, 300, 2, "fp-secret", "203.0.113.13", true, 1_700_000_000,
    );
    let second = collect_bot_signals(
        &mut store, &req, true, true, 300, 2, "fp-secret", "203.0.113.13", true, 1_700_000_010,
    );
    assert!(signal_active(&second, "fp_flow_violation"));
}

#[test]
fn disabled_pipeline_reports_six_switched_off_signals() {
    let mut store = MemStore::new();
    let req = evidence("Mozilla/5.0 Chrome/120.0", "");
    let signals = collect_bot_signals(
        &mut store, &req, false, true, 300, 3, "fp-secret", "203.0.113.14", false, 1_700_000_000,
    );
    assert_eq!(signals.len(), 6);
    for s in &signals {
        assert!(!s.active);
        assert_eq!(s.contribution, 0);
    }
}

#[test]
fn second_request_with_incompatible_family_bumps_the_score() {
    // The same pseudonymous identity switching browser families inside
    // the window raises the temporal signal and with it the score.
    let mut store = MemStore::new();
    let req_chrome = evidence("Mozilla/5.0 Chrome/120.0", "");
    let req_safari = evidence("Mozilla/5.0 Version/17.0 Safari/605.1.15", "");
    let first = collect_bot_signals(
        &mut store, &req_chrome, true, true, 600, 5, "fp-secret", "198.51.100.77", true,
        1_700_000_000,
    );
    let second = collect_bot_signals(
        &mut store, &req_safari, true, true, 600, 5, "fp-secret", "198.51.100.77", true,
        1_700_000_100,
    );
    let mut acc1 = SignalAccumulator::with_capacity(8);
    for s in first {
        acc1.push(s);
    }
    let (score1, _) = acc1.finish();
    let mut acc2 = SignalAccumulator::with_capacity(8);
    for s in second {
        acc2.push(s);
    }
    let (score2, _) = acc2.finish();
    assert!(score2 > score1);
}
