// The signed operation envelope: the mint/parse round trip, tampering,
// expiry boundaries, replay and the micro proof-of-work predicate.

use wasm_bot_trap::envelope::{
    make_envelope_token, parse_envelope_token, validate_operation_replay, OperationEnvelope,
    ReplayValidationError, SeedTokenError, TOKEN_VERSION,
};
use wasm_bot_trap::kv::MemStore;

const SECRET: &str = "unit-secret";

fn sample_envelope() -> OperationEnvelope {
    OperationEnvelope {
        operation_id: "op-123".to_owned(),
        flow_id: "flow-9".to_owned(),
        step_id: "challenge_puzzle_submit".to_owned(),
        step_index: 2,
        token_version: TOKEN_VERSION,
        issued_at: 1_700_000_000,
        expires_at: 1_700_000_120,
        ip_bucket: "198.51.100.0".to_owned(),
        ua_bucket: "aabbccddeeff".to_owned(),
        path_class: "challenge_puzzle_submit".to_owned(),
        grid_size: 4,
        transform_count: 3,
        seed_value: 99,
        path_prefix: "/_/ab12cd34ef56/".to_owned(),
        path_digest: "digest".to_owned(),
        depth: 1,
        branch_budget: 3,
        entropy_nonce: "nonce".to_owned(),
        variant_id: 7,
        prev_digest: String::new(),
    }
}

#[test]
fn mint_then_parse_returns_the_same_payload() {
    let envelope = sample_envelope();
    let token = make_envelope_token(&envelope, SECRET);
    let parsed = match parse_envelope_token(token.as_str(), SECRET) {
        Ok(e) => e,
        Err(err) => panic!("round trip failed: {:?}", err),
    };
    assert_eq!(parsed.operation_id, envelope.operation_id);
    assert_eq!(parsed.flow_id, envelope.flow_id);
    assert_eq!(parsed.step_id, envelope.step_id);
    assert_eq!(parsed.step_index, envelope.step_index);
    assert_eq!(parsed.issued_at, envelope.issued_at);
    assert_eq!(parsed.expires_at, envelope.expires_at);
    assert_eq!(parsed.ip_bucket, envelope.ip_bucket);
    assert_eq!(parsed.ua_bucket, envelope.ua_bucket);
    assert_eq!(parsed.depth, envelope.depth);
    assert_eq!(parsed.branch_budget, envelope.branch_budget);
    assert_eq!(parsed.seed_value, envelope.seed_value);
}

#[test]
fn tampered_signature_is_rejected() {
    let envelope = sample_envelope();
    let token = make_envelope_token(&envelope, SECRET);
    // Flip one character of the signature portion.
    let dot = token.find('.').expect("wire form has a dot");
    let mut bytes = token.into_bytes();
    let target = dot + 3;
    bytes[target] = if bytes[target] == b'A' { b'B' } else { b'A' };
    let tampered = String::from_utf8(bytes).unwrap();
    let outcome = parse_envelope_token(tampered.as_str(), SECRET);
    assert!(outcome.is_err());
}

#[test]
fn wrong_secret_is_a_signature_mismatch() {
    let envelope = sample_envelope();
    let token = make_envelope_token(&envelope, SECRET);
    let outcome = parse_envelope_token(token.as_str(), "another-secret");
    assert!(matches!(outcome, Err(SeedTokenError::SignatureMismatch)));
}

#[test]
fn token_without_dot_misses_its_signature() {
    let outcome = parse_envelope_token("justonepiece", SECRET);
    assert!(matches!(outcome, Err(SeedTokenError::MissingSignature)));
}

#[test]
fn replay_boundary_accepts_at_expiry_and_rejects_after() {
    let mut store = MemStore::new();
    // At exactly the expiry second the operation is still accepted.
    let at_boundary = validate_operation_replay(&mut store, "f", "op-a", 500, 500, 60);
    assert!(at_boundary.is_ok());
    // One second past the expiry it is expired.
    let past = validate_operation_replay(&mut store, "f", "op-b", 501, 500, 60);
    assert!(matches!(past, Err(ReplayValidationError::ExpiredOperation)));
}

#[test]
fn second_presentation_is_a_replay() {
    let mut store = MemStore::new();
    let first = validate_operation_replay(&mut store, "flow", "op", 100, 200, 60);
    assert!(first.is_ok());
    let second = validate_operation_replay(&mut store, "flow", "op", 120, 200, 60);
    assert!(matches!(second, Err(ReplayValidationError::ReplayDetected)));
}

#[test]
fn micro_pow_accepts_only_enough_leading_zero_bits() {
    // Difficulty zero accepts any nonce; a found nonce at difficulty
    // eight must hash with at least eight leading zero bits.
    assert!(wasm_bot_trap::maze::token::verify_micro_pow("token", "0", 0));
    let mut found = None;
    for nonce in 0..100000u32 {
        let text = nonce.to_string();
        if wasm_bot_trap::maze::token::verify_micro_pow("token", text.as_str(), 8) {
            found = Some(text);
            break;
        }
    }
    let nonce = found.expect("an eight-bit nonce exists in the search space");
    assert!(wasm_bot_trap::maze::token::verify_micro_pow("token", nonce.as_str(), 8));
    assert!(wasm_bot_trap::maze::token::verify_micro_pow("token", nonce.as_str(), 4));
}

#[test]
fn child_tokens_step_depth_and_shrink_budget() {
    let parent = sample_envelope();
    let child = wasm_bot_trap::maze::token::issue_child_token(
        Some(&parent),
        "/_/ab12cd34ef56/next",
        "/_/ab12cd34ef56/",
        "198.51.100.0",
        "aabbccddeeff",
        300,
        64,
        2,
        "nonce",
        7,
        1_700_000_000,
    );
    assert_eq!(child.depth, parent.depth + 1);
    assert_eq!(child.branch_budget, parent.branch_budget - 1);
    assert!(child.branch_budget >= 1);

    let exhausted = OperationEnvelope { branch_budget: 1, ..sample_envelope() };
    let floor_child = wasm_bot_trap::maze::token::issue_child_token(
        Some(&exhausted),
        "/_/ab12cd34ef56/next",
        "/_/ab12cd34ef56/",
        "198.51.100.0",
        "aabbccddeeff",
        300,
        64,
        1,
        "nonce",
        7,
        1_700_000_000,
    );
    assert_eq!(floor_child.branch_budget, 1);
}
