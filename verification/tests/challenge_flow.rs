// The puzzle protocol end to end over the in-memory store: the happy
// path, the replay of a consumed seed, the body cap, and the quiz
// fallback.

use wasm_bot_trap::challenge::{
    build_puzzle, grade_puzzle_submission, handle_challenge_submit_with_outcome_with_limits,
    make_puzzle_seed, serve_challenge_page_with_seed_ttl, ChallengeSubmitOutcome,
};
use wasm_bot_trap::envelope::make_envelope_token;
use wasm_bot_trap::kv::MemStore;
use wasm_bot_trap::not_a_bot::{
    grade_not_a_bot_click, handle_not_a_bot_submit_with_outcome, NotABotDecision,
    NotABotSubmitOutcome, PATH_CLASS_NOT_A_BOT_SUBMIT, STEP_INDEX_NOT_A_BOT_SUBMIT,
    STEP_NOT_A_BOT_SUBMIT,
};

const SECRET: &str = "challenge-secret";

fn submit_body(token: &str, output: &str) -> Vec<u8> {
    format!("seed={}&output={}", token, output).into_bytes()
}

fn expected_output_text(seed: &wasm_bot_trap::envelope::OperationEnvelope) -> String {
    build_puzzle(seed).iter().map(|d| char::from(b'0' + d)).collect()
}

#[test]
fn happy_path_solves_then_rejects_the_replay() {
    let mut store = MemStore::new();
    let ip = "198.51.100.10";
    let ua = "TestUA/1.0";
    let minted_at = 1_700_000_000u64;
    let seed = make_puzzle_seed(ip, ua, 3, 120, minted_at);
    let token = make_envelope_token(&seed, SECRET);
    let body = submit_body(token.as_str(), expected_output_text(&seed).as_str());
    // Three seconds later: above the minimum latency, below the maximum.
    let (status, outcome) = handle_challenge_submit_with_outcome_with_limits(
        &mut store, body.as_slice(), ip, ua, SECRET, 300, 10, minted_at + 3,
    );
    assert_eq!(status, 200);
    assert_eq!(outcome, ChallengeSubmitOutcome::Solved);

    // The same POST again is a replay of a consumed operation.
    let (replay_status, replay_outcome) = handle_challenge_submit_with_outcome_with_limits(
        &mut store, body.as_slice(), ip, ua, SECRET, 300, 10, minted_at + 4,
    );
    assert_eq!(replay_status, 403);
    assert_eq!(replay_outcome, ChallengeSubmitOutcome::SequenceOpReplay);
}

#[test]
fn wrong_output_is_incorrect() {
    let mut store = MemStore::new();
    let ip = "198.51.100.11";
    let ua = "TestUA/1.0";
    let minted_at = 1_700_000_000u64;
    let seed = make_puzzle_seed(ip, ua, 3, 120, minted_at);
    let token = make_envelope_token(&seed, SECRET);
    let mut wrong = expected_output_text(&seed).into_bytes();
    wrong[0] = if wrong[0] == b'0' { b'1' } else { b'0' };
    let body = submit_body(token.as_str(), String::from_utf8(wrong).unwrap().as_str());
    let (status, outcome) = handle_challenge_submit_with_outcome_with_limits(
        &mut store, body.as_slice(), ip, ua, SECRET, 300, 10, minted_at + 3,
    );
    assert_eq!(status, 403);
    assert_eq!(outcome, ChallengeSubmitOutcome::Incorrect);
}

#[test]
fn oversized_body_is_forbidden() {
    let mut store = MemStore::new();
    let body = vec![b'a'; 5000];
    let (status, outcome) = handle_challenge_submit_with_outcome_with_limits(
        &mut store, body.as_slice(), "198.51.100.12", "TestUA/1.0", SECRET, 300, 10,
        1_700_000_000,
    );
    assert_eq!(status, 403);
    assert_eq!(outcome, ChallengeSubmitOutcome::Forbidden);
}

#[test]
fn instant_submission_is_too_fast() {
    let mut store = MemStore::new();
    let ip = "198.51.100.13";
    let ua = "TestUA/1.0";
    let minted_at = 1_700_000_000u64;
    let seed = make_puzzle_seed(ip, ua, 3, 120, minted_at);
    let token = make_envelope_token(&seed, SECRET);
    let body = submit_body(token.as_str(), expected_output_text(&seed).as_str());
    let (status, outcome) = handle_challenge_submit_with_outcome_with_limits(
        &mut store, body.as_slice(), ip, ua, SECRET, 300, 10, minted_at,
    );
    assert_eq!(status, 403);
    assert_eq!(outcome, ChallengeSubmitOutcome::SequenceTimingTooFast);
}

#[test]
fn attempt_cap_forbids_the_excess_attempt() {
    let mut store = MemStore::new();
    let ip = "198.51.100.14";
    let ua = "TestUA/1.0";
    let body = b"seed=&output=1";
    for _ in 0..2 {
        let (_s, _o) = handle_challenge_submit_with_outcome_with_limits(
            &mut store, body.as_slice(), ip, ua, SECRET, 300, 2, 1_700_000_000,
        );
    }
    let (status, outcome) = handle_challenge_submit_with_outcome_with_limits(
        &mut store, body.as_slice(), ip, ua, SECRET, 300, 2, 1_700_000_000,
    );
    assert_eq!(status, 403);
    assert_eq!(outcome, ChallengeSubmitOutcome::AttemptLimitExceeded);
}

#[test]
fn page_serves_only_in_test_mode() {
    let (off, _) = serve_challenge_page_with_seed_ttl(
        "198.51.100.10", "TestUA/1.0", SECRET, false, 3, 120, 1_700_000_000,
    );
    assert_eq!(off, 404);
    let (on, page) = serve_challenge_page_with_seed_ttl(
        "198.51.100.10", "TestUA/1.0", SECRET, true, 3, 120, 1_700_000_000,
    );
    assert_eq!(on, 200);
    assert!(page.contains("name=\"seed\""));
}

#[test]
fn test_handle_quiz_submit_correct_and_incorrect() {
    let mut store = MemStore::new();
    let ip = "1.2.3.4";
    let key = wasm_bot_trap::quiz::quiz_key(ip);
    wasm_bot_trap::kv::KeyValueStore::set(&mut store, key.as_str(), b"42:add").unwrap();
    // Correct answer
    let body = format!("answer=42&ip={}", ip).into_bytes();
    let (status, page) = wasm_bot_trap::quiz::handle_quiz_submit(&mut store, body.as_slice());
    assert_eq!(status, 200);
    assert!(page.contains("Thank you!"));
    // Incorrect answer
    wasm_bot_trap::kv::KeyValueStore::set(&mut store, key.as_str(), b"42:add").unwrap();
    let body = format!("answer=99&ip={}", ip).into_bytes();
    let (status, page) = wasm_bot_trap::quiz::handle_quiz_submit(&mut store, body.as_slice());
    assert_eq!(status, 403);
    assert!(page.contains("Incorrect answer"));
}

#[test]
fn test_serve_quiz_stores_answer() {
    let mut store = MemStore::new();
    let ip = "1.2.3.4";
    let (status, _page) = wasm_bot_trap::quiz::serve_quiz(&mut store, ip);
    assert_eq!(status, 200);
    let key = wasm_bot_trap::quiz::quiz_key(ip);
    let val = wasm_bot_trap::kv::KeyValueStore::get(&store, key.as_str())
        .unwrap()
        .expect("Quiz answer should be stored");
    let stored = String::from_utf8(val).unwrap();
    let answer_str = stored.split(':').next().unwrap();
    let answer: u32 = answer_str.parse().unwrap();
    assert!(answer >= 4 && answer <= 198);
}

#[test]
fn not_a_bot_pass_sets_the_marker_cookie() {
    let mut store = MemStore::new();
    let ip = "198.51.100.20";
    let ua = "TestUA/1.0";
    let minted_at = 1_700_000_000u64;
    let mut seed = make_puzzle_seed(ip, ua, 0, 120, minted_at);
    seed.step_id = STEP_NOT_A_BOT_SUBMIT.to_owned();
    seed.step_index = STEP_INDEX_NOT_A_BOT_SUBMIT;
    seed.path_class = PATH_CLASS_NOT_A_BOT_SUBMIT.to_owned();
    let token = make_envelope_token(&seed, SECRET);
    let telemetry = "clicks=1";
    let sig: String = {
        // hex HMAC over the telemetry field, as the page script sends it
        let tag = wasm_bot_trap::crypto::hmac_sha256(SECRET.as_bytes(), telemetry.as_bytes());
        wasm_bot_trap::crypto::bytes_to_hex(tag.as_slice())
    };
    let body = format!(
        "seed={}&telemetry={}&telemetry_sig={}&solve_ms=1500",
        token, telemetry, sig
    )
    .into_bytes();
    let result = handle_not_a_bot_submit_with_outcome(
        &mut store, body.as_slice(), ip, ua, SECRET, 600, 10, minted_at + 3,
    );
    assert_eq!(result.outcome, NotABotSubmitOutcome::Pass);
    assert_eq!(result.decision, NotABotDecision::Pass);
    assert!(result.marker_cookie.is_some());
}

#[test]
fn not_a_bot_failed_score_escalates_to_the_puzzle() {
    let mut store = MemStore::new();
    let ip = "198.51.100.21";
    let ua = "TestUA/1.0";
    let minted_at = 1_700_000_000u64;
    let mut seed = make_puzzle_seed(ip, ua, 0, 120, minted_at);
    seed.step_id = STEP_NOT_A_BOT_SUBMIT.to_owned();
    seed.step_index = STEP_INDEX_NOT_A_BOT_SUBMIT;
    seed.path_class = PATH_CLASS_NOT_A_BOT_SUBMIT.to_owned();
    let token = make_envelope_token(&seed, SECRET);
    let telemetry = "clicks=1";
    let sig: String = {
        let tag = wasm_bot_trap::crypto::hmac_sha256(SECRET.as_bytes(), telemetry.as_bytes());
        wasm_bot_trap::crypto::bytes_to_hex(tag.as_slice())
    };
    // A 50 ms click is implausibly fast: valid telemetry, failed score.
    let body = format!(
        "seed={}&telemetry={}&telemetry_sig={}&solve_ms=50",
        token, telemetry, sig
    )
    .into_bytes();
    let result = handle_not_a_bot_submit_with_outcome(
        &mut store, body.as_slice(), ip, ua, SECRET, 600, 10, minted_at + 3,
    );
    assert_eq!(result.outcome, NotABotSubmitOutcome::FailedScore);
    assert_eq!(result.decision, NotABotDecision::EscalatePuzzle);
    assert!(result.marker_cookie.is_none());
}

#[test]
fn not_a_bot_attempts_over_the_window_cap_are_limited() {
    let mut store = MemStore::new();
    let ip = "198.51.100.22";
    let ua = "TestUA/1.0";
    let now = 1_700_000_000u64;
    let body = b"seed=&solve_ms=1500";
    // A cap of two attempts per window: the third in the same window
    // exceeds it before any seed parsing happens.
    for _ in 0..2 {
        let result = handle_not_a_bot_submit_with_outcome(
            &mut store, body.as_slice(), ip, ua, SECRET, 600, 2, now,
        );
        assert_ne!(result.outcome, NotABotSubmitOutcome::AttemptLimitExceeded);
    }
    let result = handle_not_a_bot_submit_with_outcome(
        &mut store, body.as_slice(), ip, ua, SECRET, 600, 2, now,
    );
    assert_eq!(result.outcome, NotABotSubmitOutcome::AttemptLimitExceeded);
    assert_eq!(result.decision, NotABotDecision::MazeOrBlock);
    // A later window starts the count over.
    let result = handle_not_a_bot_submit_with_outcome(
        &mut store, body.as_slice(), ip, ua, SECRET, 600, 2, now + 600,
    );
    assert_ne!(result.outcome, NotABotSubmitOutcome::AttemptLimitExceeded);
}

#[test]
fn expiry_boundary_accepts_at_expiry_and_rejects_one_second_later() {
    let ip = "198.51.100.23";
    let ua = "TestUA/1.0";
    let minted_at = 1_700_000_000u64;
    // At exactly now == expires_at the envelope is still accepted.
    let mut store = MemStore::new();
    let seed = make_puzzle_seed(ip, ua, 3, 120, minted_at);
    let token = make_envelope_token(&seed, SECRET);
    let body = submit_body(token.as_str(), expected_output_text(&seed).as_str());
    let (status, outcome) = handle_challenge_submit_with_outcome_with_limits(
        &mut store, body.as_slice(), ip, ua, SECRET, 300, 10, minted_at + 120,
    );
    assert_eq!(status, 200);
    assert_eq!(outcome, ChallengeSubmitOutcome::Solved);
    // One second past the expiry it is rejected as expired.
    let mut store = MemStore::new();
    let seed = make_puzzle_seed(ip, ua, 3, 120, minted_at);
    let token = make_envelope_token(&seed, SECRET);
    let body = submit_body(token.as_str(), expected_output_text(&seed).as_str());
    let (status, outcome) = handle_challenge_submit_with_outcome_with_limits(
        &mut store, body.as_slice(), ip, ua, SECRET, 300, 10, minted_at + 121,
    );
    assert_eq!(status, 403);
    assert_eq!(outcome, ChallengeSubmitOutcome::SequenceOpExpired);
}

#[test]
fn grading_solves_once_and_replays_after() {
    let mut store = MemStore::new();
    let ip = "198.51.100.24";
    let ua = "TestUA/1.0";
    let minted_at = 1_700_000_000u64;
    let seed = make_puzzle_seed(ip, ua, 3, 120, minted_at);
    let output = expected_output_text(&seed);
    // A timely, bound, first-seen seed with the recomputed output solves.
    let outcome = grade_puzzle_submission(
        &mut store, &seed, output.as_str(), ip, ua, minted_at + 3,
    );
    assert_eq!(outcome, ChallengeSubmitOutcome::Solved);
    // The same presentation a second later is a replay.
    let outcome = grade_puzzle_submission(
        &mut store, &seed, output.as_str(), ip, ua, minted_at + 4,
    );
    assert_eq!(outcome, ChallengeSubmitOutcome::SequenceOpReplay);
    // A wrong digit on a fresh seed is incorrect, not a replay.
    let mut store = MemStore::new();
    let seed = make_puzzle_seed(ip, ua, 3, 120, minted_at);
    let mut wrong = expected_output_text(&seed).into_bytes();
    wrong[0] = if wrong[0] == b'0' { b'1' } else { b'0' };
    let outcome = grade_puzzle_submission(
        &mut store,
        &seed,
        String::from_utf8(wrong).unwrap().as_str(),
        ip,
        ua,
        minted_at + 3,
    );
    assert_eq!(outcome, ChallengeSubmitOutcome::Incorrect);
}

#[test]
fn click_grading_passes_once_and_replays_after() {
    let mut store = MemStore::new();
    let ip = "198.51.100.25";
    let ua = "TestUA/1.0";
    let minted_at = 1_700_000_000u64;
    let mut seed = make_puzzle_seed(ip, ua, 0, 120, minted_at);
    seed.step_id = STEP_NOT_A_BOT_SUBMIT.to_owned();
    seed.step_index = STEP_INDEX_NOT_A_BOT_SUBMIT;
    seed.path_class = PATH_CLASS_NOT_A_BOT_SUBMIT.to_owned();
    let telemetry = "clicks=1".to_string();
    let sig = {
        let tag = wasm_bot_trap::crypto::hmac_sha256(SECRET.as_bytes(), telemetry.as_bytes());
        wasm_bot_trap::crypto::bytes_to_hex(tag.as_slice())
    };
    // A timely, bound, first-seen seed with verified telemetry passes.
    let outcome = grade_not_a_bot_click(
        &mut store, &seed, Some(&telemetry), Some(&sig), Some(1500), ip, ua, SECRET,
        minted_at + 3,
    );
    assert_eq!(outcome, NotABotSubmitOutcome::Pass);
    // The same presentation a second later is a replay.
    let outcome = grade_not_a_bot_click(
        &mut store, &seed, Some(&telemetry), Some(&sig), Some(1500), ip, ua, SECRET,
        minted_at + 4,
    );
    assert_eq!(outcome, NotABotSubmitOutcome::Replay);
    // A tampered telemetry signature is invalid telemetry.
    let mut store = MemStore::new();
    let outcome = grade_not_a_bot_click(
        &mut store, &seed, Some(&telemetry), Some(&telemetry), Some(1500), ip, ua, SECRET,
        minted_at + 3,
    );
    assert_eq!(outcome, NotABotSubmitOutcome::InvalidTelemetry);
}
