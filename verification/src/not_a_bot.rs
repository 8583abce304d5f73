//! The not-a-bot click challenge: a signed envelope at its submit
//! step, telemetry checks, and the pass/escalate/fallback decision.

use vstd::prelude::*;

use crate::envelope::{
    validate_operation_replay, validate_ordering_window, validate_request_binding,
    validate_signed_operation_envelope, OrderingValidationError, ReplayValidationError,
};
use crate::kv::KeyValueStore;
use vstd::string::StringSliceAdditionalSpecFns;

verus! {

/// The click flow identifier.
pub const FLOW_NOT_A_BOT: &'static str = "not_a_bot";

/// The click submission step identifier.
pub const STEP_NOT_A_BOT_SUBMIT: &'static str = "not_a_bot_submit";

/// The click submission step index.
pub const STEP_INDEX_NOT_A_BOT_SUBMIT: u32 = 2;

/// The click submission path class.
pub const PATH_CLASS_NOT_A_BOT_SUBMIT: &'static str = "not_a_bot_submit";

/// The widest envelope lifetime the click flow accepts.
pub const MAX_STEP_WINDOW_SECONDS_NOT_A_BOT: u64 = 180;

/// The fastest plausible human click.
pub const MIN_STEP_LATENCY_SECONDS_NOT_A_BOT: u64 = 1;

/// The slowest accepted click.
pub const MAX_STEP_LATENCY_SECONDS_NOT_A_BOT: u64 = 150;

/// How long a consumed operation id blocks replays.
pub const REPLAY_TTL_SECONDS_NOT_A_BOT: u64 = 600;

/// How one click submission ended.
#[derive(Clone, Copy, Debug, PartialEq, Eq, Structural)]
pub enum NotABotSubmitOutcome {
    Pass,
    EscalatePuzzle,
    Replay,
    InvalidSeed,
    MissingSeed,
    SequenceViolation,
    BindingMismatch,
    InvalidTelemetry,
    AttemptLimitExceeded,
    FailedScore,
    Expired,
    MazeOrBlock,
}

/// What the router does with the outcome.
#[derive(Clone, Copy, Debug, PartialEq, Eq, Structural)]
pub enum NotABotDecision {
    Pass,
    EscalatePuzzle,
    MazeOrBlock,
}

/// The full result of one click submission.
pub struct NotABotSubmitResult {
    pub outcome: NotABotSubmitOutcome,
    pub decision: NotABotDecision,
    pub return_to: String,
    pub solve_ms: Option<u64>,
    pub marker_cookie: Option<String>,
}

/// The decision each outcome maps to: a pass passes; a failed score —
/// a click whose telemetry verified but whose reported solve time is
/// implausible — escalates to the puzzle; everything else falls
/// through to the maze or block.
pub open spec fn spec_decision_for(outcome: NotABotSubmitOutcome) -> NotABotDecision {
    match outcome {
        NotABotSubmitOutcome::Pass => NotABotDecision::Pass,
        NotABotSubmitOutcome::EscalatePuzzle => NotABotDecision::EscalatePuzzle,
        NotABotSubmitOutcome::FailedScore => NotABotDecision::EscalatePuzzle,
        _ => NotABotDecision::MazeOrBlock,
    }
}

pub fn decision_for(outcome: NotABotSubmitOutcome) -> (r: NotABotDecision)
    ensures
        r == spec_decision_for(outcome),
{
    match outcome {
        NotABotSubmitOutcome::Pass => NotABotDecision::Pass,
        NotABotSubmitOutcome::EscalatePuzzle => NotABotDecision::EscalatePuzzle,
        NotABotSubmitOutcome::FailedScore => NotABotDecision::EscalatePuzzle,
        _ => NotABotDecision::MazeOrBlock,
    }
}

/// The click-attempt counter key for a bucket.
pub fn not_a_bot_attempt_key(ip_bucket: &str) -> (r: String)
    ensures
        r@ == "not_a_bot:attempt:"@ + ip_bucket@,
{
    let mut out = "not_a_bot:attempt:".to_owned();
    out.append(ip_bucket);
    assert(out@ =~= "not_a_bot:attempt:"@ + ip_bucket@);
    out
}

/// Count one click attempt in the bucket's window and report whether
/// the cap is now exceeded; a window older than its span starts over.
/// On a store that answers, the stored record and the verdict are
/// exact.
pub fn increment_and_check_not_a_bot_attempts<S: KeyValueStore>(
    store: &mut S,
    ip_bucket: &str,
    now: u64,
    attempt_window_seconds: u64,
    attempt_limit_per_window: u32,
) -> (r: bool)
    requires
        old(store).inv(),
    ensures
        final(store).inv(),
        final(store).reliable() == old(store).reliable(),
        old(store).reliable() ==> {
            let key = "not_a_bot:attempt:"@ + ip_bucket@;
            let next = crate::challenge::spec_attempt_after(
                old(store).kv(),
                key,
                now,
                attempt_window_seconds,
            );
            &&& r == (next.count > attempt_limit_per_window)
            &&& final(store).kv() == old(store).kv().insert(
                key,
                crate::challenge::attempt_state_bytes(next),
            )
        },
{
    let key = not_a_bot_attempt_key(ip_bucket);
    let ghost gkey = "not_a_bot:attempt:"@ + ip_bucket@;
    let mut state = crate::challenge::AttemptState { window_start: now, count: 0 };
    let mut decoded = false;
    match store.get(key.as_str()) {
        Ok(Some(raw)) => {
            match crate::challenge::decode_attempt_state_bytes(raw.as_slice()) {
                Some(s) => {
                    proof {
                        if old(store).reliable() {
                            assert(old(store).kv()[gkey]
                                == crate::challenge::attempt_state_bytes(s));
                            assert(crate::challenge::attempt_stored(old(store).kv(), gkey, s));
                            assert forall|x: crate::challenge::AttemptState|
                                crate::challenge::attempt_stored(old(store).kv(), gkey, x)
                                implies crate::challenge::attempt_state_fields(x)
                                == crate::challenge::attempt_state_fields(s) by {
                                assert(raw@ == crate::challenge::attempt_state_bytes(x));
                            }
                        }
                    }
                    state = s;
                    decoded = true;
                },
                None => {
                    proof {
                        if old(store).reliable() {
                            assert forall|x: crate::challenge::AttemptState|
                                crate::challenge::attempt_stored(old(store).kv(), gkey, x)
                                implies false by {
                                assert(raw@ == crate::challenge::attempt_state_bytes(x));
                            }
                        }
                    }
                },
            }
        },
        _ => {
            proof {
                if old(store).reliable() {
                    assert(!old(store).kv().contains_key(gkey));
                }
            }
        },
    }
    proof {
        if old(store).reliable() {
            if decoded {
                let w = choose|x: crate::challenge::AttemptState|
                    #[trigger] crate::challenge::attempt_stored(old(store).kv(), gkey, x);
                assert(crate::challenge::attempt_state_fields(w)
                    == crate::challenge::attempt_state_fields(state));
                assert(crate::challenge::attempt_state_fields(w)[0]
                    == crate::challenge::attempt_state_fields(state)[0]);
                assert(crate::challenge::attempt_state_fields(w)[1]
                    == crate::challenge::attempt_state_fields(state)[1]);
                assert(w.window_start == state.window_start);
                assert(w.count as u64 == state.count as u64);
            } else {
                assert(!(exists|x: crate::challenge::AttemptState|
                    #[trigger] crate::challenge::attempt_stored(old(store).kv(), gkey, x)));
            }
        }
    }
    let age = if now > state.window_start {
        now - state.window_start
    } else {
        0
    };
    if age >= attempt_window_seconds {
        state.window_start = now;
        state.count = 0;
    }
    state.count = if state.count < 0xffff_ffffu32 {
        state.count + 1
    } else {
        state.count
    };
    let raw = crate::challenge::encode_attempt_state_bytes(&state);
    let outcome = store.set(key.as_str(), raw.as_slice());
    proof {
        if old(store).reliable() {
            assert(outcome is Ok);
            let next = crate::challenge::spec_attempt_after(
                old(store).kv(),
                gkey,
                now,
                attempt_window_seconds,
            );
            assert(next.window_start == state.window_start && next.count == state.count);
            assert(final(store).kv() == old(store).kv().insert(gkey, raw@));
        }
    }
    state.count > attempt_limit_per_window
}

/// The pass marker cookie: the base64 HMAC of the address under the
/// deployment secret.
pub fn marker_cookie_for(ip: &str, secret: &str) -> (r: String)
    ensures
        r@ == "nab_pass="@ + crate::crypto::b64_of(
            crate::crypto::hmac_sha256_of(
                secret.spec_bytes(),
                vstd::utf8::encode_utf8(ip@),
            ),
        ) + "; Path=/; SameSite=Strict; Max-Age=86400"@,
{
    let tag = crate::crypto::hmac_sha256(secret.as_bytes(), ip.as_bytes());
    let b64 = crate::crypto::b64_encode(tag.as_slice());
    let mut out = "nab_pass=".to_owned();
    out.append(b64.as_str());
    out.append("; Path=/; SameSite=Strict; Max-Age=86400");
    assert(out@ =~= "nab_pass="@ + b64@ + "; Path=/; SameSite=Strict; Max-Age=86400"@);
    out
}

/// The graded outcome of one parsed click submission over the store
/// contents `m`: the step-agnostic checks, the expiry boundary, the
/// ordering window, the request binding, the single-use marker, the
/// telemetry signature, and the plausibility of the reported solve
/// time. A timely, bound, first-seen seed with verified telemetry and
/// a plausible solve time passes; an implausible one fails the score.
pub open spec fn spec_grade_click(
    m: crate::kv::KvMap,
    seed: crate::envelope::OperationEnvelope,
    telemetry: Option<Seq<char>>,
    telemetry_sig: Option<Seq<char>>,
    solve_ms: Option<u64>,
    ip: Seq<char>,
    ua: Seq<char>,
    secret: Seq<u8>,
    now: u64,
) -> NotABotSubmitOutcome {
    let rkey = crate::envelope::replay_key_of(seed.flow_id@, seed.operation_id@);
    if crate::envelope::spec_validate_signed(seed, MAX_STEP_WINDOW_SECONDS_NOT_A_BOT) is Err {
        NotABotSubmitOutcome::InvalidSeed
    } else if now > seed.expires_at {
        NotABotSubmitOutcome::Expired
    } else if crate::envelope::spec_validate_ordering(
        seed.flow_id@,
        seed.step_id@,
        seed.step_index,
        seed.issued_at,
        now,
        seed.flow_id@,
        "not_a_bot_submit"@,
        STEP_INDEX_NOT_A_BOT_SUBMIT,
        MAX_STEP_WINDOW_SECONDS_NOT_A_BOT,
    ) == Err::<(), OrderingValidationError>(OrderingValidationError::OrderViolation) {
        NotABotSubmitOutcome::SequenceViolation
    } else if crate::envelope::spec_validate_ordering(
        seed.flow_id@,
        seed.step_id@,
        seed.step_index,
        seed.issued_at,
        now,
        seed.flow_id@,
        "not_a_bot_submit"@,
        STEP_INDEX_NOT_A_BOT_SUBMIT,
        MAX_STEP_WINDOW_SECONDS_NOT_A_BOT,
    ) is Err {
        NotABotSubmitOutcome::Expired
    } else if !crate::envelope::binding_matches(
        seed.ip_bucket@,
        seed.ua_bucket@,
        seed.path_class@,
        ip,
        ua,
        "not_a_bot_submit"@,
    ) {
        NotABotSubmitOutcome::BindingMismatch
    } else if crate::envelope::spec_replay_decision(m, rkey, now, seed.expires_at) == Err::<
        (),
        ReplayValidationError,
    >(ReplayValidationError::ReplayDetected) {
        NotABotSubmitOutcome::Replay
    } else if !(telemetry_sig matches Some(sg) && telemetry matches Some(t) && sg
        == crate::crypto::hex_of(
        crate::crypto::hmac_sha256_of(secret, vstd::utf8::encode_utf8(t)),
    )) {
        NotABotSubmitOutcome::InvalidTelemetry
    } else if !(solve_ms matches Some(ms) && 400 <= ms && ms <= 150000) {
        NotABotSubmitOutcome::FailedScore
    } else {
        NotABotSubmitOutcome::Pass
    }
}

/// Grade one parsed click submission: run the validator pipeline in
/// order, record the single-use marker, check the telemetry signature
/// and the reported solve time. On a store that answers the outcome is
/// exactly the graded decision over the prior store contents.
pub fn grade_not_a_bot_click<S: KeyValueStore>(
    store: &mut S,
    seed: &crate::envelope::OperationEnvelope,
    telemetry: Option<&String>,
    telemetry_sig: Option<&String>,
    solve_ms: Option<u64>,
    ip: &str,
    user_agent: &str,
    secret: &str,
    now: u64,
) -> (r: NotABotSubmitOutcome)
    requires
        old(store).inv(),
        now + REPLAY_TTL_SECONDS_NOT_A_BOT <= u64::MAX,
    ensures
        final(store).inv(),
        final(store).reliable() == old(store).reliable(),
        old(store).reliable() ==> r == spec_grade_click(
            old(store).kv(),
            *seed,
            (match telemetry {
                Some(t) => Some(t@),
                None => None,
            }),
            (match telemetry_sig {
                Some(sg) => Some(sg@),
                None => None,
            }),
            solve_ms,
            ip@,
            user_agent@,
            secret.spec_bytes(),
            now,
        ),
{
    match validate_signed_operation_envelope(seed, MAX_STEP_WINDOW_SECONDS_NOT_A_BOT) {
        Ok(_) => {},
        Err(_) => {
            return NotABotSubmitOutcome::InvalidSeed;
        },
    }
    if now > seed.expires_at {
        return NotABotSubmitOutcome::Expired;
    }
    match validate_ordering_window(
        seed.flow_id.as_str(),
        seed.step_id.as_str(),
        seed.step_index,
        seed.issued_at,
        now,
        seed.flow_id.as_str(),
        STEP_NOT_A_BOT_SUBMIT,
        STEP_INDEX_NOT_A_BOT_SUBMIT,
        MAX_STEP_WINDOW_SECONDS_NOT_A_BOT,
    ) {
        Ok(_) => {},
        Err(OrderingValidationError::OrderViolation) => {
            return NotABotSubmitOutcome::SequenceViolation;
        },
        Err(OrderingValidationError::WindowExceeded) => {
            return NotABotSubmitOutcome::Expired;
        },
    }
    match validate_request_binding(
        seed.ip_bucket.as_str(),
        seed.ua_bucket.as_str(),
        seed.path_class.as_str(),
        ip,
        user_agent,
        PATH_CLASS_NOT_A_BOT_SUBMIT,
    ) {
        Ok(_) => {},
        Err(_) => {
            return NotABotSubmitOutcome::BindingMismatch;
        },
    }
    match validate_operation_replay(
        store,
        seed.flow_id.as_str(),
        seed.operation_id.as_str(),
        now,
        seed.expires_at,
        REPLAY_TTL_SECONDS_NOT_A_BOT,
    ) {
        Ok(_) => {},
        Err(ReplayValidationError::ReplayDetected) => {
            return NotABotSubmitOutcome::Replay;
        },
        Err(ReplayValidationError::ExpiredOperation) => {
            return NotABotSubmitOutcome::Expired;
        },
    }
    let sig = match telemetry_sig {
        Some(sg) => sg,
        None => {
            return NotABotSubmitOutcome::InvalidTelemetry;
        },
    };
    let tel = match telemetry {
        Some(t) => t,
        None => {
            return NotABotSubmitOutcome::InvalidTelemetry;
        },
    };
    let expected_sig = crate::crypto::bytes_to_hex(
        crate::crypto::hmac_sha256(secret.as_bytes(), tel.as_str().as_bytes()).as_slice(),
    );
    if !crate::text::str_eq(sig.as_str(), expected_sig.as_str()) {
        return NotABotSubmitOutcome::InvalidTelemetry;
    }
    let plausible = match solve_ms {
        Some(ms) => ms >= 400 && ms <= 150000,
        None => false,
    };
    if !plausible {
        return NotABotSubmitOutcome::FailedScore;
    }
    NotABotSubmitOutcome::Pass
}

/// Handle one not-a-bot click: the body cap, the per-window attempt
/// cap, the seed envelope with its ordering, binding and replay
/// checks, the telemetry signature, and the plausibility of the
/// reported solve time. A pass carries the marker cookie; a failed
/// score escalates to the puzzle.
pub fn handle_not_a_bot_submit_with_outcome<S: KeyValueStore>(
    store: &mut S,
    body: &[u8],
    ip: &str,
    user_agent: &str,
    secret: &str,
    attempt_window_seconds: u64,
    attempt_limit_per_window: u32,
    now: u64,
) -> (r: NotABotSubmitResult)
    requires
        old(store).inv(),
        now + REPLAY_TTL_SECONDS_NOT_A_BOT <= u64::MAX,
    ensures
        final(store).inv(),
        final(store).reliable() == old(store).reliable(),
        r.decision == spec_decision_for(r.outcome),
        r.outcome is Pass ==> r.marker_cookie is Some,
        r.outcome is FailedScore ==> r.decision is EscalatePuzzle,
        body@.len() > 4096 ==> (r.outcome is InvalidTelemetry && final(store).kv() == old(
            store,
        ).kv()),
{
    let return_to = "/".to_owned();
    if body.len() > crate::request_validation::MAX_CHALLENGE_FORM_BYTES {
        let outcome = NotABotSubmitOutcome::InvalidTelemetry;
        return NotABotSubmitResult {
            outcome,
            decision: decision_for(outcome),
            return_to,
            solve_ms: None,
            marker_cookie: None,
        };
    }
    let owned = vstd::slice::slice_to_vec(body);
    let form = match crate::crypto::string_from_utf8(owned) {
        Ok(s) => s,
        Err(_) => {
            let outcome = NotABotSubmitOutcome::InvalidTelemetry;
            return NotABotSubmitResult {
                outcome,
                decision: decision_for(outcome),
                return_to,
                solve_ms: None,
                marker_cookie: None,
            };
        },
    };
    let ip_bucket = crate::buckets::bucket_ip(ip);
    if increment_and_check_not_a_bot_attempts(
        store,
        ip_bucket.as_str(),
        now,
        attempt_window_seconds,
        attempt_limit_per_window,
    ) {
        let outcome = NotABotSubmitOutcome::AttemptLimitExceeded;
        return NotABotSubmitResult {
            outcome,
            decision: decision_for(outcome),
            return_to,
            solve_ms: None,
            marker_cookie: None,
        };
    }
    let seed_token = match crate::challenge::get_form_field(form.as_str(), "seed") {
        Some(t) => t,
        None => {
            let outcome = NotABotSubmitOutcome::MissingSeed;
            return NotABotSubmitResult {
                outcome,
                decision: decision_for(outcome),
                return_to,
                solve_ms: None,
                marker_cookie: None,
            };
        },
    };
    let seed = match crate::envelope::parse_envelope_token(seed_token.as_str(), secret) {
        Ok(e) => e,
        Err(_) => {
            let outcome = NotABotSubmitOutcome::InvalidSeed;
            return NotABotSubmitResult {
                outcome,
                decision: decision_for(outcome),
                return_to,
                solve_ms: None,
                marker_cookie: None,
            };
        },
    };
    let telemetry_sig = crate::challenge::get_form_field(form.as_str(), "telemetry_sig");
    let telemetry = crate::challenge::get_form_field(form.as_str(), "telemetry");
    let solve_ms: Option<u64> = match crate::challenge::get_form_field(form.as_str(), "solve_ms") {
        Some(v) => crate::text::parse_u64(v.as_str()),
        None => None,
    };
    let outcome = grade_not_a_bot_click(
        store,
        &seed,
        telemetry.as_ref(),
        telemetry_sig.as_ref(),
        solve_ms,
        ip,
        user_agent,
        secret,
        now,
    );
    match outcome {
        NotABotSubmitOutcome::Pass => NotABotSubmitResult {
            outcome,
            decision: decision_for(outcome),
            return_to,
            solve_ms,
            marker_cookie: Some(marker_cookie_for(ip, secret)),
        },
        NotABotSubmitOutcome::FailedScore => NotABotSubmitResult {
            outcome,
            decision: decision_for(outcome),
            return_to,
            solve_ms,
            marker_cookie: None,
        },
        _ => NotABotSubmitResult {
            outcome,
            decision: decision_for(outcome),
            return_to,
            solve_ms: None,
            marker_cookie: None,
        },
    }
}

} // verus!
