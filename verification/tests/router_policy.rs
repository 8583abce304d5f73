// Failure-enforcement classification and the per-request decision
// pipeline.

use wasm_bot_trap::router::{abuse_enforcement, AbuseEnforcement};
use wasm_bot_trap::challenge::ChallengeSubmitOutcome;
use wasm_bot_trap::not_a_bot::NotABotSubmitOutcome;
use wasm_bot_trap::rate::RateLimitDecision;
use wasm_bot_trap::router::{
    classify_challenge_failure_enforcement, classify_not_a_bot_failure_enforcement,
    decide_enforcement, route_early, ChallengeFailureEnforcement, EarlyRoute,
    EnforcementDecision,
};

#[test]
fn not_a_bot_failure_policy_routes_user_failures_to_maze() {
    assert_eq!(
        classify_not_a_bot_failure_enforcement(NotABotSubmitOutcome::FailedScore),
        ChallengeFailureEnforcement::MazeFallback
    );
    assert_eq!(
        classify_not_a_bot_failure_enforcement(NotABotSubmitOutcome::Expired),
        ChallengeFailureEnforcement::MazeFallback
    );
}

#[test]
fn not_a_bot_failure_policy_routes_abuse_to_tarpit_or_short_ban() {
    let abuse_outcomes = [
        NotABotSubmitOutcome::Replay,
        NotABotSubmitOutcome::InvalidSeed,
        NotABotSubmitOutcome::MissingSeed,
        NotABotSubmitOutcome::SequenceViolation,
        NotABotSubmitOutcome::BindingMismatch,
        NotABotSubmitOutcome::InvalidTelemetry,
        NotABotSubmitOutcome::AttemptLimitExceeded,
    ];
    for outcome in abuse_outcomes {
        assert_eq!(
            classify_not_a_bot_failure_enforcement(outcome),
            ChallengeFailureEnforcement::TarpitOrShortBan
        );
    }
}

#[test]
fn challenge_puzzle_failure_policy_routes_user_failures_to_maze() {
    let maze_outcomes = [
        ChallengeSubmitOutcome::Incorrect,
        ChallengeSubmitOutcome::SequenceOpExpired,
        ChallengeSubmitOutcome::SequenceWindowExceeded,
        ChallengeSubmitOutcome::SequenceTimingTooSlow,
    ];
    for outcome in maze_outcomes {
        assert_eq!(
            classify_challenge_failure_enforcement(outcome),
            Some(ChallengeFailureEnforcement::MazeFallback)
        );
    }
    assert_eq!(
        classify_challenge_failure_enforcement(ChallengeSubmitOutcome::Solved),
        None
    );
}

#[test]
fn challenge_puzzle_failure_policy_routes_abuse_to_tarpit_or_short_ban() {
    let abuse_outcomes = [
        ChallengeSubmitOutcome::AttemptLimitExceeded,
        ChallengeSubmitOutcome::SequenceOpMissing,
        ChallengeSubmitOutcome::SequenceOpInvalid,
        ChallengeSubmitOutcome::SequenceOpReplay,
        ChallengeSubmitOutcome::SequenceOrderViolation,
        ChallengeSubmitOutcome::SequenceBindingMismatch,
        ChallengeSubmitOutcome::SequenceTimingTooFast,
        ChallengeSubmitOutcome::SequenceTimingTooRegular,
        ChallengeSubmitOutcome::Forbidden,
        ChallengeSubmitOutcome::InvalidOutput,
    ];
    for outcome in abuse_outcomes {
        assert_eq!(
            classify_challenge_failure_enforcement(outcome),
            Some(ChallengeFailureEnforcement::TarpitOrShortBan)
        );
    }
}

#[test]
fn early_router_short_circuits_maze_asset_paths() {
    assert_eq!(route_early("/anything", false, false, true), EarlyRoute::MazeAsset);
}

#[test]
fn early_router_does_not_consume_cdp_report_path() {
    assert_eq!(route_early("/cdp-report", true, false, false), EarlyRoute::Unrouted);
}

#[test]
fn early_router_does_not_consume_unrelated_paths() {
    assert_eq!(route_early("/totally-unrelated", false, false, false), EarlyRoute::Unrouted);
}

#[test]
fn early_router_short_circuits_admin_options() {
    assert_eq!(route_early("/admin/config", false, true, false), EarlyRoute::AdminRefused);
}

#[test]
fn early_router_redirects_dashboard_root_to_index_html() {
    assert_eq!(route_early("/dashboard", false, false, false), EarlyRoute::DashboardRedirect);
}

#[test]
fn early_router_short_circuits_health_path() {
    assert_eq!(route_early("/health", false, false, false), EarlyRoute::Health);
}

#[test]
fn pipeline_orders_ban_maze_rate_honeypot_and_score() {
    // A standing ban blocks before everything else.
    assert_eq!(
        decide_enforcement(true, true, RateLimitDecision::BanWorthy(99), true, 9, 3, 6, true),
        EnforcementDecision::BlockBanned
    );
    // A maze path short-circuits the rate check.
    assert_eq!(
        decide_enforcement(false, true, RateLimitDecision::BanWorthy(99), false, 0, 3, 6, true),
        EnforcementDecision::ServeMaze
    );
    // Rate decisions drive bans and challenges.
    assert_eq!(
        decide_enforcement(false, false, RateLimitDecision::BanWorthy(99), false, 0, 3, 6, true),
        EnforcementDecision::BanAndBlock
    );
    assert_eq!(
        decide_enforcement(false, false, RateLimitDecision::Throttle(61), false, 0, 3, 6, true),
        EnforcementDecision::Challenge
    );
    // A honeypot hit bans.
    assert_eq!(
        decide_enforcement(false, false, RateLimitDecision::Allowed(1), true, 0, 3, 6, true),
        EnforcementDecision::BanAndBlock
    );
    // The botness score picks forward, challenge or maze.
    assert_eq!(
        decide_enforcement(false, false, RateLimitDecision::Allowed(1), false, 2, 3, 6, true),
        EnforcementDecision::Forward
    );
    assert_eq!(
        decide_enforcement(false, false, RateLimitDecision::Allowed(1), false, 4, 3, 6, true),
        EnforcementDecision::Challenge
    );
    assert_eq!(
        decide_enforcement(false, false, RateLimitDecision::Allowed(1), false, 7, 3, 6, true),
        EnforcementDecision::ServeMaze
    );
}

#[test]
fn honeypot_list_matches_exact_entries() {
    assert!(wasm_bot_trap::router::honeypot_match("/trap-a,/trap-b", "/trap-b"));
    assert!(!wasm_bot_trap::router::honeypot_match("/trap-a,/trap-b", "/trap-bb"));
    assert!(!wasm_bot_trap::router::honeypot_match("", "/anything"));
}

#[test]
fn abuse_enforcement_tarpits_or_short_bans() {
    // Test mode records no ban and only blocks.
    assert_eq!(abuse_enforcement(true, true), AbuseEnforcement::TestModeBlock);
    assert_eq!(abuse_enforcement(false, true), AbuseEnforcement::TestModeBlock);
    // With the maze enabled the tarpit takes the request.
    assert_eq!(abuse_enforcement(true, false), AbuseEnforcement::Tarpit);
    // Without it, a six-hundred-second ban is recorded.
    assert_eq!(abuse_enforcement(false, false), AbuseEnforcement::ShortBan(600));
}
