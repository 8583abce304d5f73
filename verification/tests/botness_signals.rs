// The signal accumulator: ordering, saturation, confidence scaling and
// the fingerprint budget caps.

use wasm_bot_trap::botness::{
    BotSignal, SignalAccumulator, SignalAvailability, SignalBudgetPolicy, SignalFamily,
    SignalProvenance,
};

#[test]
fn accumulator_keeps_signal_order_and_score() {
    let mut accumulator = SignalAccumulator::with_capacity(2);
    accumulator.push(BotSignal::scored("a", "A", true, 3));
    accumulator.push(BotSignal::scored("b", "B", false, 3));

    let (score, signals) = accumulator.finish();
    assert_eq!(score, 3);
    assert_eq!(signals[0].key, "a");
    assert_eq!(signals[1].key, "b");
    assert_eq!(signals[0].availability, SignalAvailability::Active);
    assert_eq!(signals[1].availability, SignalAvailability::Active);
}

#[test]
fn accumulator_saturates_to_botness_cap() {
    let mut accumulator = SignalAccumulator::with_capacity(2);
    accumulator.push(BotSignal::scored("a", "A", true, 9));
    accumulator.push(BotSignal::scored("b", "B", true, 9));

    let (score, _signals) = accumulator.finish();
    assert_eq!(score, 10);
}

#[test]
fn disabled_and_unavailable_signals_are_explicit_zero_contribution() {
    let disabled = BotSignal::disabled("a", "A");
    let unavailable = BotSignal::unavailable("b", "B");

    assert_eq!(disabled.contribution, 0);
    assert!(!disabled.active);
    assert_eq!(disabled.availability, SignalAvailability::Disabled);

    assert_eq!(unavailable.contribution, 0);
    assert!(!unavailable.active);
    assert_eq!(unavailable.availability, SignalAvailability::Unavailable);
}

#[test]
fn scored_signal_scales_with_confidence() {
    let signal = BotSignal::scored_with_metadata(
        "fp",
        "Fingerprint",
        true,
        5,
        SignalProvenance::Internal,
        4,
        SignalFamily::FingerprintHeaderRuntime,
    );
    assert_eq!(signal.contribution, 2);
    assert_eq!(signal.confidence, 4);
}

#[test]
fn fingerprint_budget_policy_caps_total_and_family_contribution() {
    let policy = SignalBudgetPolicy {
        fingerprint_total_cap: 3,
        fingerprint_header_runtime_cap: 2,
        fingerprint_transport_cap: 3,
        fingerprint_temporal_cap: 3,
        fingerprint_persistence_cap: 3,
        fingerprint_behavior_cap: 3,
    };
    let mut accumulator = SignalAccumulator::with_capacity_and_policy(2, policy);
    accumulator.push(BotSignal::scored_with_metadata(
        "fp_hdr",
        "FP header mismatch",
        true,
        4,
        SignalProvenance::Internal,
        10,
        SignalFamily::FingerprintHeaderRuntime,
    ));
    accumulator.push(BotSignal::scored_with_metadata(
        "fp_transport",
        "FP transport",
        true,
        4,
        SignalProvenance::ExternalTrusted,
        10,
        SignalFamily::FingerprintTransport,
    ));

    let (score, signals) = accumulator.finish();
    assert_eq!(score, 3);
    assert_eq!(signals[0].contribution, 2);
    assert_eq!(signals[1].contribution, 1);
}

#[test]
fn signal_availability_has_stable_labels() {
    assert_eq!(SignalAvailability::Active.as_str(), "active");
    assert_eq!(SignalAvailability::Disabled.as_str(), "disabled");
    assert_eq!(SignalAvailability::Unavailable.as_str(), "unavailable");
}

#[test]
fn provenance_and_family_have_stable_labels() {
    assert_eq!(SignalProvenance::Internal.as_str(), "internal");
    assert_eq!(SignalProvenance::ExternalTrusted.as_str(), "external_trusted");
    assert_eq!(
        SignalFamily::FingerprintHeaderRuntime.as_str(),
        "fingerprint_header_runtime"
    );
}
