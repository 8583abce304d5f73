//! Fallback reasons, enforcement actions, rollout gating and the
//! graduated escalation rules of the maze.

use vstd::prelude::*;

verus! {

/// Why a traversal step fell back to enforcement.
#[derive(Clone, Copy, Debug, PartialEq, Eq, Structural)]
pub enum MazeFallbackReason {
    TokenInvalid,
    TokenExpired,
    TokenReplay,
    TokenBindingMismatch,
    TokenDepthExceeded,
    BudgetExceeded,
    CheckpointMissing,
    MicroPowFailed,
}

impl MazeFallbackReason {
    /// The stable detection label for metrics and logs.
    pub fn detection_label(self) -> (r: &'static str)
        ensures
            self is TokenInvalid ==> r@ == "maze_token_invalid"@,
            self is TokenExpired ==> r@ == "maze_token_expired"@,
            self is TokenReplay ==> r@ == "maze_token_replay"@,
            self is TokenBindingMismatch ==> r@ == "maze_token_binding_mismatch"@,
            self is TokenDepthExceeded ==> r@ == "maze_depth_exceeded"@,
            self is BudgetExceeded ==> r@ == "maze_budget_exceeded"@,
            self is CheckpointMissing ==> r@ == "maze_checkpoint_missing"@,
            self is MicroPowFailed ==> r@ == "maze_micro_pow_failed"@,
    {
        match self {
            MazeFallbackReason::TokenInvalid => "maze_token_invalid",
            MazeFallbackReason::TokenExpired => "maze_token_expired",
            MazeFallbackReason::TokenReplay => "maze_token_replay",
            MazeFallbackReason::TokenBindingMismatch => "maze_token_binding_mismatch",
            MazeFallbackReason::TokenDepthExceeded => "maze_depth_exceeded",
            MazeFallbackReason::BudgetExceeded => "maze_budget_exceeded",
            MazeFallbackReason::CheckpointMissing => "maze_checkpoint_missing",
            MazeFallbackReason::MicroPowFailed => "maze_micro_pow_failed",
        }
    }
}

/// What enforcement a fallback applies.
#[derive(Clone, Copy, Debug, PartialEq, Eq, Structural)]
pub enum MazeFallbackAction {
    Challenge,
    Block,
}

impl MazeFallbackAction {
    /// The stable action label.
    pub fn label(self) -> (r: &'static str)
        ensures
            self is Challenge ==> r@ == "challenge"@,
            self is Block ==> r@ == "block"@,
    {
        match self {
            MazeFallbackAction::Challenge => "challenge",
            MazeFallbackAction::Block => "block",
        }
    }
}

/// A fallback reason paired with the action taken for it.
#[derive(Clone, Copy, Debug, PartialEq, Eq, Structural)]
pub struct MazeFallbackDecision {
    pub reason: MazeFallbackReason,
    pub action: MazeFallbackAction,
}

/// The deployment state gating which violations actually enforce.
#[derive(Clone, Copy, Debug, PartialEq, Eq, Structural)]
pub enum MazeRolloutPhase {
    Instrument,
    Advisory,
    Enforce,
}

/// The phase a configured label names; anything unknown means full
/// enforcement.
pub open spec fn spec_rollout_phase(label: Seq<char>) -> MazeRolloutPhase {
    if label == "instrument"@ {
        MazeRolloutPhase::Instrument
    } else if label == "advisory"@ {
        MazeRolloutPhase::Advisory
    } else {
        MazeRolloutPhase::Enforce
    }
}

impl MazeRolloutPhase {
    /// Read the phase from its configured label; anything unknown means
    /// full enforcement.
    pub fn from_config(label: &str) -> (r: MazeRolloutPhase)
        ensures
            r == spec_rollout_phase(label@),
            label@ == "instrument"@ ==> r is Instrument,
            label@ == "advisory"@ ==> r is Advisory,
            label@ != "instrument"@ && label@ != "advisory"@ ==> r is Enforce,
    {
        proof {
            reveal_strlit("instrument");
            reveal_strlit("advisory");
            assert(("instrument"@).len() == 10);
            assert(("advisory"@).len() == 8);
        }
        if crate::text::str_eq(label, "instrument") {
            MazeRolloutPhase::Instrument
        } else if crate::text::str_eq(label, "advisory") {
            MazeRolloutPhase::Advisory
        } else {
            MazeRolloutPhase::Enforce
        }
    }
}

/// The violations counted as high-confidence: replay, binding mismatch,
/// a missing checkpoint, and failed micro proof-of-work.
pub open spec fn spec_high_confidence(reason: MazeFallbackReason) -> bool {
    reason is TokenReplay || reason is TokenBindingMismatch || reason is CheckpointMissing
        || reason is MicroPowFailed
}

pub fn is_high_confidence_violation(reason: MazeFallbackReason) -> (r: bool)
    ensures
        r == spec_high_confidence(reason),
{
    match reason {
        MazeFallbackReason::TokenReplay => true,
        MazeFallbackReason::TokenBindingMismatch => true,
        MazeFallbackReason::CheckpointMissing => true,
        MazeFallbackReason::MicroPowFailed => true,
        _ => false,
    }
}

/// Escalation on repeated high-confidence violations: two force a
/// challenge, three force a block.
pub open spec fn spec_escalation(count: u32) -> Option<MazeFallbackAction> {
    if count >= 3 {
        Some(MazeFallbackAction::Block)
    } else if count >= 2 {
        Some(MazeFallbackAction::Challenge)
    } else {
        None
    }
}

pub fn high_confidence_escalation_action(count: u32) -> (r: Option<MazeFallbackAction>)
    ensures
        r == spec_escalation(count),
{
    if count >= 3 {
        Some(MazeFallbackAction::Block)
    } else if count >= 2 {
        Some(MazeFallbackAction::Challenge)
    } else {
        None
    }
}

/// The base action for each reason: soft failures challenge, hard
/// token failures block.
pub open spec fn spec_fallback_action(reason: MazeFallbackReason) -> MazeFallbackAction {
    match reason {
        MazeFallbackReason::BudgetExceeded => MazeFallbackAction::Challenge,
        MazeFallbackReason::CheckpointMissing => MazeFallbackAction::Challenge,
        MazeFallbackReason::MicroPowFailed => MazeFallbackAction::Challenge,
        MazeFallbackReason::TokenExpired => MazeFallbackAction::Challenge,
        MazeFallbackReason::TokenInvalid => MazeFallbackAction::Block,
        MazeFallbackReason::TokenReplay => MazeFallbackAction::Block,
        MazeFallbackReason::TokenBindingMismatch => MazeFallbackAction::Block,
        MazeFallbackReason::TokenDepthExceeded => MazeFallbackAction::Block,
    }
}

pub fn fallback_action_for_reason(reason: MazeFallbackReason) -> (r: MazeFallbackAction)
    ensures
        r == spec_fallback_action(reason),
{
    match reason {
        MazeFallbackReason::BudgetExceeded => MazeFallbackAction::Challenge,
        MazeFallbackReason::CheckpointMissing => MazeFallbackAction::Challenge,
        MazeFallbackReason::MicroPowFailed => MazeFallbackAction::Challenge,
        MazeFallbackReason::TokenExpired => MazeFallbackAction::Challenge,
        MazeFallbackReason::TokenInvalid => MazeFallbackAction::Block,
        MazeFallbackReason::TokenReplay => MazeFallbackAction::Block,
        MazeFallbackReason::TokenBindingMismatch => MazeFallbackAction::Block,
        MazeFallbackReason::TokenDepthExceeded => MazeFallbackAction::Block,
    }
}

/// Rollout gating: enforce everything in the enforce phase, only budget
/// exhaustion in advisory, nothing while instrumenting.
pub open spec fn spec_should_enforce(phase: MazeRolloutPhase, reason: MazeFallbackReason) -> bool {
    match phase {
        MazeRolloutPhase::Enforce => true,
        MazeRolloutPhase::Advisory => reason is BudgetExceeded,
        MazeRolloutPhase::Instrument => false,
    }
}

pub fn should_enforce_violation(phase: MazeRolloutPhase, reason: MazeFallbackReason) -> (r: bool)
    ensures
        r == spec_should_enforce(phase, reason),
{
    match phase {
        MazeRolloutPhase::Enforce => true,
        MazeRolloutPhase::Advisory => match reason {
            MazeFallbackReason::BudgetExceeded => true,
            _ => false,
        },
        MazeRolloutPhase::Instrument => false,
    }
}

/// The micro proof-of-work difficulty for a depth: none below the start
/// depth or when disabled, else the base plus one bit per level, capped
/// at twenty-four.
pub open spec fn spec_pow_difficulty(
    enabled: bool,
    depth_start: u16,
    base: u8,
    depth: u16,
) -> Option<u8> {
    if !enabled || depth < depth_start {
        None
    } else {
        let extra: int = if depth - depth_start > 255 {
            255
        } else {
            depth - depth_start
        };
        let total: int = if base + extra > 255 {
            255
        } else {
            base + extra
        };
        if total > 24 {
            Some(24u8)
        } else {
            Some(total as u8)
        }
    }
}

pub fn pow_difficulty_for_depth(enabled: bool, depth_start: u16, base: u8, depth: u16) -> (r:
    Option<u8>)
    ensures
        r == spec_pow_difficulty(enabled, depth_start, base, depth),
{
    if !enabled || depth < depth_start {
        return None;
    }
    let extra_raw: u16 = depth - depth_start;
    let extra: u8 = if extra_raw > 255 {
        255
    } else {
        extra_raw as u8
    };
    let total: u8 = if base > 255 - extra {
        255
    } else {
        base + extra
    };
    if total > 24 {
        Some(24)
    } else {
        Some(total)
    }
}

/// How a token parse failure maps to a fallback reason: a stale token
/// expired, and every other parse failure — a missing or malformed
/// wire form, a wrong version, a tampered signature — is an invalid
/// token.
pub fn map_token_error(err: crate::maze::token::MazeTokenError) -> (r: MazeFallbackReason)
    ensures
        err is Expired ==> r is TokenExpired,
        !(err is Expired) ==> r is TokenInvalid,
    {
    match err {
        crate::maze::token::MazeTokenError::Expired => MazeFallbackReason::TokenExpired,
        crate::maze::token::MazeTokenError::SignatureMismatch => MazeFallbackReason::TokenInvalid,
        crate::maze::token::MazeTokenError::Missing => MazeFallbackReason::TokenInvalid,
        crate::maze::token::MazeTokenError::Malformed => MazeFallbackReason::TokenInvalid,
        crate::maze::token::MazeTokenError::InvalidVersion => MazeFallbackReason::TokenInvalid,
    }
}

} // verus!
