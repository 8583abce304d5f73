//! The enforcement router's decision logic: early-route dispatch, the
//! failure-enforcement classification, and the per-request pipeline
//! from ban check to challenge, maze or pass-through.

use vstd::prelude::*;

use crate::challenge::ChallengeSubmitOutcome;
use crate::not_a_bot::NotABotSubmitOutcome;
use crate::rate::RateLimitDecision;

verus! {

/// How a failed interactive step is enforced.
#[derive(Clone, Copy, Debug, PartialEq, Eq, Structural)]
pub enum ChallengeFailureEnforcement {
    MazeFallback,
    TarpitOrShortBan,
}

/// The routing of click-challenge outcomes: user-like failures fall to
/// the maze, abuse-like failures to the tarpit or a short ban.
pub open spec fn spec_classify_not_a_bot(outcome: NotABotSubmitOutcome)
    -> ChallengeFailureEnforcement {
    match outcome {
        NotABotSubmitOutcome::Replay => ChallengeFailureEnforcement::TarpitOrShortBan,
        NotABotSubmitOutcome::InvalidSeed => ChallengeFailureEnforcement::TarpitOrShortBan,
        NotABotSubmitOutcome::MissingSeed => ChallengeFailureEnforcement::TarpitOrShortBan,
        NotABotSubmitOutcome::SequenceViolation => ChallengeFailureEnforcement::TarpitOrShortBan,
        NotABotSubmitOutcome::BindingMismatch => ChallengeFailureEnforcement::TarpitOrShortBan,
        NotABotSubmitOutcome::InvalidTelemetry => ChallengeFailureEnforcement::TarpitOrShortBan,
        NotABotSubmitOutcome::AttemptLimitExceeded => {
            ChallengeFailureEnforcement::TarpitOrShortBan
        },
        _ => ChallengeFailureEnforcement::MazeFallback,
    }
}

pub fn classify_not_a_bot_failure_enforcement(outcome: NotABotSubmitOutcome) -> (r:
    ChallengeFailureEnforcement)
    ensures
        r == spec_classify_not_a_bot(outcome),
{
    match outcome {
        NotABotSubmitOutcome::Replay => ChallengeFailureEnforcement::TarpitOrShortBan,
        NotABotSubmitOutcome::InvalidSeed => ChallengeFailureEnforcement::TarpitOrShortBan,
        NotABotSubmitOutcome::MissingSeed => ChallengeFailureEnforcement::TarpitOrShortBan,
        NotABotSubmitOutcome::SequenceViolation => ChallengeFailureEnforcement::TarpitOrShortBan,
        NotABotSubmitOutcome::BindingMismatch => ChallengeFailureEnforcement::TarpitOrShortBan,
        NotABotSubmitOutcome::InvalidTelemetry => ChallengeFailureEnforcement::TarpitOrShortBan,
        NotABotSubmitOutcome::AttemptLimitExceeded => {
            ChallengeFailureEnforcement::TarpitOrShortBan
        },
        _ => ChallengeFailureEnforcement::MazeFallback,
    }
}

/// The routing of puzzle outcomes: a solve enforces nothing; wrong,
/// expired and slow answers fall to the maze; replay, caps, ordering,
/// binding, timing and format abuses go to the tarpit or a short ban.
pub open spec fn spec_classify_challenge(outcome: ChallengeSubmitOutcome) -> Option<
    ChallengeFailureEnforcement,
> {
    match outcome {
        ChallengeSubmitOutcome::Solved => None,
        ChallengeSubmitOutcome::Incorrect => Some(ChallengeFailureEnforcement::MazeFallback),
        ChallengeSubmitOutcome::SequenceOpExpired => Some(
            ChallengeFailureEnforcement::MazeFallback,
        ),
        ChallengeSubmitOutcome::SequenceWindowExceeded => Some(
            ChallengeFailureEnforcement::MazeFallback,
        ),
        ChallengeSubmitOutcome::SequenceTimingTooSlow => Some(
            ChallengeFailureEnforcement::MazeFallback,
        ),
        _ => Some(ChallengeFailureEnforcement::TarpitOrShortBan),
    }
}

pub fn classify_challenge_failure_enforcement(outcome: ChallengeSubmitOutcome) -> (r: Option<
    ChallengeFailureEnforcement,
>)
    ensures
        r == spec_classify_challenge(outcome),
{
    match outcome {
        ChallengeSubmitOutcome::Solved => None,
        ChallengeSubmitOutcome::Incorrect => Some(ChallengeFailureEnforcement::MazeFallback),
        ChallengeSubmitOutcome::SequenceOpExpired => Some(
            ChallengeFailureEnforcement::MazeFallback,
        ),
        ChallengeSubmitOutcome::SequenceWindowExceeded => Some(
            ChallengeFailureEnforcement::MazeFallback,
        ),
        ChallengeSubmitOutcome::SequenceTimingTooSlow => Some(
            ChallengeFailureEnforcement::MazeFallback,
        ),
        _ => Some(ChallengeFailureEnforcement::TarpitOrShortBan),
    }
}

/// The puzzle challenge path.
pub fn challenge_puzzle_path() -> (r: &'static str)
    ensures
        r@ == "/challenge/puzzle"@,
{
    "/challenge/puzzle"
}

/// The not-a-bot challenge path.
pub fn challenge_not_a_bot_path() -> (r: &'static str)
    ensures
        r@ == "/challenge/not-a-bot"@,
{
    "/challenge/not-a-bot"
}

/// Where an early route sends a request before the main pipeline.
#[derive(Clone, Copy, Debug, PartialEq, Eq, Structural)]
pub enum EarlyRoute {
    MazeAsset,
    DashboardRedirect,
    Health,
    NotABotPage,
    NotABotSubmit,
    PuzzlePage,
    PuzzleSubmit,
    Metrics,
    Robots,
    Admin,
    AdminRefused,
    Unrouted,
}

/// Dispatch the early routes by path and method, before any state is
/// consulted: assets, the dashboard redirect, health, the challenge
/// surfaces, metrics, robots and the admin tree; anything else flows
/// on to the main pipeline.
pub fn route_early(path: &str, method_post: bool, method_options: bool, asset_hit: bool) -> (r:
    EarlyRoute)
    ensures
        asset_hit ==> r is MazeAsset,
        !asset_hit && path@ == "/dashboard"@ && !method_post && !method_options
            ==> r is DashboardRedirect,
        !asset_hit && path@ == "/health"@ ==> r is Health,
        !asset_hit && path@ == "/challenge/not-a-bot"@ && method_post ==> r is NotABotSubmit,
        !asset_hit && path@ == "/challenge/not-a-bot"@ && !method_post ==> r is NotABotPage,
        !asset_hit && path@ == "/challenge/puzzle"@ && method_post ==> r is PuzzleSubmit,
        !asset_hit && path@ == "/challenge/puzzle"@ && !method_post ==> r is PuzzlePage,
        !asset_hit && path@ == "/metrics"@ ==> r is Metrics,
        !asset_hit && path@ == "/robots.txt"@ ==> r is Robots,
        !asset_hit && crate::text::starts_with_seq(path@, "/admin"@) && method_options
            ==> r is AdminRefused,
        !asset_hit && crate::text::starts_with_seq(path@, "/admin"@) && !method_options
            ==> r is Admin,
        (!asset_hit && !crate::text::starts_with_seq(path@, "/admin"@) && (path@ == "/dashboard"@
            ==> method_post || method_options) && path@ != "/health"@ && path@
            != "/challenge/not-a-bot"@ && path@ != "/challenge/puzzle"@ && path@ != "/metrics"@
            && path@ != "/robots.txt"@) ==> r is Unrouted,
{
    proof {
        reveal_strlit("/dashboard");
        reveal_strlit("/health");
        reveal_strlit("/challenge/not-a-bot");
        reveal_strlit("/challenge/puzzle");
        reveal_strlit("/metrics");
        reveal_strlit("/robots.txt");
        reveal_strlit("/admin");
        assert(("/dashboard"@).len() == 10);
        assert(("/health"@).len() == 7);
        assert(("/challenge/not-a-bot"@).len() == 20);
        assert(("/challenge/puzzle"@).len() == 17);
        assert(("/metrics"@).len() == 8);
        assert(("/robots.txt"@).len() == 11);
        assert(("/admin"@).len() == 6);
        if crate::text::starts_with_seq(path@, "/admin"@) {
            assert(path@.subrange(0, 6) == "/admin"@);
            assert(path@.subrange(0, 6)[1] == path@[1]);
            assert(path@[1] == 'a');
            assert(("/dashboard"@)[1] == 'd');
            assert(("/health"@)[1] == 'h');
            assert(("/challenge/not-a-bot"@)[1] == 'c');
            assert(("/challenge/puzzle"@)[1] == 'c');
            assert(("/metrics"@)[1] == 'm');
            assert(("/robots.txt"@)[1] == 'r');
        }
    }
    if asset_hit {
        return EarlyRoute::MazeAsset;
    }
    if crate::text::str_eq(path, "/dashboard") && !method_post && !method_options {
        return EarlyRoute::DashboardRedirect;
    }
    if crate::text::str_eq(path, "/health") {
        return EarlyRoute::Health;
    }
    if crate::text::str_eq(path, "/challenge/not-a-bot") {
        if method_post {
            return EarlyRoute::NotABotSubmit;
        }
        return EarlyRoute::NotABotPage;
    }
    if crate::text::str_eq(path, "/challenge/puzzle") {
        if method_post {
            return EarlyRoute::PuzzleSubmit;
        }
        return EarlyRoute::PuzzlePage;
    }
    if crate::text::str_eq(path, "/metrics") {
        return EarlyRoute::Metrics;
    }
    if crate::text::str_eq(path, "/robots.txt") {
        return EarlyRoute::Robots;
    }
    if crate::text::str_starts_with(path, "/admin") {
        if method_options {
            return EarlyRoute::AdminRefused;
        }
        return EarlyRoute::Admin;
    }
    EarlyRoute::Unrouted
}

/// What the main pipeline decides for a request.
#[derive(Clone, Copy, Debug, PartialEq, Eq, Structural)]
pub enum EnforcementDecision {
    BlockBanned,
    ServeMaze,
    BanAndBlock,
    Challenge,
    Forward,
}

/// The per-request pipeline after routing: a standing ban blocks; a
/// maze path serves the maze; a ban-worthy rate breach bans; a
/// throttle or honeypot hit challenges; then the botness score picks
/// forward, challenge or maze against its two thresholds.
pub open spec fn spec_enforcement(
    banned: bool,
    on_maze_path: bool,
    rate: RateLimitDecision,
    honeypot_hit: bool,
    score: u8,
    challenge_threshold: u8,
    maze_threshold: u8,
    maze_enabled: bool,
) -> EnforcementDecision {
    if banned {
        EnforcementDecision::BlockBanned
    } else if on_maze_path && maze_enabled {
        EnforcementDecision::ServeMaze
    } else if rate is BanWorthy {
        EnforcementDecision::BanAndBlock
    } else if rate is Throttle {
        EnforcementDecision::Challenge
    } else if honeypot_hit {
        EnforcementDecision::BanAndBlock
    } else if score < challenge_threshold {
        EnforcementDecision::Forward
    } else if score < maze_threshold || !maze_enabled {
        EnforcementDecision::Challenge
    } else {
        EnforcementDecision::ServeMaze
    }
}

pub fn decide_enforcement(
    banned: bool,
    on_maze_path: bool,
    rate: RateLimitDecision,
    honeypot_hit: bool,
    score: u8,
    challenge_threshold: u8,
    maze_threshold: u8,
    maze_enabled: bool,
) -> (r: EnforcementDecision)
    ensures
        r == spec_enforcement(
            banned,
            on_maze_path,
            rate,
            honeypot_hit,
            score,
            challenge_threshold,
            maze_threshold,
            maze_enabled,
        ),
{
    if banned {
        EnforcementDecision::BlockBanned
    } else if on_maze_path && maze_enabled {
        EnforcementDecision::ServeMaze
    } else {
        match rate {
            RateLimitDecision::BanWorthy(_) => EnforcementDecision::BanAndBlock,
            RateLimitDecision::Throttle(_) => EnforcementDecision::Challenge,
            RateLimitDecision::Allowed(_) => {
                if honeypot_hit {
                    EnforcementDecision::BanAndBlock
                } else if score < challenge_threshold {
                    EnforcementDecision::Forward
                } else if score < maze_threshold || !maze_enabled {
                    EnforcementDecision::Challenge
                } else {
                    EnforcementDecision::ServeMaze
                }
            },
        }
    }
}

/// How long an abuse-like failure bans when no tarpit is available.
pub const CHALLENGE_ABUSE_SHORT_BAN_SECONDS: u64 = 600;

/// How an abuse-like failure is applied.
#[derive(Clone, Copy, Debug, PartialEq, Eq, Structural)]
pub enum AbuseEnforcement {
    TestModeBlock,
    Tarpit,
    ShortBan(u64),
}

/// The application of a tarpit-or-short-ban classification: test mode
/// records no ban and only renders the block page; otherwise the maze
/// tarpit takes the request when the maze is enabled, and a short ban
/// of six hundred seconds is recorded when it is not.
pub open spec fn spec_abuse_enforcement(maze_enabled: bool, test_mode: bool) -> AbuseEnforcement {
    if test_mode {
        AbuseEnforcement::TestModeBlock
    } else if maze_enabled {
        AbuseEnforcement::Tarpit
    } else {
        AbuseEnforcement::ShortBan(CHALLENGE_ABUSE_SHORT_BAN_SECONDS)
    }
}

pub fn abuse_enforcement(maze_enabled: bool, test_mode: bool) -> (r: AbuseEnforcement)
    ensures
        r == spec_abuse_enforcement(maze_enabled, test_mode),
        test_mode ==> r is TestModeBlock,
        !test_mode && maze_enabled ==> r is Tarpit,
        !test_mode && !maze_enabled ==> (r matches AbuseEnforcement::ShortBan(s) && s == 600),
{
    if test_mode {
        AbuseEnforcement::TestModeBlock
    } else if maze_enabled {
        AbuseEnforcement::Tarpit
    } else {
        AbuseEnforcement::ShortBan(CHALLENGE_ABUSE_SHORT_BAN_SECONDS)
    }
}

/// Index of the first comma of `s` at or after `i`, or the length.
pub open spec fn first_comma(s: Seq<char>, i: int) -> int
    decreases s.len() - i,
{
    if i < 0 || i >= s.len() {
        s.len() as int
    } else if s[i] == ',' {
        i
    } else {
        first_comma(s, i + 1)
    }
}

proof fn lemma_first_comma_finds(s: Seq<char>, i: int, q: int)
    requires
        0 <= i <= q <= s.len(),
        q < s.len() ==> s[q] == ',',
        forall|k: int| i <= k < q ==> s[k] != ',',
    ensures
        q < s.len() ==> first_comma(s, i) == q,
        q == s.len() ==> first_comma(s, i) == q,
    decreases q - i,
{
    if i < q {
        lemma_first_comma_finds(s, i + 1, q);
    }
}

/// Whether `path` equals one of the comma-separated entries of the
/// honeypot list: the text up to the next comma, when nonempty, or a
/// match further along the list.
pub open spec fn honeypot_hit_in(s: Seq<char>, path: Seq<char>) -> bool
    decreases s.len(),
{
    if s.len() == 0 {
        false
    } else {
        let k = first_comma(s, 0);
        ||| (k > 0 && s.subrange(0, k) == path)
        ||| (0 <= k && k < s.len() && honeypot_hit_in(s.skip(k + 1), path))
    }
}

/// Whether a path matches one of the configured honeypot entries, a
/// comma-separated list of exact paths.
pub fn honeypot_match(honeypots: &str, path: &str) -> (r: bool)
    ensures
        r == honeypot_hit_in(honeypots@, path@),
{
    let len = honeypots.unicode_len();
    let mut start: usize = 0;
    proof {
        assert(honeypots@.skip(0) =~= honeypots@);
    }
    while start < len
        invariant
            0 <= start <= len,
            len == honeypots@.len(),
            honeypot_hit_in(honeypots@, path@) == honeypot_hit_in(
                honeypots@.skip(start as int),
                path@,
            ),
        decreases len - start,
    {
        let mut stop = start;
        while stop < len && honeypots.get_char(stop) != ','
            invariant
                start <= stop <= len,
                len == honeypots@.len(),
                forall|k: int| start <= k < stop ==> honeypots@[k] != ',',
            decreases len - stop,
        {
            stop = stop + 1;
        }
        let ghost rest = honeypots@.skip(start as int);
        proof {
            assert forall|k: int| 0 <= k < stop - start implies rest[k] != ',' by {
                assert(rest[k] == honeypots@[start + k]);
            }
            if stop < len {
                assert(rest[stop - start] == honeypots@[stop as int]);
            }
            lemma_first_comma_finds(rest, 0, stop - start);
            assert(first_comma(rest, 0) == stop - start);
            assert(rest.subrange(0, stop - start) =~= honeypots@.subrange(
                start as int,
                stop as int,
            ));
        }
        if stop > start {
            let entry = crate::text::str_range(honeypots, start, stop);
            if crate::text::str_eq(entry.as_str(), path) {
                return true;
            }
        }
        if stop >= len {
            return false;
        }
        proof {
            assert(rest.skip(stop - start + 1) =~= honeypots@.skip(stop + 1));
        }
        start = stop + 1;
    }
    proof {
        assert(honeypots@.skip(len as int) =~= Seq::<char>::empty());
    }
    false
}

} // verus!
