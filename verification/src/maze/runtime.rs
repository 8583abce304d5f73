//! The maze traversal engine: token admission, the concurrency budget,
//! page assembly, the checkpoint beacon and hidden-link issuance.

use vstd::prelude::*;

use crate::config::Config;
use crate::envelope::OperationEnvelope;
use crate::kv::KeyValueStore;
use crate::maze::policy::{
    MazeFallbackAction, MazeFallbackDecision, MazeFallbackReason, MazeRolloutPhase,
};
use crate::maze::rng::SeededRng;
use crate::maze::state::BudgetLease;
use crate::maze::token::MazeTokenError;
use crate::text::{counter_of, str_eq, string_push};
use vstd::string::StringSliceAdditionalSpecFns;

verus! {

/// Budget counter keys never collide with the other maze state keys,
/// so the other writes a traversal makes leave the lease counters as
/// they stand.
proof fn lemma_maze_key_families_distinct(
    a: Seq<char>,
    c: Seq<char>,
    d: Seq<char>,
    e: Seq<char>,
    b: Seq<char>,
)
    ensures
        "maze:risk:"@ + a != "maze:budget:active:global"@,
        "maze:risk:"@ + a != "maze:budget:active:bucket:"@ + b,
        "maze:token:seen:"@ + c != "maze:budget:active:global"@,
        "maze:token:seen:"@ + c != "maze:budget:active:bucket:"@ + b,
        "maze:token:chain:"@ + d != "maze:budget:active:global"@,
        "maze:token:chain:"@ + d != "maze:budget:active:bucket:"@ + b,
        "maze:violation:"@ + e != "maze:budget:active:global"@,
        "maze:violation:"@ + e != "maze:budget:active:bucket:"@ + b,
        "maze:budget:active:global"@ != "maze:budget:active:bucket:"@ + b,
        "maze:risk:"@ + a != "maze:violation:"@ + e,
{
    reveal_strlit("maze:risk:");
    reveal_strlit("maze:token:seen:");
    reveal_strlit("maze:token:chain:");
    reveal_strlit("maze:violation:");
    reveal_strlit("maze:budget:active:global");
    reveal_strlit("maze:budget:active:bucket:");
    assert(("maze:risk:"@ + a)[5] == 'r');
    assert(("maze:token:seen:"@ + c)[5] == 't');
    assert(("maze:token:chain:"@ + d)[5] == 't');
    assert(("maze:violation:"@ + e)[5] == 'v');
    assert(("maze:budget:active:global"@)[5] == 'b');
    assert(("maze:budget:active:bucket:"@ + b)[5] == 'b');
    assert(("maze:budget:active:global"@)[19] == 'g');
    assert(("maze:budget:active:bucket:"@ + b)[19] == 'b');
}

/// What one traversal request produced when a page was served.
pub struct MazeRenderResult {
    pub html: String,
    pub depth: u16,
    pub flow_id: String,
    pub variant_id: String,
    pub response_cap_exceeded: bool,
    pub bytes: usize,
    pub token_validated: bool,
}

/// The engine's verdict for one traversal request.
pub enum MazeServeDecision {
    Serve(MazeRenderResult),
    Fallback(MazeFallbackDecision),
}

/// Presentability of the envelope `e0` for a raw token: the raw text
/// is `e0`'s wire form under the secret, `e0` is unexpired and bound
/// to this request and place, sits within the configured depth and
/// budget limits, carries a live chain marker past depth one, and has
/// no fresh single-use marker. Everything admission checks before the
/// checkpoint and proof-of-work gates.
pub open spec fn presentable_token(
    m: crate::kv::KvMap,
    cfg: Config,
    raw: Seq<char>,
    path: Seq<char>,
    ip_bucket: Seq<char>,
    ua_bucket: Seq<char>,
    path_prefix: Seq<char>,
    secret: Seq<u8>,
    now_secs: u64,
    e0: OperationEnvelope,
) -> bool {
    &&& crate::envelope::env_plain(e0)
    &&& e0.token_version == crate::envelope::TOKEN_VERSION
    &&& raw == crate::envelope::spec_token(secret, crate::envelope::env_fields(e0))
    &&& crate::envelope::first_dot(raw, 0) == crate::crypto::b64_of(
        vstd::utf8::encode_utf8(crate::envelope::env_json(e0)),
    ).len()
    &&& 0 < crate::envelope::first_dot(raw, 0)
    &&& now_secs <= e0.expires_at
    &&& e0.path_prefix@ == path_prefix
    &&& e0.path_digest@ == crate::crypto::digest_of(vstd::utf8::encode_utf8(path))
    &&& e0.ip_bucket@ == ip_bucket
    &&& e0.ua_bucket@ == ua_bucket
    &&& e0.depth <= cfg.maze_token_max_depth
    &&& 1 <= e0.branch_budget <= cfg.maze_token_branch_budget
    &&& (e0.depth > 1 ==> crate::maze::state::marker_fresh(
        m,
        "maze:token:chain:"@ + e0.flow_id@ + ":"@ + e0.prev_digest@,
        now_secs,
    ))
    &&& !crate::maze::state::marker_fresh(
        m,
        crate::envelope::replay_key_of(e0.flow_id@, e0.operation_id@),
        now_secs,
    )
}

/// Whether the checkpoint gate lets `e0` pass: no checkpoint is owed,
/// or the depth is within the no-script allowance.
pub open spec fn checkpoint_clear(
    m: crate::kv::KvMap,
    cfg: Config,
    ip_bucket: Seq<char>,
    now_ms: u64,
    e0: OperationEnvelope,
) -> bool {
    crate::maze::state::spec_checkpoint_missing(
        m,
        cfg.maze_client_expansion_enabled,
        cfg.maze_checkpoint_every_nodes,
        cfg.maze_step_ahead_max,
        cfg.maze_checkpoint_every_ms,
        e0.flow_id@,
        ip_bucket,
        e0.depth,
        now_ms,
    ) ==> e0.depth <= cfg.maze_no_js_fallback_max_depth
}

/// Admissibility of the envelope `e0` for a presented raw token: it is
/// presentable, clears the checkpoint gate, and meets its micro
/// proof-of-work when one is required.
pub open spec fn admits_token(
    m: crate::kv::KvMap,
    cfg: Config,
    raw: Seq<char>,
    nonce: Seq<char>,
    path: Seq<char>,
    ip_bucket: Seq<char>,
    ua_bucket: Seq<char>,
    path_prefix: Seq<char>,
    secret: Seq<u8>,
    now_secs: u64,
    now_ms: u64,
    e0: OperationEnvelope,
) -> bool {
    &&& presentable_token(m, cfg, raw, path, ip_bucket, ua_bucket, path_prefix, secret, now_secs, e0)
    &&& checkpoint_clear(m, cfg, ip_bucket, now_ms, e0)
    &&& (crate::maze::policy::spec_pow_difficulty(
        cfg.maze_micro_pow_enabled,
        cfg.maze_micro_pow_depth_start,
        cfg.maze_micro_pow_base_difficulty,
        e0.depth,
    ) matches Some(d) ==> crate::maze::token::leading_zero_bits(
        crate::crypto::sha256_of(crate::maze::token::pow_message_of(raw, nonce)),
    ) >= d)
}

/// A presentable envelope held back by the checkpoint gate: a
/// checkpoint is owed and missing, and the depth is past the
/// no-script allowance.
pub open spec fn checkpoint_blocks_token(
    m: crate::kv::KvMap,
    cfg: Config,
    raw: Seq<char>,
    path: Seq<char>,
    ip_bucket: Seq<char>,
    ua_bucket: Seq<char>,
    path_prefix: Seq<char>,
    secret: Seq<u8>,
    now_secs: u64,
    now_ms: u64,
    e0: OperationEnvelope,
) -> bool {
    &&& presentable_token(m, cfg, raw, path, ip_bucket, ua_bucket, path_prefix, secret, now_secs, e0)
    &&& crate::maze::state::spec_checkpoint_missing(
        m,
        cfg.maze_client_expansion_enabled,
        cfg.maze_checkpoint_every_nodes,
        cfg.maze_step_ahead_max,
        cfg.maze_checkpoint_every_ms,
        e0.flow_id@,
        ip_bucket,
        e0.depth,
        now_ms,
    )
    &&& e0.depth > cfg.maze_no_js_fallback_max_depth
}

/// A presentable envelope that clears the checkpoint gate but fails
/// its required micro proof-of-work: a difficulty is demanded at its
/// depth and the presented nonce does not reach it.
pub open spec fn pow_fails_token(
    m: crate::kv::KvMap,
    cfg: Config,
    raw: Seq<char>,
    nonce: Seq<char>,
    path: Seq<char>,
    ip_bucket: Seq<char>,
    ua_bucket: Seq<char>,
    path_prefix: Seq<char>,
    secret: Seq<u8>,
    now_secs: u64,
    now_ms: u64,
    e0: OperationEnvelope,
) -> bool {
    &&& presentable_token(m, cfg, raw, path, ip_bucket, ua_bucket, path_prefix, secret, now_secs, e0)
    &&& checkpoint_clear(m, cfg, ip_bucket, now_ms, e0)
    &&& (crate::maze::policy::spec_pow_difficulty(
        cfg.maze_micro_pow_enabled,
        cfg.maze_micro_pow_depth_start,
        cfg.maze_micro_pow_base_difficulty,
        e0.depth,
    ) matches Some(d) && crate::maze::token::leading_zero_bits(
        crate::crypto::sha256_of(crate::maze::token::pow_message_of(raw, nonce)),
    ) < d)
}

/// The micro proof-of-work nonce a request carries: the `mpn` query
/// value, or the empty text when none was sent.
pub open spec fn nonce_view(mpn: Option<&String>) -> Seq<char> {
    match mpn {
        Some(n) => n@,
        None => Seq::empty(),
    }
}

/// A second presentation of the envelope `e0`'s wire form: the token
/// verifies, binds and sits within limits as `admits_token` asks, but
/// its single-use marker is still fresh.
pub open spec fn replays_token(
    m: crate::kv::KvMap,
    cfg: Config,
    raw: Seq<char>,
    path: Seq<char>,
    ip_bucket: Seq<char>,
    ua_bucket: Seq<char>,
    path_prefix: Seq<char>,
    secret: Seq<u8>,
    now_secs: u64,
    e0: OperationEnvelope,
) -> bool {
    &&& crate::envelope::env_plain(e0)
    &&& e0.token_version == crate::envelope::TOKEN_VERSION
    &&& raw == crate::envelope::spec_token(secret, crate::envelope::env_fields(e0))
    &&& crate::envelope::first_dot(raw, 0) == crate::crypto::b64_of(
        vstd::utf8::encode_utf8(crate::envelope::env_json(e0)),
    ).len()
    &&& 0 < crate::envelope::first_dot(raw, 0)
    &&& now_secs <= e0.expires_at
    &&& e0.path_prefix@ == path_prefix
    &&& e0.path_digest@ == crate::crypto::digest_of(vstd::utf8::encode_utf8(path))
    &&& e0.ip_bucket@ == ip_bucket
    &&& e0.ua_bucket@ == ua_bucket
    &&& e0.depth <= cfg.maze_token_max_depth
    &&& 1 <= e0.branch_budget <= cfg.maze_token_branch_budget
    &&& (e0.depth > 1 ==> crate::maze::state::marker_fresh(
        m,
        "maze:token:chain:"@ + e0.flow_id@ + ":"@ + e0.prev_digest@,
        now_secs,
    ))
    &&& crate::maze::state::marker_fresh(
        m,
        crate::envelope::replay_key_of(e0.flow_id@, e0.operation_id@),
        now_secs,
    )
}

/// Admit or reject a presented traversal token. With no token the flow
/// is new. A presented token must verify, bind to this request and
/// place, sit within depth and budget limits, carry a live chain
/// marker past depth one, be unseen, be checkpointed when required,
/// and satisfy its micro proof-of-work; the first failed check names
/// the fallback reason. An admitted token is accepted — the admissible
/// wire form of any envelope comes back with that envelope's fields —
/// and its single-use and chain markers are written; a second
/// presentation while the marker is fresh is rejected as a replay.
#[verifier::rlimit(100)]
#[verifier::spinoff_prover]
pub fn parse_existing_token<S: KeyValueStore>(
    store: &mut S,
    cfg: &Config,
    raw_token: Option<&String>,
    mpn: Option<&String>,
    path: &str,
    ip_bucket: &str,
    ua_bucket: &str,
    path_prefix: &str,
    secret: &str,
    now_secs: u64,
    now_ms_value: u64,
) -> (r: Result<Option<(String, OperationEnvelope)>, MazeFallbackReason>)
    requires
        old(store).inv(),
        now_secs + cfg.maze_replay_ttl_seconds <= u64::MAX,
    ensures
        final(store).inv(),
        final(store).reliable() == old(store).reliable(),
        r matches Ok(ctx) ==> ((ctx is None) <==> (raw_token is None)),
        r is Err ==> final(store).kv() == old(store).kv(),
        r matches Ok(ctx) ==> (ctx matches Some(p) ==> forall|k: Seq<char>|
            k != crate::envelope::replay_key_of(p.1.flow_id@, p.1.operation_id@) && k
                != "maze:token:chain:"@ + p.1.flow_id@ + ":"@ + crate::crypto::digest_of(
                vstd::utf8::encode_utf8(p.1.flow_id@ + ":"@ + p.1.operation_id@),
            ) ==> crate::kv::kv_same_at(old(store).kv(), final(store).kv(), k)),
        raw_token is None ==> (r matches Ok(ctx) && ctx is None && final(store).kv() == old(
            store,
        ).kv()),
        r matches Ok(ctx) ==> (ctx matches Some(p) ==> {
            &&& p.1.path_prefix@ == path_prefix@
            &&& p.1.path_digest@ == crate::crypto::digest_of(vstd::utf8::encode_utf8(path@))
            &&& p.1.ip_bucket@ == ip_bucket@
            &&& p.1.ua_bucket@ == ua_bucket@
            &&& p.1.depth <= cfg.maze_token_max_depth
            &&& 1 <= p.1.branch_budget <= cfg.maze_token_branch_budget
            &&& now_secs <= p.1.expires_at
            &&& (crate::maze::policy::spec_pow_difficulty(
                cfg.maze_micro_pow_enabled,
                cfg.maze_micro_pow_depth_start,
                cfg.maze_micro_pow_base_difficulty,
                p.1.depth,
            ) matches Some(d) ==> crate::maze::token::leading_zero_bits(
                crate::crypto::sha256_of(
                    crate::maze::token::pow_message_of(p.0@, match mpn {
                        Some(n) => n@,
                        None => Seq::empty(),
                    }),
                ),
            ) >= d)
        }),
        old(store).reliable() ==> (raw_token matches Some(raw) ==> (forall|e0: OperationEnvelope|
            #[trigger] admits_token(
                old(store).kv(),
                *cfg,
                raw@,
                nonce_view(mpn),
                path@,
                ip_bucket@,
                ua_bucket@,
                path_prefix@,
                secret.spec_bytes(),
                now_secs,
                now_ms_value,
                e0,
            ) ==> (r matches Ok(ctx) && ctx matches Some(p) && p.0@ == raw@
                && crate::envelope::env_fields(p.1) == crate::envelope::env_fields(e0)))),
        old(store).reliable() ==> (raw_token matches Some(raw) ==> (forall|e0: OperationEnvelope|
            #[trigger] replays_token(
                old(store).kv(),
                *cfg,
                raw@,
                path@,
                ip_bucket@,
                ua_bucket@,
                path_prefix@,
                secret.spec_bytes(),
                now_secs,
                e0,
            ) ==> (r matches Err(reason) && reason is TokenReplay))),
        raw_token matches Some(raw) && !crate::maze::token::authentic_token(
            raw@,
            secret.spec_bytes(),
        ) ==> (r matches Err(reason) && reason is TokenInvalid),
        old(store).reliable() ==> (raw_token matches Some(raw) ==> (forall|e0: OperationEnvelope|
            #[trigger] checkpoint_blocks_token(
                old(store).kv(),
                *cfg,
                raw@,
                path@,
                ip_bucket@,
                ua_bucket@,
                path_prefix@,
                secret.spec_bytes(),
                now_secs,
                now_ms_value,
                e0,
            ) ==> (r matches Err(reason) && reason is CheckpointMissing))),
        old(store).reliable() ==> (raw_token matches Some(raw) ==> (forall|e0: OperationEnvelope|
            #[trigger] pow_fails_token(
                old(store).kv(),
                *cfg,
                raw@,
                nonce_view(mpn),
                path@,
                ip_bucket@,
                ua_bucket@,
                path_prefix@,
                secret.spec_bytes(),
                now_secs,
                now_ms_value,
                e0,
            ) ==> (r matches Err(reason) && reason is MicroPowFailed))),
        old(store).reliable() ==> (r matches Ok(ctx) ==> (ctx matches Some(p)
            ==> final(store).kv() == old(store).kv().insert(
            crate::envelope::replay_key_of(p.1.flow_id@, p.1.operation_id@),
            crate::text::dec_bytes_of(
                crate::maze::state::marker_until_of(
                    p.1.expires_at,
                    now_secs,
                    cfg.maze_replay_ttl_seconds,
                ) as nat,
            ),
        ).insert(
            "maze:token:chain:"@ + p.1.flow_id@ + ":"@ + crate::crypto::digest_of(
                vstd::utf8::encode_utf8(p.1.flow_id@ + ":"@ + p.1.operation_id@),
            ),
            crate::text::dec_bytes_of(
                crate::maze::state::marker_until_of(
                    p.1.expires_at,
                    now_secs,
                    cfg.maze_replay_ttl_seconds,
                ) as nat,
            ),
        ))),
{
    let ghost m0 = store.kv();
    let ghost sb = secret.spec_bytes();
    let ghost nv: Seq<char> = match mpn {
        Some(n) => n@,
        None => Seq::empty(),
    };
    let raw = match raw_token {
        Some(t) => t,
        None => {
            return Ok(None);
        },
    };
    let ghost rv = raw@;
    let parsed = match crate::maze::token::verify(raw.as_str(), secret, Some(now_secs)) {
        Ok(p) => p,
        Err(e) => {
            proof {
                if old(store).reliable() {
                    assert forall|e0: OperationEnvelope|
                        #[trigger] admits_token(
                            m0, *cfg, rv, nv, path@, ip_bucket@, ua_bucket@, path_prefix@, sb,
                            now_secs, now_ms_value, e0,
                        ) implies false by {
                        assert(rv == crate::envelope::spec_token(
                            sb,
                            crate::envelope::env_fields(e0),
                        ));
                    }
                    assert forall|e0: OperationEnvelope|
                        #[trigger] replays_token(
                            m0, *cfg, rv, path@, ip_bucket@, ua_bucket@, path_prefix@, sb,
                            now_secs, e0,
                        ) implies false by {
                        assert(rv == crate::envelope::spec_token(
                            sb,
                            crate::envelope::env_fields(e0),
                        ));
                    }
                    assert forall|e0: OperationEnvelope|
                        #[trigger] checkpoint_blocks_token(
                            m0, *cfg, rv, path@, ip_bucket@, ua_bucket@, path_prefix@, sb,
                            now_secs, now_ms_value, e0,
                        ) implies false by {
                        assert(rv == crate::envelope::spec_token(
                            sb,
                            crate::envelope::env_fields(e0),
                        ));
                    }
                    assert forall|e0: OperationEnvelope|
                        #[trigger] pow_fails_token(
                            m0, *cfg, rv, nv, path@, ip_bucket@, ua_bucket@, path_prefix@, sb,
                            now_secs, now_ms_value, e0,
                        ) implies false by {
                        assert(rv == crate::envelope::spec_token(
                            sb,
                            crate::envelope::env_fields(e0),
                        ));
                    }
                }
            }
            return Err(crate::maze::policy::map_token_error(e));
        },
    };
    let path_digest = crate::maze::token::digest(path);
    if !str_eq(parsed.path_prefix.as_str(), path_prefix) || !str_eq(
        parsed.path_digest.as_str(),
        path_digest.as_str(),
    ) || !str_eq(parsed.ip_bucket.as_str(), ip_bucket) || !str_eq(
        parsed.ua_bucket.as_str(),
        ua_bucket,
    ) {
        proof {
            if old(store).reliable() {
                assert forall|e0: OperationEnvelope|
                    #[trigger] admits_token(
                        m0, *cfg, rv, nv, path@, ip_bucket@, ua_bucket@, path_prefix@, sb,
                        now_secs, now_ms_value, e0,
                    ) implies false by {
                    crate::envelope::lemma_env_fields_agree(parsed, e0);
                }
                assert forall|e0: OperationEnvelope|
                    #[trigger] replays_token(
                        m0, *cfg, rv, path@, ip_bucket@, ua_bucket@, path_prefix@, sb, now_secs,
                        e0,
                    ) implies false by {
                    crate::envelope::lemma_env_fields_agree(parsed, e0);
                }
                assert forall|e0: OperationEnvelope|
                    #[trigger] checkpoint_blocks_token(
                        m0, *cfg, rv, path@, ip_bucket@, ua_bucket@, path_prefix@, sb, now_secs,
                        now_ms_value, e0,
                    ) implies false by {
                    crate::envelope::lemma_env_fields_agree(parsed, e0);
                }
                assert forall|e0: OperationEnvelope|
                    #[trigger] pow_fails_token(
                        m0, *cfg, rv, nv, path@, ip_bucket@, ua_bucket@, path_prefix@, sb,
                        now_secs, now_ms_value, e0,
                    ) implies false by {
                    crate::envelope::lemma_env_fields_agree(parsed, e0);
                }
            }
        }
        return Err(MazeFallbackReason::TokenBindingMismatch);
    }
    if parsed.depth > cfg.maze_token_max_depth {
        proof {
            if old(store).reliable() {
                assert forall|e0: OperationEnvelope|
                    #[trigger] admits_token(
                        m0, *cfg, rv, nv, path@, ip_bucket@, ua_bucket@, path_prefix@, sb,
                        now_secs, now_ms_value, e0,
                    ) implies false by {
                    crate::envelope::lemma_env_fields_agree(parsed, e0);
                }
                assert forall|e0: OperationEnvelope|
                    #[trigger] replays_token(
                        m0, *cfg, rv, path@, ip_bucket@, ua_bucket@, path_prefix@, sb, now_secs,
                        e0,
                    ) implies false by {
                    crate::envelope::lemma_env_fields_agree(parsed, e0);
                }
                assert forall|e0: OperationEnvelope|
                    #[trigger] checkpoint_blocks_token(
                        m0, *cfg, rv, path@, ip_bucket@, ua_bucket@, path_prefix@, sb, now_secs,
                        now_ms_value, e0,
                    ) implies false by {
                    crate::envelope::lemma_env_fields_agree(parsed, e0);
                }
                assert forall|e0: OperationEnvelope|
                    #[trigger] pow_fails_token(
                        m0, *cfg, rv, nv, path@, ip_bucket@, ua_bucket@, path_prefix@, sb,
                        now_secs, now_ms_value, e0,
                    ) implies false by {
                    crate::envelope::lemma_env_fields_agree(parsed, e0);
                }
            }
        }
        return Err(MazeFallbackReason::TokenDepthExceeded);
    }
    if parsed.branch_budget == 0 || parsed.branch_budget > cfg.maze_token_branch_budget {
        proof {
            if old(store).reliable() {
                assert forall|e0: OperationEnvelope|
                    #[trigger] admits_token(
                        m0, *cfg, rv, nv, path@, ip_bucket@, ua_bucket@, path_prefix@, sb,
                        now_secs, now_ms_value, e0,
                    ) implies false by {
                    crate::envelope::lemma_env_fields_agree(parsed, e0);
                }
                assert forall|e0: OperationEnvelope|
                    #[trigger] replays_token(
                        m0, *cfg, rv, path@, ip_bucket@, ua_bucket@, path_prefix@, sb, now_secs,
                        e0,
                    ) implies false by {
                    crate::envelope::lemma_env_fields_agree(parsed, e0);
                }
                assert forall|e0: OperationEnvelope|
                    #[trigger] checkpoint_blocks_token(
                        m0, *cfg, rv, path@, ip_bucket@, ua_bucket@, path_prefix@, sb, now_secs,
                        now_ms_value, e0,
                    ) implies false by {
                    crate::envelope::lemma_env_fields_agree(parsed, e0);
                }
                assert forall|e0: OperationEnvelope|
                    #[trigger] pow_fails_token(
                        m0, *cfg, rv, nv, path@, ip_bucket@, ua_bucket@, path_prefix@, sb,
                        now_secs, now_ms_value, e0,
                    ) implies false by {
                    crate::envelope::lemma_env_fields_agree(parsed, e0);
                }
            }
        }
        return Err(MazeFallbackReason::TokenInvalid);
    }
    if parsed.depth > 1 && !crate::maze::state::chain_marker_seen(
        store,
        parsed.flow_id.as_str(),
        parsed.prev_digest.as_str(),
        now_secs,
    ) {
        proof {
            if old(store).reliable() {
                assert forall|e0: OperationEnvelope|
                    #[trigger] admits_token(
                        m0, *cfg, rv, nv, path@, ip_bucket@, ua_bucket@, path_prefix@, sb,
                        now_secs, now_ms_value, e0,
                    ) implies false by {
                    crate::envelope::lemma_env_fields_agree(parsed, e0);
                }
                assert forall|e0: OperationEnvelope|
                    #[trigger] replays_token(
                        m0, *cfg, rv, path@, ip_bucket@, ua_bucket@, path_prefix@, sb, now_secs,
                        e0,
                    ) implies false by {
                    crate::envelope::lemma_env_fields_agree(parsed, e0);
                }
                assert forall|e0: OperationEnvelope|
                    #[trigger] checkpoint_blocks_token(
                        m0, *cfg, rv, path@, ip_bucket@, ua_bucket@, path_prefix@, sb, now_secs,
                        now_ms_value, e0,
                    ) implies false by {
                    crate::envelope::lemma_env_fields_agree(parsed, e0);
                }
                assert forall|e0: OperationEnvelope|
                    #[trigger] pow_fails_token(
                        m0, *cfg, rv, nv, path@, ip_bucket@, ua_bucket@, path_prefix@, sb,
                        now_secs, now_ms_value, e0,
                    ) implies false by {
                    crate::envelope::lemma_env_fields_agree(parsed, e0);
                }
            }
        }
        return Err(MazeFallbackReason::TokenBindingMismatch);
    }
    if crate::maze::state::replay_seen(
        store,
        parsed.flow_id.as_str(),
        parsed.operation_id.as_str(),
        now_secs,
    ) {
        proof {
            if old(store).reliable() {
                assert forall|e0: OperationEnvelope|
                    #[trigger] admits_token(
                        m0, *cfg, rv, nv, path@, ip_bucket@, ua_bucket@, path_prefix@, sb,
                        now_secs, now_ms_value, e0,
                    ) implies false by {
                    crate::envelope::lemma_env_fields_agree(parsed, e0);
                }
                assert forall|e0: OperationEnvelope|
                    #[trigger] checkpoint_blocks_token(
                        m0, *cfg, rv, path@, ip_bucket@, ua_bucket@, path_prefix@, sb, now_secs,
                        now_ms_value, e0,
                    ) implies false by {
                    crate::envelope::lemma_env_fields_agree(parsed, e0);
                }
                assert forall|e0: OperationEnvelope|
                    #[trigger] pow_fails_token(
                        m0, *cfg, rv, nv, path@, ip_bucket@, ua_bucket@, path_prefix@, sb,
                        now_secs, now_ms_value, e0,
                    ) implies false by {
                    crate::envelope::lemma_env_fields_agree(parsed, e0);
                }
            }
        }
        return Err(MazeFallbackReason::TokenReplay);
    }
    proof {
        if old(store).reliable() {
            assert forall|e0: OperationEnvelope|
                #[trigger] replays_token(
                    m0, *cfg, rv, path@, ip_bucket@, ua_bucket@, path_prefix@, sb, now_secs, e0,
                ) implies false by {
                crate::envelope::lemma_env_fields_agree(parsed, e0);
            }
        }
    }
    if crate::maze::state::checkpoint_missing(
        store,
        cfg.maze_client_expansion_enabled,
        cfg.maze_checkpoint_every_nodes,
        cfg.maze_step_ahead_max,
        cfg.maze_checkpoint_every_ms,
        parsed.flow_id.as_str(),
        ip_bucket,
        parsed.depth,
        now_ms_value,
    ) {
        if parsed.depth > cfg.maze_no_js_fallback_max_depth {
            proof {
                if old(store).reliable() {
                    assert forall|e0: OperationEnvelope|
                        #[trigger] admits_token(
                            m0, *cfg, rv, nv, path@, ip_bucket@, ua_bucket@, path_prefix@, sb,
                            now_secs, now_ms_value, e0,
                        ) implies false by {
                        crate::envelope::lemma_env_fields_agree(parsed, e0);
                    }
                    assert forall|e0: OperationEnvelope|
                        #[trigger] pow_fails_token(
                            m0, *cfg, rv, nv, path@, ip_bucket@, ua_bucket@, path_prefix@, sb,
                            now_secs, now_ms_value, e0,
                        ) implies false by {
                        crate::envelope::lemma_env_fields_agree(parsed, e0);
                    }
                }
            }
            return Err(MazeFallbackReason::CheckpointMissing);
        }
    }
    match crate::maze::policy::pow_difficulty_for_depth(
        cfg.maze_micro_pow_enabled,
        cfg.maze_micro_pow_depth_start,
        cfg.maze_micro_pow_base_difficulty,
        parsed.depth,
    ) {
        Some(required) => {
            let empty_nonce = String::new();
            let nonce: &String = match mpn {
                Some(n) => n,
                None => &empty_nonce,
            };
            proof {
                assert(nonce@ == nv);
            }
            if !crate::maze::token::verify_micro_pow(raw.as_str(), nonce.as_str(), required) {
                proof {
                    if old(store).reliable() {
                        assert forall|e0: OperationEnvelope|
                            #[trigger] admits_token(
                                m0, *cfg, rv, nv, path@, ip_bucket@, ua_bucket@, path_prefix@,
                                sb, now_secs, now_ms_value, e0,
                            ) implies false by {
                            crate::envelope::lemma_env_fields_agree(parsed, e0);
                        }
                        assert forall|e0: OperationEnvelope|
                            #[trigger] checkpoint_blocks_token(
                                m0, *cfg, rv, path@, ip_bucket@, ua_bucket@, path_prefix@, sb,
                                now_secs, now_ms_value, e0,
                            ) implies false by {
                            crate::envelope::lemma_env_fields_agree(parsed, e0);
                        }
                    }
                }
                return Err(MazeFallbackReason::MicroPowFailed);
            }
            proof {
                assert(crate::maze::token::leading_zero_bits(
                    crate::crypto::sha256_of(crate::maze::token::pow_message_of(rv, nv)),
                ) >= required);
            }
        },
        None => {},
    }
    crate::maze::state::mark_replay_seen(
        store,
        parsed.flow_id.as_str(),
        parsed.operation_id.as_str(),
        parsed.expires_at,
        cfg.maze_replay_ttl_seconds,
        now_secs,
    );
    let out = Ok(Some((raw.clone(), parsed)));
    proof {
        if old(store).reliable() {
            assert forall|e0: OperationEnvelope|
                #[trigger] admits_token(
                    m0, *cfg, rv, nv, path@, ip_bucket@, ua_bucket@, path_prefix@, sb, now_secs,
                    now_ms_value, e0,
                ) implies (out matches Ok(ctx) && ctx matches Some(p) && p.0@ == rv
                && crate::envelope::env_fields(p.1) == crate::envelope::env_fields(e0)) by {
                assert(rv == crate::envelope::spec_token(sb, crate::envelope::env_fields(e0)));
            }
            assert forall|e0: OperationEnvelope|
                #[trigger] checkpoint_blocks_token(
                    m0, *cfg, rv, path@, ip_bucket@, ua_bucket@, path_prefix@, sb, now_secs,
                    now_ms_value, e0,
                ) implies false by {
                crate::envelope::lemma_env_fields_agree(parsed, e0);
            }
            assert forall|e0: OperationEnvelope|
                #[trigger] pow_fails_token(
                    m0, *cfg, rv, nv, path@, ip_bucket@, ua_bucket@, path_prefix@, sb, now_secs,
                    now_ms_value, e0,
                ) implies false by {
                crate::envelope::lemma_env_fields_agree(parsed, e0);
            }
        }
    }
    out
}

/// One of the lexicon's nouns.
fn noun_at(i: u32) -> (r: &'static str)
    ensures
        r@.len() > 0,
{
    proof {
        reveal_strlit("ledger");
        reveal_strlit("stream");
        reveal_strlit("archive");
        reveal_strlit("catalog");
        reveal_strlit("window");
        reveal_strlit("route");
        reveal_strlit("segment");
        reveal_strlit("index");
    }
    match i % 8 {
        0 => "ledger",
        1 => "stream",
        2 => "archive",
        3 => "catalog",
        4 => "window",
        5 => "route",
        6 => "segment",
        _ => "index",
    }
}

/// One of the lexicon's departments.
fn department_at(i: u32) -> (r: &'static str)
    ensures
        r@.len() > 0,
{
    proof {
        reveal_strlit("Operations");
        reveal_strlit("Network");
        reveal_strlit("Session");
        reveal_strlit("Storage");
        reveal_strlit("Policy");
        reveal_strlit("Gateway");
    }
    match i % 6 {
        0 => "Operations",
        1 => "Network",
        2 => "Session",
        3 => "Storage",
        4 => "Policy",
        _ => "Gateway",
    }
}

/// One of the lexicon's verbs.
fn verb_at(i: u32) -> (r: &'static str) {
    match i % 6 {
        0 => "sync",
        1 => "render",
        2 => "compose",
        3 => "align",
        4 => "trace",
        _ => "verify",
    }
}

/// A short deterministic title drawn from the stream.
pub fn generate_title(rng: &mut SeededRng) -> (r: String)
    ensures
        r@.len() > 0,
{
    let a = rng.next();
    let b = rng.next();
    let mut out = department_at(a).to_owned();
    out.append(" ");
    out.append(noun_at(b));
    out
}

/// A deterministic sentence drawn from the stream.
pub fn generate_paragraph(rng: &mut SeededRng) -> (r: String) {
    let a = rng.next();
    let b = rng.next();
    let c = rng.next();
    let mut out = "The ".to_owned();
    out.append(noun_at(a));
    out.append(" will ");
    out.append(verb_at(b));
    out.append(" the ");
    out.append(noun_at(c));
    out.append(" records for continued processing.");
    out
}

/// Deterministic link text drawn from the stream.
pub fn generate_link_text(rng: &mut SeededRng) -> (r: String) {
    let a = rng.next();
    let b = rng.next();
    let mut out = String::new();
    let v = verb_at(a);
    out.append(v);
    out.append(" ");
    out.append(noun_at(b));
    out
}

/// The breadcrumb line of a page.
pub fn make_breadcrumb(rng: &mut SeededRng) -> (r: String) {
    let a = rng.next();
    let b = rng.next();
    let mut out = "Portal > ".to_owned();
    out.append(department_at(a));
    out.append(" > ");
    out.append(noun_at(b));
    out.append(" Index");
    out
}

/// One rendered link of a page.
pub struct AdvancedMazeLink {
    pub href: String,
    pub text: String,
    pub description: String,
    pub pow_difficulty: Option<u8>,
}

/// The style tier a page renders in.
#[derive(Clone, Copy, Debug, PartialEq, Eq, Structural)]
pub enum MazeStyleTier {
    Full,
    Lite,
    Machine,
}

/// Everything a page render needs.
pub struct AdvancedMazeRenderOptions {
    pub title: String,
    pub breadcrumb: String,
    pub paragraphs: Vec<String>,
    pub links: Vec<AdvancedMazeLink>,
    pub bootstrap_json: String,
    pub variant_layout: u8,
    pub variant_palette: u8,
    pub style_tier: MazeStyleTier,
    pub style_sheet_url: Option<String>,
    pub script_url: String,
}

/// The palette entry for a variant.
pub fn palette(variant_palette: u8) -> (r: (&'static str, &'static str)) {
    match variant_palette % 3 {
        0 => ("#0f172a", "#e2e8f0"),
        1 => ("#1f2937", "#fef3c7"),
        _ => ("#1e293b", "#dcfce7"),
    }
}

/// Escape a closing-tag prefix so embedded JSON cannot end the script
/// element: every `</` becomes `<\/`.
pub open spec fn script_escaped(s: Seq<char>) -> Seq<char>
    decreases s.len(),
{
    if s.len() == 0 {
        Seq::empty()
    } else if s.len() >= 2 && s[0] == '<' && s[1] == '/' {
        seq!['<', '\\', '/'] + script_escaped(s.skip(2))
    } else {
        seq![s[0]] + script_escaped(s.skip(1))
    }
}

/// Escape embedded JSON for a script element.
pub fn escape_script_json(value: &str) -> (r: String)
    ensures
        r@ == script_escaped(value@),
{
    let len = value.unicode_len();
    let mut out = String::new();
    let mut i: usize = 0;
    proof {
        assert(value@.skip(0) =~= value@);
        assert(script_escaped(value@) =~= out@ + script_escaped(value@));
    }
    while i < len
        invariant
            0 <= i <= len,
            len == value@.len(),
            script_escaped(value@) == out@ + script_escaped(value@.skip(i as int)),
        decreases len - i,
    {
        let c = value.get_char(i);
        let ghost rest = value@.skip(i as int);
        if c == '<' && i + 1 < len && value.get_char(i + 1) == '/' {
            string_push(&mut out, '<');
            string_push(&mut out, '\\');
            string_push(&mut out, '/');
            proof {
                assert(rest[0] == '<' && rest[1] == '/');
                assert(rest.skip(2) =~= value@.skip(i + 2));
            }
            i = i + 2;
        } else {
            string_push(&mut out, c);
            proof {
                assert(rest[0] == c);
                if rest.len() >= 2 && rest[0] == '<' && rest[1] == '/' {
                    assert(false);
                }
                assert(rest.skip(1) =~= value@.skip(i + 1));
            }
            i = i + 1;
        }
    }
    proof {
        assert(value@.skip(len as int) =~= Seq::<char>::empty());
    }
    out
}

/// The anchor text a rendered link opens with: its href inside a
/// nav-card element.
pub open spec fn link_anchor_of(href: Seq<char>) -> Seq<char> {
    "<a href=\""@ + href + "\" class=\"nav-card\""@
}

/// Render a traversal page: head assets, the title and breadcrumb, the
/// paragraphs, the visible links and the bootstrap payload, which is
/// embedded script-escaped. Every link of the options renders as a
/// nav-card anchor with its own href.
pub fn generate_polymorphic_maze_page(options: &AdvancedMazeRenderOptions) -> (r: String)
    ensures
        crate::text::contains_seq(r@, script_escaped(options.bootstrap_json@)),
        forall|k: int| 0 <= k < options.links@.len() ==> crate::text::contains_seq(
            r@,
            link_anchor_of((#[trigger] options.links@[k]).href@),
        ),
        forall|k: int| 0 <= k < options.links@.len() ==> ((#[trigger] options.links@[k]).pow_difficulty
            matches Some(d) ==> crate::text::contains_seq(
            r@,
            link_anchor_of(options.links@[k].href@) + " data-pow-difficulty=\""@
                + crate::text::dec_of(d as nat) + "\""@,
        )),
{
    let mut html = "<!DOCTYPE html><html lang=\"en\"><head><meta charset=\"UTF-8\"><title>"
        .to_owned();
    html.append(options.title.as_str());
    html.append("</title><meta name=\"robots\" content=\"noindex,nofollow,noarchive\">");
    match &options.style_sheet_url {
        Some(url) => {
            html.append("<link rel=\"stylesheet\" href=\"");
            html.append(url.as_str());
            html.append("\">");
        },
        None => {},
    }
    html.append("<script defer src=\"");
    html.append(options.script_url.as_str());
    html.append("\"></script></head><body class=\"");
    match options.style_tier {
        MazeStyleTier::Full => html.append("style-full"),
        MazeStyleTier::Lite => html.append("style-lite"),
        MazeStyleTier::Machine => html.append("style-machine"),
    }
    html.append("\"><div class=\"wrap\"><header><h1>");
    html.append(options.title.as_str());
    html.append("</h1><div class=\"crumb\">");
    html.append(options.breadcrumb.as_str());
    html.append("</div></header><div class=\"content\">");
    let mut i: usize = 0;
    let n = options.paragraphs.len();
    while i < n
        invariant
            0 <= i <= n,
            n == options.paragraphs@.len(),
        decreases n - i,
    {
        html.append("<p class=\"description\">");
        html.append(options.paragraphs[i].as_str());
        html.append("</p>");
        i = i + 1;
    }
    html.append("<div class=\"nav-grid\" id=\"maze-nav-grid\">");
    let mut j: usize = 0;
    let m = options.links.len();
    while j < m
        invariant
            0 <= j <= m,
            m == options.links@.len(),
            forall|k: int| 0 <= k < j ==> crate::text::contains_seq(
                html@,
                link_anchor_of((#[trigger] options.links@[k]).href@),
            ),
            forall|k: int| 0 <= k < j ==> ((#[trigger] options.links@[k]).pow_difficulty
                matches Some(d) ==> crate::text::contains_seq(
                html@,
                link_anchor_of(options.links@[k].href@) + " data-pow-difficulty=\""@
                    + crate::text::dec_of(d as nat) + "\""@,
            )),
        decreases m - j,
    {
        let ghost a0 = html@;
        html.append("<a href=\"");
        html.append(options.links[j].href.as_str());
        html.append("\" class=\"nav-card\"");
        let ghost amid = html@;
        proof {
            let ghost needle = link_anchor_of(options.links@[j as int].href@);
            assert(amid.subrange(a0.len() as int, a0.len() as int + needle.len()) =~= needle);
            assert(crate::text::contains_seq(
                amid,
                link_anchor_of(options.links@[j as int].href@),
            ));
        }
        match options.links[j].pow_difficulty {
            Some(d) => {
                html.append(" data-pow-difficulty=\"");
                crate::text::push_u64(&mut html, d as u64);
                html.append("\"");
                proof {
                    let ghost needle2 = link_anchor_of(options.links@[j as int].href@)
                        + " data-pow-difficulty=\""@ + crate::text::dec_of(d as nat) + "\""@;
                    assert(html@.subrange(a0.len() as int, a0.len() as int + needle2.len())
                        =~= needle2);
                    assert(crate::text::contains_seq(html@, needle2));
                }
            },
            None => {},
        }
        let ghost a_attr = html@;
        html.append(" data-link-kind=\"maze\"><h3>");
        html.append(options.links[j].text.as_str());
        html.append("</h3><p>");
        html.append(options.links[j].description.as_str());
        html.append("</p><div class=\"arrow\">Continue</div></a>");
        proof {
            assert(html@.subrange(0, a0.len() as int) =~= a0);
            assert(html@.subrange(0, amid.len() as int) =~= amid);
            assert(html@.subrange(0, a_attr.len() as int) =~= a_attr);
            assert forall|k: int| 0 <= k < j + 1 implies crate::text::contains_seq(
                html@,
                link_anchor_of((#[trigger] options.links@[k]).href@),
            ) by {
                if k < j {
                    crate::text::lemma_contains_prefix(
                        a0,
                        html@,
                        link_anchor_of(options.links@[k].href@),
                    );
                } else {
                    crate::text::lemma_contains_prefix(
                        amid,
                        html@,
                        link_anchor_of(options.links@[k].href@),
                    );
                }
            }
            assert forall|k: int| 0 <= k < j + 1 implies ((#[trigger] options.links@[k]).pow_difficulty
                matches Some(d) ==> crate::text::contains_seq(
                html@,
                link_anchor_of(options.links@[k].href@) + " data-pow-difficulty=\""@
                    + crate::text::dec_of(d as nat) + "\""@,
            )) by {
                match options.links@[k].pow_difficulty {
                    Some(d) => {
                        let needle2 = link_anchor_of(options.links@[k].href@)
                            + " data-pow-difficulty=\""@ + crate::text::dec_of(d as nat)
                            + "\""@;
                        if k < j {
                            crate::text::lemma_contains_prefix(a0, html@, needle2);
                        } else {
                            crate::text::lemma_contains_prefix(a_attr, html@, needle2);
                        }
                    },
                    None => {},
                }
            }
        }
        j = j + 1;
    }
    let ghost anchors_done = html@;
    html.append("</div></div></div><script id=\"maze-bootstrap\" type=\"application/json\">");
    let escaped = escape_script_json(options.bootstrap_json.as_str());
    let ghost before = html@;
    html.append(escaped.as_str());
    proof {
        assert(html@.subrange(
            before.len() as int,
            before.len() as int + escaped@.len(),
        ) =~= escaped@);
        assert(crate::text::contains_seq(html@, script_escaped(options.bootstrap_json@)));
    }
    let ghost held = html@;
    html.append("</script></body></html>");
    proof {
        let needle = script_escaped(options.bootstrap_json@);
        let k = choose|k: int|
            0 <= k && k + needle.len() <= held.len() && #[trigger] held.subrange(
                k,
                k + needle.len(),
            ) =~= needle;
        assert(html@.subrange(k, k + needle.len()) =~= needle);
        assert(html@.subrange(0, anchors_done.len() as int) =~= anchors_done);
        assert forall|k2: int| 0 <= k2 < options.links@.len() implies crate::text::contains_seq(
            html@,
            link_anchor_of((#[trigger] options.links@[k2]).href@),
        ) by {
            crate::text::lemma_contains_prefix(
                anchors_done,
                html@,
                link_anchor_of(options.links@[k2].href@),
            );
        }
        assert forall|k2: int| 0 <= k2 < options.links@.len() implies ((
        #[trigger] options.links@[k2]).pow_difficulty matches Some(d)
            ==> crate::text::contains_seq(
            html@,
            link_anchor_of(options.links@[k2].href@) + " data-pow-difficulty=\""@
                + crate::text::dec_of(d as nat) + "\""@,
        )) by {
            match options.links@[k2].pow_difficulty {
                Some(d) => {
                    crate::text::lemma_contains_prefix(
                        anchors_done,
                        html@,
                        link_anchor_of(options.links@[k2].href@) + " data-pow-difficulty=\""@
                            + crate::text::dec_of(d as nat) + "\""@,
                    );
                },
                None => {},
            }
        }
    }
    html
}

/// The compact shell served when no budget lease could be taken in the
/// instrumenting phase.
pub fn render_budget_open_maze_page(path_prefix: &str, flow_id: &str, script_url: &str) -> (r:
    String)
    ensures
        r@.len() > 0,
{
    let mut html =
        "<!DOCTYPE html><html lang=\"en\"><head><meta charset=\"UTF-8\"><title>Operational Index</title></head><body class=\"style-machine\"><div class=\"wrap style-machine\"><header><h1>Operational Index</h1></header><div class=\"content\"><div class=\"nav-grid\" id=\"maze-nav-grid\"><a href=\""
        .to_owned();
    let next = crate::maze::token::digest(flow_id);
    html.append(path_prefix);
    html.append(next.as_str());
    html.append(
        "\" class=\"nav-card\" data-link-kind=\"maze\"><h3>Continue stream</h3></a></div><script id=\"maze-bootstrap\" type=\"application/json\">{\"flow_id\":\"",
    );
    html.append(flow_id);
    html.append("\",\"depth\":0,\"client_expansion\":{\"enabled\":false}}</script><script defer src=\"");
    html.append(script_url);
    html.append("\"></script></div></div></body></html>");
    proof {
        reveal_strlit(
            "<!DOCTYPE html><html lang=\"en\"><head><meta charset=\"UTF-8\"><title>Operational Index</title></head><body class=\"style-machine\"><div class=\"wrap style-machine\"><header><h1>Operational Index</h1></header><div class=\"content\"><div class=\"nav-grid\" id=\"maze-nav-grid\"><a href=\"",
        );
    }
    html
}


/// Budget-counter preservation across one traversal: after a served or
/// refused request, the active-lease counters read as they did before,
/// on a store that answers.
pub open spec fn budget_counters_restored(
    m0: crate::kv::KvMap,
    m1: crate::kv::KvMap,
    ip_bucket: Seq<char>,
) -> bool {
    &&& counter_of(m1, "maze:budget:active:global"@) == counter_of(
        m0,
        "maze:budget:active:global"@,
    )
    &&& counter_of(m1, "maze:budget:active:bucket:"@ + ip_bucket) == counter_of(
        m0,
        "maze:budget:active:bucket:"@ + ip_bucket,
    )
}

/// Serve one traversal request: admit or reject the presented token,
/// take the concurrency lease, assemble the page, and release the
/// lease before the decision is returned. An admissible token with an
/// available lease is served, at its own depth, unless the rendered
/// page breaches the response cap. Every fallback action is either the
/// phase-gated base action for its reason or the escalation the
/// standing violation count demands. Whatever the path, the lease
/// counters read afterwards as they did before.
#[verifier::rlimit(100)]
#[verifier::spinoff_prover]
pub fn serve<S: KeyValueStore>(
    store: &mut S,
    cfg: &Config,
    secret: &str,
    segment: &str,
    mt: Option<&String>,
    mpn: Option<&String>,
    ip: &str,
    user_agent: &str,
    path: &str,
    botness_hint: Option<u8>,
    now_ms_value: u64,
) -> (r: MazeServeDecision)
    requires
        old(store).inv(),
        now_ms_value / 1000 + cfg.maze_replay_ttl_seconds <= u64::MAX,
        now_ms_value / 1000 + cfg.maze_token_ttl_seconds <= u64::MAX,
        now_ms_value / 1000 + 60 <= u64::MAX,
    ensures
        final(store).inv(),
        final(store).reliable() == old(store).reliable(),
        old(store).reliable() ==> budget_counters_restored(
            old(store).kv(),
            final(store).kv(),
            crate::buckets::ip_bucket_of(ip@),
        ),
        old(store).reliable() ==> (mt matches Some(raw) ==> (forall|e0: OperationEnvelope|
            (#[trigger] admits_token(
                old(store).kv(),
                *cfg,
                raw@,
                nonce_view(mpn),
                path@,
                crate::buckets::ip_bucket_of(ip@),
                crate::buckets::ua_bucket_of(user_agent@),
                crate::maze::path_prefix_of(segment@),
                secret.spec_bytes(),
                now_ms_value / 1000,
                now_ms_value,
                e0,
            ) && counter_of(old(store).kv(), "maze:budget:active:global"@)
                < cfg.maze_max_concurrent_global && counter_of(
                old(store).kv(),
                "maze:budget:active:bucket:"@ + crate::buckets::ip_bucket_of(ip@),
            ) < cfg.maze_max_concurrent_per_ip_bucket) ==> ((r matches MazeServeDecision::Serve(
                res,
            ) && res.token_validated && res.depth == e0.depth) || (r
                matches MazeServeDecision::Fallback(d) && d.reason is BudgetExceeded)))),
        old(store).reliable() ==> (mt matches Some(raw)
            ==> ((!crate::maze::token::authentic_token(raw@, secret.spec_bytes())
            && crate::maze::policy::spec_rollout_phase(cfg.maze_rollout_phase@) is Enforce)
            ==> (r matches MazeServeDecision::Fallback(d) && d.reason is TokenInvalid
            && d.action is Block))),
        old(store).reliable() ==> (mt matches Some(raw) ==> (forall|e0: OperationEnvelope|
            (#[trigger] pow_fails_token(
                old(store).kv(),
                *cfg,
                raw@,
                nonce_view(mpn),
                path@,
                crate::buckets::ip_bucket_of(ip@),
                crate::buckets::ua_bucket_of(user_agent@),
                crate::maze::path_prefix_of(segment@),
                secret.spec_bytes(),
                now_ms_value / 1000,
                now_ms_value,
                e0,
            ) && crate::maze::policy::spec_rollout_phase(cfg.maze_rollout_phase@) is Enforce
                && crate::maze::state::spec_violation_count_after(
                old(store).kv(),
                "maze:violation:"@ + crate::buckets::ip_bucket_of(ip@),
                now_ms_value / 1000,
            ) < 2) ==> (r matches MazeServeDecision::Fallback(d) && d.reason is MicroPowFailed
                && d.action is Challenge))),
        old(store).reliable() ==> (r matches MazeServeDecision::Fallback(d) ==> (
        (crate::maze::policy::spec_high_confidence(d.reason)
            && crate::maze::policy::spec_escalation(
            crate::maze::state::spec_violation_count_after(
                old(store).kv(),
                "maze:violation:"@ + crate::buckets::ip_bucket_of(ip@),
                now_ms_value / 1000,
            ),
        ) == Some(d.action)) || (d.action == crate::maze::policy::spec_fallback_action(d.reason)
            && crate::maze::policy::spec_should_enforce(
            crate::maze::policy::spec_rollout_phase(cfg.maze_rollout_phase@),
            d.reason,
        )))),
{
    let now_secs = now_ms_value / 1000;
    let phase = MazeRolloutPhase::from_config(cfg.maze_rollout_phase.as_str());
    let ip_bucket = crate::buckets::bucket_ip(ip);
    let ua_bucket = crate::buckets::ua_bucket(user_agent);
    let prefix = crate::maze::path_prefix(segment);
    let ghost m0 = store.kv();
    let ghost gk = "maze:budget:active:global"@;
    let ghost bk = "maze:budget:active:bucket:"@ + crate::buckets::ip_bucket_of(ip@);

    let token_ctx = match parse_existing_token(
        store,
        cfg,
        mt,
        mpn,
        path,
        ip_bucket.as_str(),
        ua_bucket.as_str(),
        prefix.as_str(),
        secret,
        now_secs,
        now_ms_value,
    ) {
        Ok(ctx) => ctx,
        Err(reason) => {
            let ghost s_err0 = store.kv();
            proof {
                if old(store).reliable() {
                    match mt {
                        Some(rawr) => {
                            assert forall|e0: OperationEnvelope|
                                #[trigger] admits_token(
                                    m0,
                                    *cfg,
                                    rawr@,
                                    nonce_view(mpn),
                                    path@,
                                    crate::buckets::ip_bucket_of(ip@),
                                    crate::buckets::ua_bucket_of(user_agent@),
                                    crate::maze::path_prefix_of(segment@),
                                    secret.spec_bytes(),
                                    now_ms_value / 1000,
                                    now_ms_value,
                                    e0,
                                ) implies false by {
                                assert(admits_token(
                                    m0,
                                    *cfg,
                                    rawr@,
                                    nonce_view(mpn),
                                    path@,
                                    ip_bucket@,
                                    ua_bucket@,
                                    prefix@,
                                    secret.spec_bytes(),
                                    now_secs,
                                    now_ms_value,
                                    e0,
                                ));
                            }
                            assert forall|e0: OperationEnvelope|
                                #[trigger] pow_fails_token(
                                    m0,
                                    *cfg,
                                    rawr@,
                                    nonce_view(mpn),
                                    path@,
                                    crate::buckets::ip_bucket_of(ip@),
                                    crate::buckets::ua_bucket_of(user_agent@),
                                    crate::maze::path_prefix_of(segment@),
                                    secret.spec_bytes(),
                                    now_ms_value / 1000,
                                    now_ms_value,
                                    e0,
                                ) implies (reason is MicroPowFailed) by {
                                assert(pow_fails_token(
                                    m0,
                                    *cfg,
                                    rawr@,
                                    nonce_view(mpn),
                                    path@,
                                    ip_bucket@,
                                    ua_bucket@,
                                    prefix@,
                                    secret.spec_bytes(),
                                    now_secs,
                                    now_ms_value,
                                    e0,
                                ));
                            }
                        },
                        None => {},
                    }
                }
            }
            crate::maze::state::increment_behavior_score(store, ip, 2);
            let ghost s_err1 = store.kv();
            let high_conf_count = crate::maze::state::high_confidence_violation_count(
                store,
                ip_bucket.as_str(),
                reason,
                cfg.maze_replay_ttl_seconds,
                now_secs,
            );
            proof {
                lemma_maze_key_families_distinct(
                    crate::buckets::ip_bucket_of(ip@),
                    Seq::empty(),
                    Seq::empty(),
                    crate::buckets::ip_bucket_of(ip@),
                    crate::buckets::ip_bucket_of(ip@),
                );
                if old(store).reliable() {
                    assert(s_err0 == m0);
                    assert(crate::kv::kv_same_at(s_err0, s_err1, gk));
                    assert(crate::kv::kv_same_at(s_err1, store.kv(), gk));
                    assert(crate::kv::kv_same_at(s_err0, s_err1, bk));
                    assert(crate::kv::kv_same_at(s_err1, store.kv(), bk));
                    assert(crate::kv::kv_same_at(m0, store.kv(), gk));
                    assert(crate::kv::kv_same_at(m0, store.kv(), bk));
                }
            }
            match crate::maze::policy::high_confidence_escalation_action(high_conf_count) {
                Some(action) => {
                    proof {
                        if old(store).reliable() {
                            let vkey = "maze:violation:"@ + crate::buckets::ip_bucket_of(ip@);
                            lemma_maze_key_families_distinct(
                                crate::buckets::ip_bucket_of(ip@),
                                Seq::empty(),
                                Seq::empty(),
                                crate::buckets::ip_bucket_of(ip@),
                                crate::buckets::ip_bucket_of(ip@),
                            );
                            assert(s_err0 == m0);
                            assert(crate::kv::kv_same_at(s_err0, s_err1, vkey));
                            crate::maze::state::lemma_violation_count_same(
                                m0,
                                s_err1,
                                vkey,
                                now_secs,
                            );
                            assert(crate::maze::policy::spec_high_confidence(reason));
                            assert(high_conf_count
                                == crate::maze::state::spec_violation_count_after(
                                m0,
                                vkey,
                                now_secs,
                            ));
                        }
                    }
                    return MazeServeDecision::Fallback(MazeFallbackDecision { reason, action });
                },
                None => {},
            }
            if crate::maze::policy::should_enforce_violation(phase, reason) {
                return MazeServeDecision::Fallback(
                    MazeFallbackDecision {
                        reason,
                        action: crate::maze::policy::fallback_action_for_reason(reason),
                    },
                );
            }
            None
        },
    };
    let ghost m1 = store.kv();
    proof {
        if old(store).reliable() {
            match &token_ctx {
                Some(p) => {
                    lemma_maze_key_families_distinct(
                        crate::buckets::ip_bucket_of(ip@),
                        p.1.flow_id@ + ":"@ + p.1.operation_id@,
                        p.1.flow_id@ + ":"@ + crate::crypto::digest_of(
                            vstd::utf8::encode_utf8(p.1.flow_id@ + ":"@ + p.1.operation_id@),
                        ),
                        crate::buckets::ip_bucket_of(ip@),
                        crate::buckets::ip_bucket_of(ip@),
                    );
                    assert(crate::envelope::replay_key_of(p.1.flow_id@, p.1.operation_id@)
                        == "maze:token:seen:"@ + (p.1.flow_id@ + ":"@ + p.1.operation_id@)) by {
                        assert(crate::envelope::replay_key_of(p.1.flow_id@, p.1.operation_id@)
                            =~= "maze:token:seen:"@ + (p.1.flow_id@ + ":"@ + p.1.operation_id@));
                    }
                    assert("maze:token:chain:"@ + p.1.flow_id@ + ":"@ + crate::crypto::digest_of(
                        vstd::utf8::encode_utf8(p.1.flow_id@ + ":"@ + p.1.operation_id@),
                    ) == "maze:token:chain:"@ + (p.1.flow_id@ + ":"@ + crate::crypto::digest_of(
                        vstd::utf8::encode_utf8(p.1.flow_id@ + ":"@ + p.1.operation_id@),
                    ))) by {
                        assert("maze:token:chain:"@ + p.1.flow_id@ + ":"@
                            + crate::crypto::digest_of(
                            vstd::utf8::encode_utf8(p.1.flow_id@ + ":"@ + p.1.operation_id@),
                        ) =~= "maze:token:chain:"@ + (p.1.flow_id@ + ":"@
                            + crate::crypto::digest_of(
                            vstd::utf8::encode_utf8(p.1.flow_id@ + ":"@ + p.1.operation_id@),
                        )));
                    }
                    assert(crate::kv::kv_same_at(m0, m1, gk));
                    assert(crate::kv::kv_same_at(m0, m1, bk));
                },
                None => {
                    assert(crate::kv::kv_same_at(m0, m1, gk));
                    assert(crate::kv::kv_same_at(m0, m1, bk));
                },
            }
            assert(counter_of(m1, gk) == counter_of(m0, gk));
            assert(counter_of(m1, bk) == counter_of(m0, bk));
        }
    }

    let mut budget_lease = match crate::maze::state::try_acquire_budget(
        store,
        ip_bucket.as_str(),
        cfg.maze_max_concurrent_global,
        cfg.maze_max_concurrent_per_ip_bucket,
    ) {
        Some(lease) => lease,
        None => {
            let ghost m2 = store.kv();
            crate::maze::state::increment_behavior_score(store, ip, 1);
            proof {
                lemma_maze_key_families_distinct(
                    crate::buckets::ip_bucket_of(ip@),
                    Seq::empty(),
                    Seq::empty(),
                    crate::buckets::ip_bucket_of(ip@),
                    crate::buckets::ip_bucket_of(ip@),
                );
                if old(store).reliable() {
                    assert(m2 == m1);
                    assert(crate::kv::kv_same_at(m1, store.kv(), gk));
                    assert(crate::kv::kv_same_at(m1, store.kv(), bk));
                    match mt {
                        Some(rawr) => {
                            assert forall|e0: OperationEnvelope|
                                #[trigger] admits_token(
                                    m0,
                                    *cfg,
                                    rawr@,
                                    nonce_view(mpn),
                                    path@,
                                    crate::buckets::ip_bucket_of(ip@),
                                    crate::buckets::ua_bucket_of(user_agent@),
                                    crate::maze::path_prefix_of(segment@),
                                    secret.spec_bytes(),
                                    now_ms_value / 1000,
                                    now_ms_value,
                                    e0,
                                ) && counter_of(m0, gk) < cfg.maze_max_concurrent_global
                                && counter_of(m0, bk) < cfg.maze_max_concurrent_per_ip_bucket
                                implies false by {
                                assert(counter_of(m1, gk) == counter_of(m0, gk));
                                assert(counter_of(m1, bk) == counter_of(m0, bk));
                            }
                        },
                        None => {},
                    }
                }
            }
            if crate::maze::policy::should_enforce_violation(
                phase,
                MazeFallbackReason::BudgetExceeded,
            ) {
                return MazeServeDecision::Fallback(
                    MazeFallbackDecision {
                        reason: MazeFallbackReason::BudgetExceeded,
                        action: crate::maze::policy::fallback_action_for_reason(
                            MazeFallbackReason::BudgetExceeded,
                        ),
                    },
                );
            }
            let flow_id = crate::maze::token::flow_id_from(
                ip_bucket.as_str(),
                ua_bucket.as_str(),
                path,
                now_secs,
            );
            let script_url = maze_script_path(segment);
            let html = render_budget_open_maze_page(
                prefix.as_str(),
                flow_id.as_str(),
                script_url.as_str(),
            );
            let bytes = html.as_str().unicode_len();
            return MazeServeDecision::Serve(
                MazeRenderResult {
                    html,
                    depth: 0,
                    flow_id,
                    variant_id: "budget-open-compact".to_owned(),
                    response_cap_exceeded: false,
                    bytes,
                    token_validated: false,
                },
            );
        },
    };
    let ghost m_acq = store.kv();

    let entropy_nonce = match &token_ctx {
        Some(p) => p.1.entropy_nonce.clone(),
        None => crate::maze::token::flow_id_from(
            ip_bucket.as_str(),
            ua_bucket.as_str(),
            prefix.as_str(),
            now_secs,
        ),
    };
    let window = if cfg.maze_entropy_window_seconds == 0 {
        1
    } else {
        cfg.maze_entropy_window_seconds
    };
    let minute_bucket = now_secs / window;
    let seed = crate::maze::token::entropy_seed(
        secret,
        "default",
        ip_bucket.as_str(),
        ua_bucket.as_str(),
        path,
        minute_bucket,
        entropy_nonce.as_str(),
    );
    let mut rng = SeededRng::new(seed);
    let variant_layout = (seed % 3) as u8;
    let variant_palette = ((seed / 256) % 3) as u8;
    let mut variant_id = "maze-v".to_owned();
    crate::text::push_u64(&mut variant_id, variant_layout as u64);
    crate::text::push_u64(&mut variant_id, variant_palette as u64);
    string_push(&mut variant_id, '-');
    crate::text::push_u64(&mut variant_id, minute_bucket);

    let current_depth: u16 = match &token_ctx {
        Some(p) => p.1.depth,
        None => 0,
    };
    let branch_budget: u32 = match &token_ctx {
        Some(p) => {
            if p.1.branch_budget > cfg.maze_token_branch_budget {
                cfg.maze_token_branch_budget
            } else if p.1.branch_budget == 0 {
                1
            } else {
                p.1.branch_budget
            }
        },
        None => {
            if cfg.maze_token_branch_budget == 0 {
                1
            } else {
                cfg.maze_token_branch_budget
            }
        },
    };
    let child_budget: u32 = if branch_budget <= 2 {
        1
    } else {
        branch_budget - 1
    };

    let paragraph_goal = rng.range(2, 5);
    let paragraph_count: usize = if paragraph_goal > cfg.maze_max_paragraphs as usize {
        if cfg.maze_max_paragraphs == 0 {
            1
        } else {
            cfg.maze_max_paragraphs as usize
        }
    } else {
        paragraph_goal
    };
    let link_goal = rng.range(2, 6);
    let link_count: usize = if link_goal > cfg.maze_max_links as usize {
        if cfg.maze_max_links == 0 {
            1
        } else {
            cfg.maze_max_links as usize
        }
    } else {
        link_goal
    };
    let visible_links: usize = if (cfg.maze_server_visible_links as usize) < link_count {
        if cfg.maze_server_visible_links == 0 {
            1
        } else {
            cfg.maze_server_visible_links as usize
        }
    } else {
        link_count
    };

    let mut paragraphs: Vec<String> = Vec::new();
    let mut pi: usize = 0;
    while pi < paragraph_count
        invariant
            store.inv(),
        decreases paragraph_count - pi,
    {
        paragraphs.push(generate_paragraph(&mut rng));
        pi = pi + 1;
    }

    let seg_len: usize = if cfg.maze_path_entropy_segment_len < 8 {
        8
    } else if cfg.maze_path_entropy_segment_len > 48 {
        48
    } else {
        cfg.maze_path_entropy_segment_len as usize
    };
    let mut visible_link_set: Vec<AdvancedMazeLink> = Vec::new();
    let mut li: usize = 0;
    while li < visible_links
        invariant
            store.inv(),
            now_ms_value / 1000 + cfg.maze_token_ttl_seconds <= u64::MAX,
            now_secs == now_ms_value / 1000,
            seg_len <= 64,
        decreases visible_links - li,
    {
        let segment_text = crate::maze::rng::generate_path_segment(&mut rng, seg_len);
        let mut next_path = prefix.clone();
        next_path.append(segment_text.as_str());
        let parent_ref: Option<&OperationEnvelope> = match &token_ctx {
            Some(p) => Some(&p.1),
            None => None,
        };
        let next_token = crate::maze::token::issue_child_token(
            parent_ref,
            next_path.as_str(),
            prefix.as_str(),
            ip_bucket.as_str(),
            ua_bucket.as_str(),
            cfg.maze_token_ttl_seconds,
            cfg.maze_token_max_depth,
            child_budget,
            entropy_nonce.as_str(),
            variant_layout as u16 * 10 + variant_palette as u16,
            now_secs,
        );
        let raw_child = crate::maze::token::sign(&next_token, secret);
        let mut href = next_path.clone();
        href.append("?mt=");
        href.append(raw_child.as_str());
        let pow = crate::maze::policy::pow_difficulty_for_depth(
            cfg.maze_micro_pow_enabled,
            cfg.maze_micro_pow_depth_start,
            cfg.maze_micro_pow_base_difficulty,
            next_token.depth,
        );
        let text = generate_link_text(&mut rng);
        let description = generate_paragraph(&mut rng);
        visible_link_set.push(
            AdvancedMazeLink { href, text, description, pow_difficulty: pow },
        );
        li = li + 1;
    }

    let checkpoint_token: String = match &token_ctx {
        Some(p) => p.0.clone(),
        None => String::new(),
    };
    let flow_id: String = match &token_ctx {
        Some(p) => p.1.flow_id.clone(),
        None => crate::maze::token::flow_id_from(
            ip_bucket.as_str(),
            ua_bucket.as_str(),
            prefix.as_str(),
            now_secs,
        ),
    };
    let hidden_count: u64 = if link_count > visible_links {
        (link_count - visible_links) as u64
    } else {
        0
    };
    let expansion_sig = crate::maze::token::sign_expansion_seed(
        secret,
        flow_id.as_str(),
        prefix.as_str(),
        entropy_nonce.as_str(),
        current_depth,
        seed as u64,
        hidden_count,
        seg_len as u64,
    );
    let mut bootstrap = "{\"flow_id\":\"".to_owned();
    bootstrap.append(flow_id.as_str());
    bootstrap.append("\",\"depth\":");
    crate::text::push_u64(&mut bootstrap, current_depth as u64);
    bootstrap.append(",\"checkpoint_token\":\"");
    bootstrap.append(checkpoint_token.as_str());
    bootstrap.append("\",\"path_prefix\":\"");
    bootstrap.append(prefix.as_str());
    bootstrap.append("\",\"entropy_nonce\":\"");
    bootstrap.append(entropy_nonce.as_str());
    bootstrap.append("\",\"assets\":{\"worker_url\":\"");
    let worker_url = maze_worker_path(segment);
    bootstrap.append(worker_url.as_str());
    bootstrap.append("\"},\"client_expansion\":{\"enabled\":");
    if cfg.maze_client_expansion_enabled {
        bootstrap.append("true");
    } else {
        bootstrap.append("false");
    }
    bootstrap.append(",\"seed\":");
    crate::text::push_u64(&mut bootstrap, seed as u64);
    bootstrap.append(",\"seed_sig\":\"");
    bootstrap.append(expansion_sig.as_str());
    bootstrap.append("\",\"hidden_count\":");
    crate::text::push_u64(&mut bootstrap, hidden_count);
    bootstrap.append(",\"segment_len\":");
    crate::text::push_u64(&mut bootstrap, seg_len as u64);
    bootstrap.append(",\"issue_path\":\"");
    let issue_path = crate::maze::issue_links_path(segment);
    bootstrap.append(issue_path.as_str());
    bootstrap.append("\"}}");

    let behavior_score = crate::maze::state::current_behavior_score(store, ip);
    let violation_count = crate::maze::state::current_violation_count(
        store,
        ip_bucket.as_str(),
        now_secs,
    );
    let suspicion: u64 = match botness_hint {
        Some(h) => h as u64,
        None => behavior_score,
    };
    let style_tier = if current_depth as u64 >= cfg.maze_no_js_fallback_max_depth as u64
        && violation_count >= 2 && suspicion >= cfg.botness_maze_threshold as u64 {
        MazeStyleTier::Machine
    } else if suspicion >= cfg.botness_maze_threshold as u64 || current_depth >= 2 {
        MazeStyleTier::Lite
    } else {
        MazeStyleTier::Full
    };

    let style_url = maze_style_path(segment);
    let options = AdvancedMazeRenderOptions {
        title: generate_title(&mut rng),
        breadcrumb: make_breadcrumb(&mut rng),
        paragraphs,
        links: visible_link_set,
        bootstrap_json: bootstrap,
        variant_layout,
        variant_palette,
        style_tier,
        style_sheet_url: match style_tier {
            MazeStyleTier::Machine => None,
            _ => Some(style_url),
        },
        script_url: maze_script_path(segment),
    };
    let html = generate_polymorphic_maze_page(&options);
    let bytes = html.as_str().unicode_len();

    let ghost m_mid = store.kv();
    proof {
        if old(store).reliable() {
            assert(m_mid == m_acq);
        }
    }
    budget_lease.release(store);
    let ghost m_rel = store.kv();
    proof {
        if old(store).reliable() {
            lemma_maze_key_families_distinct(
                crate::buckets::ip_bucket_of(ip@),
                Seq::empty(),
                Seq::empty(),
                crate::buckets::ip_bucket_of(ip@),
                crate::buckets::ip_bucket_of(ip@),
            );
            let g0 = counter_of(m1, gk);
            let b0 = counter_of(m1, bk);
            crate::text::lemma_dec_bytes_round_trip((g0 + 1) as nat);
            crate::text::lemma_dec_bytes_round_trip((b0 + 1) as nat);
            crate::text::lemma_dec_bytes_round_trip(g0 as nat);
            crate::text::lemma_dec_bytes_round_trip(b0 as nat);
            assert(g0 < u64::MAX && b0 < u64::MAX);
            assert(m_acq == m1.insert(gk, crate::text::dec_bytes_of((g0 + 1) as nat)).insert(
                bk,
                crate::text::dec_bytes_of((b0 + 1) as nat),
            ));
            assert(counter_of(m_acq, gk) == g0 + 1);
            assert(counter_of(m_acq, bk) == b0 + 1);
            assert(counter_of(m_rel, gk) == g0);
            assert(counter_of(m_rel, bk) == b0);
            assert(counter_of(m_rel, gk) == counter_of(m0, gk));
            assert(counter_of(m_rel, bk) == counter_of(m0, bk));
        }
    }

    let response_cap_exceeded = bytes > cfg.maze_max_response_bytes as usize;
    if response_cap_exceeded {
        crate::maze::state::increment_behavior_score(store, ip, 1);
        proof {
            lemma_maze_key_families_distinct(
                crate::buckets::ip_bucket_of(ip@),
                Seq::empty(),
                Seq::empty(),
                crate::buckets::ip_bucket_of(ip@),
                crate::buckets::ip_bucket_of(ip@),
            );
        }
        if crate::maze::policy::should_enforce_violation(
            phase,
            MazeFallbackReason::BudgetExceeded,
        ) {
            return MazeServeDecision::Fallback(
                MazeFallbackDecision {
                    reason: MazeFallbackReason::BudgetExceeded,
                    action: crate::maze::policy::fallback_action_for_reason(
                        MazeFallbackReason::BudgetExceeded,
                    ),
                },
            );
        }
    }
    let token_validated = match &token_ctx {
        Some(_) => true,
        None => false,
    };
    proof {
        if old(store).reliable() {
            match mt {
                Some(rawr) => {
                    assert forall|e0: OperationEnvelope|
                        #[trigger] admits_token(
                            m0,
                            *cfg,
                            rawr@,
                            nonce_view(mpn),
                            path@,
                            crate::buckets::ip_bucket_of(ip@),
                            crate::buckets::ua_bucket_of(user_agent@),
                            crate::maze::path_prefix_of(segment@),
                            secret.spec_bytes(),
                            now_ms_value / 1000,
                            now_ms_value,
                            e0,
                        ) implies (token_validated && current_depth == e0.depth) by {
                        assert(admits_token(
                            m0,
                            *cfg,
                            rawr@,
                            nonce_view(mpn),
                            path@,
                            ip_bucket@,
                            ua_bucket@,
                            prefix@,
                            secret.spec_bytes(),
                            now_secs,
                            now_ms_value,
                            e0,
                        ));
                        match &token_ctx {
                            Some(p) => {
                                crate::envelope::lemma_env_fields_agree(p.1, e0);
                            },
                            None => {},
                        }
                    }
                },
                None => {},
            }
        }
    }
    if token_validated && current_depth > 0 && current_depth % 2 == 0 {
        crate::maze::state::increment_behavior_score(store, ip, 1);
        proof {
            lemma_maze_key_families_distinct(
                crate::buckets::ip_bucket_of(ip@),
                Seq::empty(),
                Seq::empty(),
                crate::buckets::ip_bucket_of(ip@),
                crate::buckets::ip_bucket_of(ip@),
            );
        }
    }
    MazeServeDecision::Serve(
        MazeRenderResult {
            html,
            depth: current_depth,
            flow_id,
            variant_id,
            response_cap_exceeded,
            bytes,
            token_validated,
        },
    )
}

/// The style sheet's content-addressed path for a route segment.
pub open spec fn maze_style_path_of(segment: Seq<char>) -> Seq<char> {
    "/_/"@ + segment + "/assets"@ + "/maze."@ + crate::crypto::take_chars(
        crate::crypto::digest_of(MAZE_STYLE_CSS.spec_bytes()),
        7,
    ) + ".min.css"@
}

/// The style sheet's content-addressed path for a route segment.
pub fn maze_style_path(segment: &str) -> (r: String)
    ensures
        r@ == maze_style_path_of(segment@),
{
    let mut out = crate::maze::assets_prefix(segment);
    out.append("/maze.");
    let h = crate::crypto::str_take(crate::crypto::digest_hex(MAZE_STYLE_CSS).as_str(), 7);
    out.append(h.as_str());
    out.append(".min.css");
    assert(out@ =~= maze_style_path_of(segment@));
    out
}

/// The page script's content-addressed path for a route segment.
pub open spec fn maze_script_path_of(segment: Seq<char>) -> Seq<char> {
    "/_/"@ + segment + "/assets"@ + "/maze."@ + crate::crypto::take_chars(
        crate::crypto::digest_of(MAZE_SCRIPT_JS.spec_bytes()),
        7,
    ) + ".min.js"@
}

/// The page script's content-addressed path for a route segment.
pub fn maze_script_path(segment: &str) -> (r: String)
    ensures
        r@ == maze_script_path_of(segment@),
{
    let mut out = crate::maze::assets_prefix(segment);
    out.append("/maze.");
    let h = crate::crypto::str_take(crate::crypto::digest_hex(MAZE_SCRIPT_JS).as_str(), 7);
    out.append(h.as_str());
    out.append(".min.js");
    assert(out@ =~= maze_script_path_of(segment@));
    out
}

/// The worker script's content-addressed path for a route segment.
pub open spec fn maze_worker_path_of(segment: Seq<char>) -> Seq<char> {
    "/_/"@ + segment + "/assets"@ + "/maze-worker."@ + crate::crypto::take_chars(
        crate::crypto::digest_of(MAZE_WORKER_JS.spec_bytes()),
        7,
    ) + ".min.js"@
}

/// The worker script's content-addressed path for a route segment.
pub fn maze_worker_path(segment: &str) -> (r: String)
    ensures
        r@ == maze_worker_path_of(segment@),
{
    let mut out = crate::maze::assets_prefix(segment);
    out.append("/maze-worker.");
    let h = crate::crypto::str_take(crate::crypto::digest_hex(MAZE_WORKER_JS).as_str(), 7);
    out.append(h.as_str());
    out.append(".min.js");
    assert(out@ =~= maze_worker_path_of(segment@));
    out
}

/// Match a request path against the three content-addressed asset
/// paths of a route segment: exactly the style sheet, the page script
/// and the worker script are assets, each served with its content
/// type and, by the caller, an immutable cache header.
pub fn match_maze_asset(segment: &str, path: &str) -> (r: Option<(&'static str, &'static str)>)
    ensures
        (r is Some) <==> (path@ == maze_style_path_of(segment@) || path@ == maze_script_path_of(
            segment@,
        ) || path@ == maze_worker_path_of(segment@)),
        r matches Some(a) ==> ((path@ == maze_style_path_of(segment@) && a.0@ == MAZE_STYLE_CSS@
            && a.1@ == "text/css"@) || (path@ == maze_script_path_of(segment@) && a.0@
            == MAZE_SCRIPT_JS@ && a.1@ == "application/javascript"@) || (path@
            == maze_worker_path_of(segment@) && a.0@ == MAZE_WORKER_JS@ && a.1@
            == "application/javascript"@)),
{
    let style = maze_style_path(segment);
    if str_eq(path, style.as_str()) {
        return Some((MAZE_STYLE_CSS, "text/css"));
    }
    let script = maze_script_path(segment);
    if str_eq(path, script.as_str()) {
        return Some((MAZE_SCRIPT_JS, "application/javascript"));
    }
    let worker = maze_worker_path(segment);
    if str_eq(path, worker.as_str()) {
        return Some((MAZE_WORKER_JS, "application/javascript"));
    }
    None
}

/// The decoy style sheet.
pub const MAZE_STYLE_CSS: &'static str = "body{margin:0;padding:24px;background:#020617;color:#111827;font-family:system-ui,sans-serif}.wrap{max-width:1120px;margin:0 auto;background:#fff;border-radius:14px;overflow:hidden}header{padding:20px 26px;background:#0f172a;color:#e2e8f0}.crumb{margin-top:6px;opacity:.82;font-size:.88rem}.content{padding:24px;background:#f8fafc}.description{background:#fff;border-left:4px solid #38bdf8;border-radius:8px;padding:12px;margin:0 0 12px}.nav-grid{display:grid;grid-template-columns:repeat(auto-fill,minmax(224px,1fr));gap:12px}.nav-card{text-decoration:none;display:block;background:#fff;border:1px solid #e5e7eb;border-radius:10px;padding:14px}.arrow{margin-top:8px;color:#2563eb;font-size:.82rem}.pow-hint{margin-top:6px;font-size:.74rem;color:#7c2d12}.hidden-link{position:absolute;width:1px;height:1px;overflow:hidden}";

/// The page script: sends the checkpoint beacon, solves micro
/// proof-of-work in the worker, and asks for hidden links.
pub const MAZE_SCRIPT_JS: &'static str = "(function(){var bEl=document.getElementById('maze-bootstrap');var nav=document.getElementById('maze-nav-grid');if(!bEl||!nav)return;var b={};try{b=JSON.parse(bEl.textContent||'{}')}catch(_e){return}var exp=b.client_expansion||{};function sendCheckpoint(){if(!b.checkpoint_token)return;fetch(b.path_prefix+'checkpoint',{method:'POST',headers:{'Content-Type':'application/json'},body:JSON.stringify({token:b.checkpoint_token,flow_id:b.flow_id,depth:b.depth,checkpoint_reason:'page_load'}),keepalive:true})}sendCheckpoint()})();";

/// The worker script: regenerates candidate paths and searches micro
/// proof-of-work nonces.
pub const MAZE_WORKER_JS: &'static str = "function nextSeed(s){s^=s<<13;s^=s>>>7;s^=s<<17;return Math.abs(s>>>0)}self.onmessage=function(ev){var d=ev&&ev.data?ev.data:{};var seed=Number(d.seed)||0;var count=Math.max(0,Math.min(24,Number(d.hidden_count)||0));var segLen=Math.max(8,Math.min(48,Number(d.segment_len)||16));var prefix=typeof d.path_prefix==='string'?d.path_prefix:'/';var chars='abcdefghijklmnopqrstuvwxyz0123456789';var out=[];for(var i=0;i<count;i+=1){var seg='';for(var j=0;j<segLen;j+=1){seed=nextSeed(seed);seg+=chars[seed%chars.length]}out.push({path:prefix+seg})}self.postMessage({kind:'candidates',candidates:out})};";


/// The entropy nonce a traversal carries forward: an admitted token's
/// own nonce, or a fresh flow identity for a new flow.
pub fn flow_entropy_nonce(
    existing: Option<&OperationEnvelope>,
    path_prefix: &str,
    now_secs: u64,
    ip_bucket: &str,
    ua_bucket: &str,
) -> (r: String)
    ensures
        existing matches Some(t) ==> r@ == t.entropy_nonce@,
{
    match existing {
        Some(t) => t.entropy_nonce.clone(),
        None => crate::maze::token::flow_id_from(ip_bucket, ua_bucket, path_prefix, now_secs),
    }
}

/// The first field under `key` in a parsed object, when any.
pub open spec fn field_lookup(fs: Seq<crate::json::JFieldV>, key: Seq<char>) -> Option<
    crate::json::JValV,
>
    decreases fs.len(),
{
    if fs.len() == 0 {
        None
    } else if fs[0].0 == key {
        Some(fs[0].1)
    } else {
        field_lookup(fs.drop_first(), key)
    }
}

/// Find a string field by key in a parsed object: exactly the first
/// field under the key, when it holds a string.
pub fn fields_get_str(v: &Vec<(String, crate::json::JVal)>, key: &str) -> (r: Option<String>)
    ensures
        r matches Some(s) ==> field_lookup(crate::json::fields_view(v@), key@) == Some(
            crate::json::JValV::S(s@),
        ),
        r is None ==> (match field_lookup(crate::json::fields_view(v@), key@) {
            Some(x) => !(x is S),
            None => true,
        }),
{
    let n = v.len();
    let mut i: usize = 0;
    proof {
        assert(crate::json::fields_view(v@).skip(0) =~= crate::json::fields_view(v@));
    }
    while i < n
        invariant
            0 <= i <= n,
            n == v@.len(),
            field_lookup(crate::json::fields_view(v@), key@) == field_lookup(
                crate::json::fields_view(v@).skip(i as int),
                key@,
            ),
        decreases n - i,
    {
        let ghost rest = crate::json::fields_view(v@).skip(i as int);
        proof {
            assert(rest[0] == crate::json::fields_view(v@)[i as int]);
            assert(rest.drop_first() =~= crate::json::fields_view(v@).skip(i + 1));
        }
        if str_eq(v[i].0.as_str(), key) {
            match &v[i].1 {
                crate::json::JVal::S(s) => {
                    proof {
                        assert(crate::json::fields_view(v@)[i as int] == (
                            key@,
                            crate::json::JValV::S(s@),
                        ));
                    }
                    return Some(s.clone());
                },
                crate::json::JVal::N(x) => {
                    proof {
                        assert(crate::json::fields_view(v@)[i as int] == (
                            key@,
                            crate::json::JValV::N(*x),
                        ));
                    }
                    return None;
                },
            }
        }
        i = i + 1;
    }
    proof {
        assert(crate::json::fields_view(v@).skip(n as int) =~= Seq::<
            crate::json::JFieldV,
        >::empty());
    }
    None
}

/// Find a numeric field by key in a parsed object: exactly the first
/// field under the key, when it holds a number.
pub fn fields_get_u64(v: &Vec<(String, crate::json::JVal)>, key: &str) -> (r: Option<u64>)
    ensures
        r matches Some(x) ==> field_lookup(crate::json::fields_view(v@), key@) == Some(
            crate::json::JValV::N(x),
        ),
        r is None ==> (match field_lookup(crate::json::fields_view(v@), key@) {
            Some(x) => !(x is N),
            None => true,
        }),
{
    let n = v.len();
    let mut i: usize = 0;
    proof {
        assert(crate::json::fields_view(v@).skip(0) =~= crate::json::fields_view(v@));
    }
    while i < n
        invariant
            0 <= i <= n,
            n == v@.len(),
            field_lookup(crate::json::fields_view(v@), key@) == field_lookup(
                crate::json::fields_view(v@).skip(i as int),
                key@,
            ),
        decreases n - i,
    {
        let ghost rest = crate::json::fields_view(v@).skip(i as int);
        proof {
            assert(rest[0] == crate::json::fields_view(v@)[i as int]);
            assert(rest.drop_first() =~= crate::json::fields_view(v@).skip(i + 1));
        }
        if str_eq(v[i].0.as_str(), key) {
            match &v[i].1 {
                crate::json::JVal::N(x) => {
                    proof {
                        assert(crate::json::fields_view(v@)[i as int] == (
                            key@,
                            crate::json::JValV::N(*x),
                        ));
                    }
                    return Some(*x);
                },
                crate::json::JVal::S(s) => {
                    proof {
                        assert(crate::json::fields_view(v@)[i as int] == (
                            key@,
                            crate::json::JValV::S(s@),
                        ));
                    }
                    return None;
                },
            }
        }
        i = i + 1;
    }
    proof {
        assert(crate::json::fields_view(v@).skip(n as int) =~= Seq::<
            crate::json::JFieldV,
        >::empty());
    }
    None
}

/// Parse a JSON request body into its field list: the canonical
/// encoding of any valid field list parses back to it.
pub fn parse_body_fields(body: &[u8]) -> (r: Option<Vec<(String, crate::json::JVal)>>)
    ensures
        r matches Some(v) ==> (exists|js: Seq<char>|
            body@ == vstd::utf8::encode_utf8(js) && #[trigger] crate::json::spec_parse_json(js)
                == Some(crate::json::fields_view(v@))),
        forall|fs: Seq<crate::json::JFieldV>|
            crate::json::valid_fields(fs) && body@ == vstd::utf8::encode_utf8(
                #[trigger] crate::json::json_of(fs),
            ) ==> (r matches Some(v) && crate::json::fields_view(v@) == fs),
{
    let owned = vstd::slice::slice_to_vec(body);
    let s = match crate::crypto::string_from_utf8(owned) {
        Ok(s) => s,
        Err(_) => {
            proof {
                assert forall|fs: Seq<crate::json::JFieldV>|
                    crate::json::valid_fields(fs) && body@ == vstd::utf8::encode_utf8(
                        #[trigger] crate::json::json_of(fs),
                    ) implies false by {
                    assert(body@ == vstd::utf8::encode_utf8(crate::json::json_of(fs)));
                }
            }
            return None;
        },
    };
    let parsed = crate::json::parse_fields(s.as_str());
    proof {
        match &parsed {
            Some(v) => {
                assert(body@ == vstd::utf8::encode_utf8(s@));
                assert(crate::json::spec_parse_json(s@) == Some(
                    crate::json::fields_view(v@),
                ));
            },
            None => {
                assert forall|fs: Seq<crate::json::JFieldV>|
                    crate::json::valid_fields(fs) && body@ == vstd::utf8::encode_utf8(
                        #[trigger] crate::json::json_of(fs),
                    ) implies false by {
                    assert(s@ == crate::json::json_of(fs));
                    crate::json::lemma_json_round_trip(fs);
                }
            },
        }
        if parsed is Some {
            assert forall|fs: Seq<crate::json::JFieldV>|
                crate::json::valid_fields(fs) && body@ == vstd::utf8::encode_utf8(
                    #[trigger] crate::json::json_of(fs),
                ) implies crate::json::fields_view(parsed.unwrap()@) == fs by {
                assert(s@ == crate::json::json_of(fs));
                crate::json::lemma_json_round_trip(fs);
            }
        }
    }
    parsed
}

/// Acceptability of a checkpoint beacon: the canonical JSON body under
/// the cap whose `token` field holds the wire form of a plain envelope
/// `e0` that is unexpired and bound to the requester's buckets.
pub open spec fn beacon_accepted(
    body: Seq<u8>,
    fs: Seq<crate::json::JFieldV>,
    secret: Seq<u8>,
    ip: Seq<char>,
    ua: Seq<char>,
    now_ms: u64,
    e0: OperationEnvelope,
) -> bool {
    &&& body.len() <= 8192
    &&& crate::json::valid_fields(fs)
    &&& body == vstd::utf8::encode_utf8(crate::json::json_of(fs))
    &&& field_lookup(fs, "token"@) == Some(
        crate::json::JValV::S(
            crate::envelope::spec_token(secret, crate::envelope::env_fields(e0)),
        ),
    )
    &&& crate::envelope::env_plain(e0)
    &&& e0.token_version == crate::envelope::TOKEN_VERSION
    &&& crate::envelope::first_dot(
        crate::envelope::spec_token(secret, crate::envelope::env_fields(e0)),
        0,
    ) == crate::crypto::b64_of(
        vstd::utf8::encode_utf8(crate::envelope::env_json(e0)),
    ).len()
    &&& 0 < crate::envelope::first_dot(
        crate::envelope::spec_token(secret, crate::envelope::env_fields(e0)),
        0,
    )
    &&& now_ms / 1000 <= e0.expires_at
    &&& e0.ip_bucket@ == crate::buckets::ip_bucket_of(ip)
    &&& e0.ua_bucket@ == crate::buckets::ua_bucket_of(ua)
}

/// Record a checkpoint beacon: the posted traversal token must verify
/// and bind to the requester; the stored record then carries the beacon
/// time, the declared depth and the replay-window expiry. The status is
/// 204 on success — every acceptable beacon is recorded — 400 for an
/// unreadable body or token, and 403 for a binding mismatch.
pub fn handle_checkpoint<S: KeyValueStore>(
    store: &mut S,
    cfg: &Config,
    secret: &str,
    body: &[u8],
    ip: &str,
    user_agent: &str,
    now_ms_value: u64,
) -> (r: u16)
    requires
        old(store).inv(),
        now_ms_value / 1000 + cfg.maze_replay_ttl_seconds <= u64::MAX,
    ensures
        final(store).inv(),
        final(store).reliable() == old(store).reliable(),
        r == 204 || r == 400 || r == 403,
        r != 204 ==> final(store).kv() == old(store).kv(),
        old(store).reliable() ==> (r == 204 ==> (exists|e: OperationEnvelope|
            {
                &&& #[trigger] crate::envelope::env_fields(e) == crate::envelope::env_fields(e)
                &&& e.ip_bucket@ == crate::buckets::ip_bucket_of(ip@)
                &&& e.ua_bucket@ == crate::buckets::ua_bucket_of(user_agent@)
                &&& now_ms_value / 1000 <= e.expires_at
                &&& final(store).kv() == old(store).kv().insert(
                    "maze:checkpoint:"@ + e.flow_id@ + ":"@ + crate::buckets::ip_bucket_of(ip@),
                    crate::maze::state::checkpoint_state_bytes(
                        (crate::maze::state::CheckpointState {
                            last_ts_ms: now_ms_value,
                            last_depth: e.depth,
                            expires_at: (now_ms_value / 1000
                                + cfg.maze_replay_ttl_seconds) as u64,
                        }),
                    ),
                )
            })),
        forall|fs: Seq<crate::json::JFieldV>, e0: OperationEnvelope|
            #[trigger] beacon_accepted(
                body@,
                fs,
                secret.spec_bytes(),
                ip@,
                user_agent@,
                now_ms_value,
                e0,
            ) ==> r == 204,
{
    if body.len() > crate::request_validation::MAX_POW_VERIFY_BYTES {
        return 400;
    }
    let fields = match parse_body_fields(body) {
        Some(f) => f,
        None => {
            return 400;
        },
    };
    let raw_token = match fields_get_str(&fields, "token") {
        Some(t) => t,
        None => {
            proof {
                assert forall|fs: Seq<crate::json::JFieldV>, e0: OperationEnvelope|
                    #[trigger] beacon_accepted(
                        body@, fs, secret.spec_bytes(), ip@, user_agent@, now_ms_value, e0,
                    ) implies false by {
                    assert(crate::json::fields_view(fields@) == fs);
                }
            }
            return 400;
        },
    };
    if raw_token.as_str().unicode_len() == 0 {
        proof {
            assert forall|fs: Seq<crate::json::JFieldV>, e0: OperationEnvelope|
                #[trigger] beacon_accepted(
                    body@, fs, secret.spec_bytes(), ip@, user_agent@, now_ms_value, e0,
                ) implies false by {
                assert(crate::json::fields_view(fields@) == fs);
                assert(raw_token@ == crate::envelope::spec_token(
                    secret.spec_bytes(),
                    crate::envelope::env_fields(e0),
                ));
            }
        }
        return 400;
    }
    let now_secs = now_ms_value / 1000;
    let parsed = match crate::maze::token::verify(raw_token.as_str(), secret, Some(now_secs)) {
        Ok(p) => p,
        Err(_) => {
            proof {
                assert forall|fs: Seq<crate::json::JFieldV>, e0: OperationEnvelope|
                    #[trigger] beacon_accepted(
                        body@, fs, secret.spec_bytes(), ip@, user_agent@, now_ms_value, e0,
                    ) implies false by {
                    assert(crate::json::fields_view(fields@) == fs);
                    assert(raw_token@ == crate::envelope::spec_token(
                        secret.spec_bytes(),
                        crate::envelope::env_fields(e0),
                    ));
                }
            }
            return 400;
        },
    };
    let ip_bucket = crate::buckets::bucket_ip(ip);
    let ua_bucket = crate::buckets::ua_bucket(user_agent);
    if !str_eq(parsed.ip_bucket.as_str(), ip_bucket.as_str()) || !str_eq(
        parsed.ua_bucket.as_str(),
        ua_bucket.as_str(),
    ) {
        proof {
            assert forall|fs: Seq<crate::json::JFieldV>, e0: OperationEnvelope|
                #[trigger] beacon_accepted(
                    body@, fs, secret.spec_bytes(), ip@, user_agent@, now_ms_value, e0,
                ) implies false by {
                assert(crate::json::fields_view(fields@) == fs);
                assert(raw_token@ == crate::envelope::spec_token(
                    secret.spec_bytes(),
                    crate::envelope::env_fields(e0),
                ));
                crate::envelope::lemma_env_fields_agree(parsed, e0);
            }
        }
        return 403;
    }
    let state = crate::maze::state::CheckpointState {
        last_ts_ms: now_ms_value,
        last_depth: parsed.depth,
        expires_at: now_secs + cfg.maze_replay_ttl_seconds,
    };
    crate::maze::state::store_checkpoint_state(
        store,
        parsed.flow_id.as_str(),
        ip_bucket.as_str(),
        &state,
    );
    proof {
        if old(store).reliable() {
            assert(crate::envelope::env_fields(parsed) == crate::envelope::env_fields(parsed));
            assert(parsed.ip_bucket@ == crate::buckets::ip_bucket_of(ip@));
            assert(parsed.ua_bucket@ == crate::buckets::ua_bucket_of(user_agent@));
            assert(now_secs <= parsed.expires_at);
            assert(final(store).kv() == old(store).kv().insert(
                "maze:checkpoint:"@ + parsed.flow_id@ + ":"@ + crate::buckets::ip_bucket_of(ip@),
                crate::maze::state::checkpoint_state_bytes(
                    (crate::maze::state::CheckpointState {
                        last_ts_ms: now_ms_value,
                        last_depth: parsed.depth,
                        expires_at: (now_ms_value / 1000 + cfg.maze_replay_ttl_seconds) as u64,
                    }),
                ),
            ));
        }
    }
    204
}

/// One issued hidden link.
pub struct IssuedLink {
    pub href: String,
    pub text: String,
    pub description: String,
    pub pow_difficulty: Option<u8>,
}

/// A replayed issuance request: the canonical JSON body under the cap
/// whose `parent_token` field holds the wire form of a plain envelope
/// `e0` that is unexpired, bound to the requester and this place, not
/// held back by the checkpoint gate — while `e0`'s issue marker is
/// still fresh.
pub open spec fn issue_replayed(
    m: crate::kv::KvMap,
    body: Seq<u8>,
    fs: Seq<crate::json::JFieldV>,
    cfg: Config,
    segment: Seq<char>,
    secret: Seq<u8>,
    ip: Seq<char>,
    ua: Seq<char>,
    now_ms: u64,
    e0: OperationEnvelope,
) -> bool {
    &&& body.len() <= 8192
    &&& crate::json::valid_fields(fs)
    &&& body == vstd::utf8::encode_utf8(crate::json::json_of(fs))
    &&& (field_lookup(fs, "path_prefix"@) is None || field_lookup(fs, "path_prefix"@) == Some(
        crate::json::JValV::S(crate::maze::path_prefix_of(segment)),
    ))
    &&& field_lookup(fs, "parent_token"@) == Some(
        crate::json::JValV::S(
            crate::envelope::spec_token(secret, crate::envelope::env_fields(e0)),
        ),
    )
    &&& crate::envelope::env_plain(e0)
    &&& e0.token_version == crate::envelope::TOKEN_VERSION
    &&& crate::envelope::first_dot(
        crate::envelope::spec_token(secret, crate::envelope::env_fields(e0)),
        0,
    ) == crate::crypto::b64_of(
        vstd::utf8::encode_utf8(crate::envelope::env_json(e0)),
    ).len()
    &&& 0 < crate::envelope::first_dot(
        crate::envelope::spec_token(secret, crate::envelope::env_fields(e0)),
        0,
    )
    &&& now_ms / 1000 <= e0.expires_at
    &&& e0.ip_bucket@ == crate::buckets::ip_bucket_of(ip)
    &&& e0.ua_bucket@ == crate::buckets::ua_bucket_of(ua)
    &&& e0.path_prefix@ == crate::maze::path_prefix_of(segment)
    &&& checkpoint_clear(m, cfg, crate::buckets::ip_bucket_of(ip), now_ms, e0)
    &&& crate::maze::state::marker_fresh(
        m,
        "maze:token:issue:"@ + e0.flow_id@ + ":"@ + e0.operation_id@,
        now_ms / 1000,
    )
}

/// Issue hidden child links for a signed expansion seed. The parent
/// token must verify and bind; a parent already used for issuance is
/// refused with 409 — every replayed issuance is — the seed signature
/// must cover exactly the posted coordinates; and the issued set is
/// bounded by the request, the signed hidden count, the parent's
/// branch budget and the hard cap of twenty-four.
pub fn handle_issue_links<S: KeyValueStore>(
    store: &mut S,
    cfg: &Config,
    secret: &str,
    segment: &str,
    body: &[u8],
    ip: &str,
    user_agent: &str,
    now_ms_value: u64,
) -> (r: (u16, Vec<IssuedLink>))
    requires
        old(store).inv(),
        now_ms_value / 1000 + cfg.maze_replay_ttl_seconds <= u64::MAX,
        now_ms_value / 1000 + cfg.maze_token_ttl_seconds <= u64::MAX,
    ensures
        final(store).inv(),
        final(store).reliable() == old(store).reliable(),
        r.0 == 200 || r.0 == 400 || r.0 == 403 || r.0 == 409,
        r.0 != 200 ==> r.1@.len() == 0,
        r.1@.len() <= 24,
        r.1@.len() == 0 ==> final(store).kv() == old(store).kv(),
        old(store).reliable() ==> (forall|fs: Seq<crate::json::JFieldV>, e0: OperationEnvelope|
            #[trigger] issue_replayed(
                old(store).kv(),
                body@,
                fs,
                *cfg,
                segment@,
                secret.spec_bytes(),
                ip@,
                user_agent@,
                now_ms_value,
                e0,
            ) ==> r.0 == 409),
        old(store).reliable() ==> (r.0 == 409 ==> (exists|e: OperationEnvelope|
            {
                &&& #[trigger] crate::envelope::env_fields(e) == crate::envelope::env_fields(e)
                &&& e.ip_bucket@ == crate::buckets::ip_bucket_of(ip@)
                &&& e.ua_bucket@ == crate::buckets::ua_bucket_of(user_agent@)
                &&& e.path_prefix@ == crate::maze::path_prefix_of(segment@)
                &&& crate::maze::state::marker_fresh(
                    old(store).kv(),
                    "maze:token:issue:"@ + e.flow_id@ + ":"@ + e.operation_id@,
                    now_ms_value / 1000,
                )
            })),
        old(store).reliable() ==> ((r.0 == 200 && r.1@.len() > 0) ==> (exists|
            e: OperationEnvelope,
            seedw: u32,
            bounded: int,
            seg: int,
        |
            {
                &&& #[trigger] crate::maze::rng::candidate_paths_of(
                    seedw,
                    bounded,
                    seg,
                    crate::maze::path_prefix_of(segment@),
                ) == crate::maze::rng::candidate_paths_of(
                    seedw,
                    bounded,
                    seg,
                    crate::maze::path_prefix_of(segment@),
                )
                &&& #[trigger] crate::envelope::env_fields(e) == crate::envelope::env_fields(e)
                &&& e.ip_bucket@ == crate::buckets::ip_bucket_of(ip@)
                &&& e.ua_bucket@ == crate::buckets::ua_bucket_of(user_agent@)
                &&& e.path_prefix@ == crate::maze::path_prefix_of(segment@)
                &&& now_ms_value / 1000 <= e.expires_at
                &&& !crate::maze::state::marker_fresh(
                    old(store).kv(),
                    "maze:token:issue:"@ + e.flow_id@ + ":"@ + e.operation_id@,
                    now_ms_value / 1000,
                )
                &&& 0 < bounded <= 24
                &&& 8 <= seg <= 48
                &&& r.1@.len() <= bounded
                &&& r.1@.len() <= (if e.branch_budget == 0 {
                    1int
                } else {
                    e.branch_budget as int
                })
                &&& (forall|i: int| 0 <= i < r.1@.len() ==> crate::text::starts_with_seq(
                    (#[trigger] r.1@[i]).href@,
                    crate::maze::rng::candidate_paths_of(
                        seedw,
                        bounded,
                        seg,
                        crate::maze::path_prefix_of(segment@),
                    )[i] + "?mt="@,
                ))
                &&& (forall|i: int| 0 <= i < r.1@.len() ==> (#[trigger] r.1@[i]).pow_difficulty
                    == crate::maze::policy::spec_pow_difficulty(
                    cfg.maze_micro_pow_enabled,
                    cfg.maze_micro_pow_depth_start,
                    cfg.maze_micro_pow_base_difficulty,
                    (if e.depth < 0xffff {
                        (e.depth + 1) as u16
                    } else {
                        e.depth
                    }),
                ))
                &&& final(store).kv() == old(store).kv().insert(
                    "maze:token:issue:"@ + e.flow_id@ + ":"@ + e.operation_id@,
                    crate::text::dec_bytes_of(
                        crate::maze::state::marker_until_of(
                            e.expires_at,
                            now_ms_value / 1000,
                            cfg.maze_replay_ttl_seconds,
                        ) as nat,
                    ),
                )
            })),
{
    let empty: Vec<IssuedLink> = Vec::new();
    if body.len() > crate::request_validation::MAX_POW_VERIFY_BYTES {
        return (400, empty);
    }
    let fields = match parse_body_fields(body) {
        Some(f) => f,
        None => {
            proof {
                if old(store).reliable() {
                    assert forall|fs: Seq<crate::json::JFieldV>, e0: OperationEnvelope|
                        #[trigger] issue_replayed(
                            old(store).kv(), body@, fs, *cfg, segment@, secret.spec_bytes(),
                            ip@, user_agent@, now_ms_value, e0,
                        ) implies false by {
                        assert(body@ == vstd::utf8::encode_utf8(crate::json::json_of(fs)));
                    }
                }
            }
            return (400, empty);
        },
    };
    let prefix = crate::maze::path_prefix(segment);
    match fields_get_str(&fields, "path_prefix") {
        Some(p) => {
            if !str_eq(p.as_str(), prefix.as_str()) {
                proof {
                    if old(store).reliable() {
                        assert forall|fs: Seq<crate::json::JFieldV>, e0: OperationEnvelope|
                            #[trigger] issue_replayed(
                                old(store).kv(), body@, fs, *cfg, segment@,
                                secret.spec_bytes(), ip@, user_agent@, now_ms_value, e0,
                            ) implies false by {
                            assert(crate::json::fields_view(fields@) == fs);
                        }
                    }
                }
                return (400, empty);
            }
        },
        None => {},
    }
    let parent_token_raw = match fields_get_str(&fields, "parent_token") {
        Some(t) => t,
        None => {
            proof {
                if old(store).reliable() {
                    assert forall|fs: Seq<crate::json::JFieldV>, e0: OperationEnvelope|
                        #[trigger] issue_replayed(
                            old(store).kv(), body@, fs, *cfg, segment@, secret.spec_bytes(),
                            ip@, user_agent@, now_ms_value, e0,
                        ) implies false by {
                        assert(crate::json::fields_view(fields@) == fs);
                    }
                }
            }
            return (400, empty);
        },
    };
    if parent_token_raw.as_str().unicode_len() == 0 {
        proof {
            if old(store).reliable() {
                assert forall|fs: Seq<crate::json::JFieldV>, e0: OperationEnvelope|
                    #[trigger] issue_replayed(
                        old(store).kv(), body@, fs, *cfg, segment@, secret.spec_bytes(), ip@,
                        user_agent@, now_ms_value, e0,
                    ) implies false by {
                    assert(crate::json::fields_view(fields@) == fs);
                    assert(parent_token_raw@ == crate::envelope::spec_token(
                        secret.spec_bytes(),
                        crate::envelope::env_fields(e0),
                    ));
                }
            }
        }
        return (400, empty);
    }
    let now_secs = now_ms_value / 1000;
    let ip_bucket = crate::buckets::bucket_ip(ip);
    let ua_bucket = crate::buckets::ua_bucket(user_agent);
    let parent = match crate::maze::token::verify(
        parent_token_raw.as_str(),
        secret,
        Some(now_secs),
    ) {
        Ok(p) => p,
        Err(_) => {
            proof {
                if old(store).reliable() {
                    assert forall|fs: Seq<crate::json::JFieldV>, e0: OperationEnvelope|
                        #[trigger] issue_replayed(
                            old(store).kv(), body@, fs, *cfg, segment@, secret.spec_bytes(),
                            ip@, user_agent@, now_ms_value, e0,
                        ) implies false by {
                        assert(crate::json::fields_view(fields@) == fs);
                        assert(parent_token_raw@ == crate::envelope::spec_token(
                            secret.spec_bytes(),
                            crate::envelope::env_fields(e0),
                        ));
                    }
                }
            }
            return (400, empty);
        },
    };
    if !str_eq(parent.ip_bucket.as_str(), ip_bucket.as_str()) || !str_eq(
        parent.ua_bucket.as_str(),
        ua_bucket.as_str(),
    ) || !str_eq(parent.path_prefix.as_str(), prefix.as_str()) {
        proof {
            if old(store).reliable() {
                assert forall|fs: Seq<crate::json::JFieldV>, e0: OperationEnvelope|
                    #[trigger] issue_replayed(
                        old(store).kv(), body@, fs, *cfg, segment@, secret.spec_bytes(), ip@,
                        user_agent@, now_ms_value, e0,
                    ) implies false by {
                    assert(crate::json::fields_view(fields@) == fs);
                    assert(parent_token_raw@ == crate::envelope::spec_token(
                        secret.spec_bytes(),
                        crate::envelope::env_fields(e0),
                    ));
                    crate::envelope::lemma_env_fields_agree(parent, e0);
                }
            }
        }
        return (403, empty);
    }
    if crate::maze::state::checkpoint_missing(
        store,
        cfg.maze_client_expansion_enabled,
        cfg.maze_checkpoint_every_nodes,
        cfg.maze_step_ahead_max,
        cfg.maze_checkpoint_every_ms,
        parent.flow_id.as_str(),
        ip_bucket.as_str(),
        parent.depth,
        now_ms_value,
    ) && parent.depth > cfg.maze_no_js_fallback_max_depth {
        proof {
            if old(store).reliable() {
                assert forall|fs: Seq<crate::json::JFieldV>, e0: OperationEnvelope|
                    #[trigger] issue_replayed(
                        old(store).kv(), body@, fs, *cfg, segment@, secret.spec_bytes(), ip@,
                        user_agent@, now_ms_value, e0,
                    ) implies false by {
                    assert(crate::json::fields_view(fields@) == fs);
                    assert(parent_token_raw@ == crate::envelope::spec_token(
                        secret.spec_bytes(),
                        crate::envelope::env_fields(e0),
                    ));
                    crate::envelope::lemma_env_fields_agree(parent, e0);
                }
            }
        }
        return (403, empty);
    }
    if crate::maze::state::issue_seen(
        store,
        parent.flow_id.as_str(),
        parent.operation_id.as_str(),
        now_secs,
    ) {
        proof {
            if old(store).reliable() {
                assert(crate::envelope::env_fields(parent)
                    == crate::envelope::env_fields(parent));
                assert(crate::maze::state::marker_fresh(
                    old(store).kv(),
                    "maze:token:issue:"@ + parent.flow_id@ + ":"@ + parent.operation_id@,
                    now_secs,
                ));
            }
        }
        return (409, empty);
    }
    proof {
        if old(store).reliable() {
            assert forall|fs: Seq<crate::json::JFieldV>, e0: OperationEnvelope|
                #[trigger] issue_replayed(
                    old(store).kv(), body@, fs, *cfg, segment@, secret.spec_bytes(), ip@,
                    user_agent@, now_ms_value, e0,
                ) implies false by {
                assert(crate::json::fields_view(fields@) == fs);
                assert(parent_token_raw@ == crate::envelope::spec_token(
                    secret.spec_bytes(),
                    crate::envelope::env_fields(e0),
                ));
                crate::envelope::lemma_env_fields_agree(parent, e0);
            }
        }
    }
    let payload_flow = match fields_get_str(&fields, "flow_id") {
        Some(f) => f,
        None => String::new(),
    };
    let payload_nonce = match fields_get_str(&fields, "entropy_nonce") {
        Some(f) => f,
        None => String::new(),
    };
    if !str_eq(payload_flow.as_str(), parent.flow_id.as_str()) || !str_eq(
        payload_nonce.as_str(),
        parent.entropy_nonce.as_str(),
    ) {
        return (403, empty);
    }
    let seed64 = match fields_get_u64(&fields, "seed") {
        Some(n) => n,
        None => 0,
    };
    let seed: u32 = (seed64 % 0x1_0000_0000) as u32;
    let hidden_count = match fields_get_u64(&fields, "hidden_count") {
        Some(n) => n,
        None => 0,
    };
    let requested = match fields_get_u64(&fields, "requested_hidden_count") {
        Some(n) => n,
        None => hidden_count,
    };
    let segment_len = match fields_get_u64(&fields, "segment_len") {
        Some(n) => n,
        None => 0,
    };
    let seed_signature = match fields_get_str(&fields, "seed_sig") {
        Some(s) => s,
        None => String::new(),
    };
    if hidden_count == 0 || segment_len == 0 {
        return (200, empty);
    }
    if !crate::maze::token::verify_expansion_seed_signature(
        seed_signature.as_str(),
        secret,
        parent.flow_id.as_str(),
        prefix.as_str(),
        parent.entropy_nonce.as_str(),
        parent.depth,
        seed as u64,
        hidden_count,
        segment_len,
    ) {
        return (403, empty);
    }
    let expected_paths = crate::maze::rng::worker_candidate_paths(
        seed,
        hidden_count,
        segment_len,
        prefix.as_str(),
    );
    let hard_cap_raw: u64 = if cfg.maze_max_links as u64 > 24 {
        24
    } else {
        cfg.maze_max_links as u64
    };
    let hard_cap: usize = if hard_cap_raw == 0 {
        1
    } else {
        hard_cap_raw as usize
    };
    let branch_limit: usize = if parent.branch_budget == 0 {
        1
    } else {
        parent.branch_budget as usize
    };
    let requested_limit: usize = if requested == 0 {
        1
    } else if requested > hidden_count {
        if hidden_count > 24 {
            24
        } else {
            hidden_count as usize
        }
    } else {
        if requested > 24 {
            24
        } else {
            requested as usize
        }
    };
    let mut limit = expected_paths.len();
    if requested_limit < limit {
        limit = requested_limit;
    }
    if hard_cap < limit {
        limit = hard_cap;
    }
    if branch_limit < limit {
        limit = branch_limit;
    }
    let child_budget: u32 = if parent.branch_budget <= 2 {
        1
    } else {
        parent.branch_budget - 1
    };
    let ghost gbounded: int = if hidden_count > 24 {
        24
    } else {
        hidden_count as int
    };
    let ghost gseg: int = if segment_len < 8 {
        8
    } else if segment_len > 48 {
        48
    } else {
        segment_len as int
    };
    let ghost gpaths = crate::maze::rng::candidate_paths_of(
        seed,
        gbounded,
        gseg,
        crate::maze::path_prefix_of(segment@),
    );
    let ghost cdepth: u16 = if parent.depth < 0xffff {
        (parent.depth + 1) as u16
    } else {
        parent.depth
    };
    let mut links: Vec<IssuedLink> = Vec::new();
    let mut i: usize = 0;
    proof {
        assert(expected_paths@.map_values(|s: String| s@) == gpaths);
        assert(gpaths.len() == gbounded);
    }
    while i < limit
        invariant
            store.inv(),
            0 <= i <= limit,
            limit <= expected_paths@.len(),
            limit <= 24,
            links@.len() == i,
            now_ms_value / 1000 + cfg.maze_token_ttl_seconds <= u64::MAX,
            now_secs == now_ms_value / 1000,
            expected_paths@.map_values(|s: String| s@) == gpaths,
            expected_paths@.len() == gpaths.len(),
            cdepth == (if parent.depth < 0xffff {
                (parent.depth + 1) as u16
            } else {
                parent.depth
            }),
            forall|j: int| 0 <= j < links@.len() ==> crate::text::starts_with_seq(
                (#[trigger] links@[j]).href@,
                gpaths[j] + "?mt="@,
            ),
            forall|j: int| 0 <= j < links@.len() ==> (#[trigger] links@[j]).pow_difficulty
                == crate::maze::policy::spec_pow_difficulty(
                cfg.maze_micro_pow_enabled,
                cfg.maze_micro_pow_depth_start,
                cfg.maze_micro_pow_base_difficulty,
                cdepth,
            ),
        decreases limit - i,
    {
        let path = expected_paths[i].clone();
        proof {
            assert(expected_paths@.map_values(|s: String| s@)[i as int]
                == expected_paths@[i as int]@);
            assert(path@ == gpaths[i as int]);
        }
        let child = crate::maze::token::issue_child_token(
            Some(&parent),
            path.as_str(),
            prefix.as_str(),
            ip_bucket.as_str(),
            ua_bucket.as_str(),
            cfg.maze_token_ttl_seconds,
            cfg.maze_token_max_depth,
            child_budget,
            parent.entropy_nonce.as_str(),
            parent.variant_id,
            now_secs,
        );
        let signed = crate::maze::token::sign(&child, secret);
        let mut href = path;
        href.append("?mt=");
        href.append(signed.as_str());
        let pow = crate::maze::policy::pow_difficulty_for_depth(
            cfg.maze_micro_pow_enabled,
            cfg.maze_micro_pow_depth_start,
            cfg.maze_micro_pow_base_difficulty,
            child.depth,
        );
        proof {
            reveal_strlit("?mt=");
            assert(child.depth == cdepth);
            assert(href@ == gpaths[i as int] + "?mt="@ + signed@);
            assert(href@.subrange(0, (gpaths[i as int] + "?mt="@).len() as int)
                =~= gpaths[i as int] + "?mt="@);
            assert(crate::text::starts_with_seq(href@, gpaths[i as int] + "?mt="@));
        }
        links.push(
            IssuedLink {
                href,
                text: "Continue".to_owned(),
                description: "Operational stream.".to_owned(),
                pow_difficulty: pow,
            },
        );
        i = i + 1;
    }
    crate::maze::state::mark_issue_seen(
        store,
        parent.flow_id.as_str(),
        parent.operation_id.as_str(),
        parent.expires_at,
        cfg.maze_replay_ttl_seconds,
        now_secs,
    );
    proof {
        if old(store).reliable() && links@.len() > 0 {
            assert(crate::maze::rng::candidate_paths_of(
                seed,
                gbounded,
                gseg,
                crate::maze::path_prefix_of(segment@),
            ) == gpaths);
            assert(crate::envelope::env_fields(parent) == crate::envelope::env_fields(parent));
            assert(0 < gbounded <= 24);
            assert(8 <= gseg <= 48);
            assert(links@.len() <= gbounded);
            assert(links@.len() <= (if parent.branch_budget == 0 {
                1int
            } else {
                parent.branch_budget as int
            }));
            assert(!crate::maze::state::marker_fresh(
                old(store).kv(),
                "maze:token:issue:"@ + parent.flow_id@ + ":"@ + parent.operation_id@,
                now_secs,
            ));
            assert(final(store).kv() == old(store).kv().insert(
                "maze:token:issue:"@ + parent.flow_id@ + ":"@ + parent.operation_id@,
                crate::text::dec_bytes_of(
                    crate::maze::state::marker_until_of(
                        parent.expires_at,
                        now_secs,
                        cfg.maze_replay_ttl_seconds,
                    ) as nat,
                ),
            ));
        }
    }
    (200, links)
}

/// Whether a client-proposed candidate path is safe to echo back: it
/// must sit under the maze prefix, stay short, and use only the path
/// alphabet.
pub fn is_safe_maze_candidate_path(path: &str, path_prefix: &str) -> (r: bool)
    ensures
        r ==> path@.len() <= 256 && crate::text::starts_with_seq(path@, path_prefix@),
{
    if !crate::text::str_starts_with(path, path_prefix) {
        return false;
    }
    let len = path.unicode_len();
    if len > 256 {
        return false;
    }
    let mut i: usize = 0;
    while i < len
        invariant
            0 <= i <= len,
            len == path@.len(),
            len <= 256,
            crate::text::starts_with_seq(path@, path_prefix@),
        decreases len - i,
    {
        let c = path.get_char(i);
        let ok = (c >= 'a' && c <= 'z') || (c >= 'A' && c <= 'Z') || (c >= '0' && c <= '9') || c
            == '/' || c == '-' || c == '_' || c == '.' || c == '~';
        if !ok {
            return false;
        }
        i = i + 1;
    }
    true
}

/// Trim a client-proposed link text, fall back when it is empty, and
/// cap it at ninety-six characters.
pub fn sanitize_candidate_text(value: Option<String>, fallback: &str) -> (r: String)
    ensures
        r@.len() <= 96 || r@ == fallback@,
{
    let raw = match value {
        Some(v) => v,
        None => String::new(),
    };
    let len = raw.as_str().unicode_len();
    let mut start: usize = 0;
    while start < len
        invariant
            0 <= start <= len,
            len == raw@.len(),
        decreases len - start,
    {
        let c = raw.as_str().get_char(start);
        if !(c == ' ' || c == '\t' || c == '\n' || c == '\r') {
            break;
        }
        start = start + 1;
    }
    let mut stop = len;
    while stop > start
        invariant
            start <= stop <= len,
            len == raw@.len(),
        decreases stop,
    {
        let c = raw.as_str().get_char(stop - 1);
        if !(c == ' ' || c == '\t' || c == '\n' || c == '\r') {
            break;
        }
        stop = stop - 1;
    }
    if stop == start {
        return fallback.to_owned();
    }
    let trimmed = crate::text::str_range(raw.as_str(), start, stop);
    crate::crypto::str_take(trimmed.as_str(), 96)
}

} // verus!
