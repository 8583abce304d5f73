//! The policy configuration: the tunables every component reads, the
//! environment-value parsers with their clamping rules, the KV-backed
//! loader, and the TTL cache with explicit invalidation.

use vstd::prelude::*;

use crate::json::{
    encode_fields, fields_view, json_of, lemma_json_round_trip, lemma_parse_json_sound,
    parse_fields, plain_char, plain_str, spec_parse_json, valid_fields, JFieldV, JVal, JValV,
};
use crate::kv::KeyValueStore;
use crate::text::{str_eq, string_push, to_ascii_lower};

verus! {

/// Config record carried through the canonical JSON codec.
#[derive(Clone)]
pub struct Config {
    pub rate_limit: u64,
    pub rate_ban_factor: u64,
    pub rate_window_seconds: u64,
    pub ban_ttl_seconds: u64,
    pub test_mode: bool,
    pub robots_enabled: bool,
    pub honeypots: String,
    pub challenge_puzzle_enabled: bool,
    pub challenge_puzzle_transform_count: u32,
    pub challenge_puzzle_seed_ttl_seconds: u64,
    pub challenge_puzzle_attempt_window_seconds: u64,
    pub challenge_puzzle_attempt_limit_per_window: u32,
    pub botness_challenge_threshold: u8,
    pub botness_maze_threshold: u8,
    pub maze_enabled: bool,
    pub maze_rollout_phase: String,
    pub maze_max_concurrent_global: u64,
    pub maze_max_concurrent_per_ip_bucket: u64,
    pub maze_replay_ttl_seconds: u64,
    pub maze_token_ttl_seconds: u64,
    pub maze_token_max_depth: u16,
    pub maze_token_branch_budget: u32,
    pub maze_checkpoint_every_nodes: u64,
    pub maze_checkpoint_every_ms: u64,
    pub maze_step_ahead_max: u64,
    pub maze_no_js_fallback_max_depth: u16,
    pub maze_micro_pow_enabled: bool,
    pub maze_micro_pow_depth_start: u16,
    pub maze_micro_pow_base_difficulty: u8,
    pub maze_client_expansion_enabled: bool,
    pub maze_entropy_window_seconds: u64,
    pub maze_max_links: u32,
    pub maze_server_visible_links: u32,
    pub maze_max_paragraphs: u32,
    pub maze_path_entropy_segment_len: u32,
    pub maze_max_response_bytes: u64,
    pub maze_max_response_duration_ms: u64,
    pub fingerprint_signal_enabled: bool,
    pub fingerprint_pseudonymize: bool,
    pub fingerprint_flow_window_seconds: u64,
    pub fingerprint_flow_violation_threshold: u32,
}

/// The field list that encodes a Config.
pub open spec fn config_fields(x: Config) -> Seq<JFieldV> {
    seq![
        ("rate_limit"@, JValV::N(x.rate_limit as u64)),
        ("rate_ban_factor"@, JValV::N(x.rate_ban_factor as u64)),
        ("rate_window_seconds"@, JValV::N(x.rate_window_seconds as u64)),
        ("ban_ttl_seconds"@, JValV::N(x.ban_ttl_seconds as u64)),
        ("test_mode"@, JValV::N(if x.test_mode { 1u64 } else { 0u64 })),
        ("robots_enabled"@, JValV::N(if x.robots_enabled { 1u64 } else { 0u64 })),
        ("honeypots"@, JValV::S(x.honeypots@)),
        ("challenge_puzzle_enabled"@, JValV::N(if x.challenge_puzzle_enabled { 1u64 } else { 0u64 })),
        ("challenge_puzzle_transform_count"@, JValV::N(x.challenge_puzzle_transform_count as u64)),
        ("challenge_puzzle_seed_ttl_seconds"@, JValV::N(x.challenge_puzzle_seed_ttl_seconds as u64)),
        ("challenge_puzzle_attempt_window_seconds"@, JValV::N(x.challenge_puzzle_attempt_window_seconds as u64)),
        ("challenge_puzzle_attempt_limit_per_window"@, JValV::N(x.challenge_puzzle_attempt_limit_per_window as u64)),
        ("botness_challenge_threshold"@, JValV::N(x.botness_challenge_threshold as u64)),
        ("botness_maze_threshold"@, JValV::N(x.botness_maze_threshold as u64)),
        ("maze_enabled"@, JValV::N(if x.maze_enabled { 1u64 } else { 0u64 })),
        ("maze_rollout_phase"@, JValV::S(x.maze_rollout_phase@)),
        ("maze_max_concurrent_global"@, JValV::N(x.maze_max_concurrent_global as u64)),
        ("maze_max_concurrent_per_ip_bucket"@, JValV::N(x.maze_max_concurrent_per_ip_bucket as u64)),
        ("maze_replay_ttl_seconds"@, JValV::N(x.maze_replay_ttl_seconds as u64)),
        ("maze_token_ttl_seconds"@, JValV::N(x.maze_token_ttl_seconds as u64)),
        ("maze_token_max_depth"@, JValV::N(x.maze_token_max_depth as u64)),
        ("maze_token_branch_budget"@, JValV::N(x.maze_token_branch_budget as u64)),
        ("maze_checkpoint_every_nodes"@, JValV::N(x.maze_checkpoint_every_nodes as u64)),
        ("maze_checkpoint_every_ms"@, JValV::N(x.maze_checkpoint_every_ms as u64)),
        ("maze_step_ahead_max"@, JValV::N(x.maze_step_ahead_max as u64)),
        ("maze_no_js_fallback_max_depth"@, JValV::N(x.maze_no_js_fallback_max_depth as u64)),
        ("maze_micro_pow_enabled"@, JValV::N(if x.maze_micro_pow_enabled { 1u64 } else { 0u64 })),
        ("maze_micro_pow_depth_start"@, JValV::N(x.maze_micro_pow_depth_start as u64)),
        ("maze_micro_pow_base_difficulty"@, JValV::N(x.maze_micro_pow_base_difficulty as u64)),
        ("maze_client_expansion_enabled"@, JValV::N(if x.maze_client_expansion_enabled { 1u64 } else { 0u64 })),
        ("maze_entropy_window_seconds"@, JValV::N(x.maze_entropy_window_seconds as u64)),
        ("maze_max_links"@, JValV::N(x.maze_max_links as u64)),
        ("maze_server_visible_links"@, JValV::N(x.maze_server_visible_links as u64)),
        ("maze_max_paragraphs"@, JValV::N(x.maze_max_paragraphs as u64)),
        ("maze_path_entropy_segment_len"@, JValV::N(x.maze_path_entropy_segment_len as u64)),
        ("maze_max_response_bytes"@, JValV::N(x.maze_max_response_bytes as u64)),
        ("maze_max_response_duration_ms"@, JValV::N(x.maze_max_response_duration_ms as u64)),
        ("fingerprint_signal_enabled"@, JValV::N(if x.fingerprint_signal_enabled { 1u64 } else { 0u64 })),
        ("fingerprint_pseudonymize"@, JValV::N(if x.fingerprint_pseudonymize { 1u64 } else { 0u64 })),
        ("fingerprint_flow_window_seconds"@, JValV::N(x.fingerprint_flow_window_seconds as u64)),
        ("fingerprint_flow_violation_threshold"@, JValV::N(x.fingerprint_flow_violation_threshold as u64)),
    ]
}

/// String fields fit for the codec.
pub open spec fn config_plain(x: Config) -> bool {
    plain_str(x.honeypots@) && plain_str(x.maze_rollout_phase@)
}

proof fn lemma_config_keys_plain()
    ensures
        plain_str("rate_limit"@),
        plain_str("rate_ban_factor"@),
        plain_str("rate_window_seconds"@),
        plain_str("ban_ttl_seconds"@),
        plain_str("test_mode"@),
        plain_str("robots_enabled"@),
        plain_str("honeypots"@),
        plain_str("challenge_puzzle_enabled"@),
        plain_str("challenge_puzzle_transform_count"@),
        plain_str("challenge_puzzle_seed_ttl_seconds"@),
        plain_str("challenge_puzzle_attempt_window_seconds"@),
        plain_str("challenge_puzzle_attempt_limit_per_window"@),
        plain_str("botness_challenge_threshold"@),
        plain_str("botness_maze_threshold"@),
        plain_str("maze_enabled"@),
        plain_str("maze_rollout_phase"@),
        plain_str("maze_max_concurrent_global"@),
        plain_str("maze_max_concurrent_per_ip_bucket"@),
        plain_str("maze_replay_ttl_seconds"@),
        plain_str("maze_token_ttl_seconds"@),
        plain_str("maze_token_max_depth"@),
        plain_str("maze_token_branch_budget"@),
        plain_str("maze_checkpoint_every_nodes"@),
        plain_str("maze_checkpoint_every_ms"@),
        plain_str("maze_step_ahead_max"@),
        plain_str("maze_no_js_fallback_max_depth"@),
        plain_str("maze_micro_pow_enabled"@),
        plain_str("maze_micro_pow_depth_start"@),
        plain_str("maze_micro_pow_base_difficulty"@),
        plain_str("maze_client_expansion_enabled"@),
        plain_str("maze_entropy_window_seconds"@),
        plain_str("maze_max_links"@),
        plain_str("maze_server_visible_links"@),
        plain_str("maze_max_paragraphs"@),
        plain_str("maze_path_entropy_segment_len"@),
        plain_str("maze_max_response_bytes"@),
        plain_str("maze_max_response_duration_ms"@),
        plain_str("fingerprint_signal_enabled"@),
        plain_str("fingerprint_pseudonymize"@),
        plain_str("fingerprint_flow_window_seconds"@),
        plain_str("fingerprint_flow_violation_threshold"@),
{
    reveal_strlit("rate_limit");
    assert(("rate_limit"@).len() == 10);
    assert forall|i: int| 0 <= i < ("rate_limit"@).len() implies plain_char(("rate_limit"@)[i]) by {
        let s = "rate_limit"@;
        assert(plain_char(s[0]));
        assert(plain_char(s[1]));
        assert(plain_char(s[2]));
        assert(plain_char(s[3]));
        assert(plain_char(s[4]));
        assert(plain_char(s[5]));
        assert(plain_char(s[6]));
        assert(plain_char(s[7]));
        assert(plain_char(s[8]));
        assert(plain_char(s[9]));
    }
    reveal_strlit("rate_ban_factor");
    assert(("rate_ban_factor"@).len() == 15);
    assert forall|i: int| 0 <= i < ("rate_ban_factor"@).len() implies plain_char(("rate_ban_factor"@)[i]) by {
        let s = "rate_ban_factor"@;
        assert(plain_char(s[0]));
        assert(plain_char(s[1]));
        assert(plain_char(s[2]));
        assert(plain_char(s[3]));
        assert(plain_char(s[4]));
        assert(plain_char(s[5]));
        assert(plain_char(s[6]));
        assert(plain_char(s[7]));
        assert(plain_char(s[8]));
        assert(plain_char(s[9]));
        assert(plain_char(s[10]));
        assert(plain_char(s[11]));
        assert(plain_char(s[12]));
        assert(plain_char(s[13]));
        assert(plain_char(s[14]));
    }
    reveal_strlit("rate_window_seconds");
    assert(("rate_window_seconds"@).len() == 19);
    assert forall|i: int| 0 <= i < ("rate_window_seconds"@).len() implies plain_char(("rate_window_seconds"@)[i]) by {
        let s = "rate_window_seconds"@;
        assert(plain_char(s[0]));
        assert(plain_char(s[1]));
        assert(plain_char(s[2]));
        assert(plain_char(s[3]));
        assert(plain_char(s[4]));
        assert(plain_char(s[5]));
        assert(plain_char(s[6]));
        assert(plain_char(s[7]));
        assert(plain_char(s[8]));
        assert(plain_char(s[9]));
        assert(plain_char(s[10]));
        assert(plain_char(s[11]));
        assert(plain_char(s[12]));
        assert(plain_char(s[13]));
        assert(plain_char(s[14]));
        assert(plain_char(s[15]));
        assert(plain_char(s[16]));
        assert(plain_char(s[17]));
        assert(plain_char(s[18]));
    }
    reveal_strlit("ban_ttl_seconds");
    assert(("ban_ttl_seconds"@).len() == 15);
    assert forall|i: int| 0 <= i < ("ban_ttl_seconds"@).len() implies plain_char(("ban_ttl_seconds"@)[i]) by {
        let s = "ban_ttl_seconds"@;
        assert(plain_char(s[0]));
        assert(plain_char(s[1]));
        assert(plain_char(s[2]));
        assert(plain_char(s[3]));
        assert(plain_char(s[4]));
        assert(plain_char(s[5]));
        assert(plain_char(s[6]));
        assert(plain_char(s[7]));
        assert(plain_char(s[8]));
        assert(plain_char(s[9]));
        assert(plain_char(s[10]));
        assert(plain_char(s[11]));
        assert(plain_char(s[12]));
        assert(plain_char(s[13]));
        assert(plain_char(s[14]));
    }
    reveal_strlit("test_mode");
    assert(("test_mode"@).len() == 9);
    assert forall|i: int| 0 <= i < ("test_mode"@).len() implies plain_char(("test_mode"@)[i]) by {
        let s = "test_mode"@;
        assert(plain_char(s[0]));
        assert(plain_char(s[1]));
        assert(plain_char(s[2]));
        assert(plain_char(s[3]));
        assert(plain_char(s[4]));
        assert(plain_char(s[5]));
        assert(plain_char(s[6]));
        assert(plain_char(s[7]));
        assert(plain_char(s[8]));
    }
    reveal_strlit("robots_enabled");
    assert(("robots_enabled"@).len() == 14);
    assert forall|i: int| 0 <= i < ("robots_enabled"@).len() implies plain_char(("robots_enabled"@)[i]) by {
        let s = "robots_enabled"@;
        assert(plain_char(s[0]));
        assert(plain_char(s[1]));
        assert(plain_char(s[2]));
        assert(plain_char(s[3]));
        assert(plain_char(s[4]));
        assert(plain_char(s[5]));
        assert(plain_char(s[6]));
        assert(plain_char(s[7]));
        assert(plain_char(s[8]));
        assert(plain_char(s[9]));
        assert(plain_char(s[10]));
        assert(plain_char(s[11]));
        assert(plain_char(s[12]));
        assert(plain_char(s[13]));
    }
    reveal_strlit("honeypots");
    assert(("honeypots"@).len() == 9);
    assert forall|i: int| 0 <= i < ("honeypots"@).len() implies plain_char(("honeypots"@)[i]) by {
        let s = "honeypots"@;
        assert(plain_char(s[0]));
        assert(plain_char(s[1]));
        assert(plain_char(s[2]));
        assert(plain_char(s[3]));
        assert(plain_char(s[4]));
        assert(plain_char(s[5]));
        assert(plain_char(s[6]));
        assert(plain_char(s[7]));
        assert(plain_char(s[8]));
    }
    reveal_strlit("challenge_puzzle_enabled");
    assert(("challenge_puzzle_enabled"@).len() == 24);
    assert forall|i: int| 0 <= i < ("challenge_puzzle_enabled"@).len() implies plain_char(("challenge_puzzle_enabled"@)[i]) by {
        let s = "challenge_puzzle_enabled"@;
        assert(plain_char(s[0]));
        assert(plain_char(s[1]));
        assert(plain_char(s[2]));
        assert(plain_char(s[3]));
        assert(plain_char(s[4]));
        assert(plain_char(s[5]));
        assert(plain_char(s[6]));
        assert(plain_char(s[7]));
        assert(plain_char(s[8]));
        assert(plain_char(s[9]));
        assert(plain_char(s[10]));
        assert(plain_char(s[11]));
        assert(plain_char(s[12]));
        assert(plain_char(s[13]));
        assert(plain_char(s[14]));
        assert(plain_char(s[15]));
        assert(plain_char(s[16]));
        assert(plain_char(s[17]));
        assert(plain_char(s[18]));
        assert(plain_char(s[19]));
        assert(plain_char(s[20]));
        assert(plain_char(s[21]));
        assert(plain_char(s[22]));
        assert(plain_char(s[23]));
    }
    reveal_strlit("challenge_puzzle_transform_count");
    assert(("challenge_puzzle_transform_count"@).len() == 32);
    assert forall|i: int| 0 <= i < ("challenge_puzzle_transform_count"@).len() implies plain_char(("challenge_puzzle_transform_count"@)[i]) by {
        let s = "challenge_puzzle_transform_count"@;
        assert(plain_char(s[0]));
        assert(plain_char(s[1]));
        assert(plain_char(s[2]));
        assert(plain_char(s[3]));
        assert(plain_char(s[4]));
        assert(plain_char(s[5]));
        assert(plain_char(s[6]));
        assert(plain_char(s[7]));
        assert(plain_char(s[8]));
        assert(plain_char(s[9]));
        assert(plain_char(s[10]));
        assert(plain_char(s[11]));
        assert(plain_char(s[12]));
        assert(plain_char(s[13]));
        assert(plain_char(s[14]));
        assert(plain_char(s[15]));
        assert(plain_char(s[16]));
        assert(plain_char(s[17]));
        assert(plain_char(s[18]));
        assert(plain_char(s[19]));
        assert(plain_char(s[20]));
        assert(plain_char(s[21]));
        assert(plain_char(s[22]));
        assert(plain_char(s[23]));
        assert(plain_char(s[24]));
        assert(plain_char(s[25]));
        assert(plain_char(s[26]));
        assert(plain_char(s[27]));
        assert(plain_char(s[28]));
        assert(plain_char(s[29]));
        assert(plain_char(s[30]));
        assert(plain_char(s[31]));
    }
    reveal_strlit("challenge_puzzle_seed_ttl_seconds");
    assert(("challenge_puzzle_seed_ttl_seconds"@).len() == 33);
    assert forall|i: int| 0 <= i < ("challenge_puzzle_seed_ttl_seconds"@).len() implies plain_char(("challenge_puzzle_seed_ttl_seconds"@)[i]) by {
        let s = "challenge_puzzle_seed_ttl_seconds"@;
        assert(plain_char(s[0]));
        assert(plain_char(s[1]));
        assert(plain_char(s[2]));
        assert(plain_char(s[3]));
        assert(plain_char(s[4]));
        assert(plain_char(s[5]));
        assert(plain_char(s[6]));
        assert(plain_char(s[7]));
        assert(plain_char(s[8]));
        assert(plain_char(s[9]));
        assert(plain_char(s[10]));
        assert(plain_char(s[11]));
        assert(plain_char(s[12]));
        assert(plain_char(s[13]));
        assert(plain_char(s[14]));
        assert(plain_char(s[15]));
        assert(plain_char(s[16]));
        assert(plain_char(s[17]));
        assert(plain_char(s[18]));
        assert(plain_char(s[19]));
        assert(plain_char(s[20]));
        assert(plain_char(s[21]));
        assert(plain_char(s[22]));
        assert(plain_char(s[23]));
        assert(plain_char(s[24]));
        assert(plain_char(s[25]));
        assert(plain_char(s[26]));
        assert(plain_char(s[27]));
        assert(plain_char(s[28]));
        assert(plain_char(s[29]));
        assert(plain_char(s[30]));
        assert(plain_char(s[31]));
        assert(plain_char(s[32]));
    }
    reveal_strlit("challenge_puzzle_attempt_window_seconds");
    assert(("challenge_puzzle_attempt_window_seconds"@).len() == 39);
    assert forall|i: int| 0 <= i < ("challenge_puzzle_attempt_window_seconds"@).len() implies plain_char(("challenge_puzzle_attempt_window_seconds"@)[i]) by {
        let s = "challenge_puzzle_attempt_window_seconds"@;
        assert(plain_char(s[0]));
        assert(plain_char(s[1]));
        assert(plain_char(s[2]));
        assert(plain_char(s[3]));
        assert(plain_char(s[4]));
        assert(plain_char(s[5]));
        assert(plain_char(s[6]));
        assert(plain_char(s[7]));
        assert(plain_char(s[8]));
        assert(plain_char(s[9]));
        assert(plain_char(s[10]));
        assert(plain_char(s[11]));
        assert(plain_char(s[12]));
        assert(plain_char(s[13]));
        assert(plain_char(s[14]));
        assert(plain_char(s[15]));
        assert(plain_char(s[16]));
        assert(plain_char(s[17]));
        assert(plain_char(s[18]));
        assert(plain_char(s[19]));
        assert(plain_char(s[20]));
        assert(plain_char(s[21]));
        assert(plain_char(s[22]));
        assert(plain_char(s[23]));
        assert(plain_char(s[24]));
        assert(plain_char(s[25]));
        assert(plain_char(s[26]));
        assert(plain_char(s[27]));
        assert(plain_char(s[28]));
        assert(plain_char(s[29]));
        assert(plain_char(s[30]));
        assert(plain_char(s[31]));
        assert(plain_char(s[32]));
        assert(plain_char(s[33]));
        assert(plain_char(s[34]));
        assert(plain_char(s[35]));
        assert(plain_char(s[36]));
        assert(plain_char(s[37]));
        assert(plain_char(s[38]));
    }
    reveal_strlit("challenge_puzzle_attempt_limit_per_window");
    assert(("challenge_puzzle_attempt_limit_per_window"@).len() == 41);
    assert forall|i: int| 0 <= i < ("challenge_puzzle_attempt_limit_per_window"@).len() implies plain_char(("challenge_puzzle_attempt_limit_per_window"@)[i]) by {
        let s = "challenge_puzzle_attempt_limit_per_window"@;
        assert(plain_char(s[0]));
        assert(plain_char(s[1]));
        assert(plain_char(s[2]));
        assert(plain_char(s[3]));
        assert(plain_char(s[4]));
        assert(plain_char(s[5]));
        assert(plain_char(s[6]));
        assert(plain_char(s[7]));
        assert(plain_char(s[8]));
        assert(plain_char(s[9]));
        assert(plain_char(s[10]));
        assert(plain_char(s[11]));
        assert(plain_char(s[12]));
        assert(plain_char(s[13]));
        assert(plain_char(s[14]));
        assert(plain_char(s[15]));
        assert(plain_char(s[16]));
        assert(plain_char(s[17]));
        assert(plain_char(s[18]));
        assert(plain_char(s[19]));
        assert(plain_char(s[20]));
        assert(plain_char(s[21]));
        assert(plain_char(s[22]));
        assert(plain_char(s[23]));
        assert(plain_char(s[24]));
        assert(plain_char(s[25]));
        assert(plain_char(s[26]));
        assert(plain_char(s[27]));
        assert(plain_char(s[28]));
        assert(plain_char(s[29]));
        assert(plain_char(s[30]));
        assert(plain_char(s[31]));
        assert(plain_char(s[32]));
        assert(plain_char(s[33]));
        assert(plain_char(s[34]));
        assert(plain_char(s[35]));
        assert(plain_char(s[36]));
        assert(plain_char(s[37]));
        assert(plain_char(s[38]));
        assert(plain_char(s[39]));
        assert(plain_char(s[40]));
    }
    reveal_strlit("botness_challenge_threshold");
    assert(("botness_challenge_threshold"@).len() == 27);
    assert forall|i: int| 0 <= i < ("botness_challenge_threshold"@).len() implies plain_char(("botness_challenge_threshold"@)[i]) by {
        let s = "botness_challenge_threshold"@;
        assert(plain_char(s[0]));
        assert(plain_char(s[1]));
        assert(plain_char(s[2]));
        assert(plain_char(s[3]));
        assert(plain_char(s[4]));
        assert(plain_char(s[5]));
        assert(plain_char(s[6]));
        assert(plain_char(s[7]));
        assert(plain_char(s[8]));
        assert(plain_char(s[9]));
        assert(plain_char(s[10]));
        assert(plain_char(s[11]));
        assert(plain_char(s[12]));
        assert(plain_char(s[13]));
        assert(plain_char(s[14]));
        assert(plain_char(s[15]));
        assert(plain_char(s[16]));
        assert(plain_char(s[17]));
        assert(plain_char(s[18]));
        assert(plain_char(s[19]));
        assert(plain_char(s[20]));
        assert(plain_char(s[21]));
        assert(plain_char(s[22]));
        assert(plain_char(s[23]));
        assert(plain_char(s[24]));
        assert(plain_char(s[25]));
        assert(plain_char(s[26]));
    }
    reveal_strlit("botness_maze_threshold");
    assert(("botness_maze_threshold"@).len() == 22);
    assert forall|i: int| 0 <= i < ("botness_maze_threshold"@).len() implies plain_char(("botness_maze_threshold"@)[i]) by {
        let s = "botness_maze_threshold"@;
        assert(plain_char(s[0]));
        assert(plain_char(s[1]));
        assert(plain_char(s[2]));
        assert(plain_char(s[3]));
        assert(plain_char(s[4]));
        assert(plain_char(s[5]));
        assert(plain_char(s[6]));
        assert(plain_char(s[7]));
        assert(plain_char(s[8]));
        assert(plain_char(s[9]));
        assert(plain_char(s[10]));
        assert(plain_char(s[11]));
        assert(plain_char(s[12]));
        assert(plain_char(s[13]));
        assert(plain_char(s[14]));
        assert(plain_char(s[15]));
        assert(plain_char(s[16]));
        assert(plain_char(s[17]));
        assert(plain_char(s[18]));
        assert(plain_char(s[19]));
        assert(plain_char(s[20]));
        assert(plain_char(s[21]));
    }
    reveal_strlit("maze_enabled");
    assert(("maze_enabled"@).len() == 12);
    assert forall|i: int| 0 <= i < ("maze_enabled"@).len() implies plain_char(("maze_enabled"@)[i]) by {
        let s = "maze_enabled"@;
        assert(plain_char(s[0]));
        assert(plain_char(s[1]));
        assert(plain_char(s[2]));
        assert(plain_char(s[3]));
        assert(plain_char(s[4]));
        assert(plain_char(s[5]));
        assert(plain_char(s[6]));
        assert(plain_char(s[7]));
        assert(plain_char(s[8]));
        assert(plain_char(s[9]));
        assert(plain_char(s[10]));
        assert(plain_char(s[11]));
    }
    reveal_strlit("maze_rollout_phase");
    assert(("maze_rollout_phase"@).len() == 18);
    assert forall|i: int| 0 <= i < ("maze_rollout_phase"@).len() implies plain_char(("maze_rollout_phase"@)[i]) by {
        let s = "maze_rollout_phase"@;
        assert(plain_char(s[0]));
        assert(plain_char(s[1]));
        assert(plain_char(s[2]));
        assert(plain_char(s[3]));
        assert(plain_char(s[4]));
        assert(plain_char(s[5]));
        assert(plain_char(s[6]));
        assert(plain_char(s[7]));
        assert(plain_char(s[8]));
        assert(plain_char(s[9]));
        assert(plain_char(s[10]));
        assert(plain_char(s[11]));
        assert(plain_char(s[12]));
        assert(plain_char(s[13]));
        assert(plain_char(s[14]));
        assert(plain_char(s[15]));
        assert(plain_char(s[16]));
        assert(plain_char(s[17]));
    }
    reveal_strlit("maze_max_concurrent_global");
    assert(("maze_max_concurrent_global"@).len() == 26);
    assert forall|i: int| 0 <= i < ("maze_max_concurrent_global"@).len() implies plain_char(("maze_max_concurrent_global"@)[i]) by {
        let s = "maze_max_concurrent_global"@;
        assert(plain_char(s[0]));
        assert(plain_char(s[1]));
        assert(plain_char(s[2]));
        assert(plain_char(s[3]));
        assert(plain_char(s[4]));
        assert(plain_char(s[5]));
        assert(plain_char(s[6]));
        assert(plain_char(s[7]));
        assert(plain_char(s[8]));
        assert(plain_char(s[9]));
        assert(plain_char(s[10]));
        assert(plain_char(s[11]));
        assert(plain_char(s[12]));
        assert(plain_char(s[13]));
        assert(plain_char(s[14]));
        assert(plain_char(s[15]));
        assert(plain_char(s[16]));
        assert(plain_char(s[17]));
        assert(plain_char(s[18]));
        assert(plain_char(s[19]));
        assert(plain_char(s[20]));
        assert(plain_char(s[21]));
        assert(plain_char(s[22]));
        assert(plain_char(s[23]));
        assert(plain_char(s[24]));
        assert(plain_char(s[25]));
    }
    reveal_strlit("maze_max_concurrent_per_ip_bucket");
    assert(("maze_max_concurrent_per_ip_bucket"@).len() == 33);
    assert forall|i: int| 0 <= i < ("maze_max_concurrent_per_ip_bucket"@).len() implies plain_char(("maze_max_concurrent_per_ip_bucket"@)[i]) by {
        let s = "maze_max_concurrent_per_ip_bucket"@;
        assert(plain_char(s[0]));
        assert(plain_char(s[1]));
        assert(plain_char(s[2]));
        assert(plain_char(s[3]));
        assert(plain_char(s[4]));
        assert(plain_char(s[5]));
        assert(plain_char(s[6]));
        assert(plain_char(s[7]));
        assert(plain_char(s[8]));
        assert(plain_char(s[9]));
        assert(plain_char(s[10]));
        assert(plain_char(s[11]));
        assert(plain_char(s[12]));
        assert(plain_char(s[13]));
        assert(plain_char(s[14]));
        assert(plain_char(s[15]));
        assert(plain_char(s[16]));
        assert(plain_char(s[17]));
        assert(plain_char(s[18]));
        assert(plain_char(s[19]));
        assert(plain_char(s[20]));
        assert(plain_char(s[21]));
        assert(plain_char(s[22]));
        assert(plain_char(s[23]));
        assert(plain_char(s[24]));
        assert(plain_char(s[25]));
        assert(plain_char(s[26]));
        assert(plain_char(s[27]));
        assert(plain_char(s[28]));
        assert(plain_char(s[29]));
        assert(plain_char(s[30]));
        assert(plain_char(s[31]));
        assert(plain_char(s[32]));
    }
    reveal_strlit("maze_replay_ttl_seconds");
    assert(("maze_replay_ttl_seconds"@).len() == 23);
    assert forall|i: int| 0 <= i < ("maze_replay_ttl_seconds"@).len() implies plain_char(("maze_replay_ttl_seconds"@)[i]) by {
        let s = "maze_replay_ttl_seconds"@;
        assert(plain_char(s[0]));
        assert(plain_char(s[1]));
        assert(plain_char(s[2]));
        assert(plain_char(s[3]));
        assert(plain_char(s[4]));
        assert(plain_char(s[5]));
        assert(plain_char(s[6]));
        assert(plain_char(s[7]));
        assert(plain_char(s[8]));
        assert(plain_char(s[9]));
        assert(plain_char(s[10]));
        assert(plain_char(s[11]));
        assert(plain_char(s[12]));
        assert(plain_char(s[13]));
        assert(plain_char(s[14]));
        assert(plain_char(s[15]));
        assert(plain_char(s[16]));
        assert(plain_char(s[17]));
        assert(plain_char(s[18]));
        assert(plain_char(s[19]));
        assert(plain_char(s[20]));
        assert(plain_char(s[21]));
        assert(plain_char(s[22]));
    }
    reveal_strlit("maze_token_ttl_seconds");
    assert(("maze_token_ttl_seconds"@).len() == 22);
    assert forall|i: int| 0 <= i < ("maze_token_ttl_seconds"@).len() implies plain_char(("maze_token_ttl_seconds"@)[i]) by {
        let s = "maze_token_ttl_seconds"@;
        assert(plain_char(s[0]));
        assert(plain_char(s[1]));
        assert(plain_char(s[2]));
        assert(plain_char(s[3]));
        assert(plain_char(s[4]));
        assert(plain_char(s[5]));
        assert(plain_char(s[6]));
        assert(plain_char(s[7]));
        assert(plain_char(s[8]));
        assert(plain_char(s[9]));
        assert(plain_char(s[10]));
        assert(plain_char(s[11]));
        assert(plain_char(s[12]));
        assert(plain_char(s[13]));
        assert(plain_char(s[14]));
        assert(plain_char(s[15]));
        assert(plain_char(s[16]));
        assert(plain_char(s[17]));
        assert(plain_char(s[18]));
        assert(plain_char(s[19]));
        assert(plain_char(s[20]));
        assert(plain_char(s[21]));
    }
    reveal_strlit("maze_token_max_depth");
    assert(("maze_token_max_depth"@).len() == 20);
    assert forall|i: int| 0 <= i < ("maze_token_max_depth"@).len() implies plain_char(("maze_token_max_depth"@)[i]) by {
        let s = "maze_token_max_depth"@;
        assert(plain_char(s[0]));
        assert(plain_char(s[1]));
        assert(plain_char(s[2]));
        assert(plain_char(s[3]));
        assert(plain_char(s[4]));
        assert(plain_char(s[5]));
        assert(plain_char(s[6]));
        assert(plain_char(s[7]));
        assert(plain_char(s[8]));
        assert(plain_char(s[9]));
        assert(plain_char(s[10]));
        assert(plain_char(s[11]));
        assert(plain_char(s[12]));
        assert(plain_char(s[13]));
        assert(plain_char(s[14]));
        assert(plain_char(s[15]));
        assert(plain_char(s[16]));
        assert(plain_char(s[17]));
        assert(plain_char(s[18]));
        assert(plain_char(s[19]));
    }
    reveal_strlit("maze_token_branch_budget");
    assert(("maze_token_branch_budget"@).len() == 24);
    assert forall|i: int| 0 <= i < ("maze_token_branch_budget"@).len() implies plain_char(("maze_token_branch_budget"@)[i]) by {
        let s = "maze_token_branch_budget"@;
        assert(plain_char(s[0]));
        assert(plain_char(s[1]));
        assert(plain_char(s[2]));
        assert(plain_char(s[3]));
        assert(plain_char(s[4]));
        assert(plain_char(s[5]));
        assert(plain_char(s[6]));
        assert(plain_char(s[7]));
        assert(plain_char(s[8]));
        assert(plain_char(s[9]));
        assert(plain_char(s[10]));
        assert(plain_char(s[11]));
        assert(plain_char(s[12]));
        assert(plain_char(s[13]));
        assert(plain_char(s[14]));
        assert(plain_char(s[15]));
        assert(plain_char(s[16]));
        assert(plain_char(s[17]));
        assert(plain_char(s[18]));
        assert(plain_char(s[19]));
        assert(plain_char(s[20]));
        assert(plain_char(s[21]));
        assert(plain_char(s[22]));
        assert(plain_char(s[23]));
    }
    reveal_strlit("maze_checkpoint_every_nodes");
    assert(("maze_checkpoint_every_nodes"@).len() == 27);
    assert forall|i: int| 0 <= i < ("maze_checkpoint_every_nodes"@).len() implies plain_char(("maze_checkpoint_every_nodes"@)[i]) by {
        let s = "maze_checkpoint_every_nodes"@;
        assert(plain_char(s[0]));
        assert(plain_char(s[1]));
        assert(plain_char(s[2]));
        assert(plain_char(s[3]));
        assert(plain_char(s[4]));
        assert(plain_char(s[5]));
        assert(plain_char(s[6]));
        assert(plain_char(s[7]));
        assert(plain_char(s[8]));
        assert(plain_char(s[9]));
        assert(plain_char(s[10]));
        assert(plain_char(s[11]));
        assert(plain_char(s[12]));
        assert(plain_char(s[13]));
        assert(plain_char(s[14]));
        assert(plain_char(s[15]));
        assert(plain_char(s[16]));
        assert(plain_char(s[17]));
        assert(plain_char(s[18]));
        assert(plain_char(s[19]));
        assert(plain_char(s[20]));
        assert(plain_char(s[21]));
        assert(plain_char(s[22]));
        assert(plain_char(s[23]));
        assert(plain_char(s[24]));
        assert(plain_char(s[25]));
        assert(plain_char(s[26]));
    }
    reveal_strlit("maze_checkpoint_every_ms");
    assert(("maze_checkpoint_every_ms"@).len() == 24);
    assert forall|i: int| 0 <= i < ("maze_checkpoint_every_ms"@).len() implies plain_char(("maze_checkpoint_every_ms"@)[i]) by {
        let s = "maze_checkpoint_every_ms"@;
        assert(plain_char(s[0]));
        assert(plain_char(s[1]));
        assert(plain_char(s[2]));
        assert(plain_char(s[3]));
        assert(plain_char(s[4]));
        assert(plain_char(s[5]));
        assert(plain_char(s[6]));
        assert(plain_char(s[7]));
        assert(plain_char(s[8]));
        assert(plain_char(s[9]));
        assert(plain_char(s[10]));
        assert(plain_char(s[11]));
        assert(plain_char(s[12]));
        assert(plain_char(s[13]));
        assert(plain_char(s[14]));
        assert(plain_char(s[15]));
        assert(plain_char(s[16]));
        assert(plain_char(s[17]));
        assert(plain_char(s[18]));
        assert(plain_char(s[19]));
        assert(plain_char(s[20]));
        assert(plain_char(s[21]));
        assert(plain_char(s[22]));
        assert(plain_char(s[23]));
    }
    reveal_strlit("maze_step_ahead_max");
    assert(("maze_step_ahead_max"@).len() == 19);
    assert forall|i: int| 0 <= i < ("maze_step_ahead_max"@).len() implies plain_char(("maze_step_ahead_max"@)[i]) by {
        let s = "maze_step_ahead_max"@;
        assert(plain_char(s[0]));
        assert(plain_char(s[1]));
        assert(plain_char(s[2]));
        assert(plain_char(s[3]));
        assert(plain_char(s[4]));
        assert(plain_char(s[5]));
        assert(plain_char(s[6]));
        assert(plain_char(s[7]));
        assert(plain_char(s[8]));
        assert(plain_char(s[9]));
        assert(plain_char(s[10]));
        assert(plain_char(s[11]));
        assert(plain_char(s[12]));
        assert(plain_char(s[13]));
        assert(plain_char(s[14]));
        assert(plain_char(s[15]));
        assert(plain_char(s[16]));
        assert(plain_char(s[17]));
        assert(plain_char(s[18]));
    }
    reveal_strlit("maze_no_js_fallback_max_depth");
    assert(("maze_no_js_fallback_max_depth"@).len() == 29);
    assert forall|i: int| 0 <= i < ("maze_no_js_fallback_max_depth"@).len() implies plain_char(("maze_no_js_fallback_max_depth"@)[i]) by {
        let s = "maze_no_js_fallback_max_depth"@;
        assert(plain_char(s[0]));
        assert(plain_char(s[1]));
        assert(plain_char(s[2]));
        assert(plain_char(s[3]));
        assert(plain_char(s[4]));
        assert(plain_char(s[5]));
        assert(plain_char(s[6]));
        assert(plain_char(s[7]));
        assert(plain_char(s[8]));
        assert(plain_char(s[9]));
        assert(plain_char(s[10]));
        assert(plain_char(s[11]));
        assert(plain_char(s[12]));
        assert(plain_char(s[13]));
        assert(plain_char(s[14]));
        assert(plain_char(s[15]));
        assert(plain_char(s[16]));
        assert(plain_char(s[17]));
        assert(plain_char(s[18]));
        assert(plain_char(s[19]));
        assert(plain_char(s[20]));
        assert(plain_char(s[21]));
        assert(plain_char(s[22]));
        assert(plain_char(s[23]));
        assert(plain_char(s[24]));
        assert(plain_char(s[25]));
        assert(plain_char(s[26]));
        assert(plain_char(s[27]));
        assert(plain_char(s[28]));
    }
    reveal_strlit("maze_micro_pow_enabled");
    assert(("maze_micro_pow_enabled"@).len() == 22);
    assert forall|i: int| 0 <= i < ("maze_micro_pow_enabled"@).len() implies plain_char(("maze_micro_pow_enabled"@)[i]) by {
        let s = "maze_micro_pow_enabled"@;
        assert(plain_char(s[0]));
        assert(plain_char(s[1]));
        assert(plain_char(s[2]));
        assert(plain_char(s[3]));
        assert(plain_char(s[4]));
        assert(plain_char(s[5]));
        assert(plain_char(s[6]));
        assert(plain_char(s[7]));
        assert(plain_char(s[8]));
        assert(plain_char(s[9]));
        assert(plain_char(s[10]));
        assert(plain_char(s[11]));
        assert(plain_char(s[12]));
        assert(plain_char(s[13]));
        assert(plain_char(s[14]));
        assert(plain_char(s[15]));
        assert(plain_char(s[16]));
        assert(plain_char(s[17]));
        assert(plain_char(s[18]));
        assert(plain_char(s[19]));
        assert(plain_char(s[20]));
        assert(plain_char(s[21]));
    }
    reveal_strlit("maze_micro_pow_depth_start");
    assert(("maze_micro_pow_depth_start"@).len() == 26);
    assert forall|i: int| 0 <= i < ("maze_micro_pow_depth_start"@).len() implies plain_char(("maze_micro_pow_depth_start"@)[i]) by {
        let s = "maze_micro_pow_depth_start"@;
        assert(plain_char(s[0]));
        assert(plain_char(s[1]));
        assert(plain_char(s[2]));
        assert(plain_char(s[3]));
        assert(plain_char(s[4]));
        assert(plain_char(s[5]));
        assert(plain_char(s[6]));
        assert(plain_char(s[7]));
        assert(plain_char(s[8]));
        assert(plain_char(s[9]));
        assert(plain_char(s[10]));
        assert(plain_char(s[11]));
        assert(plain_char(s[12]));
        assert(plain_char(s[13]));
        assert(plain_char(s[14]));
        assert(plain_char(s[15]));
        assert(plain_char(s[16]));
        assert(plain_char(s[17]));
        assert(plain_char(s[18]));
        assert(plain_char(s[19]));
        assert(plain_char(s[20]));
        assert(plain_char(s[21]));
        assert(plain_char(s[22]));
        assert(plain_char(s[23]));
        assert(plain_char(s[24]));
        assert(plain_char(s[25]));
    }
    reveal_strlit("maze_micro_pow_base_difficulty");
    assert(("maze_micro_pow_base_difficulty"@).len() == 30);
    assert forall|i: int| 0 <= i < ("maze_micro_pow_base_difficulty"@).len() implies plain_char(("maze_micro_pow_base_difficulty"@)[i]) by {
        let s = "maze_micro_pow_base_difficulty"@;
        assert(plain_char(s[0]));
        assert(plain_char(s[1]));
        assert(plain_char(s[2]));
        assert(plain_char(s[3]));
        assert(plain_char(s[4]));
        assert(plain_char(s[5]));
        assert(plain_char(s[6]));
        assert(plain_char(s[7]));
        assert(plain_char(s[8]));
        assert(plain_char(s[9]));
        assert(plain_char(s[10]));
        assert(plain_char(s[11]));
        assert(plain_char(s[12]));
        assert(plain_char(s[13]));
        assert(plain_char(s[14]));
        assert(plain_char(s[15]));
        assert(plain_char(s[16]));
        assert(plain_char(s[17]));
        assert(plain_char(s[18]));
        assert(plain_char(s[19]));
        assert(plain_char(s[20]));
        assert(plain_char(s[21]));
        assert(plain_char(s[22]));
        assert(plain_char(s[23]));
        assert(plain_char(s[24]));
        assert(plain_char(s[25]));
        assert(plain_char(s[26]));
        assert(plain_char(s[27]));
        assert(plain_char(s[28]));
        assert(plain_char(s[29]));
    }
    reveal_strlit("maze_client_expansion_enabled");
    assert(("maze_client_expansion_enabled"@).len() == 29);
    assert forall|i: int| 0 <= i < ("maze_client_expansion_enabled"@).len() implies plain_char(("maze_client_expansion_enabled"@)[i]) by {
        let s = "maze_client_expansion_enabled"@;
        assert(plain_char(s[0]));
        assert(plain_char(s[1]));
        assert(plain_char(s[2]));
        assert(plain_char(s[3]));
        assert(plain_char(s[4]));
        assert(plain_char(s[5]));
        assert(plain_char(s[6]));
        assert(plain_char(s[7]));
        assert(plain_char(s[8]));
        assert(plain_char(s[9]));
        assert(plain_char(s[10]));
        assert(plain_char(s[11]));
        assert(plain_char(s[12]));
        assert(plain_char(s[13]));
        assert(plain_char(s[14]));
        assert(plain_char(s[15]));
        assert(plain_char(s[16]));
        assert(plain_char(s[17]));
        assert(plain_char(s[18]));
        assert(plain_char(s[19]));
        assert(plain_char(s[20]));
        assert(plain_char(s[21]));
        assert(plain_char(s[22]));
        assert(plain_char(s[23]));
        assert(plain_char(s[24]));
        assert(plain_char(s[25]));
        assert(plain_char(s[26]));
        assert(plain_char(s[27]));
        assert(plain_char(s[28]));
    }
    reveal_strlit("maze_entropy_window_seconds");
    assert(("maze_entropy_window_seconds"@).len() == 27);
    assert forall|i: int| 0 <= i < ("maze_entropy_window_seconds"@).len() implies plain_char(("maze_entropy_window_seconds"@)[i]) by {
        let s = "maze_entropy_window_seconds"@;
        assert(plain_char(s[0]));
        assert(plain_char(s[1]));
        assert(plain_char(s[2]));
        assert(plain_char(s[3]));
        assert(plain_char(s[4]));
        assert(plain_char(s[5]));
        assert(plain_char(s[6]));
        assert(plain_char(s[7]));
        assert(plain_char(s[8]));
        assert(plain_char(s[9]));
        assert(plain_char(s[10]));
        assert(plain_char(s[11]));
        assert(plain_char(s[12]));
        assert(plain_char(s[13]));
        assert(plain_char(s[14]));
        assert(plain_char(s[15]));
        assert(plain_char(s[16]));
        assert(plain_char(s[17]));
        assert(plain_char(s[18]));
        assert(plain_char(s[19]));
        assert(plain_char(s[20]));
        assert(plain_char(s[21]));
        assert(plain_char(s[22]));
        assert(plain_char(s[23]));
        assert(plain_char(s[24]));
        assert(plain_char(s[25]));
        assert(plain_char(s[26]));
    }
    reveal_strlit("maze_max_links");
    assert(("maze_max_links"@).len() == 14);
    assert forall|i: int| 0 <= i < ("maze_max_links"@).len() implies plain_char(("maze_max_links"@)[i]) by {
        let s = "maze_max_links"@;
        assert(plain_char(s[0]));
        assert(plain_char(s[1]));
        assert(plain_char(s[2]));
        assert(plain_char(s[3]));
        assert(plain_char(s[4]));
        assert(plain_char(s[5]));
        assert(plain_char(s[6]));
        assert(plain_char(s[7]));
        assert(plain_char(s[8]));
        assert(plain_char(s[9]));
        assert(plain_char(s[10]));
        assert(plain_char(s[11]));
        assert(plain_char(s[12]));
        assert(plain_char(s[13]));
    }
    reveal_strlit("maze_server_visible_links");
    assert(("maze_server_visible_links"@).len() == 25);
    assert forall|i: int| 0 <= i < ("maze_server_visible_links"@).len() implies plain_char(("maze_server_visible_links"@)[i]) by {
        let s = "maze_server_visible_links"@;
        assert(plain_char(s[0]));
        assert(plain_char(s[1]));
        assert(plain_char(s[2]));
        assert(plain_char(s[3]));
        assert(plain_char(s[4]));
        assert(plain_char(s[5]));
        assert(plain_char(s[6]));
        assert(plain_char(s[7]));
        assert(plain_char(s[8]));
        assert(plain_char(s[9]));
        assert(plain_char(s[10]));
        assert(plain_char(s[11]));
        assert(plain_char(s[12]));
        assert(plain_char(s[13]));
        assert(plain_char(s[14]));
        assert(plain_char(s[15]));
        assert(plain_char(s[16]));
        assert(plain_char(s[17]));
        assert(plain_char(s[18]));
        assert(plain_char(s[19]));
        assert(plain_char(s[20]));
        assert(plain_char(s[21]));
        assert(plain_char(s[22]));
        assert(plain_char(s[23]));
        assert(plain_char(s[24]));
    }
    reveal_strlit("maze_max_paragraphs");
    assert(("maze_max_paragraphs"@).len() == 19);
    assert forall|i: int| 0 <= i < ("maze_max_paragraphs"@).len() implies plain_char(("maze_max_paragraphs"@)[i]) by {
        let s = "maze_max_paragraphs"@;
        assert(plain_char(s[0]));
        assert(plain_char(s[1]));
        assert(plain_char(s[2]));
        assert(plain_char(s[3]));
        assert(plain_char(s[4]));
        assert(plain_char(s[5]));
        assert(plain_char(s[6]));
        assert(plain_char(s[7]));
        assert(plain_char(s[8]));
        assert(plain_char(s[9]));
        assert(plain_char(s[10]));
        assert(plain_char(s[11]));
        assert(plain_char(s[12]));
        assert(plain_char(s[13]));
        assert(plain_char(s[14]));
        assert(plain_char(s[15]));
        assert(plain_char(s[16]));
        assert(plain_char(s[17]));
        assert(plain_char(s[18]));
    }
    reveal_strlit("maze_path_entropy_segment_len");
    assert(("maze_path_entropy_segment_len"@).len() == 29);
    assert forall|i: int| 0 <= i < ("maze_path_entropy_segment_len"@).len() implies plain_char(("maze_path_entropy_segment_len"@)[i]) by {
        let s = "maze_path_entropy_segment_len"@;
        assert(plain_char(s[0]));
        assert(plain_char(s[1]));
        assert(plain_char(s[2]));
        assert(plain_char(s[3]));
        assert(plain_char(s[4]));
        assert(plain_char(s[5]));
        assert(plain_char(s[6]));
        assert(plain_char(s[7]));
        assert(plain_char(s[8]));
        assert(plain_char(s[9]));
        assert(plain_char(s[10]));
        assert(plain_char(s[11]));
        assert(plain_char(s[12]));
        assert(plain_char(s[13]));
        assert(plain_char(s[14]));
        assert(plain_char(s[15]));
        assert(plain_char(s[16]));
        assert(plain_char(s[17]));
        assert(plain_char(s[18]));
        assert(plain_char(s[19]));
        assert(plain_char(s[20]));
        assert(plain_char(s[21]));
        assert(plain_char(s[22]));
        assert(plain_char(s[23]));
        assert(plain_char(s[24]));
        assert(plain_char(s[25]));
        assert(plain_char(s[26]));
        assert(plain_char(s[27]));
        assert(plain_char(s[28]));
    }
    reveal_strlit("maze_max_response_bytes");
    assert(("maze_max_response_bytes"@).len() == 23);
    assert forall|i: int| 0 <= i < ("maze_max_response_bytes"@).len() implies plain_char(("maze_max_response_bytes"@)[i]) by {
        let s = "maze_max_response_bytes"@;
        assert(plain_char(s[0]));
        assert(plain_char(s[1]));
        assert(plain_char(s[2]));
        assert(plain_char(s[3]));
        assert(plain_char(s[4]));
        assert(plain_char(s[5]));
        assert(plain_char(s[6]));
        assert(plain_char(s[7]));
        assert(plain_char(s[8]));
        assert(plain_char(s[9]));
        assert(plain_char(s[10]));
        assert(plain_char(s[11]));
        assert(plain_char(s[12]));
        assert(plain_char(s[13]));
        assert(plain_char(s[14]));
        assert(plain_char(s[15]));
        assert(plain_char(s[16]));
        assert(plain_char(s[17]));
        assert(plain_char(s[18]));
        assert(plain_char(s[19]));
        assert(plain_char(s[20]));
        assert(plain_char(s[21]));
        assert(plain_char(s[22]));
    }
    reveal_strlit("maze_max_response_duration_ms");
    assert(("maze_max_response_duration_ms"@).len() == 29);
    assert forall|i: int| 0 <= i < ("maze_max_response_duration_ms"@).len() implies plain_char(("maze_max_response_duration_ms"@)[i]) by {
        let s = "maze_max_response_duration_ms"@;
        assert(plain_char(s[0]));
        assert(plain_char(s[1]));
        assert(plain_char(s[2]));
        assert(plain_char(s[3]));
        assert(plain_char(s[4]));
        assert(plain_char(s[5]));
        assert(plain_char(s[6]));
        assert(plain_char(s[7]));
        assert(plain_char(s[8]));
        assert(plain_char(s[9]));
        assert(plain_char(s[10]));
        assert(plain_char(s[11]));
        assert(plain_char(s[12]));
        assert(plain_char(s[13]));
        assert(plain_char(s[14]));
        assert(plain_char(s[15]));
        assert(plain_char(s[16]));
        assert(plain_char(s[17]));
        assert(plain_char(s[18]));
        assert(plain_char(s[19]));
        assert(plain_char(s[20]));
        assert(plain_char(s[21]));
        assert(plain_char(s[22]));
        assert(plain_char(s[23]));
        assert(plain_char(s[24]));
        assert(plain_char(s[25]));
        assert(plain_char(s[26]));
        assert(plain_char(s[27]));
        assert(plain_char(s[28]));
    }
    reveal_strlit("fingerprint_signal_enabled");
    assert(("fingerprint_signal_enabled"@).len() == 26);
    assert forall|i: int| 0 <= i < ("fingerprint_signal_enabled"@).len() implies plain_char(("fingerprint_signal_enabled"@)[i]) by {
        let s = "fingerprint_signal_enabled"@;
        assert(plain_char(s[0]));
        assert(plain_char(s[1]));
        assert(plain_char(s[2]));
        assert(plain_char(s[3]));
        assert(plain_char(s[4]));
        assert(plain_char(s[5]));
        assert(plain_char(s[6]));
        assert(plain_char(s[7]));
        assert(plain_char(s[8]));
        assert(plain_char(s[9]));
        assert(plain_char(s[10]));
        assert(plain_char(s[11]));
        assert(plain_char(s[12]));
        assert(plain_char(s[13]));
        assert(plain_char(s[14]));
        assert(plain_char(s[15]));
        assert(plain_char(s[16]));
        assert(plain_char(s[17]));
        assert(plain_char(s[18]));
        assert(plain_char(s[19]));
        assert(plain_char(s[20]));
        assert(plain_char(s[21]));
        assert(plain_char(s[22]));
        assert(plain_char(s[23]));
        assert(plain_char(s[24]));
        assert(plain_char(s[25]));
    }
    reveal_strlit("fingerprint_pseudonymize");
    assert(("fingerprint_pseudonymize"@).len() == 24);
    assert forall|i: int| 0 <= i < ("fingerprint_pseudonymize"@).len() implies plain_char(("fingerprint_pseudonymize"@)[i]) by {
        let s = "fingerprint_pseudonymize"@;
        assert(plain_char(s[0]));
        assert(plain_char(s[1]));
        assert(plain_char(s[2]));
        assert(plain_char(s[3]));
        assert(plain_char(s[4]));
        assert(plain_char(s[5]));
        assert(plain_char(s[6]));
        assert(plain_char(s[7]));
        assert(plain_char(s[8]));
        assert(plain_char(s[9]));
        assert(plain_char(s[10]));
        assert(plain_char(s[11]));
        assert(plain_char(s[12]));
        assert(plain_char(s[13]));
        assert(plain_char(s[14]));
        assert(plain_char(s[15]));
        assert(plain_char(s[16]));
        assert(plain_char(s[17]));
        assert(plain_char(s[18]));
        assert(plain_char(s[19]));
        assert(plain_char(s[20]));
        assert(plain_char(s[21]));
        assert(plain_char(s[22]));
        assert(plain_char(s[23]));
    }
    reveal_strlit("fingerprint_flow_window_seconds");
    assert(("fingerprint_flow_window_seconds"@).len() == 31);
    assert forall|i: int| 0 <= i < ("fingerprint_flow_window_seconds"@).len() implies plain_char(("fingerprint_flow_window_seconds"@)[i]) by {
        let s = "fingerprint_flow_window_seconds"@;
        assert(plain_char(s[0]));
        assert(plain_char(s[1]));
        assert(plain_char(s[2]));
        assert(plain_char(s[3]));
        assert(plain_char(s[4]));
        assert(plain_char(s[5]));
        assert(plain_char(s[6]));
        assert(plain_char(s[7]));
        assert(plain_char(s[8]));
        assert(plain_char(s[9]));
        assert(plain_char(s[10]));
        assert(plain_char(s[11]));
        assert(plain_char(s[12]));
        assert(plain_char(s[13]));
        assert(plain_char(s[14]));
        assert(plain_char(s[15]));
        assert(plain_char(s[16]));
        assert(plain_char(s[17]));
        assert(plain_char(s[18]));
        assert(plain_char(s[19]));
        assert(plain_char(s[20]));
        assert(plain_char(s[21]));
        assert(plain_char(s[22]));
        assert(plain_char(s[23]));
        assert(plain_char(s[24]));
        assert(plain_char(s[25]));
        assert(plain_char(s[26]));
        assert(plain_char(s[27]));
        assert(plain_char(s[28]));
        assert(plain_char(s[29]));
        assert(plain_char(s[30]));
    }
    reveal_strlit("fingerprint_flow_violation_threshold");
    assert(("fingerprint_flow_violation_threshold"@).len() == 36);
    assert forall|i: int| 0 <= i < ("fingerprint_flow_violation_threshold"@).len() implies plain_char(("fingerprint_flow_violation_threshold"@)[i]) by {
        let s = "fingerprint_flow_violation_threshold"@;
        assert(plain_char(s[0]));
        assert(plain_char(s[1]));
        assert(plain_char(s[2]));
        assert(plain_char(s[3]));
        assert(plain_char(s[4]));
        assert(plain_char(s[5]));
        assert(plain_char(s[6]));
        assert(plain_char(s[7]));
        assert(plain_char(s[8]));
        assert(plain_char(s[9]));
        assert(plain_char(s[10]));
        assert(plain_char(s[11]));
        assert(plain_char(s[12]));
        assert(plain_char(s[13]));
        assert(plain_char(s[14]));
        assert(plain_char(s[15]));
        assert(plain_char(s[16]));
        assert(plain_char(s[17]));
        assert(plain_char(s[18]));
        assert(plain_char(s[19]));
        assert(plain_char(s[20]));
        assert(plain_char(s[21]));
        assert(plain_char(s[22]));
        assert(plain_char(s[23]));
        assert(plain_char(s[24]));
        assert(plain_char(s[25]));
        assert(plain_char(s[26]));
        assert(plain_char(s[27]));
        assert(plain_char(s[28]));
        assert(plain_char(s[29]));
        assert(plain_char(s[30]));
        assert(plain_char(s[31]));
        assert(plain_char(s[32]));
        assert(plain_char(s[33]));
        assert(plain_char(s[34]));
        assert(plain_char(s[35]));
    }
}

/// A plain Config yields a field list fit for encoding.
pub proof fn lemma_config_fields_valid(x: Config)
    requires
        config_plain(x),
    ensures
        valid_fields(config_fields(x)),
{
    lemma_config_keys_plain();
    let fs = config_fields(x);
    assert forall|i: int| 0 <= i < fs.len() implies {
        &&& plain_str((#[trigger] fs[i]).0)
        &&& (fs[i].1 matches JValV::S(v) ==> plain_str(v))
    } by {
        if i == 0 {
            assert(fs[0].0 == "rate_limit"@);
        } else if i == 1 {
            assert(fs[1].0 == "rate_ban_factor"@);
        } else if i == 2 {
            assert(fs[2].0 == "rate_window_seconds"@);
        } else if i == 3 {
            assert(fs[3].0 == "ban_ttl_seconds"@);
        } else if i == 4 {
            assert(fs[4].0 == "test_mode"@);
        } else if i == 5 {
            assert(fs[5].0 == "robots_enabled"@);
        } else if i == 6 {
            assert(fs[6].0 == "honeypots"@);
            assert(fs[6].1 == JValV::S(x.honeypots@));
        } else if i == 7 {
            assert(fs[7].0 == "challenge_puzzle_enabled"@);
        } else if i == 8 {
            assert(fs[8].0 == "challenge_puzzle_transform_count"@);
        } else if i == 9 {
            assert(fs[9].0 == "challenge_puzzle_seed_ttl_seconds"@);
        } else if i == 10 {
            assert(fs[10].0 == "challenge_puzzle_attempt_window_seconds"@);
        } else if i == 11 {
            assert(fs[11].0 == "challenge_puzzle_attempt_limit_per_window"@);
        } else if i == 12 {
            assert(fs[12].0 == "botness_challenge_threshold"@);
        } else if i == 13 {
            assert(fs[13].0 == "botness_maze_threshold"@);
        } else if i == 14 {
            assert(fs[14].0 == "maze_enabled"@);
        } else if i == 15 {
            assert(fs[15].0 == "maze_rollout_phase"@);
            assert(fs[15].1 == JValV::S(x.maze_rollout_phase@));
        } else if i == 16 {
            assert(fs[16].0 == "maze_max_concurrent_global"@);
        } else if i == 17 {
            assert(fs[17].0 == "maze_max_concurrent_per_ip_bucket"@);
        } else if i == 18 {
            assert(fs[18].0 == "maze_replay_ttl_seconds"@);
        } else if i == 19 {
            assert(fs[19].0 == "maze_token_ttl_seconds"@);
        } else if i == 20 {
            assert(fs[20].0 == "maze_token_max_depth"@);
        } else if i == 21 {
            assert(fs[21].0 == "maze_token_branch_budget"@);
        } else if i == 22 {
            assert(fs[22].0 == "maze_checkpoint_every_nodes"@);
        } else if i == 23 {
            assert(fs[23].0 == "maze_checkpoint_every_ms"@);
        } else if i == 24 {
            assert(fs[24].0 == "maze_step_ahead_max"@);
        } else if i == 25 {
            assert(fs[25].0 == "maze_no_js_fallback_max_depth"@);
        } else if i == 26 {
            assert(fs[26].0 == "maze_micro_pow_enabled"@);
        } else if i == 27 {
            assert(fs[27].0 == "maze_micro_pow_depth_start"@);
        } else if i == 28 {
            assert(fs[28].0 == "maze_micro_pow_base_difficulty"@);
        } else if i == 29 {
            assert(fs[29].0 == "maze_client_expansion_enabled"@);
        } else if i == 30 {
            assert(fs[30].0 == "maze_entropy_window_seconds"@);
        } else if i == 31 {
            assert(fs[31].0 == "maze_max_links"@);
        } else if i == 32 {
            assert(fs[32].0 == "maze_server_visible_links"@);
        } else if i == 33 {
            assert(fs[33].0 == "maze_max_paragraphs"@);
        } else if i == 34 {
            assert(fs[34].0 == "maze_path_entropy_segment_len"@);
        } else if i == 35 {
            assert(fs[35].0 == "maze_max_response_bytes"@);
        } else if i == 36 {
            assert(fs[36].0 == "maze_max_response_duration_ms"@);
        } else if i == 37 {
            assert(fs[37].0 == "fingerprint_signal_enabled"@);
        } else if i == 38 {
            assert(fs[38].0 == "fingerprint_pseudonymize"@);
        } else if i == 39 {
            assert(fs[39].0 == "fingerprint_flow_window_seconds"@);
        } else if i == 40 {
            assert(fs[40].0 == "fingerprint_flow_violation_threshold"@);
        }
    }
}

/// Lay a Config out as its field list.
#[verifier::rlimit(100)]
pub fn config_to_fields(x: &Config) -> (r: Vec<(String, JVal)>)
    ensures
        fields_view(r@) == config_fields(*x),
{
    let mut v: Vec<(String, JVal)> = Vec::new();
    v.push(("rate_limit".to_owned(), JVal::N(x.rate_limit as u64)));
    v.push(("rate_ban_factor".to_owned(), JVal::N(x.rate_ban_factor as u64)));
    v.push(("rate_window_seconds".to_owned(), JVal::N(x.rate_window_seconds as u64)));
    v.push(("ban_ttl_seconds".to_owned(), JVal::N(x.ban_ttl_seconds as u64)));
    v.push(("test_mode".to_owned(), JVal::N(if x.test_mode { 1u64 } else { 0u64 })));
    v.push(("robots_enabled".to_owned(), JVal::N(if x.robots_enabled { 1u64 } else { 0u64 })));
    v.push(("honeypots".to_owned(), JVal::S(x.honeypots.clone())));
    v.push(("challenge_puzzle_enabled".to_owned(), JVal::N(if x.challenge_puzzle_enabled { 1u64 } else { 0u64 })));
    v.push(("challenge_puzzle_transform_count".to_owned(), JVal::N(x.challenge_puzzle_transform_count as u64)));
    v.push(("challenge_puzzle_seed_ttl_seconds".to_owned(), JVal::N(x.challenge_puzzle_seed_ttl_seconds as u64)));
    v.push(("challenge_puzzle_attempt_window_seconds".to_owned(), JVal::N(x.challenge_puzzle_attempt_window_seconds as u64)));
    v.push(("challenge_puzzle_attempt_limit_per_window".to_owned(), JVal::N(x.challenge_puzzle_attempt_limit_per_window as u64)));
    v.push(("botness_challenge_threshold".to_owned(), JVal::N(x.botness_challenge_threshold as u64)));
    v.push(("botness_maze_threshold".to_owned(), JVal::N(x.botness_maze_threshold as u64)));
    v.push(("maze_enabled".to_owned(), JVal::N(if x.maze_enabled { 1u64 } else { 0u64 })));
    v.push(("maze_rollout_phase".to_owned(), JVal::S(x.maze_rollout_phase.clone())));
    v.push(("maze_max_concurrent_global".to_owned(), JVal::N(x.maze_max_concurrent_global as u64)));
    v.push(("maze_max_concurrent_per_ip_bucket".to_owned(), JVal::N(x.maze_max_concurrent_per_ip_bucket as u64)));
    v.push(("maze_replay_ttl_seconds".to_owned(), JVal::N(x.maze_replay_ttl_seconds as u64)));
    v.push(("maze_token_ttl_seconds".to_owned(), JVal::N(x.maze_token_ttl_seconds as u64)));
    v.push(("maze_token_max_depth".to_owned(), JVal::N(x.maze_token_max_depth as u64)));
    v.push(("maze_token_branch_budget".to_owned(), JVal::N(x.maze_token_branch_budget as u64)));
    v.push(("maze_checkpoint_every_nodes".to_owned(), JVal::N(x.maze_checkpoint_every_nodes as u64)));
    v.push(("maze_checkpoint_every_ms".to_owned(), JVal::N(x.maze_checkpoint_every_ms as u64)));
    v.push(("maze_step_ahead_max".to_owned(), JVal::N(x.maze_step_ahead_max as u64)));
    v.push(("maze_no_js_fallback_max_depth".to_owned(), JVal::N(x.maze_no_js_fallback_max_depth as u64)));
    v.push(("maze_micro_pow_enabled".to_owned(), JVal::N(if x.maze_micro_pow_enabled { 1u64 } else { 0u64 })));
    v.push(("maze_micro_pow_depth_start".to_owned(), JVal::N(x.maze_micro_pow_depth_start as u64)));
    v.push(("maze_micro_pow_base_difficulty".to_owned(), JVal::N(x.maze_micro_pow_base_difficulty as u64)));
    v.push(("maze_client_expansion_enabled".to_owned(), JVal::N(if x.maze_client_expansion_enabled { 1u64 } else { 0u64 })));
    v.push(("maze_entropy_window_seconds".to_owned(), JVal::N(x.maze_entropy_window_seconds as u64)));
    v.push(("maze_max_links".to_owned(), JVal::N(x.maze_max_links as u64)));
    v.push(("maze_server_visible_links".to_owned(), JVal::N(x.maze_server_visible_links as u64)));
    v.push(("maze_max_paragraphs".to_owned(), JVal::N(x.maze_max_paragraphs as u64)));
    v.push(("maze_path_entropy_segment_len".to_owned(), JVal::N(x.maze_path_entropy_segment_len as u64)));
    v.push(("maze_max_response_bytes".to_owned(), JVal::N(x.maze_max_response_bytes as u64)));
    v.push(("maze_max_response_duration_ms".to_owned(), JVal::N(x.maze_max_response_duration_ms as u64)));
    v.push(("fingerprint_signal_enabled".to_owned(), JVal::N(if x.fingerprint_signal_enabled { 1u64 } else { 0u64 })));
    v.push(("fingerprint_pseudonymize".to_owned(), JVal::N(if x.fingerprint_pseudonymize { 1u64 } else { 0u64 })));
    v.push(("fingerprint_flow_window_seconds".to_owned(), JVal::N(x.fingerprint_flow_window_seconds as u64)));
    v.push(("fingerprint_flow_violation_threshold".to_owned(), JVal::N(x.fingerprint_flow_violation_threshold as u64)));
    proof {
        assert(fields_view(v@).len() == 41);
        assert(fields_view(v@)[0] == config_fields(*x)[0]);
        assert(fields_view(v@)[1] == config_fields(*x)[1]);
        assert(fields_view(v@)[2] == config_fields(*x)[2]);
        assert(fields_view(v@)[3] == config_fields(*x)[3]);
        assert(fields_view(v@)[4] == config_fields(*x)[4]);
        assert(fields_view(v@)[5] == config_fields(*x)[5]);
        assert(fields_view(v@)[6] == config_fields(*x)[6]);
        assert(fields_view(v@)[7] == config_fields(*x)[7]);
        assert(fields_view(v@)[8] == config_fields(*x)[8]);
        assert(fields_view(v@)[9] == config_fields(*x)[9]);
        assert(fields_view(v@)[10] == config_fields(*x)[10]);
        assert(fields_view(v@)[11] == config_fields(*x)[11]);
        assert(fields_view(v@)[12] == config_fields(*x)[12]);
        assert(fields_view(v@)[13] == config_fields(*x)[13]);
        assert(fields_view(v@)[14] == config_fields(*x)[14]);
        assert(fields_view(v@)[15] == config_fields(*x)[15]);
        assert(fields_view(v@)[16] == config_fields(*x)[16]);
        assert(fields_view(v@)[17] == config_fields(*x)[17]);
        assert(fields_view(v@)[18] == config_fields(*x)[18]);
        assert(fields_view(v@)[19] == config_fields(*x)[19]);
        assert(fields_view(v@)[20] == config_fields(*x)[20]);
        assert(fields_view(v@)[21] == config_fields(*x)[21]);
        assert(fields_view(v@)[22] == config_fields(*x)[22]);
        assert(fields_view(v@)[23] == config_fields(*x)[23]);
        assert(fields_view(v@)[24] == config_fields(*x)[24]);
        assert(fields_view(v@)[25] == config_fields(*x)[25]);
        assert(fields_view(v@)[26] == config_fields(*x)[26]);
        assert(fields_view(v@)[27] == config_fields(*x)[27]);
        assert(fields_view(v@)[28] == config_fields(*x)[28]);
        assert(fields_view(v@)[29] == config_fields(*x)[29]);
        assert(fields_view(v@)[30] == config_fields(*x)[30]);
        assert(fields_view(v@)[31] == config_fields(*x)[31]);
        assert(fields_view(v@)[32] == config_fields(*x)[32]);
        assert(fields_view(v@)[33] == config_fields(*x)[33]);
        assert(fields_view(v@)[34] == config_fields(*x)[34]);
        assert(fields_view(v@)[35] == config_fields(*x)[35]);
        assert(fields_view(v@)[36] == config_fields(*x)[36]);
        assert(fields_view(v@)[37] == config_fields(*x)[37]);
        assert(fields_view(v@)[38] == config_fields(*x)[38]);
        assert(fields_view(v@)[39] == config_fields(*x)[39]);
        assert(fields_view(v@)[40] == config_fields(*x)[40]);
        assert(fields_view(v@) =~= config_fields(*x));
    }
    v
}

/// Read a Config back from a parsed field list; the list must
/// carry exactly the expected keys, kinds and ranges.
#[verifier::rlimit(100)]
pub fn config_from_fields(v: &Vec<(String, JVal)>) -> (r: Option<Config>)
    ensures
        r matches Some(x) ==> fields_view(v@) == config_fields(x),
{
    if v.len() != 41 {
        return None;
    }
    if !str_eq(v[0].0.as_str(), "rate_limit") {
        return None;
    }
    let n_rate_limit: u64 = match &v[0].1 {
        JVal::N(n) => *n,
        JVal::S(s) => {
        return None;
        },
    };
    let f_rate_limit: u64 = n_rate_limit;
    if !str_eq(v[1].0.as_str(), "rate_ban_factor") {
        return None;
    }
    let n_rate_ban_factor: u64 = match &v[1].1 {
        JVal::N(n) => *n,
        JVal::S(s) => {
        return None;
        },
    };
    let f_rate_ban_factor: u64 = n_rate_ban_factor;
    if !str_eq(v[2].0.as_str(), "rate_window_seconds") {
        return None;
    }
    let n_rate_window_seconds: u64 = match &v[2].1 {
        JVal::N(n) => *n,
        JVal::S(s) => {
        return None;
        },
    };
    let f_rate_window_seconds: u64 = n_rate_window_seconds;
    if !str_eq(v[3].0.as_str(), "ban_ttl_seconds") {
        return None;
    }
    let n_ban_ttl_seconds: u64 = match &v[3].1 {
        JVal::N(n) => *n,
        JVal::S(s) => {
        return None;
        },
    };
    let f_ban_ttl_seconds: u64 = n_ban_ttl_seconds;
    if !str_eq(v[4].0.as_str(), "test_mode") {
        return None;
    }
    let n_test_mode: u64 = match &v[4].1 {
        JVal::N(n) => *n,
        JVal::S(s) => {
        return None;
        },
    };
    if n_test_mode > 1 {
        return None;
    }
    let f_test_mode: bool = n_test_mode == 1;
    if !str_eq(v[5].0.as_str(), "robots_enabled") {
        return None;
    }
    let n_robots_enabled: u64 = match &v[5].1 {
        JVal::N(n) => *n,
        JVal::S(s) => {
        return None;
        },
    };
    if n_robots_enabled > 1 {
        return None;
    }
    let f_robots_enabled: bool = n_robots_enabled == 1;
    if !str_eq(v[6].0.as_str(), "honeypots") {
        return None;
    }
    let f_honeypots: String = match &v[6].1 {
        JVal::S(s) => s.clone(),
        JVal::N(n) => {
        return None;
        },
    };
    if !str_eq(v[7].0.as_str(), "challenge_puzzle_enabled") {
        return None;
    }
    let n_challenge_puzzle_enabled: u64 = match &v[7].1 {
        JVal::N(n) => *n,
        JVal::S(s) => {
        return None;
        },
    };
    if n_challenge_puzzle_enabled > 1 {
        return None;
    }
    let f_challenge_puzzle_enabled: bool = n_challenge_puzzle_enabled == 1;
    if !str_eq(v[8].0.as_str(), "challenge_puzzle_transform_count") {
        return None;
    }
    let n_challenge_puzzle_transform_count: u64 = match &v[8].1 {
        JVal::N(n) => *n,
        JVal::S(s) => {
        return None;
        },
    };
    if n_challenge_puzzle_transform_count > 0xffff_ffffu64 {
        return None;
    }
    let f_challenge_puzzle_transform_count: u32 = n_challenge_puzzle_transform_count as u32;
    if !str_eq(v[9].0.as_str(), "challenge_puzzle_seed_ttl_seconds") {
        return None;
    }
    let n_challenge_puzzle_seed_ttl_seconds: u64 = match &v[9].1 {
        JVal::N(n) => *n,
        JVal::S(s) => {
        return None;
        },
    };
    let f_challenge_puzzle_seed_ttl_seconds: u64 = n_challenge_puzzle_seed_ttl_seconds;
    if !str_eq(v[10].0.as_str(), "challenge_puzzle_attempt_window_seconds") {
        return None;
    }
    let n_challenge_puzzle_attempt_window_seconds: u64 = match &v[10].1 {
        JVal::N(n) => *n,
        JVal::S(s) => {
        return None;
        },
    };
    let f_challenge_puzzle_attempt_window_seconds: u64 = n_challenge_puzzle_attempt_window_seconds;
    if !str_eq(v[11].0.as_str(), "challenge_puzzle_attempt_limit_per_window") {
        return None;
    }
    let n_challenge_puzzle_attempt_limit_per_window: u64 = match &v[11].1 {
        JVal::N(n) => *n,
        JVal::S(s) => {
        return None;
        },
    };
    if n_challenge_puzzle_attempt_limit_per_window > 0xffff_ffffu64 {
        return None;
    }
    let f_challenge_puzzle_attempt_limit_per_window: u32 = n_challenge_puzzle_attempt_limit_per_window as u32;
    if !str_eq(v[12].0.as_str(), "botness_challenge_threshold") {
        return None;
    }
    let n_botness_challenge_threshold: u64 = match &v[12].1 {
        JVal::N(n) => *n,
        JVal::S(s) => {
        return None;
        },
    };
    if n_botness_challenge_threshold > 0xffu64 {
        return None;
    }
    let f_botness_challenge_threshold: u8 = n_botness_challenge_threshold as u8;
    if !str_eq(v[13].0.as_str(), "botness_maze_threshold") {
        return None;
    }
    let n_botness_maze_threshold: u64 = match &v[13].1 {
        JVal::N(n) => *n,
        JVal::S(s) => {
        return None;
        },
    };
    if n_botness_maze_threshold > 0xffu64 {
        return None;
    }
    let f_botness_maze_threshold: u8 = n_botness_maze_threshold as u8;
    if !str_eq(v[14].0.as_str(), "maze_enabled") {
        return None;
    }
    let n_maze_enabled: u64 = match &v[14].1 {
        JVal::N(n) => *n,
        JVal::S(s) => {
        return None;
        },
    };
    if n_maze_enabled > 1 {
        return None;
    }
    let f_maze_enabled: bool = n_maze_enabled == 1;
    if !str_eq(v[15].0.as_str(), "maze_rollout_phase") {
        return None;
    }
    let f_maze_rollout_phase: String = match &v[15].1 {
        JVal::S(s) => s.clone(),
        JVal::N(n) => {
        return None;
        },
    };
    if !str_eq(v[16].0.as_str(), "maze_max_concurrent_global") {
        return None;
    }
    let n_maze_max_concurrent_global: u64 = match &v[16].1 {
        JVal::N(n) => *n,
        JVal::S(s) => {
        return None;
        },
    };
    let f_maze_max_concurrent_global: u64 = n_maze_max_concurrent_global;
    if !str_eq(v[17].0.as_str(), "maze_max_concurrent_per_ip_bucket") {
        return None;
    }
    let n_maze_max_concurrent_per_ip_bucket: u64 = match &v[17].1 {
        JVal::N(n) => *n,
        JVal::S(s) => {
        return None;
        },
    };
    let f_maze_max_concurrent_per_ip_bucket: u64 = n_maze_max_concurrent_per_ip_bucket;
    if !str_eq(v[18].0.as_str(), "maze_replay_ttl_seconds") {
        return None;
    }
    let n_maze_replay_ttl_seconds: u64 = match &v[18].1 {
        JVal::N(n) => *n,
        JVal::S(s) => {
        return None;
        },
    };
    let f_maze_replay_ttl_seconds: u64 = n_maze_replay_ttl_seconds;
    if !str_eq(v[19].0.as_str(), "maze_token_ttl_seconds") {
        return None;
    }
    let n_maze_token_ttl_seconds: u64 = match &v[19].1 {
        JVal::N(n) => *n,
        JVal::S(s) => {
        return None;
        },
    };
    let f_maze_token_ttl_seconds: u64 = n_maze_token_ttl_seconds;
    if !str_eq(v[20].0.as_str(), "maze_token_max_depth") {
        return None;
    }
    let n_maze_token_max_depth: u64 = match &v[20].1 {
        JVal::N(n) => *n,
        JVal::S(s) => {
        return None;
        },
    };
    if n_maze_token_max_depth > 0xffffu64 {
        return None;
    }
    let f_maze_token_max_depth: u16 = n_maze_token_max_depth as u16;
    if !str_eq(v[21].0.as_str(), "maze_token_branch_budget") {
        return None;
    }
    let n_maze_token_branch_budget: u64 = match &v[21].1 {
        JVal::N(n) => *n,
        JVal::S(s) => {
        return None;
        },
    };
    if n_maze_token_branch_budget > 0xffff_ffffu64 {
        return None;
    }
    let f_maze_token_branch_budget: u32 = n_maze_token_branch_budget as u32;
    if !str_eq(v[22].0.as_str(), "maze_checkpoint_every_nodes") {
        return None;
    }
    let n_maze_checkpoint_every_nodes: u64 = match &v[22].1 {
        JVal::N(n) => *n,
        JVal::S(s) => {
        return None;
        },
    };
    let f_maze_checkpoint_every_nodes: u64 = n_maze_checkpoint_every_nodes;
    if !str_eq(v[23].0.as_str(), "maze_checkpoint_every_ms") {
        return None;
    }
    let n_maze_checkpoint_every_ms: u64 = match &v[23].1 {
        JVal::N(n) => *n,
        JVal::S(s) => {
        return None;
        },
    };
    let f_maze_checkpoint_every_ms: u64 = n_maze_checkpoint_every_ms;
    if !str_eq(v[24].0.as_str(), "maze_step_ahead_max") {
        return None;
    }
    let n_maze_step_ahead_max: u64 = match &v[24].1 {
        JVal::N(n) => *n,
        JVal::S(s) => {
        return None;
        },
    };
    let f_maze_step_ahead_max: u64 = n_maze_step_ahead_max;
    if !str_eq(v[25].0.as_str(), "maze_no_js_fallback_max_depth") {
        return None;
    }
    let n_maze_no_js_fallback_max_depth: u64 = match &v[25].1 {
        JVal::N(n) => *n,
        JVal::S(s) => {
        return None;
        },
    };
    if n_maze_no_js_fallback_max_depth > 0xffffu64 {
        return None;
    }
    let f_maze_no_js_fallback_max_depth: u16 = n_maze_no_js_fallback_max_depth as u16;
    if !str_eq(v[26].0.as_str(), "maze_micro_pow_enabled") {
        return None;
    }
    let n_maze_micro_pow_enabled: u64 = match &v[26].1 {
        JVal::N(n) => *n,
        JVal::S(s) => {
        return None;
        },
    };
    if n_maze_micro_pow_enabled > 1 {
        return None;
    }
    let f_maze_micro_pow_enabled: bool = n_maze_micro_pow_enabled == 1;
    if !str_eq(v[27].0.as_str(), "maze_micro_pow_depth_start") {
        return None;
    }
    let n_maze_micro_pow_depth_start: u64 = match &v[27].1 {
        JVal::N(n) => *n,
        JVal::S(s) => {
        return None;
        },
    };
    if n_maze_micro_pow_depth_start > 0xffffu64 {
        return None;
    }
    let f_maze_micro_pow_depth_start: u16 = n_maze_micro_pow_depth_start as u16;
    if !str_eq(v[28].0.as_str(), "maze_micro_pow_base_difficulty") {
        return None;
    }
    let n_maze_micro_pow_base_difficulty: u64 = match &v[28].1 {
        JVal::N(n) => *n,
        JVal::S(s) => {
        return None;
        },
    };
    if n_maze_micro_pow_base_difficulty > 0xffu64 {
        return None;
    }
    let f_maze_micro_pow_base_difficulty: u8 = n_maze_micro_pow_base_difficulty as u8;
    if !str_eq(v[29].0.as_str(), "maze_client_expansion_enabled") {
        return None;
    }
    let n_maze_client_expansion_enabled: u64 = match &v[29].1 {
        JVal::N(n) => *n,
        JVal::S(s) => {
        return None;
        },
    };
    if n_maze_client_expansion_enabled > 1 {
        return None;
    }
    let f_maze_client_expansion_enabled: bool = n_maze_client_expansion_enabled == 1;
    if !str_eq(v[30].0.as_str(), "maze_entropy_window_seconds") {
        return None;
    }
    let n_maze_entropy_window_seconds: u64 = match &v[30].1 {
        JVal::N(n) => *n,
        JVal::S(s) => {
        return None;
        },
    };
    let f_maze_entropy_window_seconds: u64 = n_maze_entropy_window_seconds;
    if !str_eq(v[31].0.as_str(), "maze_max_links") {
        return None;
    }
    let n_maze_max_links: u64 = match &v[31].1 {
        JVal::N(n) => *n,
        JVal::S(s) => {
        return None;
        },
    };
    if n_maze_max_links > 0xffff_ffffu64 {
        return None;
    }
    let f_maze_max_links: u32 = n_maze_max_links as u32;
    if !str_eq(v[32].0.as_str(), "maze_server_visible_links") {
        return None;
    }
    let n_maze_server_visible_links: u64 = match &v[32].1 {
        JVal::N(n) => *n,
        JVal::S(s) => {
        return None;
        },
    };
    if n_maze_server_visible_links > 0xffff_ffffu64 {
        return None;
    }
    let f_maze_server_visible_links: u32 = n_maze_server_visible_links as u32;
    if !str_eq(v[33].0.as_str(), "maze_max_paragraphs") {
        return None;
    }
    let n_maze_max_paragraphs: u64 = match &v[33].1 {
        JVal::N(n) => *n,
        JVal::S(s) => {
        return None;
        },
    };
    if n_maze_max_paragraphs > 0xffff_ffffu64 {
        return None;
    }
    let f_maze_max_paragraphs: u32 = n_maze_max_paragraphs as u32;
    if !str_eq(v[34].0.as_str(), "maze_path_entropy_segment_len") {
        return None;
    }
    let n_maze_path_entropy_segment_len: u64 = match &v[34].1 {
        JVal::N(n) => *n,
        JVal::S(s) => {
        return None;
        },
    };
    if n_maze_path_entropy_segment_len > 0xffff_ffffu64 {
        return None;
    }
    let f_maze_path_entropy_segment_len: u32 = n_maze_path_entropy_segment_len as u32;
    if !str_eq(v[35].0.as_str(), "maze_max_response_bytes") {
        return None;
    }
    let n_maze_max_response_bytes: u64 = match &v[35].1 {
        JVal::N(n) => *n,
        JVal::S(s) => {
        return None;
        },
    };
    let f_maze_max_response_bytes: u64 = n_maze_max_response_bytes;
    if !str_eq(v[36].0.as_str(), "maze_max_response_duration_ms") {
        return None;
    }
    let n_maze_max_response_duration_ms: u64 = match &v[36].1 {
        JVal::N(n) => *n,
        JVal::S(s) => {
        return None;
        },
    };
    let f_maze_max_response_duration_ms: u64 = n_maze_max_response_duration_ms;
    if !str_eq(v[37].0.as_str(), "fingerprint_signal_enabled") {
        return None;
    }
    let n_fingerprint_signal_enabled: u64 = match &v[37].1 {
        JVal::N(n) => *n,
        JVal::S(s) => {
        return None;
        },
    };
    if n_fingerprint_signal_enabled > 1 {
        return None;
    }
    let f_fingerprint_signal_enabled: bool = n_fingerprint_signal_enabled == 1;
    if !str_eq(v[38].0.as_str(), "fingerprint_pseudonymize") {
        return None;
    }
    let n_fingerprint_pseudonymize: u64 = match &v[38].1 {
        JVal::N(n) => *n,
        JVal::S(s) => {
        return None;
        },
    };
    if n_fingerprint_pseudonymize > 1 {
        return None;
    }
    let f_fingerprint_pseudonymize: bool = n_fingerprint_pseudonymize == 1;
    if !str_eq(v[39].0.as_str(), "fingerprint_flow_window_seconds") {
        return None;
    }
    let n_fingerprint_flow_window_seconds: u64 = match &v[39].1 {
        JVal::N(n) => *n,
        JVal::S(s) => {
        return None;
        },
    };
    let f_fingerprint_flow_window_seconds: u64 = n_fingerprint_flow_window_seconds;
    if !str_eq(v[40].0.as_str(), "fingerprint_flow_violation_threshold") {
        return None;
    }
    let n_fingerprint_flow_violation_threshold: u64 = match &v[40].1 {
        JVal::N(n) => *n,
        JVal::S(s) => {
        return None;
        },
    };
    if n_fingerprint_flow_violation_threshold > 0xffff_ffffu64 {
        return None;
    }
    let f_fingerprint_flow_violation_threshold: u32 = n_fingerprint_flow_violation_threshold as u32;
    let x = Config {
        rate_limit: f_rate_limit,
        rate_ban_factor: f_rate_ban_factor,
        rate_window_seconds: f_rate_window_seconds,
        ban_ttl_seconds: f_ban_ttl_seconds,
        test_mode: f_test_mode,
        robots_enabled: f_robots_enabled,
        honeypots: f_honeypots,
        challenge_puzzle_enabled: f_challenge_puzzle_enabled,
        challenge_puzzle_transform_count: f_challenge_puzzle_transform_count,
        challenge_puzzle_seed_ttl_seconds: f_challenge_puzzle_seed_ttl_seconds,
        challenge_puzzle_attempt_window_seconds: f_challenge_puzzle_attempt_window_seconds,
        challenge_puzzle_attempt_limit_per_window: f_challenge_puzzle_attempt_limit_per_window,
        botness_challenge_threshold: f_botness_challenge_threshold,
        botness_maze_threshold: f_botness_maze_threshold,
        maze_enabled: f_maze_enabled,
        maze_rollout_phase: f_maze_rollout_phase,
        maze_max_concurrent_global: f_maze_max_concurrent_global,
        maze_max_concurrent_per_ip_bucket: f_maze_max_concurrent_per_ip_bucket,
        maze_replay_ttl_seconds: f_maze_replay_ttl_seconds,
        maze_token_ttl_seconds: f_maze_token_ttl_seconds,
        maze_token_max_depth: f_maze_token_max_depth,
        maze_token_branch_budget: f_maze_token_branch_budget,
        maze_checkpoint_every_nodes: f_maze_checkpoint_every_nodes,
        maze_checkpoint_every_ms: f_maze_checkpoint_every_ms,
        maze_step_ahead_max: f_maze_step_ahead_max,
        maze_no_js_fallback_max_depth: f_maze_no_js_fallback_max_depth,
        maze_micro_pow_enabled: f_maze_micro_pow_enabled,
        maze_micro_pow_depth_start: f_maze_micro_pow_depth_start,
        maze_micro_pow_base_difficulty: f_maze_micro_pow_base_difficulty,
        maze_client_expansion_enabled: f_maze_client_expansion_enabled,
        maze_entropy_window_seconds: f_maze_entropy_window_seconds,
        maze_max_links: f_maze_max_links,
        maze_server_visible_links: f_maze_server_visible_links,
        maze_max_paragraphs: f_maze_max_paragraphs,
        maze_path_entropy_segment_len: f_maze_path_entropy_segment_len,
        maze_max_response_bytes: f_maze_max_response_bytes,
        maze_max_response_duration_ms: f_maze_max_response_duration_ms,
        fingerprint_signal_enabled: f_fingerprint_signal_enabled,
        fingerprint_pseudonymize: f_fingerprint_pseudonymize,
        fingerprint_flow_window_seconds: f_fingerprint_flow_window_seconds,
        fingerprint_flow_violation_threshold: f_fingerprint_flow_violation_threshold,
    };
    proof {
        assert(fields_view(v@).len() == 41);
        assert(fields_view(v@)[0] == config_fields(x)[0]);
        assert(fields_view(v@)[1] == config_fields(x)[1]);
        assert(fields_view(v@)[2] == config_fields(x)[2]);
        assert(fields_view(v@)[3] == config_fields(x)[3]);
        assert(fields_view(v@)[4] == config_fields(x)[4]);
        assert(fields_view(v@)[5] == config_fields(x)[5]);
        assert(fields_view(v@)[6] == config_fields(x)[6]);
        assert(fields_view(v@)[7] == config_fields(x)[7]);
        assert(fields_view(v@)[8] == config_fields(x)[8]);
        assert(fields_view(v@)[9] == config_fields(x)[9]);
        assert(fields_view(v@)[10] == config_fields(x)[10]);
        assert(fields_view(v@)[11] == config_fields(x)[11]);
        assert(fields_view(v@)[12] == config_fields(x)[12]);
        assert(fields_view(v@)[13] == config_fields(x)[13]);
        assert(fields_view(v@)[14] == config_fields(x)[14]);
        assert(fields_view(v@)[15] == config_fields(x)[15]);
        assert(fields_view(v@)[16] == config_fields(x)[16]);
        assert(fields_view(v@)[17] == config_fields(x)[17]);
        assert(fields_view(v@)[18] == config_fields(x)[18]);
        assert(fields_view(v@)[19] == config_fields(x)[19]);
        assert(fields_view(v@)[20] == config_fields(x)[20]);
        assert(fields_view(v@)[21] == config_fields(x)[21]);
        assert(fields_view(v@)[22] == config_fields(x)[22]);
        assert(fields_view(v@)[23] == config_fields(x)[23]);
        assert(fields_view(v@)[24] == config_fields(x)[24]);
        assert(fields_view(v@)[25] == config_fields(x)[25]);
        assert(fields_view(v@)[26] == config_fields(x)[26]);
        assert(fields_view(v@)[27] == config_fields(x)[27]);
        assert(fields_view(v@)[28] == config_fields(x)[28]);
        assert(fields_view(v@)[29] == config_fields(x)[29]);
        assert(fields_view(v@)[30] == config_fields(x)[30]);
        assert(fields_view(v@)[31] == config_fields(x)[31]);
        assert(fields_view(v@)[32] == config_fields(x)[32]);
        assert(fields_view(v@)[33] == config_fields(x)[33]);
        assert(fields_view(v@)[34] == config_fields(x)[34]);
        assert(fields_view(v@)[35] == config_fields(x)[35]);
        assert(fields_view(v@)[36] == config_fields(x)[36]);
        assert(fields_view(v@)[37] == config_fields(x)[37]);
        assert(fields_view(v@)[38] == config_fields(x)[38]);
        assert(fields_view(v@)[39] == config_fields(x)[39]);
        assert(fields_view(v@)[40] == config_fields(x)[40]);
        assert(fields_view(v@) =~= config_fields(x));
    }
    Some(x)
}

/// A field list fit for encoding has plain string fields.
pub proof fn lemma_config_fields_plain(x: Config)
    requires
        valid_fields(config_fields(x)),
    ensures
        config_plain(x),
{
    let fs = config_fields(x);
    assert(fs[6].1 == JValV::S(x.honeypots@));
    assert(fs[15].1 == JValV::S(x.maze_rollout_phase@));
}

/// The canonical encoding of a Config.
pub open spec fn config_json(x: Config) -> Seq<char> {
    json_of(config_fields(x))
}

/// Render a Config in its canonical form.
pub fn encode_config(x: &Config) -> (r: String)
    ensures
        r@ == config_json(*x),
{
    let fs = config_to_fields(x);
    encode_fields(&fs)
}

/// Parse a Config from its canonical form: the encoding of a
/// plain record parses back to a record with the same fields.
pub fn decode_config(s: &str) -> (r: Option<Config>)
    ensures
        r matches Some(x) ==> spec_parse_json(s@) == Some(config_fields(x))
            && s@ == config_json(x) && config_plain(x),
{
    let parsed = parse_fields(s);
    match parsed {
        None => None,
        Some(v) => {
            match config_from_fields(&v) {
                None => None,
                Some(x) => {
                    proof {
                        lemma_parse_json_sound(s@);
                        lemma_config_fields_plain(x);
                    }
                    Some(x)
                },
            }
        },
    }
}

/// The stored byte form of a Config.
pub open spec fn config_bytes(x: Config) -> Seq<u8> {
    vstd::utf8::encode_utf8(config_json(x))
}

/// Render a Config as its stored bytes.
pub fn encode_config_bytes(x: &Config) -> (r: Vec<u8>)
    ensures
        r@ == config_bytes(*x),
{
    let s = encode_config(x);
    let b = s.as_str().as_bytes();
    vstd::slice::slice_to_vec(b)
}

/// Parse a Config from stored bytes; the bytes written by
/// the encoder always parse back to the same fields.
pub fn decode_config_bytes(v: &[u8]) -> (r: Option<Config>)
    ensures
        r matches Some(x) ==> v@ == config_bytes(x) && config_plain(x),
{
    let owned = vstd::slice::slice_to_vec(v);
    let s = match crate::crypto::string_from_utf8(owned) {
        Ok(s) => s,
        Err(_) => {
            return None;
        },
    };
    match decode_config(s.as_str()) {
        Some(x) => Some(x),
        None => None,
    }
}


// ---------------------------------------------------------------------
// Defaults, environment-value parsing, loading and caching.
// ---------------------------------------------------------------------

/// The built-in tunables used when no stored configuration overrides
/// them.
pub fn defaults() -> (r: Config)
    ensures
        config_plain(r),
        r.rate_limit == 60,
        r.rate_ban_factor == 3,
        r.rate_window_seconds == 60,
        r.ban_ttl_seconds == 3600,
        !r.test_mode,
        r.botness_challenge_threshold == 3,
        r.botness_maze_threshold == 6,
        r.maze_enabled,
        r.maze_token_branch_budget == 3,
        r.maze_token_max_depth == 64,
        r.maze_micro_pow_base_difficulty == 8,
        r.maze_micro_pow_depth_start == 6,
        r.fingerprint_flow_violation_threshold == 3,
{
    proof {
        reveal_strlit("");
        reveal_strlit("enforce");
    }
    Config {
        rate_limit: 60,
        rate_ban_factor: 3,
        rate_window_seconds: 60,
        ban_ttl_seconds: 3600,
        test_mode: false,
        robots_enabled: true,
        honeypots: "".to_owned(),
        challenge_puzzle_enabled: true,
        challenge_puzzle_transform_count: 3,
        challenge_puzzle_seed_ttl_seconds: 120,
        challenge_puzzle_attempt_window_seconds: 300,
        challenge_puzzle_attempt_limit_per_window: 10,
        botness_challenge_threshold: 3,
        botness_maze_threshold: 6,
        maze_enabled: true,
        maze_rollout_phase: "enforce".to_owned(),
        maze_max_concurrent_global: 32,
        maze_max_concurrent_per_ip_bucket: 4,
        maze_replay_ttl_seconds: 600,
        maze_token_ttl_seconds: 300,
        maze_token_max_depth: 64,
        maze_token_branch_budget: 3,
        maze_checkpoint_every_nodes: 6,
        maze_checkpoint_every_ms: 45000,
        maze_step_ahead_max: 4,
        maze_no_js_fallback_max_depth: 8,
        maze_micro_pow_enabled: true,
        maze_micro_pow_depth_start: 6,
        maze_micro_pow_base_difficulty: 8,
        maze_client_expansion_enabled: false,
        maze_entropy_window_seconds: 60,
        maze_max_links: 10,
        maze_server_visible_links: 3,
        maze_max_paragraphs: 6,
        maze_path_entropy_segment_len: 16,
        maze_max_response_bytes: 65536,
        maze_max_response_duration_ms: 50,
        fingerprint_signal_enabled: false,
        fingerprint_pseudonymize: true,
        fingerprint_flow_window_seconds: 300,
        fingerprint_flow_violation_threshold: 3,
    }
}

/// A copy with the same fields.
pub fn config_clone(c: &Config) -> (r: Config)
    ensures
        config_fields(r) == config_fields(*c),
{
    let r = Config {
        rate_limit: c.rate_limit,
        rate_ban_factor: c.rate_ban_factor,
        rate_window_seconds: c.rate_window_seconds,
        ban_ttl_seconds: c.ban_ttl_seconds,
        test_mode: c.test_mode,
        robots_enabled: c.robots_enabled,
        honeypots: c.honeypots.clone(),
        challenge_puzzle_enabled: c.challenge_puzzle_enabled,
        challenge_puzzle_transform_count: c.challenge_puzzle_transform_count,
        challenge_puzzle_seed_ttl_seconds: c.challenge_puzzle_seed_ttl_seconds,
        challenge_puzzle_attempt_window_seconds: c.challenge_puzzle_attempt_window_seconds,
        challenge_puzzle_attempt_limit_per_window: c.challenge_puzzle_attempt_limit_per_window,
        botness_challenge_threshold: c.botness_challenge_threshold,
        botness_maze_threshold: c.botness_maze_threshold,
        maze_enabled: c.maze_enabled,
        maze_rollout_phase: c.maze_rollout_phase.clone(),
        maze_max_concurrent_global: c.maze_max_concurrent_global,
        maze_max_concurrent_per_ip_bucket: c.maze_max_concurrent_per_ip_bucket,
        maze_replay_ttl_seconds: c.maze_replay_ttl_seconds,
        maze_token_ttl_seconds: c.maze_token_ttl_seconds,
        maze_token_max_depth: c.maze_token_max_depth,
        maze_token_branch_budget: c.maze_token_branch_budget,
        maze_checkpoint_every_nodes: c.maze_checkpoint_every_nodes,
        maze_checkpoint_every_ms: c.maze_checkpoint_every_ms,
        maze_step_ahead_max: c.maze_step_ahead_max,
        maze_no_js_fallback_max_depth: c.maze_no_js_fallback_max_depth,
        maze_micro_pow_enabled: c.maze_micro_pow_enabled,
        maze_micro_pow_depth_start: c.maze_micro_pow_depth_start,
        maze_micro_pow_base_difficulty: c.maze_micro_pow_base_difficulty,
        maze_client_expansion_enabled: c.maze_client_expansion_enabled,
        maze_entropy_window_seconds: c.maze_entropy_window_seconds,
        maze_max_links: c.maze_max_links,
        maze_server_visible_links: c.maze_server_visible_links,
        maze_max_paragraphs: c.maze_max_paragraphs,
        maze_path_entropy_segment_len: c.maze_path_entropy_segment_len,
        maze_max_response_bytes: c.maze_max_response_bytes,
        maze_max_response_duration_ms: c.maze_max_response_duration_ms,
        fingerprint_signal_enabled: c.fingerprint_signal_enabled,
        fingerprint_pseudonymize: c.fingerprint_pseudonymize,
        fingerprint_flow_window_seconds: c.fingerprint_flow_window_seconds,
        fingerprint_flow_violation_threshold: c.fingerprint_flow_violation_threshold,
    };
    proof {
        assert(config_fields(r) =~= config_fields(*c));
    }
    r
}

/// The challenge-threshold parsing rule: absent or unreadable values
/// fall back to three; readable values clamp into 1..=10.
pub open spec fn spec_challenge_threshold(v: Option<Seq<char>>) -> u8 {
    match v {
        None => 3,
        Some(s) => {
            if s.len() > 0 && crate::text::all_dec_digits(s) && crate::text::digits_val(s)
                <= u64::MAX {
                let n = crate::text::digits_val(s);
                if n < 1 {
                    1
                } else if n > 10 {
                    10
                } else {
                    n as u8
                }
            } else {
                3
            }
        },
    }
}

/// Parse the challenge threshold: default three, clamped into 1..=10.
pub fn parse_challenge_threshold(v: Option<&str>) -> (r: u8)
    ensures
        r == spec_challenge_threshold(match v {
            Some(s) => Some(s@),
            None => None,
        }),
        1 <= r <= 10,
{
    match v {
        None => 3,
        Some(s) => match crate::text::parse_u64(s) {
            Some(n) => {
                if n < 1 {
                    1
                } else if n > 10 {
                    10
                } else {
                    n as u8
                }
            },
            None => 3,
        },
    }
}

/// The maze-threshold parsing rule: like the challenge threshold with a
/// default of six.
pub open spec fn spec_maze_threshold(v: Option<Seq<char>>) -> u8 {
    match v {
        None => 6,
        Some(s) => {
            if s.len() > 0 && crate::text::all_dec_digits(s) && crate::text::digits_val(s)
                <= u64::MAX {
                let n = crate::text::digits_val(s);
                if n < 1 {
                    1
                } else if n > 10 {
                    10
                } else {
                    n as u8
                }
            } else {
                6
            }
        },
    }
}

/// Parse the maze threshold: default six, clamped into 1..=10.
pub fn parse_maze_threshold(v: Option<&str>) -> (r: u8)
    ensures
        r == spec_maze_threshold(match v {
            Some(s) => Some(s@),
            None => None,
        }),
        1 <= r <= 10,
{
    match v {
        None => 6,
        Some(s) => match crate::text::parse_u64(s) {
            Some(n) => {
                if n < 1 {
                    1
                } else if n > 10 {
                    10
                } else {
                    n as u8
                }
            },
            None => 6,
        },
    }
}

/// Parse a botness weight: the given default when absent or unreadable,
/// else clamped into 0..=10.
pub fn parse_botness_weight(v: Option<&str>, fallback: u8) -> (r: u8)
    ensures
        match v {
            None => r == fallback,
            Some(s) => {
                if s@.len() > 0 && crate::text::all_dec_digits(s@) && crate::text::digits_val(s@)
                    <= u64::MAX {
                    r == if crate::text::digits_val(s@) > 10 {
                        10u8
                    } else {
                        crate::text::digits_val(s@) as u8
                    }
                } else {
                    r == fallback
                }
            },
        },
{
    match v {
        None => fallback,
        Some(s) => match crate::text::parse_u64(s) {
            Some(n) => {
                if n > 10 {
                    10
                } else {
                    n as u8
                }
            },
            None => fallback,
        },
    }
}

/// The truthy-string rule: `1` or any casing of `true`.
pub open spec fn spec_truthy(v: Option<Seq<char>>) -> bool {
    match v {
        None => false,
        Some(s) => s == "1"@ || crate::text::lower_seq(s) == "true"@,
    }
}

fn is_truthy(v: Option<&str>) -> (r: bool)
    ensures
        r == spec_truthy(match v {
            Some(s) => Some(s@),
            None => None,
        }),
{
    match v {
        None => false,
        Some(s) => {
            if str_eq(s, "1") {
                return true;
            }
            let lowered = to_ascii_lower(s);
            str_eq(lowered.as_str(), "true")
        },
    }
}

/// Whether the environment allows mutating the challenge config.
pub fn challenge_config_mutable_from_env(v: Option<&str>) -> (r: bool)
    ensures
        r == spec_truthy(match v {
            Some(s) => Some(s@),
            None => None,
        }),
{
    is_truthy(v)
}

/// Whether admin configuration writes are enabled; off by default.
pub fn parse_admin_config_write_enabled(v: Option<&str>) -> (r: bool)
    ensures
        r == spec_truthy(match v {
            Some(s) => Some(s@),
            None => None,
        }),
{
    is_truthy(v)
}

/// Why loading the stored configuration failed.
#[derive(Clone, Copy, Debug, PartialEq, Eq, Structural)]
pub enum ConfigLoadError {
    MissingConfig,
    InvalidConfig,
}

/// The configuration key for a site.
pub open spec fn config_key_of(site: Seq<char>) -> Seq<char> {
    "config:"@ + site
}

/// Build the configuration key.
pub fn config_key(site: &str) -> (r: String)
    ensures
        r@ == config_key_of(site@),
{
    let mut out = "config:".to_owned();
    out.append(site);
    assert(out@ =~= config_key_of(site@));
    out
}

impl Config {
    /// Load the stored configuration for a site: a missing record is an
    /// error, and so is one that does not decode.
    pub fn load<S: KeyValueStore>(store: &S, site: &str) -> (r: Result<Config, ConfigLoadError>)
        requires
            store.inv(),
        ensures
            store.reliable() && !store.kv().contains_key(config_key_of(site@)) ==> r == Err::<
                Config,
                ConfigLoadError,
            >(ConfigLoadError::MissingConfig),
            r matches Ok(c) ==> store.kv().contains_key(config_key_of(site@))
                && store.kv()[config_key_of(site@)] == config_bytes(c),
    {
        let key = config_key(site);
        let raw = match store.get(key.as_str()) {
            Ok(Some(v)) => v,
            Ok(None) => {
                return Err(ConfigLoadError::MissingConfig);
            },
            Err(_) => {
                return Err(ConfigLoadError::MissingConfig);
            },
        };
        match decode_config_bytes(raw.as_slice()) {
            Some(c) => Ok(c),
            None => Err(ConfigLoadError::InvalidConfig),
        }
    }
}

/// The process-wide read-through cache: one site's snapshot with the
/// time it was fetched.
pub struct ConfigCache {
    pub entry: Option<(String, Config, u64)>,
}

impl ConfigCache {
    /// An empty cache.
    pub fn new() -> (r: ConfigCache)
        ensures
            r.entry is None,
    {
        ConfigCache { entry: None }
    }

    /// Whether the cache holds a fresh snapshot for the site.
    pub open spec fn fresh_for(self, site: Seq<char>, now: u64, ttl: u64) -> bool {
        self.entry matches Some(e) && e.0@ == site && now >= e.2 && now - e.2 < ttl
    }
}

/// Load through the cache: within the TTL the cached snapshot comes
/// back, field for field, without consulting the store; otherwise the
/// store is read and the refilled entry records the site and this
/// fetch time, so that any load within the TTL after a successful one
/// is served from the cache.
pub fn load_runtime_cached_for_tests<S: KeyValueStore>(
    cache: &mut ConfigCache,
    store: &S,
    site: &str,
    now: u64,
    ttl: u64,
) -> (r: Result<Config, ConfigLoadError>)
    requires
        store.inv(),
    ensures
        old(cache).fresh_for(site@, now, ttl) ==> (r matches Ok(c) && config_fields(c)
            == config_fields(old(cache).entry.unwrap().1) && *final(cache) == *old(cache)),
        r matches Ok(c) ==> (final(cache).entry matches Some(e) && config_fields(e.1)
            == config_fields(c)),
        !old(cache).fresh_for(site@, now, ttl) ==> (r matches Ok(c)
            ==> (final(cache).entry matches Some(e) && e.0@ == site@ && e.2 == now
            && config_fields(e.1) == config_fields(c))),
        !old(cache).fresh_for(site@, now, ttl) ==> (r matches Ok(c) ==> store.kv().contains_key(
            config_key_of(site@),
        ) && store.kv()[config_key_of(site@)] == config_bytes(c)),
        ttl > 0 ==> (r matches Ok(c) ==> final(cache).fresh_for(site@, now, ttl)),
{
    match &cache.entry {
        Some(e) => {
            if str_eq(e.0.as_str(), site) && now >= e.2 && now - e.2 < ttl {
                let copy = config_clone(&e.1);
                return Ok(copy);
            }
        },
        None => {},
    }
    match Config::load(store, site) {
        Ok(c) => {
            let kept = config_clone(&c);
            cache.entry = Some((site.to_owned(), kept, now));
            Ok(c)
        },
        Err(e) => Err(e),
    }
}

/// Drop the cached snapshot for a site, forcing the next load to read
/// the store again.
pub fn invalidate_runtime_cache(cache: &mut ConfigCache, site: &str)
    ensures
        final(cache).entry is None || !(final(cache).entry.unwrap().0@ == site@),
{
    match &cache.entry {
        Some(e) => {
            if str_eq(e.0.as_str(), site) {
                cache.entry = None;
            }
        },
        None => {},
    }
}

/// Empty the cache entirely.
pub fn clear_runtime_cache_for_tests(cache: &mut ConfigCache)
    ensures
        final(cache).entry is None,
{
    cache.entry = None;
}

} // verus!
