//! Maze durable state: counters, behavior score, the concurrency
//! budget lease, replay and chain markers, violation escalation state
//! and the checkpoint record.

use vstd::prelude::*;

use crate::json::{
    encode_fields, fields_view, json_of, lemma_json_round_trip, lemma_parse_json_sound,
    parse_fields, plain_char, plain_str, spec_parse_json, valid_fields, JFieldV, JVal, JValV,
};
use crate::kv::KeyValueStore;
use crate::text::{counter_of, dec_bytes_of, parse_u64_bytes, str_eq, string_push, u64_to_dec_bytes};

verus! {

/// The behavior score ceiling.
pub const MAX_RISK_SCORE: u64 = 10;

/// The global active-traversal counter key.
pub fn budget_global_key() -> (r: String)
    ensures
        r@ == "maze:budget:active:global"@,
{
    "maze:budget:active:global".to_owned()
}

/// The per-bucket active-traversal counter key.
pub fn budget_bucket_key(ip_bucket: &str) -> (r: String)
    ensures
        r@ == "maze:budget:active:bucket:"@ + ip_bucket@,
{
    let mut out = "maze:budget:active:bucket:".to_owned();
    out.append(ip_bucket);
    assert(out@ =~= "maze:budget:active:bucket:"@ + ip_bucket@);
    out
}

/// The behavior-score key for a bucket.
pub fn risk_key(ip_bucket: &str) -> (r: String)
    ensures
        r@ == "maze:risk:"@ + ip_bucket@,
{
    let mut out = "maze:risk:".to_owned();
    out.append(ip_bucket);
    assert(out@ =~= "maze:risk:"@ + ip_bucket@);
    out
}

/// The issuance single-use marker key.
pub fn token_issue_key(flow_id: &str, operation_id: &str) -> (r: String)
    ensures
        r@ == "maze:token:issue:"@ + flow_id@ + ":"@ + operation_id@,
{
    let mut out = "maze:token:issue:".to_owned();
    out.append(flow_id);
    out.append(":");
    out.append(operation_id);
    assert(out@ =~= "maze:token:issue:"@ + flow_id@ + ":"@ + operation_id@);
    out
}

/// The chain marker key for a predecessor digest.
pub fn token_chain_key(flow_id: &str, op_digest: &str) -> (r: String)
    ensures
        r@ == "maze:token:chain:"@ + flow_id@ + ":"@ + op_digest@,
{
    let mut out = "maze:token:chain:".to_owned();
    out.append(flow_id);
    out.append(":");
    out.append(op_digest);
    assert(out@ =~= "maze:token:chain:"@ + flow_id@ + ":"@ + op_digest@);
    out
}

/// The checkpoint record key for a flow and bucket.
pub fn checkpoint_key(flow_id: &str, ip_bucket: &str) -> (r: String)
    ensures
        r@ == "maze:checkpoint:"@ + flow_id@ + ":"@ + ip_bucket@,
{
    let mut out = "maze:checkpoint:".to_owned();
    out.append(flow_id);
    out.append(":");
    out.append(ip_bucket);
    assert(out@ =~= "maze:checkpoint:"@ + flow_id@ + ":"@ + ip_bucket@);
    out
}

/// The violation counter key for a bucket.
pub fn violation_key(ip_bucket: &str) -> (r: String)
    ensures
        r@ == "maze:violation:"@ + ip_bucket@,
{
    let mut out = "maze:violation:".to_owned();
    out.append(ip_bucket);
    assert(out@ =~= "maze:violation:"@ + ip_bucket@);
    out
}

/// Read a decimal counter; anything absent or unreadable is zero.
pub fn read_counter<S: KeyValueStore>(store: &S, key: &str) -> (r: u64)
    requires
        store.inv(),
    ensures
        store.reliable() ==> r == counter_of(store.kv(), key@),
{
    let raw = match store.get(key) {
        Ok(Some(v)) => v,
        _ => {
            return 0;
        },
    };
    match parse_u64_bytes(raw.as_slice()) {
        Some(n) => n,
        None => 0,
    }
}

/// Write a decimal counter; a refused write is dropped.
pub fn write_counter<S: KeyValueStore>(store: &mut S, key: &str, value: u64)
    requires
        old(store).inv(),
    ensures
        final(store).inv(),
        final(store).reliable() == old(store).reliable(),
        old(store).reliable() ==> final(store).kv() == old(store).kv().insert(
            key@,
            dec_bytes_of(value as nat),
        ),
        final(store).kv() == old(store).kv() || final(store).kv() == old(store).kv().insert(
            key@,
            dec_bytes_of(value as nat),
        ),
        old(store).reliable() ==> counter_of(final(store).kv(), key@) == value,
        forall|k: Seq<char>| k != key@ ==> crate::kv::kv_same_at(
            old(store).kv(),
            final(store).kv(),
            k,
        ),
{
    let raw = u64_to_dec_bytes(value);
    let outcome = store.set(key, raw.as_slice());
    proof {
        crate::text::lemma_dec_bytes_round_trip(value as nat);
        if outcome is Err {
            assert(final(store).kv() == old(store).kv());
        }
    }
}

/// Add one to a counter, saturating, and return the new value.
pub fn increment_counter<S: KeyValueStore>(store: &mut S, key: &str) -> (r: u64)
    requires
        old(store).inv(),
    ensures
        final(store).inv(),
        final(store).reliable() == old(store).reliable(),
        old(store).reliable() ==> {
            let used = counter_of(old(store).kv(), key@);
            &&& r == if used < u64::MAX {
                used + 1
            } else {
                used as int
            }
            &&& final(store).kv() == old(store).kv().insert(key@, dec_bytes_of(r as nat))
            &&& counter_of(final(store).kv(), key@) == r
        },
        forall|k: Seq<char>| k != key@ ==> crate::kv::kv_same_at(
            old(store).kv(),
            final(store).kv(),
            k,
        ),
{
    let current = read_counter(store, key);
    let next = if current < u64::MAX {
        current + 1
    } else {
        current
    };
    write_counter(store, key, next);
    next
}

/// Take one from a counter, saturating at zero, and return the new
/// value.
pub fn decrement_counter<S: KeyValueStore>(store: &mut S, key: &str) -> (r: u64)
    requires
        old(store).inv(),
    ensures
        final(store).inv(),
        final(store).reliable() == old(store).reliable(),
        old(store).reliable() ==> {
            let used = counter_of(old(store).kv(), key@);
            &&& r == if used > 0 {
                used - 1
            } else {
                0int
            }
            &&& final(store).kv() == old(store).kv().insert(key@, dec_bytes_of(r as nat))
            &&& counter_of(final(store).kv(), key@) == r
        },
        forall|k: Seq<char>| k != key@ ==> crate::kv::kv_same_at(
            old(store).kv(),
            final(store).kv(),
            k,
        ),
{
    let current = read_counter(store, key);
    let next = if current > 0 {
        current - 1
    } else {
        0
    };
    write_counter(store, key, next);
    next
}

/// Read the behavior score for a bucketed address, capped at ten.
pub fn current_behavior_score<S: KeyValueStore>(store: &S, ip: &str) -> (r: u64)
    requires
        store.inv(),
    ensures
        r <= MAX_RISK_SCORE,
        store.reliable() ==> r == {
            let raw = counter_of(
                store.kv(),
                "maze:risk:"@ + crate::buckets::ip_bucket_of(ip@),
            );
            if raw > MAX_RISK_SCORE {
                MAX_RISK_SCORE
            } else {
                raw
            }
        },
{
    let bucket = crate::buckets::bucket_ip(ip);
    let key = risk_key(bucket.as_str());
    let raw = read_counter(store, key.as_str());
    if raw > 10 {
        10
    } else {
        raw
    }
}

/// Raise the behavior score for a bucketed address by `amount`,
/// saturating at ten; a zero amount leaves the store untouched.
pub fn increment_behavior_score<S: KeyValueStore>(store: &mut S, ip: &str, amount: u64)
    requires
        old(store).inv(),
    ensures
        final(store).inv(),
        final(store).reliable() == old(store).reliable(),
        amount == 0 ==> final(store).kv() == old(store).kv(),
        old(store).reliable() && amount > 0 ==> {
            let key = "maze:risk:"@ + crate::buckets::ip_bucket_of(ip@);
            let prior = counter_of(old(store).kv(), key);
            let next: int = if prior + amount > MAX_RISK_SCORE {
                MAX_RISK_SCORE as int
            } else {
                prior + amount
            };
            final(store).kv() == old(store).kv().insert(key, dec_bytes_of(next as nat))
        },
        forall|k: Seq<char>| k != "maze:risk:"@ + crate::buckets::ip_bucket_of(ip@)
            ==> crate::kv::kv_same_at(old(store).kv(), final(store).kv(), k),
{
    if amount == 0 {
        return ;
    }
    let bucket = crate::buckets::bucket_ip(ip);
    let key = risk_key(bucket.as_str());
    let prior = read_counter(store, key.as_str());
    let next = if prior > 10 || amount > 10 || prior + amount > 10 {
        10
    } else {
        prior + amount
    };
    write_counter(store, key.as_str(), next);
}

/// An acquired concurrency lease: both counters were raised and must
/// come back down on every exit path.
pub struct BudgetLease {
    pub global_key: String,
    pub bucket_key: String,
    pub active: bool,
}

impl BudgetLease {
    /// Release the lease: both counters come back down once; a second
    /// release does nothing.
    pub fn release<S: KeyValueStore>(&mut self, store: &mut S)
        requires
            old(store).inv(),
        ensures
            final(store).inv(),
            final(store).reliable() == old(store).reliable(),
            !final(self).active,
            final(self).global_key == old(self).global_key,
            final(self).bucket_key == old(self).bucket_key,
            !old(self).active ==> final(store).kv() == old(store).kv(),
            old(self).active && old(store).reliable() ==> {
                let g = old(self).global_key@;
                let b = old(self).bucket_key@;
                let g0 = counter_of(old(store).kv(), g);
                let g1: int = if g0 > 0 {
                    g0 - 1
                } else {
                    0
                };
                let m1 = old(store).kv().insert(g, dec_bytes_of(g1 as nat));
                let b0 = counter_of(m1, b);
                let b1: int = if b0 > 0 {
                    b0 - 1
                } else {
                    0
                };
                final(store).kv() == m1.insert(b, dec_bytes_of(b1 as nat))
            },
    {
        if !self.active {
            return ;
        }
        decrement_counter(store, self.global_key.clone().as_str());
        decrement_counter(store, self.bucket_key.clone().as_str());
        self.active = false;
    }
}

/// Try to take a concurrency lease: if either active counter is at its
/// cap, no lease is issued and the store is only read; otherwise both
/// counters go up and the lease records the keys to put back down.
pub fn try_acquire_budget<S: KeyValueStore>(
    store: &mut S,
    ip_bucket: &str,
    max_global: u64,
    max_per_bucket: u64,
) -> (r: Option<BudgetLease>)
    requires
        old(store).inv(),
    ensures
        final(store).inv(),
        final(store).reliable() == old(store).reliable(),
        r matches Some(lease) ==> lease.active && lease.global_key@
            == "maze:budget:active:global"@ && lease.bucket_key@ == "maze:budget:active:bucket:"@
            + ip_bucket@,
        old(store).reliable() ==> {
            let g0 = counter_of(old(store).kv(), "maze:budget:active:global"@);
            let b0 = counter_of(old(store).kv(), "maze:budget:active:bucket:"@ + ip_bucket@);
            if g0 >= max_global || b0 >= max_per_bucket {
                r is None && final(store).kv() == old(store).kv()
            } else {
                let g1: int = if g0 < u64::MAX {
                    g0 + 1
                } else {
                    g0 as int
                };
                let m1 = old(store).kv().insert(
                    "maze:budget:active:global"@,
                    dec_bytes_of(g1 as nat),
                );
                let b_mid = counter_of(m1, "maze:budget:active:bucket:"@ + ip_bucket@);
                let b1: int = if b_mid < u64::MAX {
                    b_mid + 1
                } else {
                    b_mid as int
                };
                r is Some && final(store).kv() == m1.insert(
                    "maze:budget:active:bucket:"@ + ip_bucket@,
                    dec_bytes_of(b1 as nat),
                )
            }
        },
{
    let gkey = budget_global_key();
    let bkey = budget_bucket_key(ip_bucket);
    let global = read_counter(store, gkey.as_str());
    let bucket = read_counter(store, bkey.as_str());
    if global >= max_global || bucket >= max_per_bucket {
        return None;
    }
    increment_counter(store, gkey.as_str());
    increment_counter(store, bkey.as_str());
    Some(BudgetLease { global_key: gkey, bucket_key: bkey, active: true })
}

/// Whether an unexpired marker value sits under `key`.
pub open spec fn marker_fresh(m: crate::kv::KvMap, key: Seq<char>, now: u64) -> bool {
    m.contains_key(key) && (crate::text::spec_parse_u64_bytes(m[key]) matches Some(until)
        && now <= until)
}

fn marker_seen<S: KeyValueStore>(store: &S, key: &str, now: u64) -> (r: bool)
    requires
        store.inv(),
    ensures
        store.reliable() ==> r == marker_fresh(store.kv(), key@, now),
        r ==> marker_fresh(store.kv(), key@, now),
{
    let raw = match store.get(key) {
        Ok(Some(v)) => v,
        _ => {
            return false;
        },
    };
    match parse_u64_bytes(raw.as_slice()) {
        Some(until) => now <= until,
        None => false,
    }
}

/// Whether the replay marker for `(flow, operation)` is fresh.
pub fn replay_seen<S: KeyValueStore>(store: &S, flow_id: &str, operation_id: &str, now: u64) -> (r:
    bool)
    requires
        store.inv(),
    ensures
        store.reliable() ==> r == marker_fresh(
            store.kv(),
            crate::envelope::replay_key_of(flow_id@, operation_id@),
            now,
        ),
{
    let key = crate::envelope::token_replay_key(flow_id, operation_id);
    marker_seen(store, key.as_str(), now)
}

/// Whether the issuance marker for `(flow, operation)` is fresh.
pub fn issue_seen<S: KeyValueStore>(store: &S, flow_id: &str, operation_id: &str, now: u64) -> (r:
    bool)
    requires
        store.inv(),
    ensures
        store.reliable() ==> r == marker_fresh(
            store.kv(),
            "maze:token:issue:"@ + flow_id@ + ":"@ + operation_id@,
            now,
        ),
{
    let key = token_issue_key(flow_id, operation_id);
    marker_seen(store, key.as_str(), now)
}

/// Whether the chain marker for a predecessor digest is fresh.
pub fn chain_marker_seen<S: KeyValueStore>(store: &S, flow_id: &str, prev_digest: &str, now: u64)
    -> (r: bool)
    requires
        store.inv(),
    ensures
        store.reliable() ==> r == marker_fresh(
            store.kv(),
            "maze:token:chain:"@ + flow_id@ + ":"@ + prev_digest@,
            now,
        ),
{
    let key = token_chain_key(flow_id, prev_digest);
    marker_seen(store, key.as_str(), now)
}

/// The marker expiry written on presentation.
pub open spec fn marker_until_of(expires_at: u64, now: u64, replay_ttl: u64) -> u64 {
    if expires_at < now + replay_ttl {
        expires_at
    } else {
        (now + replay_ttl) as u64
    }
}

/// Record that a presented token was seen: a replay marker under its
/// own identity and a chain marker under its digest, both expiring at
/// `min(expires_at, now + replay_ttl)`.
pub fn mark_replay_seen<S: KeyValueStore>(
    store: &mut S,
    flow_id: &str,
    operation_id: &str,
    expires_at: u64,
    replay_ttl: u64,
    now: u64,
)
    requires
        old(store).inv(),
        now + replay_ttl <= u64::MAX,
    ensures
        final(store).inv(),
        final(store).reliable() == old(store).reliable(),
        old(store).reliable() ==> {
            let until = marker_until_of(expires_at, now, replay_ttl);
            let m1 = old(store).kv().insert(
                crate::envelope::replay_key_of(flow_id@, operation_id@),
                dec_bytes_of(until as nat),
            );
            final(store).kv() == m1.insert(
                "maze:token:chain:"@ + flow_id@ + ":"@ + crate::crypto::digest_of(
                    vstd::utf8::encode_utf8(flow_id@ + ":"@ + operation_id@),
                ),
                dec_bytes_of(until as nat),
            )
        },
        old(store).reliable() && now <= marker_until_of(expires_at, now, replay_ttl)
            ==> marker_fresh(
            final(store).kv(),
            crate::envelope::replay_key_of(flow_id@, operation_id@),
            now,
        ),
        forall|k: Seq<char>|
            k != crate::envelope::replay_key_of(flow_id@, operation_id@) && k
                != "maze:token:chain:"@ + flow_id@ + ":"@ + crate::crypto::digest_of(
                vstd::utf8::encode_utf8(flow_id@ + ":"@ + operation_id@),
            ) ==> crate::kv::kv_same_at(old(store).kv(), final(store).kv(), k),
{
    let key = crate::envelope::token_replay_key(flow_id, operation_id);
    let until = if expires_at < now + replay_ttl {
        expires_at
    } else {
        now + replay_ttl
    };
    write_counter(store, key.as_str(), until);
    let mut chain_input = flow_id.to_owned();
    chain_input.append(":");
    chain_input.append(operation_id);
    assert(chain_input@ =~= flow_id@ + ":"@ + operation_id@);
    let op_digest = crate::crypto::digest_hex(chain_input.as_str());
    let chain_key = token_chain_key(flow_id, op_digest.as_str());
    write_counter(store, chain_key.as_str(), until);
    proof {
        crate::text::lemma_dec_bytes_round_trip(until as nat);
    }
}

/// Record that a parent token was used for hidden-link issuance.
pub fn mark_issue_seen<S: KeyValueStore>(
    store: &mut S,
    flow_id: &str,
    operation_id: &str,
    expires_at: u64,
    replay_ttl: u64,
    now: u64,
)
    requires
        old(store).inv(),
        now + replay_ttl <= u64::MAX,
    ensures
        final(store).inv(),
        final(store).reliable() == old(store).reliable(),
        old(store).reliable() ==> final(store).kv() == old(store).kv().insert(
            "maze:token:issue:"@ + flow_id@ + ":"@ + operation_id@,
            dec_bytes_of(marker_until_of(expires_at, now, replay_ttl) as nat),
        ),
{
    let key = token_issue_key(flow_id, operation_id);
    let until = if expires_at < now + replay_ttl {
        expires_at
    } else {
        now + replay_ttl
    };
    write_counter(store, key.as_str(), until);
}

/// ViolationState record carried through the canonical JSON codec.
#[derive(Clone)]
pub struct ViolationState {
    pub count: u32,
    pub expires_at: u64,
}

/// The field list that encodes a ViolationState.
pub open spec fn violation_state_fields(x: ViolationState) -> Seq<JFieldV> {
    seq![
        ("count"@, JValV::N(x.count as u64)),
        ("expires_at"@, JValV::N(x.expires_at as u64)),
    ]
}

/// Fitness of the record's string fields for the codec: this record
/// carries no string field, so every value is trivially fit.
pub open spec fn violation_state_plain(x: ViolationState) -> bool {
    true
}

proof fn lemma_violation_state_keys_plain()
    ensures
        plain_str("count"@),
        plain_str("expires_at"@),
{
    reveal_strlit("count");
    assert(("count"@).len() == 5);
    assert forall|i: int| 0 <= i < ("count"@).len() implies plain_char(("count"@)[i]) by {
        let s = "count"@;
        assert(plain_char(s[0]));
        assert(plain_char(s[1]));
        assert(plain_char(s[2]));
        assert(plain_char(s[3]));
        assert(plain_char(s[4]));
    }
    reveal_strlit("expires_at");
    assert(("expires_at"@).len() == 10);
    assert forall|i: int| 0 <= i < ("expires_at"@).len() implies plain_char(("expires_at"@)[i]) by {
        let s = "expires_at"@;
        assert(plain_char(s[0]));
        assert(plain_char(s[1]));
        assert(plain_char(s[2]));
        assert(plain_char(s[3]));
        assert(plain_char(s[4]));
        assert(plain_char(s[5]));
        assert(plain_char(s[6]));
        assert(plain_char(s[7]));
        assert(plain_char(s[8]));
        assert(plain_char(s[9]));
    }
}

/// A plain ViolationState yields a field list fit for encoding.
pub proof fn lemma_violation_state_fields_valid(x: ViolationState)
    requires
        violation_state_plain(x),
    ensures
        valid_fields(violation_state_fields(x)),
{
    lemma_violation_state_keys_plain();
    let fs = violation_state_fields(x);
    assert forall|i: int| 0 <= i < fs.len() implies {
        &&& plain_str((#[trigger] fs[i]).0)
        &&& (fs[i].1 matches JValV::S(v) ==> plain_str(v))
    } by {
        if i == 0 {
            assert(fs[0].0 == "count"@);
        } else if i == 1 {
            assert(fs[1].0 == "expires_at"@);
        }
    }
}

/// Lay a ViolationState out as its field list.
pub fn violation_state_to_fields(x: &ViolationState) -> (r: Vec<(String, JVal)>)
    ensures
        fields_view(r@) == violation_state_fields(*x),
{
    let mut v: Vec<(String, JVal)> = Vec::new();
    v.push(("count".to_owned(), JVal::N(x.count as u64)));
    v.push(("expires_at".to_owned(), JVal::N(x.expires_at as u64)));
    proof {
        assert(fields_view(v@).len() == 2);
        assert(fields_view(v@)[0] == violation_state_fields(*x)[0]);
        assert(fields_view(v@)[1] == violation_state_fields(*x)[1]);
        assert(fields_view(v@) =~= violation_state_fields(*x));
    }
    v
}

/// Read a ViolationState back from a parsed field list; the list must
/// carry exactly the expected keys, kinds and ranges.
pub fn violation_state_from_fields(v: &Vec<(String, JVal)>) -> (r: Option<ViolationState>)
    ensures
        r matches Some(x) ==> fields_view(v@) == violation_state_fields(x),
        r is None ==> (forall|x: ViolationState| fields_view(v@) != #[trigger] violation_state_fields(x)),
{
    if v.len() != 2 {
        proof {
            assert forall|x: ViolationState| fields_view(v@) != #[trigger] violation_state_fields(x) by {
                assert(violation_state_fields(x).len() == 2);
            }
        }
        return None;
    }
    if !str_eq(v[0].0.as_str(), "count") {
        proof {
            assert forall|x: ViolationState| fields_view(v@) != #[trigger] violation_state_fields(x) by {
                if fields_view(v@) == violation_state_fields(x) {
                    assert(fields_view(v@)[0] == violation_state_fields(x)[0]);
                    assert(false);
                }
            }
        }
        return None;
    }
    let n_count: u64 = match &v[0].1 {
        JVal::N(n) => *n,
        JVal::S(s) => {
        proof {
            assert forall|x: ViolationState| fields_view(v@) != #[trigger] violation_state_fields(x) by {
                if fields_view(v@) == violation_state_fields(x) {
                    assert(fields_view(v@)[0] == violation_state_fields(x)[0]);
                    assert(false);
                }
            }
        }
        return None;
        },
    };
    if n_count > 0xffff_ffffu64 {
        proof {
            assert forall|x: ViolationState| fields_view(v@) != #[trigger] violation_state_fields(x) by {
                if fields_view(v@) == violation_state_fields(x) {
                    assert(fields_view(v@)[0] == violation_state_fields(x)[0]);
                    assert(false);
                }
            }
        }
        return None;
    }
    let f_count: u32 = n_count as u32;
    if !str_eq(v[1].0.as_str(), "expires_at") {
        proof {
            assert forall|x: ViolationState| fields_view(v@) != #[trigger] violation_state_fields(x) by {
                if fields_view(v@) == violation_state_fields(x) {
                    assert(fields_view(v@)[1] == violation_state_fields(x)[1]);
                    assert(false);
                }
            }
        }
        return None;
    }
    let n_expires_at: u64 = match &v[1].1 {
        JVal::N(n) => *n,
        JVal::S(s) => {
        proof {
            assert forall|x: ViolationState| fields_view(v@) != #[trigger] violation_state_fields(x) by {
                if fields_view(v@) == violation_state_fields(x) {
                    assert(fields_view(v@)[1] == violation_state_fields(x)[1]);
                    assert(false);
                }
            }
        }
        return None;
        },
    };
    let f_expires_at: u64 = n_expires_at;
    let x = ViolationState {
        count: f_count,
        expires_at: f_expires_at,
    };
    proof {
        assert(fields_view(v@).len() == 2);
        assert(fields_view(v@)[0] == violation_state_fields(x)[0]);
        assert(fields_view(v@)[1] == violation_state_fields(x)[1]);
        assert(fields_view(v@) =~= violation_state_fields(x));
    }
    Some(x)
}

/// A field list fit for encoding has plain string fields.
pub proof fn lemma_violation_state_fields_plain(x: ViolationState)
    requires
        valid_fields(violation_state_fields(x)),
    ensures
        violation_state_plain(x),
{
    let fs = violation_state_fields(x);
}

/// The canonical encoding of a ViolationState.
pub open spec fn violation_state_json(x: ViolationState) -> Seq<char> {
    json_of(violation_state_fields(x))
}

/// Render a ViolationState in its canonical form.
pub fn encode_violation_state(x: &ViolationState) -> (r: String)
    ensures
        r@ == violation_state_json(*x),
{
    let fs = violation_state_to_fields(x);
    encode_fields(&fs)
}

/// Parse a ViolationState from its canonical form: the encoding of a
/// plain record parses back to a record with the same fields.
pub fn decode_violation_state(s: &str) -> (r: Option<ViolationState>)
    ensures
        r matches Some(x) ==> spec_parse_json(s@) == Some(violation_state_fields(x))
            && s@ == violation_state_json(x) && violation_state_plain(x),
        forall|x0: ViolationState| violation_state_plain(x0) && s@ == violation_state_json(x0)
            ==> (r matches Some(x) && violation_state_fields(x) == violation_state_fields(x0)),
{
    let parsed = parse_fields(s);
    match parsed {
        None => {
            proof {
                assert forall|x0: ViolationState| violation_state_plain(x0) && s@ == violation_state_json(x0)
                    implies false by {
                    lemma_violation_state_fields_valid(x0);
                    lemma_json_round_trip(violation_state_fields(x0));
                }
            }
            None
        },
        Some(v) => {
            match violation_state_from_fields(&v) {
                None => {
                    proof {
                        assert forall|x0: ViolationState| violation_state_plain(x0) && s@ == violation_state_json(x0)
                            implies false by {
                            lemma_violation_state_fields_valid(x0);
                            lemma_json_round_trip(violation_state_fields(x0));
                            assert(fields_view(v@) == violation_state_fields(x0));
                        }
                    }
                    None
                },
                Some(x) => {
                    proof {
                        lemma_parse_json_sound(s@);
                        lemma_violation_state_fields_plain(x);
                        assert forall|x0: ViolationState| violation_state_plain(x0) && s@ == violation_state_json(x0)
                            implies violation_state_fields(x) == violation_state_fields(x0) by {
                            lemma_violation_state_fields_valid(x0);
                            lemma_json_round_trip(violation_state_fields(x0));
                            assert(fields_view(v@) == violation_state_fields(x0));
                        }
                    }
                    Some(x)
                },
            }
        },
    }
}

/// The stored byte form of a ViolationState.
pub open spec fn violation_state_bytes(x: ViolationState) -> Seq<u8> {
    vstd::utf8::encode_utf8(violation_state_json(x))
}

/// Render a ViolationState as its stored bytes.
pub fn encode_violation_state_bytes(x: &ViolationState) -> (r: Vec<u8>)
    ensures
        r@ == violation_state_bytes(*x),
{
    let s = encode_violation_state(x);
    let b = s.as_str().as_bytes();
    vstd::slice::slice_to_vec(b)
}

/// Parse a ViolationState from stored bytes; the bytes written by
/// the encoder always parse back to the same fields.
pub fn decode_violation_state_bytes(v: &[u8]) -> (r: Option<ViolationState>)
    ensures
        r matches Some(x) ==> v@ == violation_state_bytes(x) && violation_state_plain(x),
        forall|x0: ViolationState| violation_state_plain(x0) && v@ == #[trigger] violation_state_bytes(x0)
            ==> (r matches Some(x) && violation_state_fields(x) == violation_state_fields(x0)),
{
    let owned = vstd::slice::slice_to_vec(v);
    let s = match crate::crypto::string_from_utf8(owned) {
        Ok(s) => s,
        Err(_) => {
            return None;
        },
    };
    match decode_violation_state(s.as_str()) {
        Some(x) => {
            proof {
                assert forall|x0: ViolationState| violation_state_plain(x0) && v@ == #[trigger] violation_state_bytes(x0)
                    implies violation_state_fields(x) == violation_state_fields(x0) by {
                    assert(s@ == violation_state_json(x0));
                }
            }
            Some(x)
        },
        None => {
            proof {
                assert forall|x0: ViolationState| violation_state_plain(x0) && v@ == #[trigger] violation_state_bytes(x0)
                    implies false by {
                    assert(s@ == violation_state_json(x0));
                }
            }
            None
        },
    }
}
/// CheckpointState record carried through the canonical JSON codec.
#[derive(Clone)]
pub struct CheckpointState {
    pub last_ts_ms: u64,
    pub last_depth: u16,
    pub expires_at: u64,
}

/// The field list that encodes a CheckpointState.
pub open spec fn checkpoint_state_fields(x: CheckpointState) -> Seq<JFieldV> {
    seq![
        ("last_ts_ms"@, JValV::N(x.last_ts_ms as u64)),
        ("last_depth"@, JValV::N(x.last_depth as u64)),
        ("expires_at"@, JValV::N(x.expires_at as u64)),
    ]
}

/// Fitness of the record's string fields for the codec: this record
/// carries no string field, so every value is trivially fit.
pub open spec fn checkpoint_state_plain(x: CheckpointState) -> bool {
    true
}

proof fn lemma_checkpoint_state_keys_plain()
    ensures
        plain_str("last_ts_ms"@),
        plain_str("last_depth"@),
        plain_str("expires_at"@),
{
    reveal_strlit("last_ts_ms");
    assert(("last_ts_ms"@).len() == 10);
    assert forall|i: int| 0 <= i < ("last_ts_ms"@).len() implies plain_char(("last_ts_ms"@)[i]) by {
        let s = "last_ts_ms"@;
        assert(plain_char(s[0]));
        assert(plain_char(s[1]));
        assert(plain_char(s[2]));
        assert(plain_char(s[3]));
        assert(plain_char(s[4]));
        assert(plain_char(s[5]));
        assert(plain_char(s[6]));
        assert(plain_char(s[7]));
        assert(plain_char(s[8]));
        assert(plain_char(s[9]));
    }
    reveal_strlit("last_depth");
    assert(("last_depth"@).len() == 10);
    assert forall|i: int| 0 <= i < ("last_depth"@).len() implies plain_char(("last_depth"@)[i]) by {
        let s = "last_depth"@;
        assert(plain_char(s[0]));
        assert(plain_char(s[1]));
        assert(plain_char(s[2]));
        assert(plain_char(s[3]));
        assert(plain_char(s[4]));
        assert(plain_char(s[5]));
        assert(plain_char(s[6]));
        assert(plain_char(s[7]));
        assert(plain_char(s[8]));
        assert(plain_char(s[9]));
    }
    reveal_strlit("expires_at");
    assert(("expires_at"@).len() == 10);
    assert forall|i: int| 0 <= i < ("expires_at"@).len() implies plain_char(("expires_at"@)[i]) by {
        let s = "expires_at"@;
        assert(plain_char(s[0]));
        assert(plain_char(s[1]));
        assert(plain_char(s[2]));
        assert(plain_char(s[3]));
        assert(plain_char(s[4]));
        assert(plain_char(s[5]));
        assert(plain_char(s[6]));
        assert(plain_char(s[7]));
        assert(plain_char(s[8]));
        assert(plain_char(s[9]));
    }
}

/// A plain CheckpointState yields a field list fit for encoding.
pub proof fn lemma_checkpoint_state_fields_valid(x: CheckpointState)
    requires
        checkpoint_state_plain(x),
    ensures
        valid_fields(checkpoint_state_fields(x)),
{
    lemma_checkpoint_state_keys_plain();
    let fs = checkpoint_state_fields(x);
    assert forall|i: int| 0 <= i < fs.len() implies {
        &&& plain_str((#[trigger] fs[i]).0)
        &&& (fs[i].1 matches JValV::S(v) ==> plain_str(v))
    } by {
        if i == 0 {
            assert(fs[0].0 == "last_ts_ms"@);
        } else if i == 1 {
            assert(fs[1].0 == "last_depth"@);
        } else if i == 2 {
            assert(fs[2].0 == "expires_at"@);
        }
    }
}

/// Lay a CheckpointState out as its field list.
pub fn checkpoint_state_to_fields(x: &CheckpointState) -> (r: Vec<(String, JVal)>)
    ensures
        fields_view(r@) == checkpoint_state_fields(*x),
{
    let mut v: Vec<(String, JVal)> = Vec::new();
    v.push(("last_ts_ms".to_owned(), JVal::N(x.last_ts_ms as u64)));
    v.push(("last_depth".to_owned(), JVal::N(x.last_depth as u64)));
    v.push(("expires_at".to_owned(), JVal::N(x.expires_at as u64)));
    proof {
        assert(fields_view(v@).len() == 3);
        assert(fields_view(v@)[0] == checkpoint_state_fields(*x)[0]);
        assert(fields_view(v@)[1] == checkpoint_state_fields(*x)[1]);
        assert(fields_view(v@)[2] == checkpoint_state_fields(*x)[2]);
        assert(fields_view(v@) =~= checkpoint_state_fields(*x));
    }
    v
}

/// Read a CheckpointState back from a parsed field list; the list must
/// carry exactly the expected keys, kinds and ranges.
pub fn checkpoint_state_from_fields(v: &Vec<(String, JVal)>) -> (r: Option<CheckpointState>)
    ensures
        r matches Some(x) ==> fields_view(v@) == checkpoint_state_fields(x),
        r is None ==> (forall|x: CheckpointState| fields_view(v@) != #[trigger] checkpoint_state_fields(x)),
{
    if v.len() != 3 {
        proof {
            assert forall|x: CheckpointState| fields_view(v@) != #[trigger] checkpoint_state_fields(x) by {
                assert(checkpoint_state_fields(x).len() == 3);
            }
        }
        return None;
    }
    if !str_eq(v[0].0.as_str(), "last_ts_ms") {
        proof {
            assert forall|x: CheckpointState| fields_view(v@) != #[trigger] checkpoint_state_fields(x) by {
                if fields_view(v@) == checkpoint_state_fields(x) {
                    assert(fields_view(v@)[0] == checkpoint_state_fields(x)[0]);
                    assert(false);
                }
            }
        }
        return None;
    }
    let n_last_ts_ms: u64 = match &v[0].1 {
        JVal::N(n) => *n,
        JVal::S(s) => {
        proof {
            assert forall|x: CheckpointState| fields_view(v@) != #[trigger] checkpoint_state_fields(x) by {
                if fields_view(v@) == checkpoint_state_fields(x) {
                    assert(fields_view(v@)[0] == checkpoint_state_fields(x)[0]);
                    assert(false);
                }
            }
        }
        return None;
        },
    };
    let f_last_ts_ms: u64 = n_last_ts_ms;
    if !str_eq(v[1].0.as_str(), "last_depth") {
        proof {
            assert forall|x: CheckpointState| fields_view(v@) != #[trigger] checkpoint_state_fields(x) by {
                if fields_view(v@) == checkpoint_state_fields(x) {
                    assert(fields_view(v@)[1] == checkpoint_state_fields(x)[1]);
                    assert(false);
                }
            }
        }
        return None;
    }
    let n_last_depth: u64 = match &v[1].1 {
        JVal::N(n) => *n,
        JVal::S(s) => {
        proof {
            assert forall|x: CheckpointState| fields_view(v@) != #[trigger] checkpoint_state_fields(x) by {
                if fields_view(v@) == checkpoint_state_fields(x) {
                    assert(fields_view(v@)[1] == checkpoint_state_fields(x)[1]);
                    assert(false);
                }
            }
        }
        return None;
        },
    };
    if n_last_depth > 0xffffu64 {
        proof {
            assert forall|x: CheckpointState| fields_view(v@) != #[trigger] checkpoint_state_fields(x) by {
                if fields_view(v@) == checkpoint_state_fields(x) {
                    assert(fields_view(v@)[1] == checkpoint_state_fields(x)[1]);
                    assert(false);
                }
            }
        }
        return None;
    }
    let f_last_depth: u16 = n_last_depth as u16;
    if !str_eq(v[2].0.as_str(), "expires_at") {
        proof {
            assert forall|x: CheckpointState| fields_view(v@) != #[trigger] checkpoint_state_fields(x) by {
                if fields_view(v@) == checkpoint_state_fields(x) {
                    assert(fields_view(v@)[2] == checkpoint_state_fields(x)[2]);
                    assert(false);
                }
            }
        }
        return None;
    }
    let n_expires_at: u64 = match &v[2].1 {
        JVal::N(n) => *n,
        JVal::S(s) => {
        proof {
            assert forall|x: CheckpointState| fields_view(v@) != #[trigger] checkpoint_state_fields(x) by {
                if fields_view(v@) == checkpoint_state_fields(x) {
                    assert(fields_view(v@)[2] == checkpoint_state_fields(x)[2]);
                    assert(false);
                }
            }
        }
        return None;
        },
    };
    let f_expires_at: u64 = n_expires_at;
    let x = CheckpointState {
        last_ts_ms: f_last_ts_ms,
        last_depth: f_last_depth,
        expires_at: f_expires_at,
    };
    proof {
        assert(fields_view(v@).len() == 3);
        assert(fields_view(v@)[0] == checkpoint_state_fields(x)[0]);
        assert(fields_view(v@)[1] == checkpoint_state_fields(x)[1]);
        assert(fields_view(v@)[2] == checkpoint_state_fields(x)[2]);
        assert(fields_view(v@) =~= checkpoint_state_fields(x));
    }
    Some(x)
}

/// A field list fit for encoding has plain string fields.
pub proof fn lemma_checkpoint_state_fields_plain(x: CheckpointState)
    requires
        valid_fields(checkpoint_state_fields(x)),
    ensures
        checkpoint_state_plain(x),
{
    let fs = checkpoint_state_fields(x);
}

/// The canonical encoding of a CheckpointState.
pub open spec fn checkpoint_state_json(x: CheckpointState) -> Seq<char> {
    json_of(checkpoint_state_fields(x))
}

/// Render a CheckpointState in its canonical form.
pub fn encode_checkpoint_state(x: &CheckpointState) -> (r: String)
    ensures
        r@ == checkpoint_state_json(*x),
{
    let fs = checkpoint_state_to_fields(x);
    encode_fields(&fs)
}

/// Parse a CheckpointState from its canonical form: the encoding of a
/// plain record parses back to a record with the same fields.
pub fn decode_checkpoint_state(s: &str) -> (r: Option<CheckpointState>)
    ensures
        r matches Some(x) ==> spec_parse_json(s@) == Some(checkpoint_state_fields(x))
            && s@ == checkpoint_state_json(x) && checkpoint_state_plain(x),
        forall|x0: CheckpointState| checkpoint_state_plain(x0) && s@ == checkpoint_state_json(x0)
            ==> (r matches Some(x) && checkpoint_state_fields(x) == checkpoint_state_fields(x0)),
{
    let parsed = parse_fields(s);
    match parsed {
        None => {
            proof {
                assert forall|x0: CheckpointState| checkpoint_state_plain(x0) && s@ == checkpoint_state_json(x0)
                    implies false by {
                    lemma_checkpoint_state_fields_valid(x0);
                    lemma_json_round_trip(checkpoint_state_fields(x0));
                }
            }
            None
        },
        Some(v) => {
            match checkpoint_state_from_fields(&v) {
                None => {
                    proof {
                        assert forall|x0: CheckpointState| checkpoint_state_plain(x0) && s@ == checkpoint_state_json(x0)
                            implies false by {
                            lemma_checkpoint_state_fields_valid(x0);
                            lemma_json_round_trip(checkpoint_state_fields(x0));
                            assert(fields_view(v@) == checkpoint_state_fields(x0));
                        }
                    }
                    None
                },
                Some(x) => {
                    proof {
                        lemma_parse_json_sound(s@);
                        lemma_checkpoint_state_fields_plain(x);
                        assert forall|x0: CheckpointState| checkpoint_state_plain(x0) && s@ == checkpoint_state_json(x0)
                            implies checkpoint_state_fields(x) == checkpoint_state_fields(x0) by {
                            lemma_checkpoint_state_fields_valid(x0);
                            lemma_json_round_trip(checkpoint_state_fields(x0));
                            assert(fields_view(v@) == checkpoint_state_fields(x0));
                        }
                    }
                    Some(x)
                },
            }
        },
    }
}

/// The stored byte form of a CheckpointState.
pub open spec fn checkpoint_state_bytes(x: CheckpointState) -> Seq<u8> {
    vstd::utf8::encode_utf8(checkpoint_state_json(x))
}

/// Render a CheckpointState as its stored bytes.
pub fn encode_checkpoint_state_bytes(x: &CheckpointState) -> (r: Vec<u8>)
    ensures
        r@ == checkpoint_state_bytes(*x),
{
    let s = encode_checkpoint_state(x);
    let b = s.as_str().as_bytes();
    vstd::slice::slice_to_vec(b)
}

/// Parse a CheckpointState from stored bytes; the bytes written by
/// the encoder always parse back to the same fields.
pub fn decode_checkpoint_state_bytes(v: &[u8]) -> (r: Option<CheckpointState>)
    ensures
        r matches Some(x) ==> v@ == checkpoint_state_bytes(x) && checkpoint_state_plain(x),
        forall|x0: CheckpointState| checkpoint_state_plain(x0) && v@ == #[trigger] checkpoint_state_bytes(x0)
            ==> (r matches Some(x) && checkpoint_state_fields(x) == checkpoint_state_fields(x0)),
{
    let owned = vstd::slice::slice_to_vec(v);
    let s = match crate::crypto::string_from_utf8(owned) {
        Ok(s) => s,
        Err(_) => {
            return None;
        },
    };
    match decode_checkpoint_state(s.as_str()) {
        Some(x) => {
            proof {
                assert forall|x0: CheckpointState| checkpoint_state_plain(x0) && v@ == #[trigger] checkpoint_state_bytes(x0)
                    implies checkpoint_state_fields(x) == checkpoint_state_fields(x0) by {
                    assert(s@ == checkpoint_state_json(x0));
                }
            }
            Some(x)
        },
        None => {
            proof {
                assert forall|x0: CheckpointState| checkpoint_state_plain(x0) && v@ == #[trigger] checkpoint_state_bytes(x0)
                    implies false by {
                    assert(s@ == checkpoint_state_json(x0));
                }
            }
            None
        },
    }
}

/// Whether `key` holds the unexpired violation record `x`.
pub open spec fn violation_state_fresh(
    m: crate::kv::KvMap,
    key: Seq<char>,
    x: ViolationState,
    now: u64,
) -> bool {
    &&& violation_state_plain(x)
    &&& m.contains_key(key)
    &&& m[key] == violation_state_bytes(x)
    &&& now <= x.expires_at
}

/// The standing violation count under `key`: the fresh record's count,
/// or zero when no record is fresh.
pub open spec fn spec_violation_count(m: crate::kv::KvMap, key: Seq<char>, now: u64) -> u32 {
    if exists|x: ViolationState| #[trigger] violation_state_fresh(m, key, x, now) {
        (choose|x: ViolationState| #[trigger] violation_state_fresh(m, key, x, now)).count
    } else {
        0u32
    }
}

/// The count a bucket reaches when one more high-confidence violation
/// is recorded over `m`: one past the standing count, capped at
/// thirty-two.
pub open spec fn spec_violation_count_after(m: crate::kv::KvMap, key: Seq<char>, now: u64) -> u32 {
    if spec_violation_count(m, key, now) >= 32 {
        32u32
    } else {
        (spec_violation_count(m, key, now) + 1) as u32
    }
}

/// Two stores that agree at the violation key hold the same standing
/// count.
pub proof fn lemma_violation_count_same(
    m1: crate::kv::KvMap,
    m2: crate::kv::KvMap,
    key: Seq<char>,
    now: u64,
)
    requires
        crate::kv::kv_same_at(m1, m2, key),
    ensures
        spec_violation_count(m1, key, now) == spec_violation_count(m2, key, now),
{
    assert forall|x: ViolationState|
        #[trigger] violation_state_fresh(m1, key, x, now)
        implies violation_state_fresh(m2, key, x, now) by {}
    assert forall|x: ViolationState|
        #[trigger] violation_state_fresh(m2, key, x, now)
        implies violation_state_fresh(m1, key, x, now) by {}
    if exists|x: ViolationState| #[trigger] violation_state_fresh(m1, key, x, now) {
        let w1 = choose|x: ViolationState| #[trigger] violation_state_fresh(m1, key, x, now);
        let w2 = choose|x: ViolationState| #[trigger] violation_state_fresh(m2, key, x, now);
        assert(violation_state_bytes(w1) == m1[key]);
        assert(violation_state_bytes(w2) == m2[key]);
        assert(violation_state_bytes(w1) == violation_state_bytes(w2));
        vstd::utf8::encode_utf8_decode_utf8(violation_state_json(w1));
        vstd::utf8::encode_utf8_decode_utf8(violation_state_json(w2));
        assert(violation_state_json(w1) == violation_state_json(w2));
        lemma_violation_state_fields_valid(w1);
        lemma_violation_state_fields_valid(w2);
        lemma_json_round_trip(violation_state_fields(w1));
        lemma_json_round_trip(violation_state_fields(w2));
        assert(violation_state_fields(w1) == violation_state_fields(w2));
        assert(violation_state_fields(w1)[0] == violation_state_fields(w2)[0]);
        assert(w1.count as u64 == w2.count as u64);
    }
}

/// Count one high-confidence violation for a bucket: a stale record
/// resets to zero first; the count grows by one, capped at thirty-two,
/// and the record's expiry moves to `now + max(replay_ttl, 60)`. The
/// reached count comes back; a low-confidence reason counts nothing.
pub fn high_confidence_violation_count<S: KeyValueStore>(
    store: &mut S,
    ip_bucket: &str,
    reason: crate::maze::policy::MazeFallbackReason,
    replay_ttl: u64,
    now_secs: u64,
) -> (r: u32)
    requires
        old(store).inv(),
        now_secs + 60 <= u64::MAX,
        now_secs + replay_ttl <= u64::MAX,
    ensures
        final(store).inv(),
        final(store).reliable() == old(store).reliable(),
        !crate::maze::policy::spec_high_confidence(reason) ==> r == 0 && final(store).kv() == old(
            store,
        ).kv(),
        r <= 32,
        forall|k: Seq<char>| k != "maze:violation:"@ + ip_bucket@ ==> crate::kv::kv_same_at(
            old(store).kv(),
            final(store).kv(),
            k,
        ),
        old(store).reliable() && crate::maze::policy::spec_high_confidence(reason) ==> {
            let key = "maze:violation:"@ + ip_bucket@;
            let prior = spec_violation_count(old(store).kv(), key, now_secs);
            let ttl: u64 = if replay_ttl > 60 {
                replay_ttl
            } else {
                60u64
            };
            &&& r == (if prior >= 32 {
                32u32
            } else {
                (prior + 1) as u32
            })
            &&& final(store).kv() == old(store).kv().insert(
                key,
                violation_state_bytes(
                    (ViolationState { count: r, expires_at: (now_secs + ttl) as u64 }),
                ),
            )
        },
{
    if !crate::maze::policy::is_high_confidence_violation(reason) {
        return 0;
    }
    let key = violation_key(ip_bucket);
    let ghost gkey = "maze:violation:"@ + ip_bucket@;
    let mut state = ViolationState { count: 0, expires_at: 0 };
    let mut decoded = false;
    match store.get(key.as_str()) {
        Ok(Some(raw)) => {
            match decode_violation_state_bytes(raw.as_slice()) {
                Some(s) => {
                    proof {
                        if old(store).reliable() {
                            assert(old(store).kv()[gkey] == violation_state_bytes(s));
                            assert forall|x: ViolationState|
                                violation_state_fresh(old(store).kv(), gkey, x, now_secs)
                                implies violation_state_fields(x) == violation_state_fields(s) by {
                                assert(raw@ == violation_state_bytes(x));
                            }
                        }
                    }
                    state = s;
                    decoded = true;
                },
                None => {
                    proof {
                        if old(store).reliable() {
                            assert forall|x: ViolationState|
                                violation_state_fresh(old(store).kv(), gkey, x, now_secs)
                                implies false by {
                                assert(raw@ == violation_state_bytes(x));
                            }
                        }
                    }
                },
            }
        },
        _ => {
            proof {
                if old(store).reliable() {
                    assert(!old(store).kv().contains_key(gkey));
                }
            }
        },
    }
    proof {
        if old(store).reliable() {
            if decoded && now_secs <= state.expires_at {
                assert(violation_state_fresh(old(store).kv(), gkey, state, now_secs));
                let w = choose|x: ViolationState|
                    #[trigger] violation_state_fresh(old(store).kv(), gkey, x, now_secs);
                assert(violation_state_fields(w) == violation_state_fields(state));
                assert(violation_state_fields(w)[0] == violation_state_fields(state)[0]);
                assert(w.count as u64 == state.count as u64);
                assert(spec_violation_count(old(store).kv(), gkey, now_secs) == state.count);
            } else {
                assert forall|x: ViolationState|
                    violation_state_fresh(old(store).kv(), gkey, x, now_secs)
                    implies false by {
                    assert(violation_state_fields(x) == violation_state_fields(state));
                    assert(violation_state_fields(x)[1] == violation_state_fields(state)[1]);
                    assert(x.expires_at == state.expires_at);
                }
                assert(spec_violation_count(old(store).kv(), gkey, now_secs) == 0);
            }
        }
    }
    if now_secs > state.expires_at {
        state.count = 0;
    }
    state.count = if state.count >= 32 {
        32
    } else {
        state.count + 1
    };
    let ttl = if replay_ttl > 60 {
        replay_ttl
    } else {
        60
    };
    state.expires_at = now_secs + ttl;
    let raw = encode_violation_state_bytes(&state);
    let outcome = store.set(key.as_str(), raw.as_slice());
    proof {
        if old(store).reliable() {
            assert(outcome is Ok);
            assert(final(store).kv() == old(store).kv().insert(gkey, raw@));
        }
    }
    state.count
}

/// The standing violation count for a bucket: zero when absent,
/// unreadable or expired; on a store that answers, exactly the fresh
/// record's count.
pub fn current_violation_count<S: KeyValueStore>(store: &S, ip_bucket: &str, now_secs: u64) -> (r:
    u32)
    requires
        store.inv(),
    ensures
        store.reliable() ==> r == spec_violation_count(
            store.kv(),
            "maze:violation:"@ + ip_bucket@,
            now_secs,
        ),
{
    let key = violation_key(ip_bucket);
    let ghost gkey = "maze:violation:"@ + ip_bucket@;
    let raw = match store.get(key.as_str()) {
        Ok(Some(v)) => v,
        _ => {
            proof {
                if store.reliable() {
                    assert(!store.kv().contains_key(gkey));
                    assert forall|x: ViolationState|
                        violation_state_fresh(store.kv(), gkey, x, now_secs)
                        implies false by {}
                }
            }
            return 0;
        },
    };
    match decode_violation_state_bytes(raw.as_slice()) {
        Some(s) => {
            if now_secs <= s.expires_at {
                proof {
                    if store.reliable() {
                        assert(store.kv()[gkey] == violation_state_bytes(s));
                        assert(violation_state_fresh(store.kv(), gkey, s, now_secs));
                        let w = choose|x: ViolationState|
                            #[trigger] violation_state_fresh(store.kv(), gkey, x, now_secs);
                        assert(raw@ == violation_state_bytes(w));
                        assert(violation_state_fields(w) == violation_state_fields(s));
                        assert(violation_state_fields(w)[0] == violation_state_fields(s)[0]);
                        assert(w.count as u64 == s.count as u64);
                    }
                }
                s.count
            } else {
                proof {
                    if store.reliable() {
                        assert forall|x: ViolationState|
                            violation_state_fresh(store.kv(), gkey, x, now_secs)
                            implies false by {
                            assert(raw@ == violation_state_bytes(x));
                            assert(violation_state_fields(x) == violation_state_fields(s));
                            assert(violation_state_fields(x)[1] == violation_state_fields(s)[1]);
                            assert(x.expires_at == s.expires_at);
                        }
                    }
                }
                0
            }
        },
        None => {
            proof {
                if store.reliable() {
                    assert forall|x: ViolationState|
                        violation_state_fresh(store.kv(), gkey, x, now_secs)
                        implies false by {
                        assert(raw@ == violation_state_bytes(x));
                    }
                }
            }
            0
        },
    }
}

/// Whether `key` holds the unexpired checkpoint record `x`.
pub open spec fn checkpoint_state_fresh(
    m: crate::kv::KvMap,
    key: Seq<char>,
    x: CheckpointState,
    now: u64,
) -> bool {
    &&& checkpoint_state_plain(x)
    &&& m.contains_key(key)
    &&& m[key] == checkpoint_state_bytes(x)
    &&& now <= x.expires_at
}

/// Load the checkpoint record for a flow and bucket; absent, unreadable
/// and expired records all read as none. On a store that answers the
/// result is exactly the fresh stored record, when one exists.
pub fn load_checkpoint_state<S: KeyValueStore>(
    store: &S,
    flow_id: &str,
    ip_bucket: &str,
    now: u64,
) -> (r: Option<CheckpointState>)
    requires
        store.inv(),
    ensures
        r matches Some(s) ==> now <= s.expires_at,
        store.reliable() ==> (r matches Some(s) ==> (checkpoint_state_fresh(
            store.kv(),
            "maze:checkpoint:"@ + flow_id@ + ":"@ + ip_bucket@,
            s,
            now,
        ) && (forall|x: CheckpointState|
            checkpoint_state_fresh(
                store.kv(),
                "maze:checkpoint:"@ + flow_id@ + ":"@ + ip_bucket@,
                x,
                now,
            ) ==> checkpoint_state_fields(x) == checkpoint_state_fields(s)))),
        store.reliable() ==> (r is None ==> !(exists|x: CheckpointState|
            checkpoint_state_fresh(
                store.kv(),
                "maze:checkpoint:"@ + flow_id@ + ":"@ + ip_bucket@,
                x,
                now,
            ))),
{
    let key = checkpoint_key(flow_id, ip_bucket);
    let ghost gkey = "maze:checkpoint:"@ + flow_id@ + ":"@ + ip_bucket@;
    let raw = match store.get(key.as_str()) {
        Ok(Some(v)) => v,
        _ => {
            proof {
                if store.reliable() {
                    assert(!store.kv().contains_key(gkey));
                }
            }
            return None;
        },
    };
    match decode_checkpoint_state_bytes(raw.as_slice()) {
        Some(s) => {
            if now > s.expires_at {
                proof {
                    if store.reliable() {
                        assert forall|x: CheckpointState|
                            checkpoint_state_fresh(store.kv(), gkey, x, now) implies false by {
                            assert(raw@ == checkpoint_state_bytes(x));
                            assert(checkpoint_state_fields(x) == checkpoint_state_fields(s));
                            assert(checkpoint_state_fields(x)[2]
                                == checkpoint_state_fields(s)[2]);
                            assert(x.expires_at == s.expires_at);
                        }
                    }
                }
                None
            } else {
                proof {
                    if store.reliable() {
                        assert(store.kv()[gkey] == checkpoint_state_bytes(s));
                        assert(checkpoint_state_fresh(store.kv(), gkey, s, now));
                        assert forall|x: CheckpointState|
                            checkpoint_state_fresh(store.kv(), gkey, x, now)
                            implies checkpoint_state_fields(x) == checkpoint_state_fields(s) by {
                            assert(raw@ == checkpoint_state_bytes(x));
                        }
                    }
                }
                Some(s)
            }
        },
        None => {
            proof {
                if store.reliable() {
                    assert forall|x: CheckpointState|
                        checkpoint_state_fresh(store.kv(), gkey, x, now) implies false by {
                        assert(raw@ == checkpoint_state_bytes(x));
                    }
                }
            }
            None
        },
    }
}

/// Write the checkpoint record for a flow and bucket.
pub fn store_checkpoint_state<S: KeyValueStore>(
    store: &mut S,
    flow_id: &str,
    ip_bucket: &str,
    state: &CheckpointState,
)
    requires
        old(store).inv(),
    ensures
        final(store).inv(),
        final(store).reliable() == old(store).reliable(),
        old(store).reliable() ==> final(store).kv() == old(store).kv().insert(
            "maze:checkpoint:"@ + flow_id@ + ":"@ + ip_bucket@,
            checkpoint_state_bytes(*state),
        ),
{
    let key = checkpoint_key(flow_id, ip_bucket);
    let raw = encode_checkpoint_state_bytes(state);
    let _ = store.set(key.as_str(), raw.as_slice());
}

/// Whether checkpoints are demanded at this depth: only when client
/// expansion runs and the depth has passed the cadence.
pub open spec fn spec_checkpoint_required(
    expansion_enabled: bool,
    checkpoint_every_nodes: u64,
    depth: u16,
) -> bool {
    expansion_enabled && depth > checkpoint_every_nodes
}

pub fn checkpoint_is_required(expansion_enabled: bool, checkpoint_every_nodes: u64, depth: u16)
    -> (r: bool)
    ensures
        r == spec_checkpoint_required(expansion_enabled, checkpoint_every_nodes, depth),
{
    expansion_enabled && depth as u64 > checkpoint_every_nodes
}

/// Whether a checkpoint record satisfies the traversal at this depth
/// and time: it lags by at most the allowed depth step and the allowed
/// beacon interval.
pub open spec fn checkpoint_state_current(
    x: CheckpointState,
    step_ahead_max: u64,
    checkpoint_every_ms: u64,
    depth: u16,
    now_ms: u64,
) -> bool {
    &&& (if depth as int > x.last_depth as int {
        depth - x.last_depth
    } else {
        0int
    }) <= step_ahead_max
    &&& (if now_ms > x.last_ts_ms {
        now_ms - x.last_ts_ms
    } else {
        0int
    }) <= checkpoint_every_ms
}

/// A required checkpoint is missing exactly when no fresh stored record
/// satisfies the traversal.
pub open spec fn spec_checkpoint_missing(
    m: crate::kv::KvMap,
    expansion_enabled: bool,
    checkpoint_every_nodes: u64,
    step_ahead_max: u64,
    checkpoint_every_ms: u64,
    flow_id: Seq<char>,
    ip_bucket: Seq<char>,
    depth: u16,
    now_ms: u64,
) -> bool {
    &&& spec_checkpoint_required(expansion_enabled, checkpoint_every_nodes, depth)
    &&& !(exists|x: CheckpointState|
        #[trigger] checkpoint_state_fresh(
            m,
            "maze:checkpoint:"@ + flow_id + ":"@ + ip_bucket,
            x,
            now_ms / 1000,
        ) && checkpoint_state_current(x, step_ahead_max, checkpoint_every_ms, depth, now_ms))
}

/// Whether a required checkpoint is missing: no unexpired record, or
/// one that lags the traversal by more than the allowed depth step or
/// the allowed beacon interval.
pub fn checkpoint_missing<S: KeyValueStore>(
    store: &S,
    expansion_enabled: bool,
    checkpoint_every_nodes: u64,
    step_ahead_max: u64,
    checkpoint_every_ms: u64,
    flow_id: &str,
    ip_bucket: &str,
    depth: u16,
    now_ms: u64,
) -> (r: bool)
    requires
        store.inv(),
    ensures
        !spec_checkpoint_required(expansion_enabled, checkpoint_every_nodes, depth) ==> !r,
        store.reliable() ==> r == spec_checkpoint_missing(
            store.kv(),
            expansion_enabled,
            checkpoint_every_nodes,
            step_ahead_max,
            checkpoint_every_ms,
            flow_id@,
            ip_bucket@,
            depth,
            now_ms,
        ),
{
    let ghost gkey = "maze:checkpoint:"@ + flow_id@ + ":"@ + ip_bucket@;
    if !checkpoint_is_required(expansion_enabled, checkpoint_every_nodes, depth) {
        return false;
    }
    let state = match load_checkpoint_state(store, flow_id, ip_bucket, now_ms / 1000) {
        Some(s) => s,
        None => {
            return true;
        },
    };
    let depth_delta: u64 = if depth as u64 > state.last_depth as u64 {
        depth as u64 - state.last_depth as u64
    } else {
        0
    };
    let elapsed_ms: u64 = if now_ms > state.last_ts_ms {
        now_ms - state.last_ts_ms
    } else {
        0
    };
    let lagging = depth_delta > step_ahead_max || elapsed_ms > checkpoint_every_ms;
    proof {
        if store.reliable() {
            if lagging {
                assert forall|x: CheckpointState|
                    checkpoint_state_fresh(store.kv(), gkey, x, now_ms / 1000)
                    implies !checkpoint_state_current(
                        x,
                        step_ahead_max,
                        checkpoint_every_ms,
                        depth,
                        now_ms,
                    ) by {
                    assert(checkpoint_state_fields(x) == checkpoint_state_fields(state));
                    assert(checkpoint_state_fields(x)[0] == checkpoint_state_fields(state)[0]);
                    assert(checkpoint_state_fields(x)[1] == checkpoint_state_fields(state)[1]);
                    assert(x.last_ts_ms == state.last_ts_ms);
                    assert(x.last_depth as u64 == state.last_depth as u64);
                }
            } else {
                assert(checkpoint_state_current(
                    state,
                    step_ahead_max,
                    checkpoint_every_ms,
                    depth,
                    now_ms,
                ));
                assert(checkpoint_state_fresh(store.kv(), gkey, state, now_ms / 1000));
            }
        }
    }
    lagging
}

} // verus!
