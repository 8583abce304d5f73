//! The sliding-window rate limiter: fixed windows per bucket with a
//! soft limit and a ban-worthy ceiling above it.

use vstd::prelude::*;

use crate::kv::KeyValueStore;
use crate::text::{counter_of, dec_of, push_u64};

verus! {

/// The rate decision, carrying the usage that produced it.
#[derive(Clone, Copy, Debug, PartialEq, Eq, Structural)]
pub enum RateLimitDecision {
    Allowed(u64),
    Throttle(u64),
    BanWorthy(u64),
}

/// The counter key for one bucket and window.
pub open spec fn rate_key_of(bucket: Seq<char>, window_start: u64) -> Seq<char> {
    "rate:"@ + bucket + ":"@ + dec_of(window_start as nat)
}

/// Build the counter key.
pub fn rate_key(bucket: &str, window_start: u64) -> (r: String)
    ensures
        r@ == rate_key_of(bucket@, window_start),
{
    let mut out = "rate:".to_owned();
    out.append(bucket);
    out.append(":");
    push_u64(&mut out, window_start);
    assert(out@ =~= rate_key_of(bucket@, window_start));
    out
}

/// The start of the window containing `now`.
pub open spec fn window_start_of(now: u64, window_seconds: u64) -> u64 {
    if window_seconds == 0 {
        now
    } else {
        ((now / window_seconds) * window_seconds) as u64
    }
}

/// The decision for a usage count: at or under the limit the request is
/// allowed; above it but at or under `limit * ban_factor` it is
/// throttled; above that it is ban-worthy.
pub open spec fn spec_rate_decision(usage: u64, limit: u64, ban_factor: u64) -> RateLimitDecision {
    if usage <= limit {
        RateLimitDecision::Allowed(usage)
    } else if usage <= limit * ban_factor {
        RateLimitDecision::Throttle(usage)
    } else {
        RateLimitDecision::BanWorthy(usage)
    }
}

fn decide(usage: u64, limit: u64, ban_factor: u64) -> (r: RateLimitDecision)
    ensures
        r == spec_rate_decision(usage, limit, ban_factor),
{
    if usage <= limit {
        return RateLimitDecision::Allowed(usage);
    }
    if ban_factor > 0 && limit <= u64::MAX / ban_factor {
        proof {
            assert(limit * ban_factor <= (u64::MAX / ban_factor) * ban_factor) by (nonlinear_arith)
                requires
                    limit <= u64::MAX / ban_factor,
                    ban_factor > 0,
            ;
            assert((u64::MAX / ban_factor) * ban_factor <= u64::MAX) by (nonlinear_arith)
                requires
                    ban_factor > 0,
            ;
        }
        let ceiling = limit * ban_factor;
        if usage <= ceiling {
            RateLimitDecision::Throttle(usage)
        } else {
            RateLimitDecision::BanWorthy(usage)
        }
    } else {
        if ban_factor == 0 {
            assert(limit * ban_factor == 0) by (nonlinear_arith)
                requires
                    ban_factor == 0,
            ;
            RateLimitDecision::BanWorthy(usage)
        } else {
            proof {
                assert(limit * ban_factor > u64::MAX) by (nonlinear_arith)
                    requires
                        ban_factor > 0,
                        limit > u64::MAX / ban_factor,
                ;
            }
            RateLimitDecision::Throttle(usage)
        }
    }
}

/// Read the current window's usage for a bucket.
pub fn current_rate_usage<S: KeyValueStore>(
    store: &S,
    bucket: &str,
    window_seconds: u64,
    now: u64,
) -> (r: u64)
    requires
        store.inv(),
    ensures
        store.reliable() ==> r == counter_of(
            store.kv(),
            rate_key_of(bucket@, window_start_of(now, window_seconds)),
        ),
{
    let mut ws = now;
    if window_seconds != 0 {
        let q = now / window_seconds;
        proof {
            assert(q * window_seconds <= now) by (nonlinear_arith)
                requires
                    q == now / window_seconds,
                    window_seconds > 0,
            ;
        }
        ws = q * window_seconds;
    }
    let key = rate_key(bucket, ws);
    let raw = match store.get(key.as_str()) {
        Ok(Some(v)) => v,
        _ => {
            return 0;
        },
    };
    match crate::text::parse_u64_bytes(raw.as_slice()) {
        Some(n) => n,
        None => 0,
    }
}

/// Count this request against the bucket's window and decide. On a
/// store that answers, the new count is recorded and the decision is
/// exactly `spec_rate_decision` of that count.
pub fn check_rate_limit<S: KeyValueStore>(
    store: &mut S,
    bucket: &str,
    limit: u64,
    ban_factor: u64,
    window_seconds: u64,
    now: u64,
) -> (r: RateLimitDecision)
    requires
        old(store).inv(),
    ensures
        final(store).inv(),
        final(store).reliable() == old(store).reliable(),
        old(store).reliable() ==> {
            let key = rate_key_of(bucket@, window_start_of(now, window_seconds));
            let used = counter_of(old(store).kv(), key);
            let usage: u64 = if used < u64::MAX {
                (used + 1) as u64
            } else {
                used
            };
            &&& r == spec_rate_decision(usage, limit, ban_factor)
            &&& final(store).kv() == old(store).kv().insert(
                key,
                crate::text::dec_bytes_of(usage as nat),
            )
        },
{
    let mut ws = now;
    if window_seconds != 0 {
        let q = now / window_seconds;
        proof {
            assert(q * window_seconds <= now) by (nonlinear_arith)
                requires
                    q == now / window_seconds,
                    window_seconds > 0,
            ;
        }
        ws = q * window_seconds;
    }
    let key = rate_key(bucket, ws);
    let used: u64 = match store.get(key.as_str()) {
        Ok(Some(v)) => match crate::text::parse_u64_bytes(v.as_slice()) {
            Some(n) => n,
            None => 0,
        },
        _ => 0,
    };
    let usage: u64 = if used < u64::MAX {
        used + 1
    } else {
        used
    };
    let raw = crate::text::u64_to_dec_bytes(usage);
    let written = store.set(key.as_str(), raw.as_slice());
    proof {
        if old(store).reliable() {
            assert(written is Ok);
        }
    }
    decide(usage, limit, ban_factor)
}

/// The boundary behavior of the rate decision: exactly at the limit a
/// request is allowed, one over it is throttled, and one past
/// `limit * ban_factor` is ban-worthy.
pub proof fn lemma_rate_boundaries(limit: u64, ban_factor: u64)
    requires
        1 <= limit,
        2 <= ban_factor,
        limit * ban_factor + 1 <= u64::MAX,
    ensures
        spec_rate_decision(limit, limit, ban_factor) == RateLimitDecision::Allowed(limit),
        spec_rate_decision((limit + 1) as u64, limit, ban_factor) == RateLimitDecision::Throttle(
            (limit + 1) as u64,
        ),
        spec_rate_decision((limit * ban_factor + 1) as u64, limit, ban_factor)
            == RateLimitDecision::BanWorthy((limit * ban_factor + 1) as u64),
{
    assert(limit + 1 <= limit * ban_factor) by (nonlinear_arith)
        requires
            1 <= limit,
            2 <= ban_factor,
    ;
    assert(limit * ban_factor >= 0) by (nonlinear_arith)
        requires
            1 <= limit,
            2 <= ban_factor,
    ;
}

} // verus!
