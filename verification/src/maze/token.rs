//! Maze traversal tokens: operation envelopes extended with depth,
//! branch budget and chain linkage, plus the micro proof-of-work
//! predicate and the sealed expansion-seed signature.

use vstd::prelude::*;

use crate::crypto::{
    b64_of, bytes_to_hex, digest_hex, digest_of, hex_of, hmac_sha256, hmac_sha256_of, sha256,
    sha256_of,
};
use crate::envelope::{
    env_fields, env_json, env_plain, first_dot, make_envelope_token, parse_envelope_token,
    spec_token, OperationEnvelope, SeedTokenError, TOKEN_VERSION,
};
use crate::text::{push_u64, string_push};
use vstd::string::StringSliceAdditionalSpecFns;

verus! {

/// Why a traversal token was rejected.
#[derive(Clone, Copy, Debug, PartialEq, Eq, Structural)]
pub enum MazeTokenError {
    Missing,
    Malformed,
    InvalidVersion,
    SignatureMismatch,
    Expired,
}

/// The stable hex digest used for path binding and chain markers.
pub fn digest(s: &str) -> (r: String)
    ensures
        r@ == digest_of(vstd::utf8::encode_utf8(s@)),
{
    digest_hex(s)
}

/// A flow identity derived from the bucketed identity, the path and the
/// minute: the digest of their joined rendering.
pub open spec fn flow_id_seed_of(
    ip_bucket: Seq<char>,
    ua_bucket: Seq<char>,
    path: Seq<char>,
    now_secs: u64,
) -> Seq<char> {
    ip_bucket + "|"@ + ua_bucket + "|"@ + path + "|"@ + crate::text::dec_of((now_secs / 60) as nat)
}

/// Derive a fresh flow identity.
pub fn flow_id_from(ip_bucket: &str, ua_bucket: &str, path: &str, now_secs: u64) -> (r: String)
    ensures
        r@ == digest_of(
            vstd::utf8::encode_utf8(flow_id_seed_of(ip_bucket@, ua_bucket@, path@, now_secs)),
        ),
{
    let mut seed = String::new();
    seed.append(ip_bucket);
    seed.append("|");
    seed.append(ua_bucket);
    seed.append("|");
    seed.append(path);
    seed.append("|");
    push_u64(&mut seed, now_secs / 60);
    assert(seed@ =~= flow_id_seed_of(ip_bucket@, ua_bucket@, path@, now_secs));
    digest_hex(seed.as_str())
}

/// The joined input that seeds the deterministic page generator.
pub open spec fn entropy_seed_input_of(
    site: Seq<char>,
    ip_bucket: Seq<char>,
    ua_bucket: Seq<char>,
    path: Seq<char>,
    minute_bucket: u64,
    entropy_nonce: Seq<char>,
) -> Seq<char> {
    site + "|"@ + ip_bucket + "|"@ + ua_bucket + "|"@ + path + "|"@ + crate::text::dec_of(
        minute_bucket as nat,
    ) + "|"@ + entropy_nonce
}

/// The 32-bit seed read from the first four tag bytes.
pub open spec fn seed_from_tag(tag: Seq<u8>) -> u32 {
    (tag[0] as int * 0x1000000 + tag[1] as int * 0x10000 + tag[2] as int * 0x100
        + tag[3] as int) as u32
}

/// Derive the deterministic page seed: an HMAC over the bound request
/// coordinates, read as a 32-bit integer.
pub fn entropy_seed(
    secret: &str,
    site: &str,
    ip_bucket: &str,
    ua_bucket: &str,
    path: &str,
    minute_bucket: u64,
    entropy_nonce: &str,
) -> (r: u32)
    ensures
        r == seed_from_tag(
            hmac_sha256_of(
                secret.spec_bytes(),
                vstd::utf8::encode_utf8(
                    entropy_seed_input_of(
                        site@,
                        ip_bucket@,
                        ua_bucket@,
                        path@,
                        minute_bucket,
                        entropy_nonce@,
                    ),
                ),
            ),
        ),
{
    let mut input = String::new();
    input.append(site);
    input.append("|");
    input.append(ip_bucket);
    input.append("|");
    input.append(ua_bucket);
    input.append("|");
    input.append(path);
    input.append("|");
    push_u64(&mut input, minute_bucket);
    input.append("|");
    input.append(entropy_nonce);
    assert(input@ =~= entropy_seed_input_of(
        site@,
        ip_bucket@,
        ua_bucket@,
        path@,
        minute_bucket,
        entropy_nonce@,
    ));
    let tag = hmac_sha256(secret.as_bytes(), input.as_str().as_bytes());
    let b0 = tag[0] as u32;
    let b1 = tag[1] as u32;
    let b2 = tag[2] as u32;
    let b3 = tag[3] as u32;
    b0 * 0x1000000 + b1 * 0x10000 + b2 * 0x100 + b3
}

/// The capped branch budget a child inherits: one less than the parent,
/// but never below one.
pub open spec fn child_budget_of(parent_budget: u32) -> u32 {
    if parent_budget <= 2 {
        1u32
    } else {
        (parent_budget - 1) as u32
    }
}

/// Mint a child traversal token for one link. A child of a parent is
/// one level deeper and inherits one less branch budget, floored at
/// one; a root token starts at depth one with the configured budget.
pub fn issue_child_token(
    parent: Option<&OperationEnvelope>,
    path: &str,
    path_prefix: &str,
    ip_bucket: &str,
    ua_bucket: &str,
    ttl_seconds: u64,
    max_depth: u16,
    root_budget: u32,
    entropy_nonce: &str,
    variant_id: u16,
    now_secs: u64,
) -> (r: OperationEnvelope)
    requires
        now_secs + ttl_seconds <= u64::MAX,
    ensures
        match parent {
            Some(p) => {
                &&& r.depth == if p.depth < 0xffffu16 {
                    p.depth + 1
                } else {
                    p.depth as int
                }
                &&& r.branch_budget == child_budget_of(p.branch_budget)
                &&& r.branch_budget <= if p.branch_budget <= 1 {
                    1int
                } else {
                    p.branch_budget - 1
                }
                &&& r.flow_id@ == p.flow_id@
                &&& r.prev_digest@ == digest_of(
                    vstd::utf8::encode_utf8(p.flow_id@ + ":"@ + p.operation_id@),
                )
            },
            None => {
                &&& r.depth == 1
                &&& r.branch_budget == if root_budget == 0 {
                    1u32
                } else {
                    root_budget
                }
                &&& r.prev_digest@.len() == 0
            },
        },
        r.branch_budget >= 1,
        r.issued_at == now_secs,
        r.expires_at == now_secs + ttl_seconds,
        r.token_version == TOKEN_VERSION,
        r.ip_bucket@ == ip_bucket@,
        r.ua_bucket@ == ua_bucket@,
        r.path_prefix@ == path_prefix@,
        r.path_digest@ == digest_of(vstd::utf8::encode_utf8(path@)),
        r.entropy_nonce@ == entropy_nonce@,
        r.variant_id == variant_id,
{
    let op_hi = crate::crypto::random_u64();
    let op_lo = crate::crypto::random_u64();
    let mut operation_id = String::new();
    let hi_bytes = crate::text::u64_to_dec_bytes(op_hi);
    push_u64(&mut operation_id, op_hi);
    string_push(&mut operation_id, '-');
    push_u64(&mut operation_id, op_lo);
    let (depth, branch_budget, flow_id, prev_digest) = match parent {
        Some(p) => {
            let d: u16 = if p.depth < 0xffff {
                p.depth + 1
            } else {
                p.depth
            };
            let b: u32 = if p.branch_budget <= 2 {
                1
            } else {
                p.branch_budget - 1
            };
            let mut chain_input = p.flow_id.clone();
            chain_input.append(":");
            chain_input.append(p.operation_id.as_str());
            assert(chain_input@ =~= p.flow_id@ + ":"@ + p.operation_id@);
            (d, b, p.flow_id.clone(), digest_hex(chain_input.as_str()))
        },
        None => {
            let fid = flow_id_from(ip_bucket, ua_bucket, path, now_secs);
            let b: u32 = if root_budget == 0 {
                1
            } else {
                root_budget
            };
            (1u16, b, fid, String::new())
        },
    };
    let _ = max_depth;
    let _ = hi_bytes;
    OperationEnvelope {
        operation_id,
        flow_id,
        step_id: "maze_traversal".to_owned(),
        step_index: depth as u32,
        token_version: TOKEN_VERSION,
        issued_at: now_secs,
        expires_at: now_secs + ttl_seconds,
        ip_bucket: ip_bucket.to_owned(),
        ua_bucket: ua_bucket.to_owned(),
        path_class: "maze".to_owned(),
        grid_size: 0,
        transform_count: 0,
        seed_value: 0,
        path_prefix: path_prefix.to_owned(),
        path_digest: digest_hex(path),
        depth,
        branch_budget,
        entropy_nonce: entropy_nonce.to_owned(),
        variant_id,
        prev_digest,
    }
}

/// Sign a traversal token into its wire form.
pub fn sign(token: &OperationEnvelope, secret: &str) -> (r: String)
    ensures
        r@ == spec_token(secret.spec_bytes(), env_fields(*token)),
        first_dot(r@, 0) == b64_of(vstd::utf8::encode_utf8(env_json(*token))).len(),
        0 < first_dot(r@, 0),
{
    make_envelope_token(token, secret)
}

/// Whether the raw text is an authenticated wire form under the
/// secret: some payload that parses as a field list, signed by its own
/// HMAC tag. A token with a flipped signature byte, a stranger's
/// signature or an unparseable payload is not authentic.
pub open spec fn authentic_token(raw: Seq<char>, secret: Seq<u8>) -> bool {
    exists|js: Seq<char>|
        {
            &&& raw == b64_of(vstd::utf8::encode_utf8(js)) + seq!['.'] + b64_of(
                hmac_sha256_of(secret, vstd::utf8::encode_utf8(js)),
            )
            &&& #[trigger] crate::json::spec_parse_json(js) is Some
        }
}

/// Parse, authenticate and expiry-check a traversal token. The minted
/// wire form of a plain token under the same secret comes back with the
/// same fields whenever it has not expired; only an authentic token can
/// come back expired or wrongly versioned.
pub fn verify(raw: &str, secret: &str, now: Option<u64>) -> (r: Result<
    OperationEnvelope,
    MazeTokenError,
>)
    ensures
        r matches Ok(e) ==> (exists|js: Seq<char>|
            {
                &&& raw@ == b64_of(vstd::utf8::encode_utf8(js)) + seq!['.'] + b64_of(
                    hmac_sha256_of(secret.spec_bytes(), vstd::utf8::encode_utf8(js)),
                )
                &&& #[trigger] crate::json::spec_parse_json(js) == Some(env_fields(e))
            }),
        r matches Ok(e) ==> (match now {
            Some(t) => t <= e.expires_at,
            None => true,
        }),
        r is Ok ==> authentic_token(raw@, secret.spec_bytes()),
        (r matches Err(x) && (x is Expired || x is InvalidVersion)) ==> authentic_token(
            raw@,
            secret.spec_bytes(),
        ),
        forall|e0: OperationEnvelope|
            {
                &&& env_plain(e0)
                &&& e0.token_version == TOKEN_VERSION
                &&& raw@ == spec_token(secret.spec_bytes(), #[trigger] env_fields(e0))
                &&& first_dot(raw@, 0) == b64_of(vstd::utf8::encode_utf8(env_json(e0))).len()
                &&& 0 < first_dot(raw@, 0)
                &&& (now matches Some(t) ==> t <= e0.expires_at)
            } ==> (r matches Ok(e) && env_fields(e) == env_fields(e0)),
{
    let parsed = match parse_envelope_token(raw, secret) {
        Ok(e) => e,
        Err(SeedTokenError::MissingPayload) => {
            return Err(MazeTokenError::Missing);
        },
        Err(SeedTokenError::MissingSignature) => {
            return Err(MazeTokenError::Malformed);
        },
        Err(SeedTokenError::SignatureMismatch) => {
            return Err(MazeTokenError::SignatureMismatch);
        },
        Err(_) => {
            return Err(MazeTokenError::Malformed);
        },
    };
    proof {
        let js0 = choose|js: Seq<char>|
            raw@ == b64_of(vstd::utf8::encode_utf8(js)) + seq!['.'] + b64_of(
                hmac_sha256_of(secret.spec_bytes(), vstd::utf8::encode_utf8(js)),
            ) && #[trigger] crate::json::spec_parse_json(js) == Some(env_fields(parsed));
        assert(crate::json::spec_parse_json(js0) is Some);
        assert(authentic_token(raw@, secret.spec_bytes()));
    }
    if parsed.token_version != TOKEN_VERSION {
        proof {
            assert forall|e0: OperationEnvelope|
                {
                    &&& env_plain(e0)
                    &&& e0.token_version == TOKEN_VERSION
                    &&& raw@ == spec_token(secret.spec_bytes(), #[trigger] env_fields(e0))
                    &&& first_dot(raw@, 0) == b64_of(
                        vstd::utf8::encode_utf8(env_json(e0)),
                    ).len()
                    &&& 0 < first_dot(raw@, 0)
                } implies false by {
                assert(env_fields(parsed) == env_fields(e0));
                assert(env_fields(parsed)[4] == env_fields(e0)[4]);
                assert(parsed.token_version as u64 == e0.token_version as u64);
            }
        }
        return Err(MazeTokenError::InvalidVersion);
    }
    match now {
        Some(t) => {
            if t > parsed.expires_at {
                proof {
                    assert forall|e0: OperationEnvelope|
                        {
                            &&& env_plain(e0)
                            &&& e0.token_version == TOKEN_VERSION
                            &&& raw@ == spec_token(secret.spec_bytes(), #[trigger] env_fields(e0))
                            &&& first_dot(raw@, 0) == b64_of(
                                vstd::utf8::encode_utf8(env_json(e0)),
                            ).len()
                            &&& 0 < first_dot(raw@, 0)
                            &&& t <= e0.expires_at
                        } implies false by {
                        assert(env_fields(parsed) == env_fields(e0));
                        assert(env_fields(parsed)[6] == env_fields(e0)[6]);
                        assert(parsed.expires_at == e0.expires_at);
                    }
                }
                return Err(MazeTokenError::Expired);
            }
        },
        None => {},
    }
    Ok(parsed)
}

/// The leading zero bits of a byte.
pub open spec fn byte_lz(b: u8) -> int {
    if b >= 128 {
        0
    } else if b >= 64 {
        1
    } else if b >= 32 {
        2
    } else if b >= 16 {
        3
    } else if b >= 8 {
        4
    } else if b >= 4 {
        5
    } else if b >= 2 {
        6
    } else if b >= 1 {
        7
    } else {
        8
    }
}

/// The leading zero bits of a byte string.
pub open spec fn leading_zero_bits(s: Seq<u8>) -> int
    decreases s.len(),
{
    if s.len() == 0 {
        0
    } else if s[0] == 0 {
        8 + leading_zero_bits(s.skip(1))
    } else {
        byte_lz(s[0])
    }
}

fn byte_lz_x(b: u8) -> (r: u8)
    ensures
        r == byte_lz(b),
{
    if b >= 128 {
        0
    } else if b >= 64 {
        1
    } else if b >= 32 {
        2
    } else if b >= 16 {
        3
    } else if b >= 8 {
        4
    } else if b >= 4 {
        5
    } else if b >= 2 {
        6
    } else if b >= 1 {
        7
    } else {
        8
    }
}

fn count_leading_zero_bits(s: &[u8]) -> (r: u64)
    requires
        s@.len() <= 1000,
    ensures
        r == leading_zero_bits(s@),
{
    let len = s.len();
    let mut i: usize = 0;
    let mut acc: u64 = 0;
    proof {
        assert(s@.skip(0) =~= s@);
    }
    while i < len
        invariant
            0 <= i <= len,
            len == s@.len(),
            len <= 1000,
            acc == 8 * i,
            forall|k: int| 0 <= k < i ==> s@[k] == 0,
            leading_zero_bits(s@) == acc + leading_zero_bits(s@.skip(i as int)),
        decreases len - i,
    {
        let b = s[i];
        if b != 0 {
            proof {
                assert(s@.skip(i as int)[0] == s@[i as int]);
            }
            return acc + byte_lz_x(b) as u64;
        }
        proof {
            assert(s@.skip(i as int)[0] == s@[i as int]);
            assert(s@.skip(i as int).skip(1) =~= s@.skip(i + 1));
        }
        i = i + 1;
        acc = acc + 8;
    }
    proof {
        assert(s@.skip(len as int) =~= Seq::<u8>::empty());
    }
    acc
}

/// The bytes hashed for the micro proof-of-work: the raw token, a
/// colon, and the client nonce.
pub open spec fn pow_message_of(token: Seq<char>, nonce: Seq<char>) -> Seq<u8> {
    vstd::utf8::encode_utf8(token) + seq![58u8] + vstd::utf8::encode_utf8(nonce)
}

/// Verify a micro proof-of-work: accepted exactly when the SHA-256 of
/// `token ":" nonce` has at least `difficulty` leading zero bits.
pub fn verify_micro_pow(raw_token: &str, nonce: &str, difficulty: u8) -> (r: bool)
    ensures
        r == (leading_zero_bits(sha256_of(pow_message_of(raw_token@, nonce@)))
            >= difficulty),
{
    let mut msg: Vec<u8> = Vec::new();
    msg.extend_from_slice(raw_token.as_bytes());
    msg.push(58u8);
    msg.extend_from_slice(nonce.as_bytes());
    proof {
        assert(msg@ =~= pow_message_of(raw_token@, nonce@)) by {
            assert(forall|i: int| 0 <= i < raw_token.spec_bytes().len()
                ==> msg@[i] == #[trigger] raw_token.spec_bytes()[i]);
            assert(forall|i: int| 0 <= i < nonce.spec_bytes().len()
                ==> msg@[raw_token.spec_bytes().len() + 1 + i] == #[trigger] nonce.spec_bytes()[i]);
        }
    }
    let hash = sha256(msg.as_slice());
    let bits = count_leading_zero_bits(hash.as_slice());
    bits >= difficulty as u64
}

/// The joined rendering that the expansion-seed signature covers.
pub open spec fn expansion_seed_input_of(
    flow_id: Seq<char>,
    path_prefix: Seq<char>,
    entropy_nonce: Seq<char>,
    depth: u16,
    seed: u64,
    hidden_count: u64,
    segment_len: u64,
) -> Seq<char> {
    flow_id + "|"@ + path_prefix + "|"@ + entropy_nonce + "|"@ + crate::text::dec_of(depth as nat)
        + "|"@ + crate::text::dec_of(seed as nat) + "|"@ + crate::text::dec_of(hidden_count as nat)
        + "|"@ + crate::text::dec_of(segment_len as nat)
}

/// Sign an expansion seed: the hex HMAC tag over the bound coordinates.
pub fn sign_expansion_seed(
    secret: &str,
    flow_id: &str,
    path_prefix: &str,
    entropy_nonce: &str,
    depth: u16,
    seed: u64,
    hidden_count: u64,
    segment_len: u64,
) -> (r: String)
    ensures
        r@ == hex_of(
            hmac_sha256_of(
                secret.spec_bytes(),
                vstd::utf8::encode_utf8(
                    expansion_seed_input_of(
                        flow_id@,
                        path_prefix@,
                        entropy_nonce@,
                        depth,
                        seed,
                        hidden_count,
                        segment_len,
                    ),
                ),
            ),
        ),
{
    let mut input = String::new();
    input.append(flow_id);
    input.append("|");
    input.append(path_prefix);
    input.append("|");
    input.append(entropy_nonce);
    input.append("|");
    push_u64(&mut input, depth as u64);
    input.append("|");
    push_u64(&mut input, seed);
    input.append("|");
    push_u64(&mut input, hidden_count);
    input.append("|");
    push_u64(&mut input, segment_len);
    assert(input@ =~= expansion_seed_input_of(
        flow_id@,
        path_prefix@,
        entropy_nonce@,
        depth,
        seed,
        hidden_count,
        segment_len,
    ));
    let tag = hmac_sha256(secret.as_bytes(), input.as_str().as_bytes());
    bytes_to_hex(tag.as_slice())
}

/// Check an expansion-seed signature against the same coordinates.
pub fn verify_expansion_seed_signature(
    signature: &str,
    secret: &str,
    flow_id: &str,
    path_prefix: &str,
    entropy_nonce: &str,
    depth: u16,
    seed: u64,
    hidden_count: u64,
    segment_len: u64,
) -> (r: bool)
    ensures
        r == (signature@ == hex_of(
            hmac_sha256_of(
                secret.spec_bytes(),
                vstd::utf8::encode_utf8(
                    expansion_seed_input_of(
                        flow_id@,
                        path_prefix@,
                        entropy_nonce@,
                        depth,
                        seed,
                        hidden_count,
                        segment_len,
                    ),
                ),
            ),
        )),
{
    let expected = sign_expansion_seed(
        secret,
        flow_id,
        path_prefix,
        entropy_nonce,
        depth,
        seed,
        hidden_count,
        segment_len,
    );
    crate::text::str_eq(signature, expected.as_str())
}

} // verus!
