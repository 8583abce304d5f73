//! The signed operation envelope: the single-use token that binds one
//! step of one interactive flow to its request context.
//!
//! A token travels as `base64(JSON payload) "." base64(HMAC-SHA256 tag)`.
//! One payload shape serves every flow: the envelope core (identity,
//! ordering, timing, binding) plus the puzzle-seed and maze-traversal
//! extensions that some steps carry.

use vstd::prelude::*;

use vstd::string::StringSliceAdditionalSpecFns;
use crate::crypto::{
    b64_decode, b64_encode, b64_of, hmac_sha256, hmac_sha256_of, hmac_verify, string_from_utf8,
};
use crate::json::{
    encode_fields, fields_view, json_of, lemma_json_round_trip, parse_fields, plain_char,
    plain_str, spec_parse_json, valid_fields, JFieldV, JVal, JValV,
};
use crate::kv::KeyValueStore;
use crate::text::{str_eq, string_push};

verus! {

/// The accepted payload schema version.
pub const TOKEN_VERSION: u32 = 1;

/// OperationEnvelope record carried through the canonical JSON codec.
#[derive(Clone)]
pub struct OperationEnvelope {
    pub operation_id: String,
    pub flow_id: String,
    pub step_id: String,
    pub step_index: u32,
    pub token_version: u32,
    pub issued_at: u64,
    pub expires_at: u64,
    pub ip_bucket: String,
    pub ua_bucket: String,
    pub path_class: String,
    pub grid_size: u32,
    pub transform_count: u32,
    pub seed_value: u64,
    pub path_prefix: String,
    pub path_digest: String,
    pub depth: u16,
    pub branch_budget: u32,
    pub entropy_nonce: String,
    pub variant_id: u16,
    pub prev_digest: String,
}

/// The field list that encodes a OperationEnvelope.
pub open spec fn env_fields(x: OperationEnvelope) -> Seq<JFieldV> {
    seq![
        ("operation_id"@, JValV::S(x.operation_id@)),
        ("flow_id"@, JValV::S(x.flow_id@)),
        ("step_id"@, JValV::S(x.step_id@)),
        ("step_index"@, JValV::N(x.step_index as u64)),
        ("token_version"@, JValV::N(x.token_version as u64)),
        ("issued_at"@, JValV::N(x.issued_at as u64)),
        ("expires_at"@, JValV::N(x.expires_at as u64)),
        ("ip_bucket"@, JValV::S(x.ip_bucket@)),
        ("ua_bucket"@, JValV::S(x.ua_bucket@)),
        ("path_class"@, JValV::S(x.path_class@)),
        ("grid_size"@, JValV::N(x.grid_size as u64)),
        ("transform_count"@, JValV::N(x.transform_count as u64)),
        ("seed_value"@, JValV::N(x.seed_value as u64)),
        ("path_prefix"@, JValV::S(x.path_prefix@)),
        ("path_digest"@, JValV::S(x.path_digest@)),
        ("depth"@, JValV::N(x.depth as u64)),
        ("branch_budget"@, JValV::N(x.branch_budget as u64)),
        ("entropy_nonce"@, JValV::S(x.entropy_nonce@)),
        ("variant_id"@, JValV::N(x.variant_id as u64)),
        ("prev_digest"@, JValV::S(x.prev_digest@)),
    ]
}

/// String fields fit for the codec.
pub open spec fn env_plain(x: OperationEnvelope) -> bool {
    plain_str(x.operation_id@) && plain_str(x.flow_id@) && plain_str(x.step_id@) && plain_str(x.ip_bucket@) && plain_str(x.ua_bucket@) && plain_str(x.path_class@) && plain_str(x.path_prefix@) && plain_str(x.path_digest@) && plain_str(x.entropy_nonce@) && plain_str(x.prev_digest@)
}

proof fn lemma_env_keys_plain()
    ensures
        plain_str("operation_id"@),
        plain_str("flow_id"@),
        plain_str("step_id"@),
        plain_str("step_index"@),
        plain_str("token_version"@),
        plain_str("issued_at"@),
        plain_str("expires_at"@),
        plain_str("ip_bucket"@),
        plain_str("ua_bucket"@),
        plain_str("path_class"@),
        plain_str("grid_size"@),
        plain_str("transform_count"@),
        plain_str("seed_value"@),
        plain_str("path_prefix"@),
        plain_str("path_digest"@),
        plain_str("depth"@),
        plain_str("branch_budget"@),
        plain_str("entropy_nonce"@),
        plain_str("variant_id"@),
        plain_str("prev_digest"@),
{
    reveal_strlit("operation_id");
    assert(("operation_id"@).len() == 12);
    assert forall|i: int| 0 <= i < ("operation_id"@).len() implies plain_char(("operation_id"@)[i]) by {
        let s = "operation_id"@;
        assert(plain_char(s[0]));
        assert(plain_char(s[1]));
        assert(plain_char(s[2]));
        assert(plain_char(s[3]));
        assert(plain_char(s[4]));
        assert(plain_char(s[5]));
        assert(plain_char(s[6]));
        assert(plain_char(s[7]));
        assert(plain_char(s[8]));
        assert(plain_char(s[9]));
        assert(plain_char(s[10]));
        assert(plain_char(s[11]));
    }
    reveal_strlit("flow_id");
    assert(("flow_id"@).len() == 7);
    assert forall|i: int| 0 <= i < ("flow_id"@).len() implies plain_char(("flow_id"@)[i]) by {
        let s = "flow_id"@;
        assert(plain_char(s[0]));
        assert(plain_char(s[1]));
        assert(plain_char(s[2]));
        assert(plain_char(s[3]));
        assert(plain_char(s[4]));
        assert(plain_char(s[5]));
        assert(plain_char(s[6]));
    }
    reveal_strlit("step_id");
    assert(("step_id"@).len() == 7);
    assert forall|i: int| 0 <= i < ("step_id"@).len() implies plain_char(("step_id"@)[i]) by {
        let s = "step_id"@;
        assert(plain_char(s[0]));
        assert(plain_char(s[1]));
        assert(plain_char(s[2]));
        assert(plain_char(s[3]));
        assert(plain_char(s[4]));
        assert(plain_char(s[5]));
        assert(plain_char(s[6]));
    }
    reveal_strlit("step_index");
    assert(("step_index"@).len() == 10);
    assert forall|i: int| 0 <= i < ("step_index"@).len() implies plain_char(("step_index"@)[i]) by {
        let s = "step_index"@;
        assert(plain_char(s[0]));
        assert(plain_char(s[1]));
        assert(plain_char(s[2]));
        assert(plain_char(s[3]));
        assert(plain_char(s[4]));
        assert(plain_char(s[5]));
        assert(plain_char(s[6]));
        assert(plain_char(s[7]));
        assert(plain_char(s[8]));
        assert(plain_char(s[9]));
    }
    reveal_strlit("token_version");
    assert(("token_version"@).len() == 13);
    assert forall|i: int| 0 <= i < ("token_version"@).len() implies plain_char(("token_version"@)[i]) by {
        let s = "token_version"@;
        assert(plain_char(s[0]));
        assert(plain_char(s[1]));
        assert(plain_char(s[2]));
        assert(plain_char(s[3]));
        assert(plain_char(s[4]));
        assert(plain_char(s[5]));
        assert(plain_char(s[6]));
        assert(plain_char(s[7]));
        assert(plain_char(s[8]));
        assert(plain_char(s[9]));
        assert(plain_char(s[10]));
        assert(plain_char(s[11]));
        assert(plain_char(s[12]));
    }
    reveal_strlit("issued_at");
    assert(("issued_at"@).len() == 9);
    assert forall|i: int| 0 <= i < ("issued_at"@).len() implies plain_char(("issued_at"@)[i]) by {
        let s = "issued_at"@;
        assert(plain_char(s[0]));
        assert(plain_char(s[1]));
        assert(plain_char(s[2]));
        assert(plain_char(s[3]));
        assert(plain_char(s[4]));
        assert(plain_char(s[5]));
        assert(plain_char(s[6]));
        assert(plain_char(s[7]));
        assert(plain_char(s[8]));
    }
    reveal_strlit("expires_at");
    assert(("expires_at"@).len() == 10);
    assert forall|i: int| 0 <= i < ("expires_at"@).len() implies plain_char(("expires_at"@)[i]) by {
        let s = "expires_at"@;
        assert(plain_char(s[0]));
        assert(plain_char(s[1]));
        assert(plain_char(s[2]));
        assert(plain_char(s[3]));
        assert(plain_char(s[4]));
        assert(plain_char(s[5]));
        assert(plain_char(s[6]));
        assert(plain_char(s[7]));
        assert(plain_char(s[8]));
        assert(plain_char(s[9]));
    }
    reveal_strlit("ip_bucket");
    assert(("ip_bucket"@).len() == 9);
    assert forall|i: int| 0 <= i < ("ip_bucket"@).len() implies plain_char(("ip_bucket"@)[i]) by {
        let s = "ip_bucket"@;
        assert(plain_char(s[0]));
        assert(plain_char(s[1]));
        assert(plain_char(s[2]));
        assert(plain_char(s[3]));
        assert(plain_char(s[4]));
        assert(plain_char(s[5]));
        assert(plain_char(s[6]));
        assert(plain_char(s[7]));
        assert(plain_char(s[8]));
    }
    reveal_strlit("ua_bucket");
    assert(("ua_bucket"@).len() == 9);
    assert forall|i: int| 0 <= i < ("ua_bucket"@).len() implies plain_char(("ua_bucket"@)[i]) by {
        let s = "ua_bucket"@;
        assert(plain_char(s[0]));
        assert(plain_char(s[1]));
        assert(plain_char(s[2]));
        assert(plain_char(s[3]));
        assert(plain_char(s[4]));
        assert(plain_char(s[5]));
        assert(plain_char(s[6]));
        assert(plain_char(s[7]));
        assert(plain_char(s[8]));
    }
    reveal_strlit("path_class");
    assert(("path_class"@).len() == 10);
    assert forall|i: int| 0 <= i < ("path_class"@).len() implies plain_char(("path_class"@)[i]) by {
        let s = "path_class"@;
        assert(plain_char(s[0]));
        assert(plain_char(s[1]));
        assert(plain_char(s[2]));
        assert(plain_char(s[3]));
        assert(plain_char(s[4]));
        assert(plain_char(s[5]));
        assert(plain_char(s[6]));
        assert(plain_char(s[7]));
        assert(plain_char(s[8]));
        assert(plain_char(s[9]));
    }
    reveal_strlit("grid_size");
    assert(("grid_size"@).len() == 9);
    assert forall|i: int| 0 <= i < ("grid_size"@).len() implies plain_char(("grid_size"@)[i]) by {
        let s = "grid_size"@;
        assert(plain_char(s[0]));
        assert(plain_char(s[1]));
        assert(plain_char(s[2]));
        assert(plain_char(s[3]));
        assert(plain_char(s[4]));
        assert(plain_char(s[5]));
        assert(plain_char(s[6]));
        assert(plain_char(s[7]));
        assert(plain_char(s[8]));
    }
    reveal_strlit("transform_count");
    assert(("transform_count"@).len() == 15);
    assert forall|i: int| 0 <= i < ("transform_count"@).len() implies plain_char(("transform_count"@)[i]) by {
        let s = "transform_count"@;
        assert(plain_char(s[0]));
        assert(plain_char(s[1]));
        assert(plain_char(s[2]));
        assert(plain_char(s[3]));
        assert(plain_char(s[4]));
        assert(plain_char(s[5]));
        assert(plain_char(s[6]));
        assert(plain_char(s[7]));
        assert(plain_char(s[8]));
        assert(plain_char(s[9]));
        assert(plain_char(s[10]));
        assert(plain_char(s[11]));
        assert(plain_char(s[12]));
        assert(plain_char(s[13]));
        assert(plain_char(s[14]));
    }
    reveal_strlit("seed_value");
    assert(("seed_value"@).len() == 10);
    assert forall|i: int| 0 <= i < ("seed_value"@).len() implies plain_char(("seed_value"@)[i]) by {
        let s = "seed_value"@;
        assert(plain_char(s[0]));
        assert(plain_char(s[1]));
        assert(plain_char(s[2]));
        assert(plain_char(s[3]));
        assert(plain_char(s[4]));
        assert(plain_char(s[5]));
        assert(plain_char(s[6]));
        assert(plain_char(s[7]));
        assert(plain_char(s[8]));
        assert(plain_char(s[9]));
    }
    reveal_strlit("path_prefix");
    assert(("path_prefix"@).len() == 11);
    assert forall|i: int| 0 <= i < ("path_prefix"@).len() implies plain_char(("path_prefix"@)[i]) by {
        let s = "path_prefix"@;
        assert(plain_char(s[0]));
        assert(plain_char(s[1]));
        assert(plain_char(s[2]));
        assert(plain_char(s[3]));
        assert(plain_char(s[4]));
        assert(plain_char(s[5]));
        assert(plain_char(s[6]));
        assert(plain_char(s[7]));
        assert(plain_char(s[8]));
        assert(plain_char(s[9]));
        assert(plain_char(s[10]));
    }
    reveal_strlit("path_digest");
    assert(("path_digest"@).len() == 11);
    assert forall|i: int| 0 <= i < ("path_digest"@).len() implies plain_char(("path_digest"@)[i]) by {
        let s = "path_digest"@;
        assert(plain_char(s[0]));
        assert(plain_char(s[1]));
        assert(plain_char(s[2]));
        assert(plain_char(s[3]));
        assert(plain_char(s[4]));
        assert(plain_char(s[5]));
        assert(plain_char(s[6]));
        assert(plain_char(s[7]));
        assert(plain_char(s[8]));
        assert(plain_char(s[9]));
        assert(plain_char(s[10]));
    }
    reveal_strlit("depth");
    assert(("depth"@).len() == 5);
    assert forall|i: int| 0 <= i < ("depth"@).len() implies plain_char(("depth"@)[i]) by {
        let s = "depth"@;
        assert(plain_char(s[0]));
        assert(plain_char(s[1]));
        assert(plain_char(s[2]));
        assert(plain_char(s[3]));
        assert(plain_char(s[4]));
    }
    reveal_strlit("branch_budget");
    assert(("branch_budget"@).len() == 13);
    assert forall|i: int| 0 <= i < ("branch_budget"@).len() implies plain_char(("branch_budget"@)[i]) by {
        let s = "branch_budget"@;
        assert(plain_char(s[0]));
        assert(plain_char(s[1]));
        assert(plain_char(s[2]));
        assert(plain_char(s[3]));
        assert(plain_char(s[4]));
        assert(plain_char(s[5]));
        assert(plain_char(s[6]));
        assert(plain_char(s[7]));
        assert(plain_char(s[8]));
        assert(plain_char(s[9]));
        assert(plain_char(s[10]));
        assert(plain_char(s[11]));
        assert(plain_char(s[12]));
    }
    reveal_strlit("entropy_nonce");
    assert(("entropy_nonce"@).len() == 13);
    assert forall|i: int| 0 <= i < ("entropy_nonce"@).len() implies plain_char(("entropy_nonce"@)[i]) by {
        let s = "entropy_nonce"@;
        assert(plain_char(s[0]));
        assert(plain_char(s[1]));
        assert(plain_char(s[2]));
        assert(plain_char(s[3]));
        assert(plain_char(s[4]));
        assert(plain_char(s[5]));
        assert(plain_char(s[6]));
        assert(plain_char(s[7]));
        assert(plain_char(s[8]));
        assert(plain_char(s[9]));
        assert(plain_char(s[10]));
        assert(plain_char(s[11]));
        assert(plain_char(s[12]));
    }
    reveal_strlit("variant_id");
    assert(("variant_id"@).len() == 10);
    assert forall|i: int| 0 <= i < ("variant_id"@).len() implies plain_char(("variant_id"@)[i]) by {
        let s = "variant_id"@;
        assert(plain_char(s[0]));
        assert(plain_char(s[1]));
        assert(plain_char(s[2]));
        assert(plain_char(s[3]));
        assert(plain_char(s[4]));
        assert(plain_char(s[5]));
        assert(plain_char(s[6]));
        assert(plain_char(s[7]));
        assert(plain_char(s[8]));
        assert(plain_char(s[9]));
    }
    reveal_strlit("prev_digest");
    assert(("prev_digest"@).len() == 11);
    assert forall|i: int| 0 <= i < ("prev_digest"@).len() implies plain_char(("prev_digest"@)[i]) by {
        let s = "prev_digest"@;
        assert(plain_char(s[0]));
        assert(plain_char(s[1]));
        assert(plain_char(s[2]));
        assert(plain_char(s[3]));
        assert(plain_char(s[4]));
        assert(plain_char(s[5]));
        assert(plain_char(s[6]));
        assert(plain_char(s[7]));
        assert(plain_char(s[8]));
        assert(plain_char(s[9]));
        assert(plain_char(s[10]));
    }
}

/// A plain OperationEnvelope yields a field list fit for encoding.
pub proof fn lemma_env_fields_valid(x: OperationEnvelope)
    requires
        env_plain(x),
    ensures
        valid_fields(env_fields(x)),
{
    lemma_env_keys_plain();
    let fs = env_fields(x);
    assert forall|i: int| 0 <= i < fs.len() implies {
        &&& plain_str((#[trigger] fs[i]).0)
        &&& (fs[i].1 matches JValV::S(v) ==> plain_str(v))
    } by {
        if i == 0 {
            assert(fs[0].0 == "operation_id"@);
            assert(fs[0].1 == JValV::S(x.operation_id@));
        } else if i == 1 {
            assert(fs[1].0 == "flow_id"@);
            assert(fs[1].1 == JValV::S(x.flow_id@));
        } else if i == 2 {
            assert(fs[2].0 == "step_id"@);
            assert(fs[2].1 == JValV::S(x.step_id@));
        } else if i == 3 {
            assert(fs[3].0 == "step_index"@);
        } else if i == 4 {
            assert(fs[4].0 == "token_version"@);
        } else if i == 5 {
            assert(fs[5].0 == "issued_at"@);
        } else if i == 6 {
            assert(fs[6].0 == "expires_at"@);
        } else if i == 7 {
            assert(fs[7].0 == "ip_bucket"@);
            assert(fs[7].1 == JValV::S(x.ip_bucket@));
        } else if i == 8 {
            assert(fs[8].0 == "ua_bucket"@);
            assert(fs[8].1 == JValV::S(x.ua_bucket@));
        } else if i == 9 {
            assert(fs[9].0 == "path_class"@);
            assert(fs[9].1 == JValV::S(x.path_class@));
        } else if i == 10 {
            assert(fs[10].0 == "grid_size"@);
        } else if i == 11 {
            assert(fs[11].0 == "transform_count"@);
        } else if i == 12 {
            assert(fs[12].0 == "seed_value"@);
        } else if i == 13 {
            assert(fs[13].0 == "path_prefix"@);
            assert(fs[13].1 == JValV::S(x.path_prefix@));
        } else if i == 14 {
            assert(fs[14].0 == "path_digest"@);
            assert(fs[14].1 == JValV::S(x.path_digest@));
        } else if i == 15 {
            assert(fs[15].0 == "depth"@);
        } else if i == 16 {
            assert(fs[16].0 == "branch_budget"@);
        } else if i == 17 {
            assert(fs[17].0 == "entropy_nonce"@);
            assert(fs[17].1 == JValV::S(x.entropy_nonce@));
        } else if i == 18 {
            assert(fs[18].0 == "variant_id"@);
        } else if i == 19 {
            assert(fs[19].0 == "prev_digest"@);
            assert(fs[19].1 == JValV::S(x.prev_digest@));
        }
    }
}

/// Lay a OperationEnvelope out as its field list.
pub fn env_to_fields(x: &OperationEnvelope) -> (r: Vec<(String, JVal)>)
    ensures
        fields_view(r@) == env_fields(*x),
{
    let mut v: Vec<(String, JVal)> = Vec::new();
    v.push(("operation_id".to_owned(), JVal::S(x.operation_id.clone())));
    v.push(("flow_id".to_owned(), JVal::S(x.flow_id.clone())));
    v.push(("step_id".to_owned(), JVal::S(x.step_id.clone())));
    v.push(("step_index".to_owned(), JVal::N(x.step_index as u64)));
    v.push(("token_version".to_owned(), JVal::N(x.token_version as u64)));
    v.push(("issued_at".to_owned(), JVal::N(x.issued_at as u64)));
    v.push(("expires_at".to_owned(), JVal::N(x.expires_at as u64)));
    v.push(("ip_bucket".to_owned(), JVal::S(x.ip_bucket.clone())));
    v.push(("ua_bucket".to_owned(), JVal::S(x.ua_bucket.clone())));
    v.push(("path_class".to_owned(), JVal::S(x.path_class.clone())));
    v.push(("grid_size".to_owned(), JVal::N(x.grid_size as u64)));
    v.push(("transform_count".to_owned(), JVal::N(x.transform_count as u64)));
    v.push(("seed_value".to_owned(), JVal::N(x.seed_value as u64)));
    v.push(("path_prefix".to_owned(), JVal::S(x.path_prefix.clone())));
    v.push(("path_digest".to_owned(), JVal::S(x.path_digest.clone())));
    v.push(("depth".to_owned(), JVal::N(x.depth as u64)));
    v.push(("branch_budget".to_owned(), JVal::N(x.branch_budget as u64)));
    v.push(("entropy_nonce".to_owned(), JVal::S(x.entropy_nonce.clone())));
    v.push(("variant_id".to_owned(), JVal::N(x.variant_id as u64)));
    v.push(("prev_digest".to_owned(), JVal::S(x.prev_digest.clone())));
    proof {
        assert(fields_view(v@).len() == 20);
        assert(fields_view(v@)[0] == env_fields(*x)[0]);
        assert(fields_view(v@)[1] == env_fields(*x)[1]);
        assert(fields_view(v@)[2] == env_fields(*x)[2]);
        assert(fields_view(v@)[3] == env_fields(*x)[3]);
        assert(fields_view(v@)[4] == env_fields(*x)[4]);
        assert(fields_view(v@)[5] == env_fields(*x)[5]);
        assert(fields_view(v@)[6] == env_fields(*x)[6]);
        assert(fields_view(v@)[7] == env_fields(*x)[7]);
        assert(fields_view(v@)[8] == env_fields(*x)[8]);
        assert(fields_view(v@)[9] == env_fields(*x)[9]);
        assert(fields_view(v@)[10] == env_fields(*x)[10]);
        assert(fields_view(v@)[11] == env_fields(*x)[11]);
        assert(fields_view(v@)[12] == env_fields(*x)[12]);
        assert(fields_view(v@)[13] == env_fields(*x)[13]);
        assert(fields_view(v@)[14] == env_fields(*x)[14]);
        assert(fields_view(v@)[15] == env_fields(*x)[15]);
        assert(fields_view(v@)[16] == env_fields(*x)[16]);
        assert(fields_view(v@)[17] == env_fields(*x)[17]);
        assert(fields_view(v@)[18] == env_fields(*x)[18]);
        assert(fields_view(v@)[19] == env_fields(*x)[19]);
        assert(fields_view(v@) =~= env_fields(*x));
    }
    v
}

/// Read a OperationEnvelope back from a parsed field list; the list must
/// carry exactly the expected keys, kinds and ranges.
#[verifier::rlimit(100)]
pub fn env_from_fields(v: &Vec<(String, JVal)>) -> (r: Option<OperationEnvelope>)
    ensures
        r matches Some(x) ==> fields_view(v@) == env_fields(x),
        r is None ==> (forall|x: OperationEnvelope| fields_view(v@) != #[trigger] env_fields(x)),
{
    if v.len() != 20 {
        proof {
            assert forall|x: OperationEnvelope| fields_view(v@) != #[trigger] env_fields(x) by {
                assert(env_fields(x).len() == 20);
            }
        }
        return None;
    }
    if !str_eq(v[0].0.as_str(), "operation_id") {
        proof {
            assert forall|x: OperationEnvelope| fields_view(v@) != #[trigger] env_fields(x) by {
                if fields_view(v@) == env_fields(x) {
                    assert(fields_view(v@)[0] == env_fields(x)[0]);
                    assert(false);
                }
            }
        }
        return None;
    }
    let f_operation_id: String = match &v[0].1 {
        JVal::S(s) => s.clone(),
        JVal::N(n) => {
        proof {
            assert forall|x: OperationEnvelope| fields_view(v@) != #[trigger] env_fields(x) by {
                if fields_view(v@) == env_fields(x) {
                    assert(fields_view(v@)[0] == env_fields(x)[0]);
                    assert(false);
                }
            }
        }
        return None;
        },
    };
    if !str_eq(v[1].0.as_str(), "flow_id") {
        proof {
            assert forall|x: OperationEnvelope| fields_view(v@) != #[trigger] env_fields(x) by {
                if fields_view(v@) == env_fields(x) {
                    assert(fields_view(v@)[1] == env_fields(x)[1]);
                    assert(false);
                }
            }
        }
        return None;
    }
    let f_flow_id: String = match &v[1].1 {
        JVal::S(s) => s.clone(),
        JVal::N(n) => {
        proof {
            assert forall|x: OperationEnvelope| fields_view(v@) != #[trigger] env_fields(x) by {
                if fields_view(v@) == env_fields(x) {
                    assert(fields_view(v@)[1] == env_fields(x)[1]);
                    assert(false);
                }
            }
        }
        return None;
        },
    };
    if !str_eq(v[2].0.as_str(), "step_id") {
        proof {
            assert forall|x: OperationEnvelope| fields_view(v@) != #[trigger] env_fields(x) by {
                if fields_view(v@) == env_fields(x) {
                    assert(fields_view(v@)[2] == env_fields(x)[2]);
                    assert(false);
                }
            }
        }
        return None;
    }
    let f_step_id: String = match &v[2].1 {
        JVal::S(s) => s.clone(),
        JVal::N(n) => {
        proof {
            assert forall|x: OperationEnvelope| fields_view(v@) != #[trigger] env_fields(x) by {
                if fields_view(v@) == env_fields(x) {
                    assert(fields_view(v@)[2] == env_fields(x)[2]);
                    assert(false);
                }
            }
        }
        return None;
        },
    };
    if !str_eq(v[3].0.as_str(), "step_index") {
        proof {
            assert forall|x: OperationEnvelope| fields_view(v@) != #[trigger] env_fields(x) by {
                if fields_view(v@) == env_fields(x) {
                    assert(fields_view(v@)[3] == env_fields(x)[3]);
                    assert(false);
                }
            }
        }
        return None;
    }
    let n_step_index: u64 = match &v[3].1 {
        JVal::N(n) => *n,
        JVal::S(s) => {
        proof {
            assert forall|x: OperationEnvelope| fields_view(v@) != #[trigger] env_fields(x) by {
                if fields_view(v@) == env_fields(x) {
                    assert(fields_view(v@)[3] == env_fields(x)[3]);
                    assert(false);
                }
            }
        }
        return None;
        },
    };
    if n_step_index > 0xffff_ffffu64 {
        proof {
            assert forall|x: OperationEnvelope| fields_view(v@) != #[trigger] env_fields(x) by {
                if fields_view(v@) == env_fields(x) {
                    assert(fields_view(v@)[3] == env_fields(x)[3]);
                    assert(false);
                }
            }
        }
        return None;
    }
    let f_step_index: u32 = n_step_index as u32;
    if !str_eq(v[4].0.as_str(), "token_version") {
        proof {
            assert forall|x: OperationEnvelope| fields_view(v@) != #[trigger] env_fields(x) by {
                if fields_view(v@) == env_fields(x) {
                    assert(fields_view(v@)[4] == env_fields(x)[4]);
                    assert(false);
                }
            }
        }
        return None;
    }
    let n_token_version: u64 = match &v[4].1 {
        JVal::N(n) => *n,
        JVal::S(s) => {
        proof {
            assert forall|x: OperationEnvelope| fields_view(v@) != #[trigger] env_fields(x) by {
                if fields_view(v@) == env_fields(x) {
                    assert(fields_view(v@)[4] == env_fields(x)[4]);
                    assert(false);
                }
            }
        }
        return None;
        },
    };
    if n_token_version > 0xffff_ffffu64 {
        proof {
            assert forall|x: OperationEnvelope| fields_view(v@) != #[trigger] env_fields(x) by {
                if fields_view(v@) == env_fields(x) {
                    assert(fields_view(v@)[4] == env_fields(x)[4]);
                    assert(false);
                }
            }
        }
        return None;
    }
    let f_token_version: u32 = n_token_version as u32;
    if !str_eq(v[5].0.as_str(), "issued_at") {
        proof {
            assert forall|x: OperationEnvelope| fields_view(v@) != #[trigger] env_fields(x) by {
                if fields_view(v@) == env_fields(x) {
                    assert(fields_view(v@)[5] == env_fields(x)[5]);
                    assert(false);
                }
            }
        }
        return None;
    }
    let n_issued_at: u64 = match &v[5].1 {
        JVal::N(n) => *n,
        JVal::S(s) => {
        proof {
            assert forall|x: OperationEnvelope| fields_view(v@) != #[trigger] env_fields(x) by {
                if fields_view(v@) == env_fields(x) {
                    assert(fields_view(v@)[5] == env_fields(x)[5]);
                    assert(false);
                }
            }
        }
        return None;
        },
    };
    let f_issued_at: u64 = n_issued_at;
    if !str_eq(v[6].0.as_str(), "expires_at") {
        proof {
            assert forall|x: OperationEnvelope| fields_view(v@) != #[trigger] env_fields(x) by {
                if fields_view(v@) == env_fields(x) {
                    assert(fields_view(v@)[6] == env_fields(x)[6]);
                    assert(false);
                }
            }
        }
        return None;
    }
    let n_expires_at: u64 = match &v[6].1 {
        JVal::N(n) => *n,
        JVal::S(s) => {
        proof {
            assert forall|x: OperationEnvelope| fields_view(v@) != #[trigger] env_fields(x) by {
                if fields_view(v@) == env_fields(x) {
                    assert(fields_view(v@)[6] == env_fields(x)[6]);
                    assert(false);
                }
            }
        }
        return None;
        },
    };
    let f_expires_at: u64 = n_expires_at;
    if !str_eq(v[7].0.as_str(), "ip_bucket") {
        proof {
            assert forall|x: OperationEnvelope| fields_view(v@) != #[trigger] env_fields(x) by {
                if fields_view(v@) == env_fields(x) {
                    assert(fields_view(v@)[7] == env_fields(x)[7]);
                    assert(false);
                }
            }
        }
        return None;
    }
    let f_ip_bucket: String = match &v[7].1 {
        JVal::S(s) => s.clone(),
        JVal::N(n) => {
        proof {
            assert forall|x: OperationEnvelope| fields_view(v@) != #[trigger] env_fields(x) by {
                if fields_view(v@) == env_fields(x) {
                    assert(fields_view(v@)[7] == env_fields(x)[7]);
                    assert(false);
                }
            }
        }
        return None;
        },
    };
    if !str_eq(v[8].0.as_str(), "ua_bucket") {
        proof {
            assert forall|x: OperationEnvelope| fields_view(v@) != #[trigger] env_fields(x) by {
                if fields_view(v@) == env_fields(x) {
                    assert(fields_view(v@)[8] == env_fields(x)[8]);
                    assert(false);
                }
            }
        }
        return None;
    }
    let f_ua_bucket: String = match &v[8].1 {
        JVal::S(s) => s.clone(),
        JVal::N(n) => {
        proof {
            assert forall|x: OperationEnvelope| fields_view(v@) != #[trigger] env_fields(x) by {
                if fields_view(v@) == env_fields(x) {
                    assert(fields_view(v@)[8] == env_fields(x)[8]);
                    assert(false);
                }
            }
        }
        return None;
        },
    };
    if !str_eq(v[9].0.as_str(), "path_class") {
        proof {
            assert forall|x: OperationEnvelope| fields_view(v@) != #[trigger] env_fields(x) by {
                if fields_view(v@) == env_fields(x) {
                    assert(fields_view(v@)[9] == env_fields(x)[9]);
                    assert(false);
                }
            }
        }
        return None;
    }
    let f_path_class: String = match &v[9].1 {
        JVal::S(s) => s.clone(),
        JVal::N(n) => {
        proof {
            assert forall|x: OperationEnvelope| fields_view(v@) != #[trigger] env_fields(x) by {
                if fields_view(v@) == env_fields(x) {
                    assert(fields_view(v@)[9] == env_fields(x)[9]);
                    assert(false);
                }
            }
        }
        return None;
        },
    };
    if !str_eq(v[10].0.as_str(), "grid_size") {
        proof {
            assert forall|x: OperationEnvelope| fields_view(v@) != #[trigger] env_fields(x) by {
                if fields_view(v@) == env_fields(x) {
                    assert(fields_view(v@)[10] == env_fields(x)[10]);
                    assert(false);
                }
            }
        }
        return None;
    }
    let n_grid_size: u64 = match &v[10].1 {
        JVal::N(n) => *n,
        JVal::S(s) => {
        proof {
            assert forall|x: OperationEnvelope| fields_view(v@) != #[trigger] env_fields(x) by {
                if fields_view(v@) == env_fields(x) {
                    assert(fields_view(v@)[10] == env_fields(x)[10]);
                    assert(false);
                }
            }
        }
        return None;
        },
    };
    if n_grid_size > 0xffff_ffffu64 {
        proof {
            assert forall|x: OperationEnvelope| fields_view(v@) != #[trigger] env_fields(x) by {
                if fields_view(v@) == env_fields(x) {
                    assert(fields_view(v@)[10] == env_fields(x)[10]);
                    assert(false);
                }
            }
        }
        return None;
    }
    let f_grid_size: u32 = n_grid_size as u32;
    if !str_eq(v[11].0.as_str(), "transform_count") {
        proof {
            assert forall|x: OperationEnvelope| fields_view(v@) != #[trigger] env_fields(x) by {
                if fields_view(v@) == env_fields(x) {
                    assert(fields_view(v@)[11] == env_fields(x)[11]);
                    assert(false);
                }
            }
        }
        return None;
    }
    let n_transform_count: u64 = match &v[11].1 {
        JVal::N(n) => *n,
        JVal::S(s) => {
        proof {
            assert forall|x: OperationEnvelope| fields_view(v@) != #[trigger] env_fields(x) by {
                if fields_view(v@) == env_fields(x) {
                    assert(fields_view(v@)[11] == env_fields(x)[11]);
                    assert(false);
                }
            }
        }
        return None;
        },
    };
    if n_transform_count > 0xffff_ffffu64 {
        proof {
            assert forall|x: OperationEnvelope| fields_view(v@) != #[trigger] env_fields(x) by {
                if fields_view(v@) == env_fields(x) {
                    assert(fields_view(v@)[11] == env_fields(x)[11]);
                    assert(false);
                }
            }
        }
        return None;
    }
    let f_transform_count: u32 = n_transform_count as u32;
    if !str_eq(v[12].0.as_str(), "seed_value") {
        proof {
            assert forall|x: OperationEnvelope| fields_view(v@) != #[trigger] env_fields(x) by {
                if fields_view(v@) == env_fields(x) {
                    assert(fields_view(v@)[12] == env_fields(x)[12]);
                    assert(false);
                }
            }
        }
        return None;
    }
    let n_seed_value: u64 = match &v[12].1 {
        JVal::N(n) => *n,
        JVal::S(s) => {
        proof {
            assert forall|x: OperationEnvelope| fields_view(v@) != #[trigger] env_fields(x) by {
                if fields_view(v@) == env_fields(x) {
                    assert(fields_view(v@)[12] == env_fields(x)[12]);
                    assert(false);
                }
            }
        }
        return None;
        },
    };
    let f_seed_value: u64 = n_seed_value;
    if !str_eq(v[13].0.as_str(), "path_prefix") {
        proof {
            assert forall|x: OperationEnvelope| fields_view(v@) != #[trigger] env_fields(x) by {
                if fields_view(v@) == env_fields(x) {
                    assert(fields_view(v@)[13] == env_fields(x)[13]);
                    assert(false);
                }
            }
        }
        return None;
    }
    let f_path_prefix: String = match &v[13].1 {
        JVal::S(s) => s.clone(),
        JVal::N(n) => {
        proof {
            assert forall|x: OperationEnvelope| fields_view(v@) != #[trigger] env_fields(x) by {
                if fields_view(v@) == env_fields(x) {
                    assert(fields_view(v@)[13] == env_fields(x)[13]);
                    assert(false);
                }
            }
        }
        return None;
        },
    };
    if !str_eq(v[14].0.as_str(), "path_digest") {
        proof {
            assert forall|x: OperationEnvelope| fields_view(v@) != #[trigger] env_fields(x) by {
                if fields_view(v@) == env_fields(x) {
                    assert(fields_view(v@)[14] == env_fields(x)[14]);
                    assert(false);
                }
            }
        }
        return None;
    }
    let f_path_digest: String = match &v[14].1 {
        JVal::S(s) => s.clone(),
        JVal::N(n) => {
        proof {
            assert forall|x: OperationEnvelope| fields_view(v@) != #[trigger] env_fields(x) by {
                if fields_view(v@) == env_fields(x) {
                    assert(fields_view(v@)[14] == env_fields(x)[14]);
                    assert(false);
                }
            }
        }
        return None;
        },
    };
    if !str_eq(v[15].0.as_str(), "depth") {
        proof {
            assert forall|x: OperationEnvelope| fields_view(v@) != #[trigger] env_fields(x) by {
                if fields_view(v@) == env_fields(x) {
                    assert(fields_view(v@)[15] == env_fields(x)[15]);
                    assert(false);
                }
            }
        }
        return None;
    }
    let n_depth: u64 = match &v[15].1 {
        JVal::N(n) => *n,
        JVal::S(s) => {
        proof {
            assert forall|x: OperationEnvelope| fields_view(v@) != #[trigger] env_fields(x) by {
                if fields_view(v@) == env_fields(x) {
                    assert(fields_view(v@)[15] == env_fields(x)[15]);
                    assert(false);
                }
            }
        }
        return None;
        },
    };
    if n_depth > 0xffffu64 {
        proof {
            assert forall|x: OperationEnvelope| fields_view(v@) != #[trigger] env_fields(x) by {
                if fields_view(v@) == env_fields(x) {
                    assert(fields_view(v@)[15] == env_fields(x)[15]);
                    assert(false);
                }
            }
        }
        return None;
    }
    let f_depth: u16 = n_depth as u16;
    if !str_eq(v[16].0.as_str(), "branch_budget") {
        proof {
            assert forall|x: OperationEnvelope| fields_view(v@) != #[trigger] env_fields(x) by {
                if fields_view(v@) == env_fields(x) {
                    assert(fields_view(v@)[16] == env_fields(x)[16]);
                    assert(false);
                }
            }
        }
        return None;
    }
    let n_branch_budget: u64 = match &v[16].1 {
        JVal::N(n) => *n,
        JVal::S(s) => {
        proof {
            assert forall|x: OperationEnvelope| fields_view(v@) != #[trigger] env_fields(x) by {
                if fields_view(v@) == env_fields(x) {
                    assert(fields_view(v@)[16] == env_fields(x)[16]);
                    assert(false);
                }
            }
        }
        return None;
        },
    };
    if n_branch_budget > 0xffff_ffffu64 {
        proof {
            assert forall|x: OperationEnvelope| fields_view(v@) != #[trigger] env_fields(x) by {
                if fields_view(v@) == env_fields(x) {
                    assert(fields_view(v@)[16] == env_fields(x)[16]);
                    assert(false);
                }
            }
        }
        return None;
    }
    let f_branch_budget: u32 = n_branch_budget as u32;
    if !str_eq(v[17].0.as_str(), "entropy_nonce") {
        proof {
            assert forall|x: OperationEnvelope| fields_view(v@) != #[trigger] env_fields(x) by {
                if fields_view(v@) == env_fields(x) {
                    assert(fields_view(v@)[17] == env_fields(x)[17]);
                    assert(false);
                }
            }
        }
        return None;
    }
    let f_entropy_nonce: String = match &v[17].1 {
        JVal::S(s) => s.clone(),
        JVal::N(n) => {
        proof {
            assert forall|x: OperationEnvelope| fields_view(v@) != #[trigger] env_fields(x) by {
                if fields_view(v@) == env_fields(x) {
                    assert(fields_view(v@)[17] == env_fields(x)[17]);
                    assert(false);
                }
            }
        }
        return None;
        },
    };
    if !str_eq(v[18].0.as_str(), "variant_id") {
        proof {
            assert forall|x: OperationEnvelope| fields_view(v@) != #[trigger] env_fields(x) by {
                if fields_view(v@) == env_fields(x) {
                    assert(fields_view(v@)[18] == env_fields(x)[18]);
                    assert(false);
                }
            }
        }
        return None;
    }
    let n_variant_id: u64 = match &v[18].1 {
        JVal::N(n) => *n,
        JVal::S(s) => {
        proof {
            assert forall|x: OperationEnvelope| fields_view(v@) != #[trigger] env_fields(x) by {
                if fields_view(v@) == env_fields(x) {
                    assert(fields_view(v@)[18] == env_fields(x)[18]);
                    assert(false);
                }
            }
        }
        return None;
        },
    };
    if n_variant_id > 0xffffu64 {
        proof {
            assert forall|x: OperationEnvelope| fields_view(v@) != #[trigger] env_fields(x) by {
                if fields_view(v@) == env_fields(x) {
                    assert(fields_view(v@)[18] == env_fields(x)[18]);
                    assert(false);
                }
            }
        }
        return None;
    }
    let f_variant_id: u16 = n_variant_id as u16;
    if !str_eq(v[19].0.as_str(), "prev_digest") {
        proof {
            assert forall|x: OperationEnvelope| fields_view(v@) != #[trigger] env_fields(x) by {
                if fields_view(v@) == env_fields(x) {
                    assert(fields_view(v@)[19] == env_fields(x)[19]);
                    assert(false);
                }
            }
        }
        return None;
    }
    let f_prev_digest: String = match &v[19].1 {
        JVal::S(s) => s.clone(),
        JVal::N(n) => {
        proof {
            assert forall|x: OperationEnvelope| fields_view(v@) != #[trigger] env_fields(x) by {
                if fields_view(v@) == env_fields(x) {
                    assert(fields_view(v@)[19] == env_fields(x)[19]);
                    assert(false);
                }
            }
        }
        return None;
        },
    };
    let x = OperationEnvelope {
        operation_id: f_operation_id,
        flow_id: f_flow_id,
        step_id: f_step_id,
        step_index: f_step_index,
        token_version: f_token_version,
        issued_at: f_issued_at,
        expires_at: f_expires_at,
        ip_bucket: f_ip_bucket,
        ua_bucket: f_ua_bucket,
        path_class: f_path_class,
        grid_size: f_grid_size,
        transform_count: f_transform_count,
        seed_value: f_seed_value,
        path_prefix: f_path_prefix,
        path_digest: f_path_digest,
        depth: f_depth,
        branch_budget: f_branch_budget,
        entropy_nonce: f_entropy_nonce,
        variant_id: f_variant_id,
        prev_digest: f_prev_digest,
    };
    proof {
        assert(fields_view(v@).len() == 20);
        assert(fields_view(v@)[0] == env_fields(x)[0]);
        assert(fields_view(v@)[1] == env_fields(x)[1]);
        assert(fields_view(v@)[2] == env_fields(x)[2]);
        assert(fields_view(v@)[3] == env_fields(x)[3]);
        assert(fields_view(v@)[4] == env_fields(x)[4]);
        assert(fields_view(v@)[5] == env_fields(x)[5]);
        assert(fields_view(v@)[6] == env_fields(x)[6]);
        assert(fields_view(v@)[7] == env_fields(x)[7]);
        assert(fields_view(v@)[8] == env_fields(x)[8]);
        assert(fields_view(v@)[9] == env_fields(x)[9]);
        assert(fields_view(v@)[10] == env_fields(x)[10]);
        assert(fields_view(v@)[11] == env_fields(x)[11]);
        assert(fields_view(v@)[12] == env_fields(x)[12]);
        assert(fields_view(v@)[13] == env_fields(x)[13]);
        assert(fields_view(v@)[14] == env_fields(x)[14]);
        assert(fields_view(v@)[15] == env_fields(x)[15]);
        assert(fields_view(v@)[16] == env_fields(x)[16]);
        assert(fields_view(v@)[17] == env_fields(x)[17]);
        assert(fields_view(v@)[18] == env_fields(x)[18]);
        assert(fields_view(v@)[19] == env_fields(x)[19]);
        assert(fields_view(v@) =~= env_fields(x));
    }
    Some(x)
}

/// A field list fit for encoding has plain string fields.
pub proof fn lemma_env_fields_plain(x: OperationEnvelope)
    requires
        valid_fields(env_fields(x)),
    ensures
        env_plain(x),
{
    let fs = env_fields(x);
    assert(fs[0].1 == JValV::S(x.operation_id@));
    assert(fs[1].1 == JValV::S(x.flow_id@));
    assert(fs[2].1 == JValV::S(x.step_id@));
    assert(fs[7].1 == JValV::S(x.ip_bucket@));
    assert(fs[8].1 == JValV::S(x.ua_bucket@));
    assert(fs[9].1 == JValV::S(x.path_class@));
    assert(fs[13].1 == JValV::S(x.path_prefix@));
    assert(fs[14].1 == JValV::S(x.path_digest@));
    assert(fs[17].1 == JValV::S(x.entropy_nonce@));
    assert(fs[19].1 == JValV::S(x.prev_digest@));
}

/// The canonical encoding of a OperationEnvelope.
pub open spec fn env_json(x: OperationEnvelope) -> Seq<char> {
    json_of(env_fields(x))
}

/// Render a OperationEnvelope in its canonical form.
pub fn encode_envelope(x: &OperationEnvelope) -> (r: String)
    ensures
        r@ == env_json(*x),
{
    let fs = env_to_fields(x);
    encode_fields(&fs)
}

/// Parse a OperationEnvelope from its canonical form: the encoding of a
/// plain record parses back to a record with the same fields.
pub fn decode_envelope(s: &str) -> (r: Option<OperationEnvelope>)
    ensures
        r matches Some(x) ==> spec_parse_json(s@) == Some(env_fields(x))
            && s@ == env_json(x) && env_plain(x),
        forall|x0: OperationEnvelope| env_plain(x0) && s@ == env_json(x0)
            ==> (r matches Some(x) && env_fields(x) == env_fields(x0)),
{
    let parsed = parse_fields(s);
    match parsed {
        None => {
            proof {
                assert forall|x0: OperationEnvelope| env_plain(x0) && s@ == env_json(x0)
                    implies false by {
                    lemma_env_fields_valid(x0);
                    lemma_json_round_trip(env_fields(x0));
                }
            }
            None
        },
        Some(v) => {
            match env_from_fields(&v) {
                None => {
                    proof {
                        assert forall|x0: OperationEnvelope| env_plain(x0) && s@ == env_json(x0)
                            implies false by {
                            lemma_env_fields_valid(x0);
                            lemma_json_round_trip(env_fields(x0));
                            assert(fields_view(v@) == env_fields(x0));
                        }
                    }
                    None
                },
                Some(x) => {
                    proof {
                        crate::json::lemma_parse_json_sound(s@);
                        lemma_env_fields_plain(x);
                        assert forall|x0: OperationEnvelope| env_plain(x0) && s@ == env_json(x0)
                            implies env_fields(x) == env_fields(x0) by {
                            lemma_env_fields_valid(x0);
                            lemma_json_round_trip(env_fields(x0));
                            assert(fields_view(v@) == env_fields(x0));
                        }
                    }
                    Some(x)
                },
            }
        },
    }
}


/// Two envelopes with the same field list agree on every field view.
pub proof fn lemma_env_fields_agree(a: OperationEnvelope, b: OperationEnvelope)
    requires
        env_fields(a) == env_fields(b),
    ensures
        a.operation_id@ == b.operation_id@,
        a.flow_id@ == b.flow_id@,
        a.step_id@ == b.step_id@,
        a.step_index == b.step_index,
        a.token_version == b.token_version,
        a.issued_at == b.issued_at,
        a.expires_at == b.expires_at,
        a.ip_bucket@ == b.ip_bucket@,
        a.ua_bucket@ == b.ua_bucket@,
        a.path_class@ == b.path_class@,
        a.grid_size == b.grid_size,
        a.transform_count == b.transform_count,
        a.seed_value == b.seed_value,
        a.path_prefix@ == b.path_prefix@,
        a.path_digest@ == b.path_digest@,
        a.depth == b.depth,
        a.branch_budget == b.branch_budget,
        a.entropy_nonce@ == b.entropy_nonce@,
        a.variant_id == b.variant_id,
        a.prev_digest@ == b.prev_digest@,
{
    assert(env_fields(a)[0] == env_fields(b)[0]);
    assert(env_fields(a)[1] == env_fields(b)[1]);
    assert(env_fields(a)[2] == env_fields(b)[2]);
    assert(env_fields(a)[3] == env_fields(b)[3]);
    assert(env_fields(a)[4] == env_fields(b)[4]);
    assert(env_fields(a)[5] == env_fields(b)[5]);
    assert(env_fields(a)[6] == env_fields(b)[6]);
    assert(env_fields(a)[7] == env_fields(b)[7]);
    assert(env_fields(a)[8] == env_fields(b)[8]);
    assert(env_fields(a)[9] == env_fields(b)[9]);
    assert(env_fields(a)[10] == env_fields(b)[10]);
    assert(env_fields(a)[11] == env_fields(b)[11]);
    assert(env_fields(a)[12] == env_fields(b)[12]);
    assert(env_fields(a)[13] == env_fields(b)[13]);
    assert(env_fields(a)[14] == env_fields(b)[14]);
    assert(env_fields(a)[15] == env_fields(b)[15]);
    assert(env_fields(a)[16] == env_fields(b)[16]);
    assert(env_fields(a)[17] == env_fields(b)[17]);
    assert(env_fields(a)[18] == env_fields(b)[18]);
    assert(env_fields(a)[19] == env_fields(b)[19]);
    assert(a.step_index as u64 == b.step_index as u64);
    assert(a.token_version as u64 == b.token_version as u64);
    assert(a.grid_size as u64 == b.grid_size as u64);
    assert(a.transform_count as u64 == b.transform_count as u64);
    assert(a.depth as u64 == b.depth as u64);
    assert(a.branch_budget as u64 == b.branch_budget as u64);
    assert(a.variant_id as u64 == b.variant_id as u64);
}

// ---------------------------------------------------------------------
// The signed wire form.
// ---------------------------------------------------------------------

/// Index of the first dot of `s` at or after `i`, or the length.
pub open spec fn first_dot(s: Seq<char>, i: int) -> int
    decreases s.len() - i,
{
    if i < 0 || i >= s.len() {
        s.len() as int
    } else if s[i] == '.' {
        i
    } else {
        first_dot(s, i + 1)
    }
}

proof fn lemma_first_dot_finds(s: Seq<char>, i: int, q: int)
    requires
        0 <= i <= q <= s.len(),
        q < s.len() ==> s[q] == '.',
        q == s.len() ==> true,
        forall|k: int| i <= k < q ==> s[k] != '.',
    ensures
        q < s.len() ==> first_dot(s, i) == q,
        q == s.len() ==> first_dot(s, i) >= q,
    decreases q - i,
{
    if i < q {
        lemma_first_dot_finds(s, i + 1, q);
    }
}

fn dot_from(s: &str, i: usize) -> (r: usize)
    requires
        i <= s@.len(),
    ensures
        r == first_dot(s@, i as int),
        i <= r <= s@.len(),
        r < s@.len() ==> s@[r as int] == '.',
        forall|k: int| i <= k < r ==> s@[k] != '.',
{
    let len = s.unicode_len();
    let mut k = i;
    while k < len
        invariant
            i <= k <= len,
            len == s@.len(),
            first_dot(s@, i as int) == first_dot(s@, k as int),
            forall|j: int| i <= j < k ==> s@[j] != '.',
        decreases len - k,
    {
        if s.get_char(k) == '.' {
            return k;
        }
        k = k + 1;
    }
    k
}

/// The wire form of a signed payload: the base64 of the payload's UTF-8
/// bytes, a dot, and the base64 of the HMAC-SHA256 tag over those bytes.
pub open spec fn spec_token(secret: Seq<u8>, fs: Seq<JFieldV>) -> Seq<char> {
    b64_of(vstd::utf8::encode_utf8(json_of(fs))) + seq!['.'] + b64_of(
        hmac_sha256_of(secret, vstd::utf8::encode_utf8(json_of(fs))),
    )
}

/// Mint the signed wire form of an envelope.
pub fn make_envelope_token(e: &OperationEnvelope, secret: &str) -> (r: String)
    ensures
        r@ == spec_token(secret.spec_bytes(), env_fields(*e)),
        first_dot(r@, 0) == b64_of(vstd::utf8::encode_utf8(env_json(*e))).len(),
        0 < first_dot(r@, 0),
{
    let json = encode_envelope(e);
    proof {
        lemma_encode_utf8_nonempty(json@);
    }
    let sig = hmac_sha256(secret.as_bytes(), json.as_str().as_bytes());
    let mut out = b64_encode(json.as_str().as_bytes());
    let ghost pay = out@;
    string_push(&mut out, '.');
    let sig_b64 = b64_encode(sig.as_slice());
    out.append(sig_b64.as_str());
    proof {
        assert(out@ =~= spec_token(secret.spec_bytes(), env_fields(*e)));
        assert forall|k: int| 0 <= k < pay.len() implies out@[k] != '.' by {
            assert(out@[k] == pay[k]);
        }
        assert(out@[pay.len() as int] == '.');
        lemma_first_dot_finds(out@, 0, pay.len() as int);
    }
    out
}

/// Why a token failed to parse, or, for a seed token, why the parsed
/// envelope was rejected.
#[derive(Clone, Copy, Debug, PartialEq, Eq, Structural)]
pub enum SeedTokenError {
    MissingPayload,
    MissingSignature,
    InvalidPayloadEncoding,
    InvalidSignatureEncoding,
    InvalidPayloadUtf8,
    SignatureMismatch,
    InvalidPayloadJson,
    InvalidOperationEnvelope(EnvelopeValidationError),
}

/// Parse and authenticate the signed wire form.
///
/// A token minted from a plain envelope under the same secret always
/// parses back to an envelope with the same fields; the second clause
/// is that round trip.
pub fn parse_envelope_token(token: &str, secret: &str) -> (r: Result<
    OperationEnvelope,
    SeedTokenError,
>)
    ensures
        r matches Ok(e) ==> (exists|js: Seq<char>|
            {
                &&& token@ == b64_of(vstd::utf8::encode_utf8(js)) + seq!['.'] + b64_of(
                    hmac_sha256_of(secret.spec_bytes(), vstd::utf8::encode_utf8(js)),
                )
                &&& #[trigger] spec_parse_json(js) == Some(env_fields(e))
            }),
        forall|e0: OperationEnvelope|
            {
                &&& env_plain(e0)
                &&& token@ == spec_token(secret.spec_bytes(), #[trigger] env_fields(e0))
                &&& first_dot(token@, 0) == b64_of(vstd::utf8::encode_utf8(env_json(e0))).len()
                &&& 0 < first_dot(token@, 0)
            } ==> (r matches Ok(e) && env_fields(e) == env_fields(e0)),
        r == Result::<OperationEnvelope, SeedTokenError>::Err(SeedTokenError::MissingSignature)
            <==> first_dot(token@, 0) == token@.len(),
        r == Result::<OperationEnvelope, SeedTokenError>::Err(SeedTokenError::MissingPayload)
            <==> (first_dot(token@, 0) == 0 && token@.len() > 0),
{
    let len = token.unicode_len();
    let dot = dot_from(token, 0);
    let ghost sb = secret.spec_bytes();
    if dot >= len {
        proof {
            assert forall|e0: OperationEnvelope|
                {
                    &&& env_plain(e0)
                    &&& token@ == spec_token(sb, #[trigger] env_fields(e0))
                    &&& first_dot(token@, 0) == b64_of(
                        vstd::utf8::encode_utf8(env_json(e0)),
                    ).len()
                    &&& 0 < first_dot(token@, 0)
                } implies false by {
                assert(token@[first_dot(token@, 0)] == '.');
            }
        }
        return Err(SeedTokenError::MissingSignature);
    }
    if dot == 0 {
        return Err(SeedTokenError::MissingPayload);
    }
    let payload_part = crate::text::str_range(token, 0, dot);
    let sig_part = crate::text::str_range(token, dot + 1, len);
    let ghost pay_chars = token@.subrange(0, dot as int);
    let ghost sig_chars = token@.subrange(dot + 1, len as int);
    let payload_bytes = match b64_decode(payload_part.as_str()) {
        Ok(b) => b,
        Err(_) => {
            proof {
                completeness_absurd_payload(token@, sb, dot as int);
            }
            return Err(SeedTokenError::InvalidPayloadEncoding);
        },
    };
    let sig_bytes = match b64_decode(sig_part.as_str()) {
        Ok(b) => b,
        Err(_) => {
            proof {
                completeness_absurd_sig(token@, sb, dot as int);
            }
            return Err(SeedTokenError::InvalidSignatureEncoding);
        },
    };
    let ghost pay_bytes = payload_bytes@;
    let json = match string_from_utf8(payload_bytes) {
        Ok(s) => s,
        Err(_) => {
            proof {
                assert forall|e0: OperationEnvelope|
                    {
                        &&& env_plain(e0)
                        &&& token@ == spec_token(sb, #[trigger] env_fields(e0))
                        &&& first_dot(token@, 0) == b64_of(
                            vstd::utf8::encode_utf8(env_json(e0)),
                        ).len()
                        &&& 0 < first_dot(token@, 0)
                    } implies false by {
                    split_token(token@, sb, env_fields(e0), dot as int);
                    assert(pay_chars == b64_of(vstd::utf8::encode_utf8(env_json(e0))));
                    assert(pay_bytes == vstd::utf8::encode_utf8(env_json(e0)));
                }
            }
            return Err(SeedTokenError::InvalidPayloadUtf8);
        },
    };
    if !hmac_verify(secret.as_bytes(), json.as_str().as_bytes(), sig_bytes.as_slice()) {
        proof {
            assert forall|e0: OperationEnvelope|
                {
                    &&& env_plain(e0)
                    &&& token@ == spec_token(sb, #[trigger] env_fields(e0))
                    &&& first_dot(token@, 0) == b64_of(
                        vstd::utf8::encode_utf8(env_json(e0)),
                    ).len()
                    &&& 0 < first_dot(token@, 0)
                } implies false by {
                split_token(token@, sb, env_fields(e0), dot as int);
                assert(pay_chars == b64_of(vstd::utf8::encode_utf8(env_json(e0))));
                assert(pay_bytes == vstd::utf8::encode_utf8(env_json(e0)));
                assert(json@ == env_json(e0));
                assert(sig_chars == b64_of(
                    hmac_sha256_of(sb, vstd::utf8::encode_utf8(env_json(e0))),
                ));
                assert(sig_bytes@ == hmac_sha256_of(sb, vstd::utf8::encode_utf8(env_json(e0))));
            }
        }
        return Err(SeedTokenError::SignatureMismatch);
    }
    match decode_envelope(json.as_str()) {
        Some(e) => {
            proof {
                assert forall|e0: OperationEnvelope|
                    {
                        &&& env_plain(e0)
                        &&& token@ == spec_token(sb, #[trigger] env_fields(e0))
                        &&& first_dot(token@, 0) == b64_of(
                            vstd::utf8::encode_utf8(env_json(e0)),
                        ).len()
                        &&& 0 < first_dot(token@, 0)
                    } implies env_fields(e) == env_fields(e0) by {
                    split_token(token@, sb, env_fields(e0), dot as int);
                    assert(pay_chars == b64_of(vstd::utf8::encode_utf8(env_json(e0))));
                    assert(pay_bytes == vstd::utf8::encode_utf8(env_json(e0)));
                    assert(json@ == env_json(e0));
                    lemma_env_fields_valid(e0);
                    lemma_json_round_trip(env_fields(e0));
                }
                assert(token@ =~= pay_chars + seq!['.'] + sig_chars);
            }
            Ok(e)
        },
        None => {
            proof {
                assert forall|e0: OperationEnvelope|
                    {
                        &&& env_plain(e0)
                        &&& token@ == spec_token(sb, #[trigger] env_fields(e0))
                        &&& first_dot(token@, 0) == b64_of(
                            vstd::utf8::encode_utf8(env_json(e0)),
                        ).len()
                        &&& 0 < first_dot(token@, 0)
                    } implies false by {
                    split_token(token@, sb, env_fields(e0), dot as int);
                    assert(pay_chars == b64_of(vstd::utf8::encode_utf8(env_json(e0))));
                    assert(pay_bytes == vstd::utf8::encode_utf8(env_json(e0)));
                    assert(json@ == env_json(e0));
                    lemma_env_fields_valid(e0);
                    lemma_json_round_trip(env_fields(e0));
                }
            }
            Err(SeedTokenError::InvalidPayloadJson)
        },
    }
}

/// A non-empty character sequence has a non-empty UTF-8 encoding.
proof fn lemma_encode_utf8_nonempty(cs: Seq<char>)
    requires
        cs.len() > 0,
    ensures
        vstd::utf8::encode_utf8(cs).len() > 0,
{
    assert(vstd::utf8::encode_utf8(cs) == vstd::utf8::encode_scalar(cs[0] as u32)
        + vstd::utf8::encode_utf8(cs.drop_first()));
    assert(vstd::utf8::encode_scalar(cs[0] as u32).len() > 0);
}

/// Under the split hypothesis, the payload and signature parts of the
/// token are the two base64 pieces of `spec_token`.
proof fn split_token(t: Seq<char>, sb: Seq<u8>, fs: Seq<JFieldV>, dot: int)
    requires
        t == spec_token(sb, fs),
        first_dot(t, 0) == b64_of(vstd::utf8::encode_utf8(json_of(fs))).len(),
        dot == first_dot(t, 0),
    ensures
        0 <= dot < t.len(),
        t.subrange(0, dot) == b64_of(vstd::utf8::encode_utf8(json_of(fs))),
        t.subrange(dot + 1, t.len() as int) == b64_of(
            hmac_sha256_of(sb, vstd::utf8::encode_utf8(json_of(fs))),
        ),
{
    let a = b64_of(vstd::utf8::encode_utf8(json_of(fs)));
    let b = b64_of(hmac_sha256_of(sb, vstd::utf8::encode_utf8(json_of(fs))));
    assert(t.len() == a.len() + 1 + b.len());
    assert(t.subrange(0, dot) =~= a);
    assert(t.subrange(dot + 1, t.len() as int) =~= b);
}

proof fn completeness_absurd_payload(t: Seq<char>, sb: Seq<u8>, dot: int)
    requires
        dot == first_dot(t, 0),
        0 < dot < t.len(),
        forall|x: Seq<u8>| t.subrange(0, dot) != #[trigger] b64_of(x),
    ensures
        forall|e0: OperationEnvelope|
            !{
                &&& env_plain(e0)
                &&& t == spec_token(sb, #[trigger] env_fields(e0))
                &&& first_dot(t, 0) == b64_of(vstd::utf8::encode_utf8(env_json(e0))).len()
                &&& 0 < first_dot(t, 0)
            },
{
    assert forall|e0: OperationEnvelope|
        {
            &&& env_plain(e0)
            &&& t == spec_token(sb, #[trigger] env_fields(e0))
            &&& first_dot(t, 0) == b64_of(vstd::utf8::encode_utf8(env_json(e0))).len()
            &&& 0 < first_dot(t, 0)
        } implies false by {
        split_token(t, sb, env_fields(e0), dot);
    }
}

proof fn completeness_absurd_sig(t: Seq<char>, sb: Seq<u8>, dot: int)
    requires
        dot == first_dot(t, 0),
        0 < dot < t.len(),
        forall|x: Seq<u8>| t.subrange(dot + 1, t.len() as int) != #[trigger] b64_of(x),
    ensures
        forall|e0: OperationEnvelope|
            !{
                &&& env_plain(e0)
                &&& t == spec_token(sb, #[trigger] env_fields(e0))
                &&& first_dot(t, 0) == b64_of(vstd::utf8::encode_utf8(env_json(e0))).len()
                &&& 0 < first_dot(t, 0)
            },
{
    assert forall|e0: OperationEnvelope|
        {
            &&& env_plain(e0)
            &&& t == spec_token(sb, #[trigger] env_fields(e0))
            &&& first_dot(t, 0) == b64_of(vstd::utf8::encode_utf8(env_json(e0))).len()
            &&& 0 < first_dot(t, 0)
        } implies false by {
        split_token(t, sb, env_fields(e0), dot);
    }
}


// ---------------------------------------------------------------------
// Step-agnostic envelope validation.
// ---------------------------------------------------------------------

/// Why a parsed envelope was rejected before any step logic ran.
#[derive(Clone, Copy, Debug, PartialEq, Eq, Structural)]
pub enum EnvelopeValidationError {
    UnsupportedVersion,
    MissingOperationId,
    MissingFlowId,
    MissingStepId,
    InvalidLifetime,
    LifetimeTooLong,
}

/// The step-agnostic validation decision.
pub open spec fn spec_validate_signed(e: OperationEnvelope, max_window: u64) -> Result<
    (),
    EnvelopeValidationError,
> {
    if e.token_version != TOKEN_VERSION {
        Err(EnvelopeValidationError::UnsupportedVersion)
    } else if e.operation_id@.len() == 0 {
        Err(EnvelopeValidationError::MissingOperationId)
    } else if e.flow_id@.len() == 0 {
        Err(EnvelopeValidationError::MissingFlowId)
    } else if e.step_id@.len() == 0 {
        Err(EnvelopeValidationError::MissingStepId)
    } else if e.issued_at > e.expires_at {
        Err(EnvelopeValidationError::InvalidLifetime)
    } else if e.expires_at - e.issued_at > max_window {
        Err(EnvelopeValidationError::LifetimeTooLong)
    } else {
        Ok(())
    }
}

/// Check the schema version, the identity fields and the lifetime.
pub fn validate_signed_operation_envelope(e: &OperationEnvelope, max_window: u64) -> (r: Result<
    (),
    EnvelopeValidationError,
>)
    ensures
        r == spec_validate_signed(*e, max_window),
{
    if e.token_version != TOKEN_VERSION {
        Err(EnvelopeValidationError::UnsupportedVersion)
    } else if e.operation_id.as_str().unicode_len() == 0 {
        Err(EnvelopeValidationError::MissingOperationId)
    } else if e.flow_id.as_str().unicode_len() == 0 {
        Err(EnvelopeValidationError::MissingFlowId)
    } else if e.step_id.as_str().unicode_len() == 0 {
        Err(EnvelopeValidationError::MissingStepId)
    } else if e.issued_at > e.expires_at {
        Err(EnvelopeValidationError::InvalidLifetime)
    } else if e.expires_at - e.issued_at > max_window {
        Err(EnvelopeValidationError::LifetimeTooLong)
    } else {
        Ok(())
    }
}

// ---------------------------------------------------------------------
// Ordering-window validation.
// ---------------------------------------------------------------------

/// Why a step was rejected by the ordering check.
#[derive(Clone, Copy, Debug, PartialEq, Eq, Structural)]
pub enum OrderingValidationError {
    OrderViolation,
    WindowExceeded,
}

/// The ordering decision: the envelope must declare the expected flow,
/// step and index, and must not be older than the step window.
pub open spec fn spec_validate_ordering(
    flow_id: Seq<char>,
    step_id: Seq<char>,
    step_index: u32,
    issued_at: u64,
    now: u64,
    expected_flow: Seq<char>,
    expected_step: Seq<char>,
    expected_index: u32,
    max_window: u64,
) -> Result<(), OrderingValidationError> {
    if flow_id != expected_flow || step_id != expected_step || step_index != expected_index {
        Err(OrderingValidationError::OrderViolation)
    } else if now > issued_at && now - issued_at > max_window {
        Err(OrderingValidationError::WindowExceeded)
    } else {
        Ok(())
    }
}

/// Check the expected step for the declared flow, its index, and how
/// long ago the envelope was issued.
pub fn validate_ordering_window(
    flow_id: &str,
    step_id: &str,
    step_index: u32,
    issued_at: u64,
    now: u64,
    expected_flow: &str,
    expected_step: &str,
    expected_index: u32,
    max_window: u64,
) -> (r: Result<(), OrderingValidationError>)
    ensures
        r == spec_validate_ordering(
            flow_id@,
            step_id@,
            step_index,
            issued_at,
            now,
            expected_flow@,
            expected_step@,
            expected_index,
            max_window,
        ),
{
    if !str_eq(flow_id, expected_flow) || !str_eq(step_id, expected_step) || step_index
        != expected_index {
        Err(OrderingValidationError::OrderViolation)
    } else if now > issued_at && now - issued_at > max_window {
        Err(OrderingValidationError::WindowExceeded)
    } else {
        Ok(())
    }
}

// ---------------------------------------------------------------------
// Request-binding validation.
// ---------------------------------------------------------------------

/// Whether mint-time binding descriptors equal the present derivations.
pub open spec fn binding_matches(
    seed_ip_bucket: Seq<char>,
    seed_ua_bucket: Seq<char>,
    seed_path_class: Seq<char>,
    ip: Seq<char>,
    ua: Seq<char>,
    expected_path_class: Seq<char>,
) -> bool {
    &&& seed_ip_bucket == crate::buckets::ip_bucket_of(ip)
    &&& seed_ua_bucket == crate::buckets::ua_bucket_of(ua)
    &&& seed_path_class == expected_path_class
}

/// Check that the envelope is presented from the context it was minted
/// for: same IP bucket, same user-agent bucket, same path class.
pub fn validate_request_binding(
    seed_ip_bucket: &str,
    seed_ua_bucket: &str,
    seed_path_class: &str,
    ip: &str,
    ua: &str,
    expected_path_class: &str,
) -> (r: Result<(), ()>)
    ensures
        r is Ok <==> binding_matches(
            seed_ip_bucket@,
            seed_ua_bucket@,
            seed_path_class@,
            ip@,
            ua@,
            expected_path_class@,
        ),
{
    let ipb = crate::buckets::bucket_ip(ip);
    let uab = crate::buckets::ua_bucket(ua);
    if str_eq(seed_ip_bucket, ipb.as_str()) && str_eq(seed_ua_bucket, uab.as_str()) && str_eq(
        seed_path_class,
        expected_path_class,
    ) {
        Ok(())
    } else {
        Err(())
    }
}

// ---------------------------------------------------------------------
// Replay validation.
// ---------------------------------------------------------------------

/// Why a presentation was rejected by the replay check.
#[derive(Clone, Copy, Debug, PartialEq, Eq, Structural)]
pub enum ReplayValidationError {
    ReplayDetected,
    ExpiredOperation,
}

/// The single-use marker key for one `(flow, operation)` pair.
pub open spec fn replay_key_of(flow: Seq<char>, op: Seq<char>) -> Seq<char> {
    "maze:token:seen:"@ + flow + ":"@ + op
}

/// Build the single-use marker key.
pub fn token_replay_key(flow_id: &str, operation_id: &str) -> (r: String)
    ensures
        r@ == replay_key_of(flow_id@, operation_id@),
{
    let mut out = "maze:token:seen:".to_owned();
    out.append(flow_id);
    out.append(":");
    out.append(operation_id);
    assert(out@ =~= replay_key_of(flow_id@, operation_id@));
    out
}

/// Whether the store holds an unexpired single-use marker under `key`.
pub open spec fn replay_marker_fresh(m: crate::kv::KvMap, key: Seq<char>, now: u64) -> bool {
    m.contains_key(key) && (crate::text::spec_parse_u64_bytes(m[key]) matches Some(until)
        && now <= until)
}

/// The replay decision over the store contents: expiry is checked first,
/// then the single-use marker; at `now == expires_at` the envelope is
/// still accepted, one second later it is expired.
pub open spec fn spec_replay_decision(
    m: crate::kv::KvMap,
    key: Seq<char>,
    now: u64,
    expires_at: u64,
) -> Result<(), ReplayValidationError> {
    if now > expires_at {
        Err(ReplayValidationError::ExpiredOperation)
    } else if replay_marker_fresh(m, key, now) {
        Err(ReplayValidationError::ReplayDetected)
    } else {
        Ok(())
    }
}

/// The marker value written on success.
pub open spec fn replay_marker_until(now: u64, expires_at: u64, replay_ttl: u64) -> u64 {
    if expires_at < now + replay_ttl {
        expires_at
    } else {
        (now + replay_ttl) as u64
    }
}

/// Record this presentation and reject a second one: set the marker to
/// `min(expires_at, now + replay_ttl)`; a marker already fresh means a
/// replay. On a reliable store the decision is exact; on one that fails
/// to answer, a reported rejection is always genuine and a missed write
/// only shortens the replay window.
pub fn validate_operation_replay<S: KeyValueStore>(
    store: &mut S,
    flow_id: &str,
    operation_id: &str,
    now: u64,
    expires_at: u64,
    replay_ttl: u64,
) -> (r: Result<(), ReplayValidationError>)
    requires
        old(store).inv(),
        now + replay_ttl <= u64::MAX,
    ensures
        final(store).inv(),
        final(store).reliable() == old(store).reliable(),
        r == Err::<(), ReplayValidationError>(ReplayValidationError::ExpiredOperation) <==> now
            > expires_at,
        r == Err::<(), ReplayValidationError>(ReplayValidationError::ReplayDetected)
            ==> replay_marker_fresh(
            old(store).kv(),
            replay_key_of(flow_id@, operation_id@),
            now,
        ),
        old(store).reliable() ==> r == spec_replay_decision(
            old(store).kv(),
            replay_key_of(flow_id@, operation_id@),
            now,
            expires_at,
        ),
        r is Ok ==> final(store).kv() == old(store).kv().insert(
            replay_key_of(flow_id@, operation_id@),
            crate::text::dec_bytes_of(replay_marker_until(now, expires_at, replay_ttl) as nat),
        ) || final(store).kv() == old(store).kv(),
        old(store).reliable() && r is Ok ==> final(store).kv() == old(store).kv().insert(
            replay_key_of(flow_id@, operation_id@),
            crate::text::dec_bytes_of(replay_marker_until(now, expires_at, replay_ttl) as nat),
        ),
        r is Err ==> final(store).kv() == old(store).kv(),
{
    if now > expires_at {
        return Err(ReplayValidationError::ExpiredOperation);
    }
    let key = token_replay_key(flow_id, operation_id);
    let existing = match store.get(key.as_str()) {
        Ok(v) => v,
        Err(_) => None,
    };
    match existing {
        Some(raw) => {
            match crate::text::parse_u64_bytes(raw.as_slice()) {
                Some(until) => {
                    if now <= until {
                        return Err(ReplayValidationError::ReplayDetected);
                    }
                },
                None => {},
            }
        },
        None => {},
    }
    let until = if expires_at < now + replay_ttl {
        expires_at
    } else {
        now + replay_ttl
    };
    let marker = crate::text::u64_to_dec_bytes(until);
    let outcome = store.set(key.as_str(), marker.as_slice());
    proof {
        if outcome is Err {
            assert(final(store).kv() == old(store).kv());
        }
    }
    Ok(())
}

// ---------------------------------------------------------------------
// The laws the validators obey together.
// ---------------------------------------------------------------------

/// A token presented twice within the replay window is rejected the
/// second time: after the marker write of a first accepted presentation,
/// any later presentation up to the marker's expiry sees a fresh marker,
/// so its replay decision is `ReplayDetected`.
pub proof fn lemma_second_presentation_rejected(
    m: crate::kv::KvMap,
    key: Seq<char>,
    now1: u64,
    now2: u64,
    expires_at: u64,
    replay_ttl: u64,
)
    requires
        now1 <= expires_at,
        now1 + replay_ttl <= u64::MAX,
        now2 <= replay_marker_until(now1, expires_at, replay_ttl),
    ensures
        spec_replay_decision(
            m.insert(key, crate::text::dec_bytes_of(
                replay_marker_until(now1, expires_at, replay_ttl) as nat,
            )),
            key,
            now2,
            expires_at,
        ) == Err::<(), ReplayValidationError>(ReplayValidationError::ReplayDetected),
{
    let until = replay_marker_until(now1, expires_at, replay_ttl);
    let m2 = m.insert(key, crate::text::dec_bytes_of(until as nat));
    crate::text::lemma_dec_bytes_round_trip(until as nat);
    assert(m2[key] == crate::text::dec_bytes_of(until as nat));
    assert(replay_marker_fresh(m2, key, now2));
    assert(now2 <= until <= expires_at);
}

/// A freshly minted, correctly bound envelope presented inside its
/// lifetime passes the signed-envelope, ordering and binding checks, and
/// its replay decision is a success exactly when no fresh single-use
/// marker is recorded for it.
pub proof fn lemma_fresh_envelope_accepted(
    e: OperationEnvelope,
    m: crate::kv::KvMap,
    now: u64,
    ip: Seq<char>,
    ua: Seq<char>,
    expected_flow: Seq<char>,
    expected_step: Seq<char>,
    expected_index: u32,
    expected_path_class: Seq<char>,
    max_window: u64,
)
    requires
        e.token_version == TOKEN_VERSION,
        e.operation_id@.len() > 0,
        e.flow_id@.len() > 0,
        e.step_id@.len() > 0,
        e.issued_at <= e.expires_at,
        e.expires_at - e.issued_at <= max_window,
        e.flow_id@ == expected_flow,
        e.step_id@ == expected_step,
        e.step_index == expected_index,
        e.issued_at <= now <= e.expires_at,
        e.ip_bucket@ == crate::buckets::ip_bucket_of(ip),
        e.ua_bucket@ == crate::buckets::ua_bucket_of(ua),
        e.path_class@ == expected_path_class,
    ensures
        spec_validate_signed(e, max_window) == Ok::<(), EnvelopeValidationError>(()),
        spec_validate_ordering(
            e.flow_id@,
            e.step_id@,
            e.step_index,
            e.issued_at,
            now,
            expected_flow,
            expected_step,
            expected_index,
            max_window,
        ) == Ok::<(), OrderingValidationError>(()),
        binding_matches(e.ip_bucket@, e.ua_bucket@, e.path_class@, ip, ua, expected_path_class),
        spec_replay_decision(
            m,
            replay_key_of(e.flow_id@, e.operation_id@),
            now,
            e.expires_at,
        ) == if replay_marker_fresh(m, replay_key_of(e.flow_id@, e.operation_id@), now) {
            Err::<(), ReplayValidationError>(ReplayValidationError::ReplayDetected)
        } else {
            Ok::<(), ReplayValidationError>(())
        },
{
}

} // verus!
