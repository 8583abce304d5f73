//! The puzzle challenge: seeded deterministic grids behind signed
//! operation envelopes, and the submission protocol with its attempt
//! cap, ordering, binding, timing and replay checks.

use vstd::prelude::*;

use crate::envelope::{
    spec_validate_ordering, spec_validate_signed, validate_operation_replay,
    validate_ordering_window, validate_request_binding, validate_signed_operation_envelope,
    EnvelopeValidationError, OperationEnvelope, OrderingValidationError, ReplayValidationError,
    SeedTokenError, TOKEN_VERSION,
};
use crate::json::{
    encode_fields, fields_view, json_of, lemma_json_round_trip, lemma_parse_json_sound,
    parse_fields, plain_char, plain_str, spec_parse_json, valid_fields, JFieldV, JVal, JValV,
};
use crate::kv::KeyValueStore;
use crate::text::{str_eq, string_push};
use vstd::string::StringSliceAdditionalSpecFns;

verus! {

/// The puzzle flow identifier.
pub const FLOW_CHALLENGE_PUZZLE: &'static str = "challenge_puzzle";

/// The puzzle submission step identifier.
pub const STEP_CHALLENGE_PUZZLE_SUBMIT: &'static str = "challenge_puzzle_submit";

/// The puzzle submission step index.
pub const STEP_INDEX_CHALLENGE_PUZZLE_SUBMIT: u32 = 2;

/// The puzzle submission path class.
pub const PATH_CLASS_CHALLENGE_PUZZLE_SUBMIT: &'static str = "challenge_puzzle_submit";

/// The widest envelope lifetime the puzzle flow accepts.
pub const MAX_STEP_WINDOW_SECONDS_CHALLENGE_PUZZLE: u64 = 180;

/// The fastest plausible human solve.
pub const MIN_STEP_LATENCY_SECONDS_CHALLENGE_PUZZLE: u64 = 2;

/// The slowest accepted solve.
pub const MAX_STEP_LATENCY_SECONDS_CHALLENGE_PUZZLE: u64 = 120;

/// The oldest accepted flow.
pub const MAX_FLOW_AGE_SECONDS_CHALLENGE_PUZZLE: u64 = 600;

/// How many recent latencies the regularity test inspects.
pub const TIMING_REGULARITY_WINDOW_CHALLENGE_PUZZLE: u32 = 5;

/// The spread below which latencies count as machine-regular.
pub const TIMING_REGULARITY_SPREAD_SECONDS_CHALLENGE_PUZZLE: u64 = 2;

/// How long timing history is kept.
pub const TIMING_HISTORY_TTL_SECONDS_CHALLENGE_PUZZLE: u64 = 900;

/// How long a consumed operation id blocks replays.
pub const MAX_OPERATION_REPLAY_TTL_SECONDS_CHALLENGE_PUZZLE: u64 = 600;

/// How one puzzle submission ended.
#[derive(Clone, Copy, Debug, PartialEq, Eq, Structural)]
pub enum ChallengeSubmitOutcome {
    Solved,
    Incorrect,
    AttemptLimitExceeded,
    SequenceOpMissing,
    SequenceOpInvalid,
    SequenceOpExpired,
    SequenceOpReplay,
    SequenceWindowExceeded,
    SequenceOrderViolation,
    SequenceBindingMismatch,
    SequenceTimingTooFast,
    SequenceTimingTooRegular,
    SequenceTimingTooSlow,
    Forbidden,
    InvalidOutput,
}

/// AttemptState record carried through the canonical JSON codec.
#[derive(Clone)]
pub struct AttemptState {
    pub window_start: u64,
    pub count: u32,
}

/// The field list that encodes a AttemptState.
pub open spec fn attempt_state_fields(x: AttemptState) -> Seq<JFieldV> {
    seq![
        ("window_start"@, JValV::N(x.window_start as u64)),
        ("count"@, JValV::N(x.count as u64)),
    ]
}

/// Fitness of the record's string fields for the codec: this record
/// carries no string field, so every value is trivially fit.
pub open spec fn attempt_state_plain(x: AttemptState) -> bool {
    true
}

proof fn lemma_attempt_state_keys_plain()
    ensures
        plain_str("window_start"@),
        plain_str("count"@),
{
    reveal_strlit("window_start");
    assert(("window_start"@).len() == 12);
    assert forall|i: int| 0 <= i < ("window_start"@).len() implies plain_char(("window_start"@)[i]) by {
        let s = "window_start"@;
        assert(plain_char(s[0]));
        assert(plain_char(s[1]));
        assert(plain_char(s[2]));
        assert(plain_char(s[3]));
        assert(plain_char(s[4]));
        assert(plain_char(s[5]));
        assert(plain_char(s[6]));
        assert(plain_char(s[7]));
        assert(plain_char(s[8]));
        assert(plain_char(s[9]));
        assert(plain_char(s[10]));
        assert(plain_char(s[11]));
    }
    reveal_strlit("count");
    assert(("count"@).len() == 5);
    assert forall|i: int| 0 <= i < ("count"@).len() implies plain_char(("count"@)[i]) by {
        let s = "count"@;
        assert(plain_char(s[0]));
        assert(plain_char(s[1]));
        assert(plain_char(s[2]));
        assert(plain_char(s[3]));
        assert(plain_char(s[4]));
    }
}

/// A plain AttemptState yields a field list fit for encoding.
pub proof fn lemma_attempt_state_fields_valid(x: AttemptState)
    requires
        attempt_state_plain(x),
    ensures
        valid_fields(attempt_state_fields(x)),
{
    lemma_attempt_state_keys_plain();
    let fs = attempt_state_fields(x);
    assert forall|i: int| 0 <= i < fs.len() implies {
        &&& plain_str((#[trigger] fs[i]).0)
        &&& (fs[i].1 matches JValV::S(v) ==> plain_str(v))
    } by {
        if i == 0 {
            assert(fs[0].0 == "window_start"@);
        } else if i == 1 {
            assert(fs[1].0 == "count"@);
        }
    }
}

/// Lay a AttemptState out as its field list.
pub fn attempt_state_to_fields(x: &AttemptState) -> (r: Vec<(String, JVal)>)
    ensures
        fields_view(r@) == attempt_state_fields(*x),
{
    let mut v: Vec<(String, JVal)> = Vec::new();
    v.push(("window_start".to_owned(), JVal::N(x.window_start as u64)));
    v.push(("count".to_owned(), JVal::N(x.count as u64)));
    proof {
        assert(fields_view(v@).len() == 2);
        assert(fields_view(v@)[0] == attempt_state_fields(*x)[0]);
        assert(fields_view(v@)[1] == attempt_state_fields(*x)[1]);
        assert(fields_view(v@) =~= attempt_state_fields(*x));
    }
    v
}

/// Read a AttemptState back from a parsed field list; the list must
/// carry exactly the expected keys, kinds and ranges.
pub fn attempt_state_from_fields(v: &Vec<(String, JVal)>) -> (r: Option<AttemptState>)
    ensures
        r matches Some(x) ==> fields_view(v@) == attempt_state_fields(x),
        r is None ==> (forall|x: AttemptState| fields_view(v@) != #[trigger] attempt_state_fields(x)),
{
    if v.len() != 2 {
        proof {
            assert forall|x: AttemptState| fields_view(v@) != #[trigger] attempt_state_fields(x) by {
                assert(attempt_state_fields(x).len() == 2);
            }
        }
        return None;
    }
    if !str_eq(v[0].0.as_str(), "window_start") {
        proof {
            assert forall|x: AttemptState| fields_view(v@) != #[trigger] attempt_state_fields(x) by {
                if fields_view(v@) == attempt_state_fields(x) {
                    assert(fields_view(v@)[0] == attempt_state_fields(x)[0]);
                    assert(false);
                }
            }
        }
        return None;
    }
    let n_window_start: u64 = match &v[0].1 {
        JVal::N(n) => *n,
        JVal::S(s) => {
        proof {
            assert forall|x: AttemptState| fields_view(v@) != #[trigger] attempt_state_fields(x) by {
                if fields_view(v@) == attempt_state_fields(x) {
                    assert(fields_view(v@)[0] == attempt_state_fields(x)[0]);
                    assert(false);
                }
            }
        }
        return None;
        },
    };
    let f_window_start: u64 = n_window_start;
    if !str_eq(v[1].0.as_str(), "count") {
        proof {
            assert forall|x: AttemptState| fields_view(v@) != #[trigger] attempt_state_fields(x) by {
                if fields_view(v@) == attempt_state_fields(x) {
                    assert(fields_view(v@)[1] == attempt_state_fields(x)[1]);
                    assert(false);
                }
            }
        }
        return None;
    }
    let n_count: u64 = match &v[1].1 {
        JVal::N(n) => *n,
        JVal::S(s) => {
        proof {
            assert forall|x: AttemptState| fields_view(v@) != #[trigger] attempt_state_fields(x) by {
                if fields_view(v@) == attempt_state_fields(x) {
                    assert(fields_view(v@)[1] == attempt_state_fields(x)[1]);
                    assert(false);
                }
            }
        }
        return None;
        },
    };
    if n_count > 0xffff_ffffu64 {
        proof {
            assert forall|x: AttemptState| fields_view(v@) != #[trigger] attempt_state_fields(x) by {
                if fields_view(v@) == attempt_state_fields(x) {
                    assert(fields_view(v@)[1] == attempt_state_fields(x)[1]);
                    assert(false);
                }
            }
        }
        return None;
    }
    let f_count: u32 = n_count as u32;
    let x = AttemptState {
        window_start: f_window_start,
        count: f_count,
    };
    proof {
        assert(fields_view(v@).len() == 2);
        assert(fields_view(v@)[0] == attempt_state_fields(x)[0]);
        assert(fields_view(v@)[1] == attempt_state_fields(x)[1]);
        assert(fields_view(v@) =~= attempt_state_fields(x));
    }
    Some(x)
}

/// A field list fit for encoding has plain string fields.
pub proof fn lemma_attempt_state_fields_plain(x: AttemptState)
    requires
        valid_fields(attempt_state_fields(x)),
    ensures
        attempt_state_plain(x),
{
    let fs = attempt_state_fields(x);
}

/// The canonical encoding of a AttemptState.
pub open spec fn attempt_state_json(x: AttemptState) -> Seq<char> {
    json_of(attempt_state_fields(x))
}

/// Render a AttemptState in its canonical form.
pub fn encode_attempt_state(x: &AttemptState) -> (r: String)
    ensures
        r@ == attempt_state_json(*x),
{
    let fs = attempt_state_to_fields(x);
    encode_fields(&fs)
}

/// Parse a AttemptState from its canonical form: the encoding of a
/// plain record parses back to a record with the same fields.
pub fn decode_attempt_state(s: &str) -> (r: Option<AttemptState>)
    ensures
        r matches Some(x) ==> spec_parse_json(s@) == Some(attempt_state_fields(x))
            && s@ == attempt_state_json(x) && attempt_state_plain(x),
        forall|x0: AttemptState| attempt_state_plain(x0) && s@ == attempt_state_json(x0)
            ==> (r matches Some(x) && attempt_state_fields(x) == attempt_state_fields(x0)),
{
    let parsed = parse_fields(s);
    match parsed {
        None => {
            proof {
                assert forall|x0: AttemptState| attempt_state_plain(x0) && s@ == attempt_state_json(x0)
                    implies false by {
                    lemma_attempt_state_fields_valid(x0);
                    lemma_json_round_trip(attempt_state_fields(x0));
                }
            }
            None
        },
        Some(v) => {
            match attempt_state_from_fields(&v) {
                None => {
                    proof {
                        assert forall|x0: AttemptState| attempt_state_plain(x0) && s@ == attempt_state_json(x0)
                            implies false by {
                            lemma_attempt_state_fields_valid(x0);
                            lemma_json_round_trip(attempt_state_fields(x0));
                            assert(fields_view(v@) == attempt_state_fields(x0));
                        }
                    }
                    None
                },
                Some(x) => {
                    proof {
                        lemma_parse_json_sound(s@);
                        lemma_attempt_state_fields_plain(x);
                        assert forall|x0: AttemptState| attempt_state_plain(x0) && s@ == attempt_state_json(x0)
                            implies attempt_state_fields(x) == attempt_state_fields(x0) by {
                            lemma_attempt_state_fields_valid(x0);
                            lemma_json_round_trip(attempt_state_fields(x0));
                            assert(fields_view(v@) == attempt_state_fields(x0));
                        }
                    }
                    Some(x)
                },
            }
        },
    }
}

/// The stored byte form of a AttemptState.
pub open spec fn attempt_state_bytes(x: AttemptState) -> Seq<u8> {
    vstd::utf8::encode_utf8(attempt_state_json(x))
}

/// Render a AttemptState as its stored bytes.
pub fn encode_attempt_state_bytes(x: &AttemptState) -> (r: Vec<u8>)
    ensures
        r@ == attempt_state_bytes(*x),
{
    let s = encode_attempt_state(x);
    let b = s.as_str().as_bytes();
    vstd::slice::slice_to_vec(b)
}

/// Parse a AttemptState from stored bytes; the bytes written by
/// the encoder always parse back to the same fields.
pub fn decode_attempt_state_bytes(v: &[u8]) -> (r: Option<AttemptState>)
    ensures
        r matches Some(x) ==> v@ == attempt_state_bytes(x) && attempt_state_plain(x),
        forall|x0: AttemptState| attempt_state_plain(x0) && v@ == #[trigger] attempt_state_bytes(x0)
            ==> (r matches Some(x) && attempt_state_fields(x) == attempt_state_fields(x0)),
{
    let owned = vstd::slice::slice_to_vec(v);
    let s = match crate::crypto::string_from_utf8(owned) {
        Ok(s) => s,
        Err(_) => {
            return None;
        },
    };
    match decode_attempt_state(s.as_str()) {
        Some(x) => {
            proof {
                assert forall|x0: AttemptState| attempt_state_plain(x0) && v@ == #[trigger] attempt_state_bytes(x0)
                    implies attempt_state_fields(x) == attempt_state_fields(x0) by {
                    assert(s@ == attempt_state_json(x0));
                }
            }
            Some(x)
        },
        None => {
            proof {
                assert forall|x0: AttemptState| attempt_state_plain(x0) && v@ == #[trigger] attempt_state_bytes(x0)
                    implies false by {
                    assert(s@ == attempt_state_json(x0));
                }
            }
            None
        },
    }
}
/// TimingState record carried through the canonical JSON codec.
#[derive(Clone)]
pub struct TimingState {
    pub first_ts: u64,
    pub count: u32,
    pub min_delta: u64,
    pub max_delta: u64,
}

/// The field list that encodes a TimingState.
pub open spec fn timing_state_fields(x: TimingState) -> Seq<JFieldV> {
    seq![
        ("first_ts"@, JValV::N(x.first_ts as u64)),
        ("count"@, JValV::N(x.count as u64)),
        ("min_delta"@, JValV::N(x.min_delta as u64)),
        ("max_delta"@, JValV::N(x.max_delta as u64)),
    ]
}

/// Fitness of the record's string fields for the codec: this record
/// carries no string field, so every value is trivially fit.
pub open spec fn timing_state_plain(x: TimingState) -> bool {
    true
}

proof fn lemma_timing_state_keys_plain()
    ensures
        plain_str("first_ts"@),
        plain_str("count"@),
        plain_str("min_delta"@),
        plain_str("max_delta"@),
{
    reveal_strlit("first_ts");
    assert(("first_ts"@).len() == 8);
    assert forall|i: int| 0 <= i < ("first_ts"@).len() implies plain_char(("first_ts"@)[i]) by {
        let s = "first_ts"@;
        assert(plain_char(s[0]));
        assert(plain_char(s[1]));
        assert(plain_char(s[2]));
        assert(plain_char(s[3]));
        assert(plain_char(s[4]));
        assert(plain_char(s[5]));
        assert(plain_char(s[6]));
        assert(plain_char(s[7]));
    }
    reveal_strlit("count");
    assert(("count"@).len() == 5);
    assert forall|i: int| 0 <= i < ("count"@).len() implies plain_char(("count"@)[i]) by {
        let s = "count"@;
        assert(plain_char(s[0]));
        assert(plain_char(s[1]));
        assert(plain_char(s[2]));
        assert(plain_char(s[3]));
        assert(plain_char(s[4]));
    }
    reveal_strlit("min_delta");
    assert(("min_delta"@).len() == 9);
    assert forall|i: int| 0 <= i < ("min_delta"@).len() implies plain_char(("min_delta"@)[i]) by {
        let s = "min_delta"@;
        assert(plain_char(s[0]));
        assert(plain_char(s[1]));
        assert(plain_char(s[2]));
        assert(plain_char(s[3]));
        assert(plain_char(s[4]));
        assert(plain_char(s[5]));
        assert(plain_char(s[6]));
        assert(plain_char(s[7]));
        assert(plain_char(s[8]));
    }
    reveal_strlit("max_delta");
    assert(("max_delta"@).len() == 9);
    assert forall|i: int| 0 <= i < ("max_delta"@).len() implies plain_char(("max_delta"@)[i]) by {
        let s = "max_delta"@;
        assert(plain_char(s[0]));
        assert(plain_char(s[1]));
        assert(plain_char(s[2]));
        assert(plain_char(s[3]));
        assert(plain_char(s[4]));
        assert(plain_char(s[5]));
        assert(plain_char(s[6]));
        assert(plain_char(s[7]));
        assert(plain_char(s[8]));
    }
}

/// A plain TimingState yields a field list fit for encoding.
pub proof fn lemma_timing_state_fields_valid(x: TimingState)
    requires
        timing_state_plain(x),
    ensures
        valid_fields(timing_state_fields(x)),
{
    lemma_timing_state_keys_plain();
    let fs = timing_state_fields(x);
    assert forall|i: int| 0 <= i < fs.len() implies {
        &&& plain_str((#[trigger] fs[i]).0)
        &&& (fs[i].1 matches JValV::S(v) ==> plain_str(v))
    } by {
        if i == 0 {
            assert(fs[0].0 == "first_ts"@);
        } else if i == 1 {
            assert(fs[1].0 == "count"@);
        } else if i == 2 {
            assert(fs[2].0 == "min_delta"@);
        } else if i == 3 {
            assert(fs[3].0 == "max_delta"@);
        }
    }
}

/// Lay a TimingState out as its field list.
pub fn timing_state_to_fields(x: &TimingState) -> (r: Vec<(String, JVal)>)
    ensures
        fields_view(r@) == timing_state_fields(*x),
{
    let mut v: Vec<(String, JVal)> = Vec::new();
    v.push(("first_ts".to_owned(), JVal::N(x.first_ts as u64)));
    v.push(("count".to_owned(), JVal::N(x.count as u64)));
    v.push(("min_delta".to_owned(), JVal::N(x.min_delta as u64)));
    v.push(("max_delta".to_owned(), JVal::N(x.max_delta as u64)));
    proof {
        assert(fields_view(v@).len() == 4);
        assert(fields_view(v@)[0] == timing_state_fields(*x)[0]);
        assert(fields_view(v@)[1] == timing_state_fields(*x)[1]);
        assert(fields_view(v@)[2] == timing_state_fields(*x)[2]);
        assert(fields_view(v@)[3] == timing_state_fields(*x)[3]);
        assert(fields_view(v@) =~= timing_state_fields(*x));
    }
    v
}

/// Read a TimingState back from a parsed field list; the list must
/// carry exactly the expected keys, kinds and ranges.
pub fn timing_state_from_fields(v: &Vec<(String, JVal)>) -> (r: Option<TimingState>)
    ensures
        r matches Some(x) ==> fields_view(v@) == timing_state_fields(x),
        r is None ==> (forall|x: TimingState| fields_view(v@) != #[trigger] timing_state_fields(x)),
{
    if v.len() != 4 {
        proof {
            assert forall|x: TimingState| fields_view(v@) != #[trigger] timing_state_fields(x) by {
                assert(timing_state_fields(x).len() == 4);
            }
        }
        return None;
    }
    if !str_eq(v[0].0.as_str(), "first_ts") {
        proof {
            assert forall|x: TimingState| fields_view(v@) != #[trigger] timing_state_fields(x) by {
                if fields_view(v@) == timing_state_fields(x) {
                    assert(fields_view(v@)[0] == timing_state_fields(x)[0]);
                    assert(false);
                }
            }
        }
        return None;
    }
    let n_first_ts: u64 = match &v[0].1 {
        JVal::N(n) => *n,
        JVal::S(s) => {
        proof {
            assert forall|x: TimingState| fields_view(v@) != #[trigger] timing_state_fields(x) by {
                if fields_view(v@) == timing_state_fields(x) {
                    assert(fields_view(v@)[0] == timing_state_fields(x)[0]);
                    assert(false);
                }
            }
        }
        return None;
        },
    };
    let f_first_ts: u64 = n_first_ts;
    if !str_eq(v[1].0.as_str(), "count") {
        proof {
            assert forall|x: TimingState| fields_view(v@) != #[trigger] timing_state_fields(x) by {
                if fields_view(v@) == timing_state_fields(x) {
                    assert(fields_view(v@)[1] == timing_state_fields(x)[1]);
                    assert(false);
                }
            }
        }
        return None;
    }
    let n_count: u64 = match &v[1].1 {
        JVal::N(n) => *n,
        JVal::S(s) => {
        proof {
            assert forall|x: TimingState| fields_view(v@) != #[trigger] timing_state_fields(x) by {
                if fields_view(v@) == timing_state_fields(x) {
                    assert(fields_view(v@)[1] == timing_state_fields(x)[1]);
                    assert(false);
                }
            }
        }
        return None;
        },
    };
    if n_count > 0xffff_ffffu64 {
        proof {
            assert forall|x: TimingState| fields_view(v@) != #[trigger] timing_state_fields(x) by {
                if fields_view(v@) == timing_state_fields(x) {
                    assert(fields_view(v@)[1] == timing_state_fields(x)[1]);
                    assert(false);
                }
            }
        }
        return None;
    }
    let f_count: u32 = n_count as u32;
    if !str_eq(v[2].0.as_str(), "min_delta") {
        proof {
            assert forall|x: TimingState| fields_view(v@) != #[trigger] timing_state_fields(x) by {
                if fields_view(v@) == timing_state_fields(x) {
                    assert(fields_view(v@)[2] == timing_state_fields(x)[2]);
                    assert(false);
                }
            }
        }
        return None;
    }
    let n_min_delta: u64 = match &v[2].1 {
        JVal::N(n) => *n,
        JVal::S(s) => {
        proof {
            assert forall|x: TimingState| fields_view(v@) != #[trigger] timing_state_fields(x) by {
                if fields_view(v@) == timing_state_fields(x) {
                    assert(fields_view(v@)[2] == timing_state_fields(x)[2]);
                    assert(false);
                }
            }
        }
        return None;
        },
    };
    let f_min_delta: u64 = n_min_delta;
    if !str_eq(v[3].0.as_str(), "max_delta") {
        proof {
            assert forall|x: TimingState| fields_view(v@) != #[trigger] timing_state_fields(x) by {
                if fields_view(v@) == timing_state_fields(x) {
                    assert(fields_view(v@)[3] == timing_state_fields(x)[3]);
                    assert(false);
                }
            }
        }
        return None;
    }
    let n_max_delta: u64 = match &v[3].1 {
        JVal::N(n) => *n,
        JVal::S(s) => {
        proof {
            assert forall|x: TimingState| fields_view(v@) != #[trigger] timing_state_fields(x) by {
                if fields_view(v@) == timing_state_fields(x) {
                    assert(fields_view(v@)[3] == timing_state_fields(x)[3]);
                    assert(false);
                }
            }
        }
        return None;
        },
    };
    let f_max_delta: u64 = n_max_delta;
    let x = TimingState {
        first_ts: f_first_ts,
        count: f_count,
        min_delta: f_min_delta,
        max_delta: f_max_delta,
    };
    proof {
        assert(fields_view(v@).len() == 4);
        assert(fields_view(v@)[0] == timing_state_fields(x)[0]);
        assert(fields_view(v@)[1] == timing_state_fields(x)[1]);
        assert(fields_view(v@)[2] == timing_state_fields(x)[2]);
        assert(fields_view(v@)[3] == timing_state_fields(x)[3]);
        assert(fields_view(v@) =~= timing_state_fields(x));
    }
    Some(x)
}

/// A field list fit for encoding has plain string fields.
pub proof fn lemma_timing_state_fields_plain(x: TimingState)
    requires
        valid_fields(timing_state_fields(x)),
    ensures
        timing_state_plain(x),
{
    let fs = timing_state_fields(x);
}

/// The canonical encoding of a TimingState.
pub open spec fn timing_state_json(x: TimingState) -> Seq<char> {
    json_of(timing_state_fields(x))
}

/// Render a TimingState in its canonical form.
pub fn encode_timing_state(x: &TimingState) -> (r: String)
    ensures
        r@ == timing_state_json(*x),
{
    let fs = timing_state_to_fields(x);
    encode_fields(&fs)
}

/// Parse a TimingState from its canonical form: the encoding of a
/// plain record parses back to a record with the same fields.
pub fn decode_timing_state(s: &str) -> (r: Option<TimingState>)
    ensures
        r matches Some(x) ==> spec_parse_json(s@) == Some(timing_state_fields(x))
            && s@ == timing_state_json(x) && timing_state_plain(x),
        forall|x0: TimingState| timing_state_plain(x0) && s@ == timing_state_json(x0)
            ==> (r matches Some(x) && timing_state_fields(x) == timing_state_fields(x0)),
{
    let parsed = parse_fields(s);
    match parsed {
        None => {
            proof {
                assert forall|x0: TimingState| timing_state_plain(x0) && s@ == timing_state_json(x0)
                    implies false by {
                    lemma_timing_state_fields_valid(x0);
                    lemma_json_round_trip(timing_state_fields(x0));
                }
            }
            None
        },
        Some(v) => {
            match timing_state_from_fields(&v) {
                None => {
                    proof {
                        assert forall|x0: TimingState| timing_state_plain(x0) && s@ == timing_state_json(x0)
                            implies false by {
                            lemma_timing_state_fields_valid(x0);
                            lemma_json_round_trip(timing_state_fields(x0));
                            assert(fields_view(v@) == timing_state_fields(x0));
                        }
                    }
                    None
                },
                Some(x) => {
                    proof {
                        lemma_parse_json_sound(s@);
                        lemma_timing_state_fields_plain(x);
                        assert forall|x0: TimingState| timing_state_plain(x0) && s@ == timing_state_json(x0)
                            implies timing_state_fields(x) == timing_state_fields(x0) by {
                            lemma_timing_state_fields_valid(x0);
                            lemma_json_round_trip(timing_state_fields(x0));
                            assert(fields_view(v@) == timing_state_fields(x0));
                        }
                    }
                    Some(x)
                },
            }
        },
    }
}

/// The stored byte form of a TimingState.
pub open spec fn timing_state_bytes(x: TimingState) -> Seq<u8> {
    vstd::utf8::encode_utf8(timing_state_json(x))
}

/// Render a TimingState as its stored bytes.
pub fn encode_timing_state_bytes(x: &TimingState) -> (r: Vec<u8>)
    ensures
        r@ == timing_state_bytes(*x),
{
    let s = encode_timing_state(x);
    let b = s.as_str().as_bytes();
    vstd::slice::slice_to_vec(b)
}

/// Parse a TimingState from stored bytes; the bytes written by
/// the encoder always parse back to the same fields.
pub fn decode_timing_state_bytes(v: &[u8]) -> (r: Option<TimingState>)
    ensures
        r matches Some(x) ==> v@ == timing_state_bytes(x) && timing_state_plain(x),
        forall|x0: TimingState| timing_state_plain(x0) && v@ == #[trigger] timing_state_bytes(x0)
            ==> (r matches Some(x) && timing_state_fields(x) == timing_state_fields(x0)),
{
    let owned = vstd::slice::slice_to_vec(v);
    let s = match crate::crypto::string_from_utf8(owned) {
        Ok(s) => s,
        Err(_) => {
            return None;
        },
    };
    match decode_timing_state(s.as_str()) {
        Some(x) => {
            proof {
                assert forall|x0: TimingState| timing_state_plain(x0) && v@ == #[trigger] timing_state_bytes(x0)
                    implies timing_state_fields(x) == timing_state_fields(x0) by {
                    assert(s@ == timing_state_json(x0));
                }
            }
            Some(x)
        },
        None => {
            proof {
                assert forall|x0: TimingState| timing_state_plain(x0) && v@ == #[trigger] timing_state_bytes(x0)
                    implies false by {
                    assert(s@ == timing_state_json(x0));
                }
            }
            None
        },
    }
}

/// Mint the signed wire form of a puzzle seed.
pub fn make_seed_token(seed: &OperationEnvelope, secret: &str) -> (r: String)
    ensures
        r@ == crate::envelope::spec_token(
            secret.spec_bytes(),
            crate::envelope::env_fields(*seed),
        ),
        crate::envelope::first_dot(r@, 0) == crate::crypto::b64_of(
            vstd::utf8::encode_utf8(crate::envelope::env_json(*seed)),
        ).len(),
        0 < crate::envelope::first_dot(r@, 0),
{
    crate::envelope::make_envelope_token(seed, secret)
}

/// Parse and authenticate a seed token, then hold the envelope to the
/// step-agnostic checks of the puzzle flow. Minting and parsing round
/// trip: the wire form of any legal plain seed under the same secret
/// comes back with the same fields.
pub fn parse_seed_token(token: &str, secret: &str) -> (r: Result<
    OperationEnvelope,
    SeedTokenError,
>)
    ensures
        r matches Ok(e) ==> spec_validate_signed(e, MAX_STEP_WINDOW_SECONDS_CHALLENGE_PUZZLE)
            == Ok::<(), EnvelopeValidationError>(()),
        forall|e0: OperationEnvelope|
            {
                &&& crate::envelope::env_plain(e0)
                &&& spec_validate_signed(e0, MAX_STEP_WINDOW_SECONDS_CHALLENGE_PUZZLE)
                    == Ok::<(), EnvelopeValidationError>(())
                &&& token@ == crate::envelope::spec_token(
                    secret.spec_bytes(),
                    #[trigger] crate::envelope::env_fields(e0),
                )
                &&& crate::envelope::first_dot(token@, 0) == crate::crypto::b64_of(
                    vstd::utf8::encode_utf8(crate::envelope::env_json(e0)),
                ).len()
                &&& 0 < crate::envelope::first_dot(token@, 0)
            } ==> (r matches Ok(e) && crate::envelope::env_fields(e)
                == crate::envelope::env_fields(e0)),
{
    let parsed = match crate::envelope::parse_envelope_token(token, secret) {
        Ok(e) => e,
        Err(err) => {
            return Err(err);
        },
    };
    match validate_signed_operation_envelope(&parsed, MAX_STEP_WINDOW_SECONDS_CHALLENGE_PUZZLE) {
        Ok(_) => Ok(parsed),
        Err(sub) => {
            proof {
                assert forall|e0: OperationEnvelope|
                    {
                        &&& crate::envelope::env_plain(e0)
                        &&& spec_validate_signed(e0, MAX_STEP_WINDOW_SECONDS_CHALLENGE_PUZZLE)
                            == Ok::<(), EnvelopeValidationError>(())
                        &&& token@ == crate::envelope::spec_token(
                            secret.spec_bytes(),
                            #[trigger] crate::envelope::env_fields(e0),
                        )
                        &&& crate::envelope::first_dot(token@, 0) == crate::crypto::b64_of(
                            vstd::utf8::encode_utf8(crate::envelope::env_json(e0)),
                        ).len()
                        &&& 0 < crate::envelope::first_dot(token@, 0)
                    } implies false by {
                    assert(crate::envelope::env_fields(parsed)
                        == crate::envelope::env_fields(e0));
                    assert(crate::envelope::env_fields(parsed)[4]
                        == crate::envelope::env_fields(e0)[4]);
                    assert(crate::envelope::env_fields(parsed)[0]
                        == crate::envelope::env_fields(e0)[0]);
                    assert(crate::envelope::env_fields(parsed)[1]
                        == crate::envelope::env_fields(e0)[1]);
                    assert(crate::envelope::env_fields(parsed)[2]
                        == crate::envelope::env_fields(e0)[2]);
                    assert(crate::envelope::env_fields(parsed)[5]
                        == crate::envelope::env_fields(e0)[5]);
                    assert(crate::envelope::env_fields(parsed)[6]
                        == crate::envelope::env_fields(e0)[6]);
                    assert(parsed.token_version as u64 == e0.token_version as u64);
                    assert(parsed.operation_id@ == e0.operation_id@);
                    assert(parsed.flow_id@ == e0.flow_id@);
                    assert(parsed.step_id@ == e0.step_id@);
                    assert(parsed.issued_at == e0.issued_at);
                    assert(parsed.expires_at == e0.expires_at);
                }
            }
            Err(SeedTokenError::InvalidOperationEnvelope(sub))
        },
    }
}

/// The deterministic expected output of a seeded puzzle: one digit per
/// cell, drawn from the xorshift stream of the seed value and shifted
/// once per transform round.
pub open spec fn puzzle_output_of(seed_value: u64, cells: int, transforms: u32) -> Seq<u8>
    decreases cells,
{
    if cells <= 0 {
        Seq::empty()
    } else {
        let s2 = crate::maze::rng::next_seed_of(seed_value as u32);
        seq![(((s2 as int + transforms as int) % 10) as u8)] + puzzle_output_of(
            s2 as u64,
            cells - 1,
            transforms,
        )
    }
}

/// Recompute the expected output for a seed envelope.
pub fn build_puzzle(seed: &OperationEnvelope) -> (r: Vec<u8>)
    requires
        seed.grid_size <= 64,
    ensures
        r@ == puzzle_output_of(
            seed.seed_value,
            seed.grid_size as int * seed.grid_size as int,
            seed.transform_count,
        ),
{
    proof {
        assert(seed.grid_size * seed.grid_size <= 64 * 64) by (nonlinear_arith)
            requires
                seed.grid_size <= 64,
        ;
    }
    let cells: u32 = seed.grid_size * seed.grid_size;
    let mut out: Vec<u8> = Vec::new();
    let mut state: u32 = seed.seed_value as u32;
    let ghost full = puzzle_output_of(
        seed.seed_value,
        seed.grid_size as int * seed.grid_size as int,
        seed.transform_count,
    );
    let mut i: u32 = 0;
    proof {
        assert(seed.seed_value as u32 as u64 as u32 == seed.seed_value as u32);
    }
    let mut cur: u64 = seed.seed_value;
    while i < cells
        invariant
            0 <= i <= cells,
            cells <= 64 * 64,
            out@.len() == i,
            full == puzzle_output_of(
                seed.seed_value,
                cells as int,
                seed.transform_count,
            ),
            full =~= out@ + puzzle_output_of(cur, cells - i, seed.transform_count),
        decreases cells - i,
    {
        let s2 = crate::maze::rng::worker_next_seed(cur as u32);
        let digit: u8 = (((s2 as u64 + seed.transform_count as u64) % 10)) as u8;
        proof {
            assert(puzzle_output_of(cur, cells - i, seed.transform_count) == seq![
                (((s2 as int + seed.transform_count as int) % 10) as u8),
            ] + puzzle_output_of(s2 as u64, cells - i - 1, seed.transform_count));
            assert((s2 as u64 + seed.transform_count as u64) as int % 10 == (s2 as int
                + seed.transform_count as int) % 10);
        }
        out.push(digit);
        proof {
            assert(full =~= out@ + puzzle_output_of(s2 as u64, cells - (i + 1), seed.transform_count));
        }
        cur = s2 as u64;
        i = i + 1;
    }
    proof {
        assert(puzzle_output_of(cur, 0, seed.transform_count) =~= Seq::<u8>::empty());
        assert(out@ =~= full);
    }
    out
}

/// Whether every character is a decimal digit.
pub open spec fn all_digits(s: Seq<char>) -> bool {
    forall|i: int| 0 <= i < s.len() ==> '0' <= #[trigger] s[i] && s[i] <= '9'
}

/// The digit values of a decimal text, one byte per character.
pub open spec fn digit_values_of(s: Seq<char>) -> Seq<u8> {
    s.map_values(|c: char| ((c as u32) - 48) as u8)
}

/// Parse a submitted output: exactly one digit per cell. Exactly the
/// digit strings of the right length parse, to their digit values.
pub fn parse_submission(raw: &str, grid_size: u32) -> (r: Option<Vec<u8>>)
    requires
        grid_size <= 64,
    ensures
        r matches Some(v) ==> v@.len() == grid_size as int * grid_size as int,
        r matches Some(v) ==> (v@ == digit_values_of(raw@) && all_digits(raw@) && raw@.len()
            == grid_size as int * grid_size as int),
        (all_digits(raw@) && raw@.len() == grid_size as int * grid_size as int) ==> r is Some,
{
    proof {
        assert(grid_size * grid_size <= 64 * 64) by (nonlinear_arith)
            requires
                grid_size <= 64,
        ;
    }
    let cells: u32 = grid_size * grid_size;
    let len = raw.unicode_len();
    if len != cells as usize {
        return None;
    }
    let mut out: Vec<u8> = Vec::new();
    let mut i: usize = 0;
    while i < len
        invariant
            0 <= i <= len,
            len == raw@.len(),
            out@.len() == i,
            forall|k: int| 0 <= k < i ==> '0' <= #[trigger] raw@[k] && raw@[k] <= '9',
            out@ == digit_values_of(raw@.subrange(0, i as int)),
        decreases len - i,
    {
        let c = raw.get_char(i);
        if !(c >= '0' && c <= '9') {
            return None;
        }
        let ghost pre = out@;
        out.push(((c as u32) - 48) as u8);
        proof {
            assert(raw@.subrange(0, i + 1) =~= raw@.subrange(0, i as int).push(raw@[i as int]));
            assert(out@ =~= digit_values_of(raw@.subrange(0, i + 1))) by {
                assert(digit_values_of(raw@.subrange(0, i + 1)) =~= digit_values_of(
                    raw@.subrange(0, i as int),
                ).push(((raw@[i as int] as u32) - 48) as u8));
            }
        }
        i = i + 1;
    }
    proof {
        assert(raw@.subrange(0, len as int) =~= raw@);
    }
    Some(out)
}

/// Whether two byte vectors hold the same digits.
pub fn bytes_eq(a: &Vec<u8>, b: &Vec<u8>) -> (r: bool)
    ensures
        r == (a@ == b@),
{
    if a.len() != b.len() {
        return false;
    }
    let n = a.len();
    let mut i: usize = 0;
    while i < n
        invariant
            0 <= i <= n,
            n == a@.len(),
            n == b@.len(),
            forall|k: int| 0 <= k < i ==> a@[k] == b@[k],
        decreases n - i,
    {
        if a[i] != b[i] {
            return false;
        }
        i = i + 1;
    }
    proof {
        assert(a@ =~= b@);
    }
    true
}

/// The attempt counter key for a bucket.
pub fn attempt_key(ip_bucket: &str) -> (r: String)
    ensures
        r@ == "challenge_puzzle:attempt:"@ + ip_bucket@,
{
    let mut out = "challenge_puzzle:attempt:".to_owned();
    out.append(ip_bucket);
    assert(out@ =~= "challenge_puzzle:attempt:"@ + ip_bucket@);
    out
}

/// Whether `key` holds the attempt record `x`.
pub open spec fn attempt_stored(m: crate::kv::KvMap, key: Seq<char>, x: AttemptState) -> bool {
    &&& attempt_state_plain(x)
    &&& m.contains_key(key)
    &&& m[key] == attempt_state_bytes(x)
}

/// The attempt record after one more attempt over `m`: a window older
/// than its span starts over at this attempt; otherwise the standing
/// count grows by one, saturating.
pub open spec fn spec_attempt_after(
    m: crate::kv::KvMap,
    key: Seq<char>,
    now: u64,
    window: u64,
) -> AttemptState {
    if exists|x: AttemptState| #[trigger] attempt_stored(m, key, x) {
        let x = choose|x: AttemptState| #[trigger] attempt_stored(m, key, x);
        let age: int = if now > x.window_start {
            now - x.window_start
        } else {
            0
        };
        let base = if age >= window {
            AttemptState { window_start: now, count: 0 }
        } else {
            x
        };
        AttemptState {
            window_start: base.window_start,
            count: if base.count < 0xffff_ffffu32 {
                (base.count + 1) as u32
            } else {
                base.count
            },
        }
    } else {
        AttemptState { window_start: now, count: 1 }
    }
}

/// Count one attempt in the bucket's window and report whether the cap
/// is now exceeded; a window older than the cap's span starts over. On
/// a store that answers, the stored record and the verdict are exact.
pub fn increment_and_check_attempt_limit<S: KeyValueStore>(
    store: &mut S,
    ip_bucket: &str,
    now: u64,
    attempt_window_seconds: u64,
    attempt_limit_per_window: u32,
) -> (r: bool)
    requires
        old(store).inv(),
    ensures
        final(store).inv(),
        final(store).reliable() == old(store).reliable(),
        old(store).reliable() ==> {
            let key = "challenge_puzzle:attempt:"@ + ip_bucket@;
            let next = spec_attempt_after(old(store).kv(), key, now, attempt_window_seconds);
            &&& r == (next.count > attempt_limit_per_window)
            &&& final(store).kv() == old(store).kv().insert(key, attempt_state_bytes(next))
        },
{
    let key = attempt_key(ip_bucket);
    let ghost gkey = "challenge_puzzle:attempt:"@ + ip_bucket@;
    let mut state = AttemptState { window_start: now, count: 0 };
    let mut decoded = false;
    match store.get(key.as_str()) {
        Ok(Some(raw)) => {
            match decode_attempt_state_bytes(raw.as_slice()) {
                Some(s) => {
                    proof {
                        if old(store).reliable() {
                            assert(old(store).kv()[gkey] == attempt_state_bytes(s));
                            assert(attempt_stored(old(store).kv(), gkey, s));
                            assert forall|x: AttemptState|
                                attempt_stored(old(store).kv(), gkey, x)
                                implies attempt_state_fields(x) == attempt_state_fields(s) by {
                                assert(raw@ == attempt_state_bytes(x));
                            }
                        }
                    }
                    state = s;
                    decoded = true;
                },
                None => {
                    proof {
                        if old(store).reliable() {
                            assert forall|x: AttemptState|
                                attempt_stored(old(store).kv(), gkey, x) implies false by {
                                assert(raw@ == attempt_state_bytes(x));
                            }
                        }
                    }
                },
            }
        },
        _ => {
            proof {
                if old(store).reliable() {
                    assert(!old(store).kv().contains_key(gkey));
                }
            }
        },
    }
    proof {
        if old(store).reliable() {
            if decoded {
                let w = choose|x: AttemptState|
                    #[trigger] attempt_stored(old(store).kv(), gkey, x);
                assert(attempt_state_fields(w) == attempt_state_fields(state));
                assert(attempt_state_fields(w)[0] == attempt_state_fields(state)[0]);
                assert(attempt_state_fields(w)[1] == attempt_state_fields(state)[1]);
                assert(w.window_start == state.window_start);
                assert(w.count as u64 == state.count as u64);
            } else {
                assert(!(exists|x: AttemptState|
                    #[trigger] attempt_stored(old(store).kv(), gkey, x)));
            }
        }
    }
    let age = if now > state.window_start {
        now - state.window_start
    } else {
        0
    };
    if age >= attempt_window_seconds {
        state.window_start = now;
        state.count = 0;
    }
    state.count = if state.count < 0xffff_ffffu32 {
        state.count + 1
    } else {
        state.count
    };
    let raw = encode_attempt_state_bytes(&state);
    let outcome = store.set(key.as_str(), raw.as_slice());
    proof {
        if old(store).reliable() {
            assert(outcome is Ok);
            let next = spec_attempt_after(old(store).kv(), gkey, now, attempt_window_seconds);
            assert(next.window_start == state.window_start && next.count == state.count);
            assert(final(store).kv() == old(store).kv().insert(gkey, raw@));
        }
    }
    state.count > attempt_limit_per_window
}

/// Pull a form field out of a urlencoded body and percent-decode it.
pub fn get_form_field(form: &str, name: &str) -> (r: Option<String>) {
    match crate::request_validation::query_param(form, name) {
        Some(raw) => Some(crate::crypto::url_decode(raw.as_str())),
        None => None,
    }
}

/// Mint a fresh puzzle seed envelope bound to the requester.
pub fn make_puzzle_seed(
    ip: &str,
    user_agent: &str,
    transform_count: u32,
    seed_ttl_seconds: u64,
    now: u64,
) -> (r: OperationEnvelope)
    requires
        now + seed_ttl_seconds <= u64::MAX,
    ensures
        r.token_version == TOKEN_VERSION,
        r.issued_at == now,
        r.expires_at == now + seed_ttl_seconds,
        r.grid_size == 4,
        r.transform_count == transform_count,
        r.ip_bucket@ == crate::buckets::ip_bucket_of(ip@),
        r.ua_bucket@ == crate::buckets::ua_bucket_of(user_agent@),
        r.step_index == STEP_INDEX_CHALLENGE_PUZZLE_SUBMIT,
{
    let op_hi = crate::crypto::random_u64();
    let op_lo = crate::crypto::random_u64();
    let mut operation_id = String::new();
    crate::text::push_u64(&mut operation_id, op_hi);
    string_push(&mut operation_id, '-');
    crate::text::push_u64(&mut operation_id, op_lo);
    let mut flow_id = String::new();
    crate::text::push_u64(&mut flow_id, crate::crypto::random_u64());
    OperationEnvelope {
        operation_id,
        flow_id,
        step_id: STEP_CHALLENGE_PUZZLE_SUBMIT.to_owned(),
        step_index: STEP_INDEX_CHALLENGE_PUZZLE_SUBMIT,
        token_version: TOKEN_VERSION,
        issued_at: now,
        expires_at: now + seed_ttl_seconds,
        ip_bucket: crate::buckets::bucket_ip(ip),
        ua_bucket: crate::buckets::ua_bucket(user_agent),
        path_class: PATH_CLASS_CHALLENGE_PUZZLE_SUBMIT.to_owned(),
        grid_size: 4,
        transform_count,
        seed_value: crate::crypto::random_u64(),
        path_prefix: String::new(),
        path_digest: String::new(),
        depth: 0,
        branch_budget: 1,
        entropy_nonce: String::new(),
        variant_id: 0,
        prev_digest: String::new(),
    }
}

/// What the rendered puzzle page promises: it embeds the signed wire
/// form of a fresh seed envelope minted for this requester, this TTL
/// and the submit step.
pub open spec fn page_carries_seed(
    page: Seq<char>,
    secret: Seq<u8>,
    ip: Seq<char>,
    ua: Seq<char>,
    transform_count: u32,
    seed_ttl_seconds: u64,
    now: u64,
) -> bool {
    exists|e: OperationEnvelope|
        {
            &&& #[trigger] crate::envelope::env_fields(e) == crate::envelope::env_fields(e)
            &&& e.token_version == TOKEN_VERSION
            &&& e.issued_at == now
            &&& e.expires_at == now + seed_ttl_seconds
            &&& e.grid_size == 4
            &&& e.transform_count == transform_count
            &&& e.ip_bucket@ == crate::buckets::ip_bucket_of(ip)
            &&& e.ua_bucket@ == crate::buckets::ua_bucket_of(ua)
            &&& e.step_index == STEP_INDEX_CHALLENGE_PUZZLE_SUBMIT
            &&& crate::text::contains_seq(
                page,
                crate::envelope::spec_token(secret, crate::envelope::env_fields(e)),
            )
        }
}

/// Render the puzzle page carrying a signed seed token.
pub fn render_challenge_with_seed_ttl(
    ip: &str,
    user_agent: &str,
    secret: &str,
    transform_count: u32,
    seed_ttl_seconds: u64,
    now: u64,
) -> (r: (u16, String))
    requires
        now + seed_ttl_seconds <= u64::MAX,
    ensures
        r.0 == 200,
        page_carries_seed(
            r.1@,
            secret.spec_bytes(),
            ip@,
            user_agent@,
            transform_count,
            seed_ttl_seconds,
            now,
        ),
{
    let seed = make_puzzle_seed(ip, user_agent, transform_count, seed_ttl_seconds, now);
    let token = crate::envelope::make_envelope_token(&seed, secret);
    let mut html = "<html><body><h2>Transform the grid.</h2><form method=\"POST\"><input type=\"hidden\" name=\"seed\" value=\"".to_owned();
    let ghost before = html@;
    html.append(token.as_str());
    proof {
        assert(html@.subrange(before.len() as int, before.len() as int + token@.len()) =~= token@);
        assert(crate::text::contains_seq(html@, token@));
    }
    let ghost held = html@;
    html.append("\"><input name=\"output\" autofocus><button type=\"submit\">Submit</button></form></body></html>");
    proof {
        let k = choose|k: int|
            0 <= k && k + token@.len() <= held.len() && #[trigger] held.subrange(
                k,
                k + token@.len(),
            ) =~= token@;
        assert(html@.subrange(k, k + token@.len()) =~= token@);
        assert(crate::text::contains_seq(html@, token@));
        assert(crate::envelope::env_fields(seed) == crate::envelope::env_fields(seed));
    }
    (200, html)
}

/// Serve the puzzle page, or a 404 when test mode is off.
pub fn serve_challenge_page_with_seed_ttl(
    ip: &str,
    user_agent: &str,
    secret: &str,
    test_mode: bool,
    transform_count: u32,
    seed_ttl_seconds: u64,
    now: u64,
) -> (r: (u16, String))
    requires
        now + seed_ttl_seconds <= u64::MAX,
    ensures
        !test_mode ==> r.0 == 404,
        test_mode ==> r.0 == 200,
        test_mode ==> page_carries_seed(
            r.1@,
            secret.spec_bytes(),
            ip@,
            user_agent@,
            transform_count,
            seed_ttl_seconds,
            now,
        ),
{
    if !test_mode {
        return (404, "Not Found".to_owned());
    }
    render_challenge_with_seed_ttl(ip, user_agent, secret, transform_count, seed_ttl_seconds, now)
}

/// The graded outcome of one parsed puzzle submission over the store
/// contents `m`: the step-agnostic checks, the expiry boundary, the
/// ordering window, the request binding, the latency band, the
/// machine-regularity of the recorded latencies, the single-use
/// marker, and finally the submitted output against the recomputed
/// puzzle. A timely, bound, first-seen seed with the exact output
/// solves; a second presentation is a replay.
pub open spec fn spec_grade_puzzle(
    m: crate::kv::KvMap,
    seed: OperationEnvelope,
    output: Seq<char>,
    ip: Seq<char>,
    ua: Seq<char>,
    now: u64,
) -> ChallengeSubmitOutcome {
    let latency: u64 = if now > seed.issued_at {
        (now - seed.issued_at) as u64
    } else {
        0u64
    };
    let tkey = "timing:"@ + seed.flow_id@ + ":"@ + crate::buckets::ip_bucket_of(ip);
    let rkey = crate::envelope::replay_key_of(seed.flow_id@, seed.operation_id@);
    let grid: u32 = if seed.grid_size > 64 {
        64u32
    } else {
        seed.grid_size
    };
    let tnext = spec_timing_after(
        m,
        tkey,
        latency,
        now,
        TIMING_HISTORY_TTL_SECONDS_CHALLENGE_PUZZLE,
    );
    if spec_validate_signed(seed, MAX_STEP_WINDOW_SECONDS_CHALLENGE_PUZZLE) == Err::<
        (),
        EnvelopeValidationError,
    >(EnvelopeValidationError::MissingOperationId) {
        ChallengeSubmitOutcome::SequenceOpMissing
    } else if spec_validate_signed(seed, MAX_STEP_WINDOW_SECONDS_CHALLENGE_PUZZLE) is Err {
        ChallengeSubmitOutcome::SequenceOpInvalid
    } else if now > seed.expires_at {
        ChallengeSubmitOutcome::SequenceOpExpired
    } else if spec_validate_ordering(
        seed.flow_id@,
        seed.step_id@,
        seed.step_index,
        seed.issued_at,
        now,
        seed.flow_id@,
        "challenge_puzzle_submit"@,
        STEP_INDEX_CHALLENGE_PUZZLE_SUBMIT,
        MAX_STEP_WINDOW_SECONDS_CHALLENGE_PUZZLE,
    ) == Err::<(), OrderingValidationError>(OrderingValidationError::OrderViolation) {
        ChallengeSubmitOutcome::SequenceOrderViolation
    } else if spec_validate_ordering(
        seed.flow_id@,
        seed.step_id@,
        seed.step_index,
        seed.issued_at,
        now,
        seed.flow_id@,
        "challenge_puzzle_submit"@,
        STEP_INDEX_CHALLENGE_PUZZLE_SUBMIT,
        MAX_STEP_WINDOW_SECONDS_CHALLENGE_PUZZLE,
    ) is Err {
        ChallengeSubmitOutcome::SequenceWindowExceeded
    } else if !crate::envelope::binding_matches(
        seed.ip_bucket@,
        seed.ua_bucket@,
        seed.path_class@,
        ip,
        ua,
        "challenge_puzzle_submit"@,
    ) {
        ChallengeSubmitOutcome::SequenceBindingMismatch
    } else if latency < MIN_STEP_LATENCY_SECONDS_CHALLENGE_PUZZLE {
        ChallengeSubmitOutcome::SequenceTimingTooFast
    } else if latency > MAX_STEP_LATENCY_SECONDS_CHALLENGE_PUZZLE || latency
        > MAX_FLOW_AGE_SECONDS_CHALLENGE_PUZZLE {
        ChallengeSubmitOutcome::SequenceTimingTooSlow
    } else if tnext.count >= TIMING_REGULARITY_WINDOW_CHALLENGE_PUZZLE && tnext.max_delta
        - tnext.min_delta < TIMING_REGULARITY_SPREAD_SECONDS_CHALLENGE_PUZZLE {
        ChallengeSubmitOutcome::SequenceTimingTooRegular
    } else if crate::envelope::spec_replay_decision(m, rkey, now, seed.expires_at) == Err::<
        (),
        crate::envelope::ReplayValidationError,
    >(ReplayValidationError::ReplayDetected) {
        ChallengeSubmitOutcome::SequenceOpReplay
    } else if !(all_digits(output) && output.len() == grid as int * grid as int) {
        ChallengeSubmitOutcome::InvalidOutput
    } else if digit_values_of(output) == puzzle_output_of(
        seed.seed_value,
        grid as int * grid as int,
        seed.transform_count,
    ) {
        ChallengeSubmitOutcome::Solved
    } else {
        ChallengeSubmitOutcome::Incorrect
    }
}

/// Grade one parsed puzzle submission: run the validator pipeline in
/// order, record the latency and the single-use marker, and compare
/// the output against the recomputed puzzle. On a store that answers
/// the outcome is exactly the graded decision over the prior store
/// contents.
pub fn grade_puzzle_submission<S: KeyValueStore>(
    store: &mut S,
    seed: &OperationEnvelope,
    output_raw: &str,
    ip: &str,
    user_agent: &str,
    now: u64,
) -> (r: ChallengeSubmitOutcome)
    requires
        old(store).inv(),
        now + MAX_OPERATION_REPLAY_TTL_SECONDS_CHALLENGE_PUZZLE <= u64::MAX,
    ensures
        final(store).inv(),
        final(store).reliable() == old(store).reliable(),
        old(store).reliable() ==> r == spec_grade_puzzle(
            old(store).kv(),
            *seed,
            output_raw@,
            ip@,
            user_agent@,
            now,
        ),
        r is SequenceOpExpired ==> spec_validate_signed(
            *seed,
            MAX_STEP_WINDOW_SECONDS_CHALLENGE_PUZZLE,
        ) == Ok::<(), EnvelopeValidationError>(()) && now > seed.expires_at,
        old(store).reliable() && (r is Solved || r is Incorrect)
            ==> crate::envelope::replay_marker_fresh(
            final(store).kv(),
            crate::envelope::replay_key_of(seed.flow_id@, seed.operation_id@),
            now,
        ),
{
    let ghost m0 = store.kv();
    match validate_signed_operation_envelope(seed, MAX_STEP_WINDOW_SECONDS_CHALLENGE_PUZZLE) {
        Ok(_) => {},
        Err(EnvelopeValidationError::MissingOperationId) => {
            return ChallengeSubmitOutcome::SequenceOpMissing;
        },
        Err(_) => {
            return ChallengeSubmitOutcome::SequenceOpInvalid;
        },
    }
    if now > seed.expires_at {
        return ChallengeSubmitOutcome::SequenceOpExpired;
    }
    match validate_ordering_window(
        seed.flow_id.as_str(),
        seed.step_id.as_str(),
        seed.step_index,
        seed.issued_at,
        now,
        seed.flow_id.as_str(),
        STEP_CHALLENGE_PUZZLE_SUBMIT,
        STEP_INDEX_CHALLENGE_PUZZLE_SUBMIT,
        MAX_STEP_WINDOW_SECONDS_CHALLENGE_PUZZLE,
    ) {
        Ok(_) => {},
        Err(OrderingValidationError::OrderViolation) => {
            return ChallengeSubmitOutcome::SequenceOrderViolation;
        },
        Err(OrderingValidationError::WindowExceeded) => {
            return ChallengeSubmitOutcome::SequenceWindowExceeded;
        },
    }
    match validate_request_binding(
        seed.ip_bucket.as_str(),
        seed.ua_bucket.as_str(),
        seed.path_class.as_str(),
        ip,
        user_agent,
        PATH_CLASS_CHALLENGE_PUZZLE_SUBMIT,
    ) {
        Ok(_) => {},
        Err(_) => {
            return ChallengeSubmitOutcome::SequenceBindingMismatch;
        },
    }
    let latency = if now > seed.issued_at {
        now - seed.issued_at
    } else {
        0
    };
    if latency < MIN_STEP_LATENCY_SECONDS_CHALLENGE_PUZZLE {
        return ChallengeSubmitOutcome::SequenceTimingTooFast;
    }
    if latency > MAX_STEP_LATENCY_SECONDS_CHALLENGE_PUZZLE || latency
        > MAX_FLOW_AGE_SECONDS_CHALLENGE_PUZZLE {
        return ChallengeSubmitOutcome::SequenceTimingTooSlow;
    }
    let ip_bucket = crate::buckets::bucket_ip(ip);
    if timing_too_regular(
        store,
        seed.flow_id.as_str(),
        ip_bucket.as_str(),
        latency,
        now,
        TIMING_REGULARITY_WINDOW_CHALLENGE_PUZZLE,
        TIMING_REGULARITY_SPREAD_SECONDS_CHALLENGE_PUZZLE,
        TIMING_HISTORY_TTL_SECONDS_CHALLENGE_PUZZLE,
    ) {
        return ChallengeSubmitOutcome::SequenceTimingTooRegular;
    }
    proof {
        if old(store).reliable() {
            let tkey = "timing:"@ + seed.flow_id@ + ":"@ + crate::buckets::ip_bucket_of(ip@);
            let rkey = crate::envelope::replay_key_of(seed.flow_id@, seed.operation_id@);
            reveal_strlit("timing:");
            reveal_strlit("maze:token:seen:");
            assert(("timing:"@).len() == 7);
            assert(("maze:token:seen:"@).len() == 16);
            assert(tkey[0] == ("timing:"@)[0]);
            assert(("timing:"@)[0] == 't');
            assert(rkey[0] == ("maze:token:seen:"@)[0]);
            assert(("maze:token:seen:"@)[0] == 'm');
            assert(tkey != rkey);
            assert(crate::envelope::replay_marker_fresh(store.kv(), rkey, now)
                == crate::envelope::replay_marker_fresh(m0, rkey, now));
        }
    }
    match validate_operation_replay(
        store,
        seed.flow_id.as_str(),
        seed.operation_id.as_str(),
        now,
        seed.expires_at,
        MAX_OPERATION_REPLAY_TTL_SECONDS_CHALLENGE_PUZZLE,
    ) {
        Ok(_) => {},
        Err(ReplayValidationError::ReplayDetected) => {
            return ChallengeSubmitOutcome::SequenceOpReplay;
        },
        Err(ReplayValidationError::ExpiredOperation) => {
            return ChallengeSubmitOutcome::SequenceOpExpired;
        },
    }
    proof {
        if old(store).reliable() {
            let rkey = crate::envelope::replay_key_of(seed.flow_id@, seed.operation_id@);
            let until = crate::envelope::replay_marker_until(
                now,
                seed.expires_at,
                MAX_OPERATION_REPLAY_TTL_SECONDS_CHALLENGE_PUZZLE,
            );
            crate::text::lemma_dec_bytes_round_trip(until as nat);
            assert(store.kv()[rkey] == crate::text::dec_bytes_of(until as nat));
            assert(now <= until);
            assert(crate::envelope::replay_marker_fresh(store.kv(), rkey, now));
        }
    }
    let grid: u32 = if seed.grid_size > 64 {
        64
    } else {
        seed.grid_size
    };
    let bounded = OperationEnvelope {
        operation_id: String::new(),
        flow_id: String::new(),
        step_id: String::new(),
        step_index: 0,
        token_version: 0,
        issued_at: 0,
        expires_at: 0,
        ip_bucket: String::new(),
        ua_bucket: String::new(),
        path_class: String::new(),
        grid_size: grid,
        transform_count: seed.transform_count,
        seed_value: seed.seed_value,
        path_prefix: String::new(),
        path_digest: String::new(),
        depth: 0,
        branch_budget: 0,
        entropy_nonce: String::new(),
        variant_id: 0,
        prev_digest: String::new(),
    };
    let output = match parse_submission(output_raw, grid) {
        Some(v) => v,
        None => {
            return ChallengeSubmitOutcome::InvalidOutput;
        },
    };
    let expected = build_puzzle(&bounded);
    if bytes_eq(&output, &expected) {
        ChallengeSubmitOutcome::Solved
    } else {
        ChallengeSubmitOutcome::Incorrect
    }
}

/// Handle one puzzle submission: the body cap, the attempt cap, seed
/// parsing, the ordering, binding, timing and replay validators in
/// that order, and finally the recomputed expected output. A body over
/// the cap is forbidden outright.
pub fn handle_challenge_submit_with_outcome_with_limits<S: KeyValueStore>(
    store: &mut S,
    body: &[u8],
    ip: &str,
    user_agent: &str,
    secret: &str,
    attempt_window_seconds: u64,
    attempt_limit_per_window: u32,
    now: u64,
) -> (r: (u16, ChallengeSubmitOutcome))
    requires
        old(store).inv(),
        now + MAX_OPERATION_REPLAY_TTL_SECONDS_CHALLENGE_PUZZLE <= u64::MAX,
    ensures
        final(store).inv(),
        final(store).reliable() == old(store).reliable(),
        body@.len() > 4096 ==> (r.1 is Forbidden && r.0 == 403 && final(store).kv() == old(
            store,
        ).kv()),
        (r.1 is Solved) <==> (r.0 == 200),
        r.1 is InvalidOutput ==> r.0 == 400,
        r.1 is SequenceOpExpired ==> (exists|e: OperationEnvelope|
            {
                &&& #[trigger] spec_validate_signed(e, MAX_STEP_WINDOW_SECONDS_CHALLENGE_PUZZLE)
                    == Ok::<(), EnvelopeValidationError>(())
                &&& now > e.expires_at
            }),
        old(store).reliable() ==> (r.1 is AttemptLimitExceeded ==> spec_attempt_after(
            old(store).kv(),
            "challenge_puzzle:attempt:"@ + crate::buckets::ip_bucket_of(ip@),
            now,
            attempt_window_seconds,
        ).count > attempt_limit_per_window),
        old(store).reliable() ==> (r.1 is SequenceOpReplay ==> (exists|e: OperationEnvelope|
            {
                &&& #[trigger] spec_validate_signed(e, MAX_STEP_WINDOW_SECONDS_CHALLENGE_PUZZLE)
                    == Ok::<(), EnvelopeValidationError>(())
                &&& now <= e.expires_at
                &&& crate::envelope::replay_marker_fresh(
                    old(store).kv(),
                    crate::envelope::replay_key_of(e.flow_id@, e.operation_id@),
                    now,
                )
            })),
        old(store).reliable() && (r.1 is Solved || r.1 is Incorrect) ==> (exists|
            e: OperationEnvelope,
        |
            {
                &&& #[trigger] spec_validate_signed(e, MAX_STEP_WINDOW_SECONDS_CHALLENGE_PUZZLE)
                    == Ok::<(), EnvelopeValidationError>(())
                &&& now <= e.expires_at
                &&& crate::envelope::binding_matches(
                    e.ip_bucket@,
                    e.ua_bucket@,
                    e.path_class@,
                    ip@,
                    user_agent@,
                    "challenge_puzzle_submit"@,
                )
                &&& MIN_STEP_LATENCY_SECONDS_CHALLENGE_PUZZLE <= (if now > e.issued_at {
                    now - e.issued_at
                } else {
                    0int
                })
                &&& (if now > e.issued_at {
                    now - e.issued_at
                } else {
                    0int
                }) <= MAX_STEP_LATENCY_SECONDS_CHALLENGE_PUZZLE
                &&& crate::envelope::replay_marker_fresh(
                    final(store).kv(),
                    crate::envelope::replay_key_of(e.flow_id@, e.operation_id@),
                    now,
                )
            }),
{
    if body.len() > crate::request_validation::MAX_CHALLENGE_FORM_BYTES {
        return (403, ChallengeSubmitOutcome::Forbidden);
    }
    let owned = vstd::slice::slice_to_vec(body);
    let form = match crate::crypto::string_from_utf8(owned) {
        Ok(s) => s,
        Err(_) => {
            return (403, ChallengeSubmitOutcome::Forbidden);
        },
    };
    let ip_bucket = crate::buckets::bucket_ip(ip);
    if increment_and_check_attempt_limit(
        store,
        ip_bucket.as_str(),
        now,
        attempt_window_seconds,
        attempt_limit_per_window,
    ) {
        return (403, ChallengeSubmitOutcome::AttemptLimitExceeded);
    }
    let seed_token = match get_form_field(form.as_str(), "seed") {
        Some(t) => t,
        None => {
            return (403, ChallengeSubmitOutcome::Forbidden);
        },
    };
    if !crate::request_validation::validate_seed_token(seed_token.as_str()) {
        return (403, ChallengeSubmitOutcome::Forbidden);
    }
    let output_raw = match get_form_field(form.as_str(), "output") {
        Some(v) => v,
        None => {
            return (400, ChallengeSubmitOutcome::InvalidOutput);
        },
    };
    if output_raw.as_str().unicode_len() > 128 {
        return (400, ChallengeSubmitOutcome::InvalidOutput);
    }
    let seed = match crate::envelope::parse_envelope_token(seed_token.as_str(), secret) {
        Ok(e) => e,
        Err(_) => {
            return (403, ChallengeSubmitOutcome::SequenceOpInvalid);
        },
    };
    let ghost m_grade = store.kv();
    let outcome = grade_puzzle_submission(store, &seed, output_raw.as_str(), ip, user_agent, now);
    proof {
        if outcome is SequenceOpExpired {
            assert(spec_validate_signed(seed, MAX_STEP_WINDOW_SECONDS_CHALLENGE_PUZZLE)
                == Ok::<(), EnvelopeValidationError>(()));
        }
        if old(store).reliable() {
            let rkey = crate::envelope::replay_key_of(seed.flow_id@, seed.operation_id@);
            let akey = "challenge_puzzle:attempt:"@ + crate::buckets::ip_bucket_of(ip@);
            reveal_strlit("challenge_puzzle:attempt:");
            reveal_strlit("maze:token:seen:");
            assert(("challenge_puzzle:attempt:"@).len() == 25);
            assert(("maze:token:seen:"@).len() == 16);
            assert(akey[0] == ("challenge_puzzle:attempt:"@)[0]);
            assert(rkey[0] == ("maze:token:seen:"@)[0]);
            assert(("challenge_puzzle:attempt:"@)[0] == 'c');
            assert(("maze:token:seen:"@)[0] == 'm');
            assert(akey != rkey);
            assert(crate::envelope::replay_marker_fresh(m_grade, rkey, now)
                == crate::envelope::replay_marker_fresh(old(store).kv(), rkey, now));
            if outcome is SequenceOpReplay {
                assert(spec_validate_signed(seed, MAX_STEP_WINDOW_SECONDS_CHALLENGE_PUZZLE)
                    == Ok::<(), EnvelopeValidationError>(()));
                assert(now <= seed.expires_at);
                assert(crate::envelope::replay_marker_fresh(old(store).kv(), rkey, now));
            }
            if outcome is Solved || outcome is Incorrect {
                assert(spec_validate_signed(seed, MAX_STEP_WINDOW_SECONDS_CHALLENGE_PUZZLE)
                    == Ok::<(), EnvelopeValidationError>(()));
                assert(now <= seed.expires_at);
                assert(crate::envelope::binding_matches(
                    seed.ip_bucket@,
                    seed.ua_bucket@,
                    seed.path_class@,
                    ip@,
                    user_agent@,
                    "challenge_puzzle_submit"@,
                ));
                assert(crate::envelope::replay_marker_fresh(final(store).kv(), rkey, now));
            }
        }
    }
    match outcome {
        ChallengeSubmitOutcome::Solved => (200, outcome),
        ChallengeSubmitOutcome::InvalidOutput => (400, outcome),
        _ => (403, outcome),
    }
}

/// Whether `key` holds the timing record `x`, not yet past the TTL.
pub open spec fn timing_stored(
    m: crate::kv::KvMap,
    key: Seq<char>,
    x: TimingState,
    now: u64,
    ttl: u64,
) -> bool {
    &&& timing_state_plain(x)
    &&& m.contains_key(key)
    &&& m[key] == timing_state_bytes(x)
    &&& (if now > x.first_ts {
        now - x.first_ts
    } else {
        0int
    }) <= ttl
}

/// The timing record after this observation: a live history absorbs
/// the latency into its count and spread; an absent, unreadable or
/// stale one starts over at this latency.
pub open spec fn spec_timing_after(
    m: crate::kv::KvMap,
    key: Seq<char>,
    latency: u64,
    now: u64,
    ttl: u64,
) -> TimingState {
    if exists|x: TimingState| #[trigger] timing_stored(m, key, x, now, ttl) {
        let x = choose|x: TimingState| #[trigger] timing_stored(m, key, x, now, ttl);
        TimingState {
            first_ts: x.first_ts,
            count: if x.count < 0xffff_ffffu32 {
                (x.count + 1) as u32
            } else {
                x.count
            },
            min_delta: if latency < x.min_delta {
                latency
            } else {
                x.min_delta
            },
            max_delta: if latency > x.max_delta {
                latency
            } else {
                x.max_delta
            },
        }
    } else {
        TimingState { first_ts: now, count: 1, min_delta: latency, max_delta: latency }
    }
}

/// Record this solve's latency in the flow's timing history and test
/// machine-regularity: with a full window of recent latencies whose
/// spread stays under the threshold, the submission reads as too
/// regular. History entries beyond the TTL are dropped on write. On a
/// store that answers, the stored record and the verdict are exact.
pub fn timing_too_regular<S: KeyValueStore>(
    store: &mut S,
    flow_id: &str,
    bucket: &str,
    latency: u64,
    now: u64,
    regularity_window: u32,
    regularity_spread: u64,
    history_ttl: u64,
) -> (r: bool)
    requires
        old(store).inv(),
    ensures
        final(store).inv(),
        final(store).reliable() == old(store).reliable(),
        old(store).reliable() ==> {
            let key = "timing:"@ + flow_id@ + ":"@ + bucket@;
            let next = spec_timing_after(old(store).kv(), key, latency, now, history_ttl);
            &&& r == (next.count >= regularity_window && next.max_delta - next.min_delta
                < regularity_spread)
            &&& final(store).kv() == old(store).kv().insert(key, timing_state_bytes(next))
        },
{
    let mut key = "timing:".to_owned();
    key.append(flow_id);
    key.append(":");
    key.append(bucket);
    assert(key@ =~= "timing:"@ + flow_id@ + ":"@ + bucket@);
    let ghost gkey = "timing:"@ + flow_id@ + ":"@ + bucket@;
    let mut state = TimingState { first_ts: now, count: 0, min_delta: latency, max_delta: latency };
    let mut kept = false;
    match store.get(key.as_str()) {
        Ok(Some(raw)) => {
            match decode_timing_state_bytes(raw.as_slice()) {
                Some(s) => {
                    proof {
                        if old(store).reliable() {
                            assert(old(store).kv()[gkey] == timing_state_bytes(s));
                            assert forall|x: TimingState|
                                timing_stored(old(store).kv(), gkey, x, now, history_ttl)
                                implies timing_state_fields(x) == timing_state_fields(s) by {
                                assert(raw@ == timing_state_bytes(x));
                            }
                        }
                    }
                    let age = if now > s.first_ts {
                        now - s.first_ts
                    } else {
                        0
                    };
                    if age <= history_ttl {
                        proof {
                            if old(store).reliable() {
                                assert(timing_stored(
                                    old(store).kv(),
                                    gkey,
                                    s,
                                    now,
                                    history_ttl,
                                ));
                            }
                        }
                        state = s;
                        kept = true;
                    } else {
                        proof {
                            if old(store).reliable() {
                                assert forall|x: TimingState|
                                    timing_stored(old(store).kv(), gkey, x, now, history_ttl)
                                    implies false by {
                                    assert(timing_state_fields(x) == timing_state_fields(s));
                                    assert(timing_state_fields(x)[0]
                                        == timing_state_fields(s)[0]);
                                    assert(x.first_ts == s.first_ts);
                                }
                            }
                        }
                    }
                },
                None => {
                    proof {
                        if old(store).reliable() {
                            assert forall|x: TimingState|
                                timing_stored(old(store).kv(), gkey, x, now, history_ttl)
                                implies false by {
                                assert(raw@ == timing_state_bytes(x));
                            }
                        }
                    }
                },
            }
        },
        _ => {
            proof {
                if old(store).reliable() {
                    assert(!old(store).kv().contains_key(gkey));
                }
            }
        },
    }
    proof {
        if old(store).reliable() {
            if kept {
                let w = choose|x: TimingState|
                    #[trigger] timing_stored(old(store).kv(), gkey, x, now, history_ttl);
                assert(timing_state_fields(w) == timing_state_fields(state));
                assert(timing_state_fields(w)[0] == timing_state_fields(state)[0]);
                assert(timing_state_fields(w)[1] == timing_state_fields(state)[1]);
                assert(timing_state_fields(w)[2] == timing_state_fields(state)[2]);
                assert(timing_state_fields(w)[3] == timing_state_fields(state)[3]);
                assert(w.first_ts == state.first_ts);
                assert(w.count as u64 == state.count as u64);
                assert(w.min_delta == state.min_delta);
                assert(w.max_delta == state.max_delta);
            } else {
                assert(!(exists|x: TimingState|
                    #[trigger] timing_stored(old(store).kv(), gkey, x, now, history_ttl)));
            }
        }
    }
    state.count = if state.count < 0xffff_ffffu32 {
        state.count + 1
    } else {
        state.count
    };
    if latency < state.min_delta {
        state.min_delta = latency;
    }
    if latency > state.max_delta {
        state.max_delta = latency;
    }
    let raw = encode_timing_state_bytes(&state);
    let outcome = store.set(key.as_str(), raw.as_slice());
    proof {
        if old(store).reliable() {
            assert(outcome is Ok);
            let next = spec_timing_after(old(store).kv(), gkey, latency, now, history_ttl);
            assert(next.first_ts == state.first_ts && next.count == state.count
                && next.min_delta == state.min_delta && next.max_delta == state.max_delta);
            assert(final(store).kv() == old(store).kv().insert(gkey, raw@));
        }
    }
    let spread = state.max_delta - state.min_delta;
    state.count >= regularity_window as u32 && spread < regularity_spread
}

} // verus!
