//! Fingerprint signal extraction: header, transport, temporal,
//! persistence and behavior evidence folded into typed bot signals.

use vstd::prelude::*;

use crate::botness::{BotSignal, SignalFamily, SignalProvenance};
use crate::json::{
    encode_fields, fields_view, json_of, lemma_json_round_trip, lemma_parse_json_sound,
    parse_fields, plain_char, plain_str, spec_parse_json, valid_fields, JFieldV, JVal, JValV,
};
use crate::kv::KeyValueStore;
use crate::text::{contains_seq, lower_seq, str_contains, str_eq, string_push, to_ascii_lower};

verus! {

/// What the signal pipeline reads from one request: raw header values
/// and cookie presence, handed in as plain values.
pub struct RequestEvidence {
    pub user_agent: String,
    pub sec_ch_ua: String,
    pub sec_ch_ua_mobile: String,
    pub edge_ja3: String,
    pub edge_ja4: String,
    pub edge_browser_family: String,
    pub edge_score_high: bool,
    pub edge_score_present: bool,
    pub has_js_verified_cookie: bool,
    pub has_persistence_cookie: bool,
}

/// The canonical browser families.
pub open spec fn family_of(lower: Seq<char>) -> Seq<char> {
    if contains_seq(lower, "edg/"@) || contains_seq(lower, "edge"@) {
        "edge"@
    } else if contains_seq(lower, "chrome"@) || contains_seq(lower, "chromium"@) || contains_seq(
        lower,
        "crios"@,
    ) {
        "chrome"@
    } else if contains_seq(lower, "firefox"@) || contains_seq(lower, "fxios"@) {
        "firefox"@
    } else if contains_seq(lower, "safari"@) {
        "safari"@
    } else {
        "other"@
    }
}

/// Normalize a raw browser token to its family label.
pub fn normalize_browser_family(raw: &str) -> (r: String)
    ensures
        r@ == family_of(lower_seq(raw@)),
{
    let lower = to_ascii_lower(raw);
    if str_contains(lower.as_str(), "edg/") || str_contains(lower.as_str(), "edge") {
        "edge".to_owned()
    } else if str_contains(lower.as_str(), "chrome") || str_contains(lower.as_str(), "chromium")
        || str_contains(lower.as_str(), "crios") {
        "chrome".to_owned()
    } else if str_contains(lower.as_str(), "firefox") || str_contains(lower.as_str(), "fxios") {
        "firefox".to_owned()
    } else if str_contains(lower.as_str(), "safari") {
        "safari".to_owned()
    } else {
        "other".to_owned()
    }
}

/// The client-hint mobile flag: `?1` claims mobile, `?0` denies it,
/// anything else says nothing.
pub open spec fn spec_mobile_hint(raw: Seq<char>) -> Option<bool> {
    if raw == "?1"@ {
        Some(true)
    } else if raw == "?0"@ {
        Some(false)
    } else {
        None
    }
}

/// Read the client-hint mobile flag.
pub fn bool_from_client_hint_mobile(raw: &str) -> (r: Option<bool>)
    ensures
        r == spec_mobile_hint(raw@),
        raw@ == "?1"@ ==> r == Some(true),
        raw@ == "?0"@ ==> r == Some(false),
{
    proof {
        reveal_strlit("?1");
        reveal_strlit("?0");
        assert(("?1"@)[1] == '1' && ("?0"@)[1] == '0');
        assert("?1"@ != "?0"@);
    }
    if str_eq(raw, "?1") {
        Some(true)
    } else if str_eq(raw, "?0") {
        Some(false)
    } else {
        None
    }
}

/// A character of the transport token alphabet.
pub open spec fn token_char(c: char) -> bool {
    ||| ('a' <= c && c <= 'z')
    ||| ('A' <= c && c <= 'Z')
    ||| ('0' <= c && c <= '9')
    ||| c == '-'
    ||| c == '_'
    ||| c == ':'
}

/// The kept form of a transport token: the lower-cased text when it is
/// nonempty, short and made of the token alphabet, nothing otherwise.
pub open spec fn spec_sanitized_token(v: Seq<char>) -> Option<Seq<char>> {
    if 1 <= v.len() <= 256 && (forall|i: int| 0 <= i < v.len() ==> token_char(#[trigger] v[i])) {
        Some(crate::text::lower_seq(v))
    } else {
        None
    }
}

/// Keep a transport token only when it is short and made of the token
/// alphabet; the kept form is lower-cased.
pub fn sanitize_transport_token(value: &str) -> (r: Option<String>)
    ensures
        r matches Some(s) ==> s@.len() <= 256,
        r matches Some(s) ==> spec_sanitized_token(value@) == Some(s@),
        r is None ==> spec_sanitized_token(value@) is None,
{
    let len = value.unicode_len();
    if len == 0 || len > 256 {
        return None;
    }
    let mut i: usize = 0;
    while i < len
        invariant
            0 <= i <= len,
            len == value@.len(),
            1 <= len <= 256,
            forall|k: int| 0 <= k < i ==> token_char(#[trigger] value@[k]),
        decreases len - i,
    {
        let c = value.get_char(i);
        let ok = (c >= 'a' && c <= 'z') || (c >= 'A' && c <= 'Z') || (c >= '0' && c <= '9') || c
            == '-' || c == '_' || c == ':';
        if !ok {
            proof {
                assert(!token_char(value@[i as int]));
            }
            return None;
        }
        i = i + 1;
    }
    let lowered = to_ascii_lower(value);
    let out = crate::crypto::str_take(lowered.as_str(), 256);
    proof {
        assert(crate::text::lower_seq(value@).len() == value@.len());
        assert(out@ == crate::text::lower_seq(value@));
    }
    Some(out)
}

/// Whether the user agent and the client hints disagree: the hint
/// claims a different family, or the mobile flag contradicts the
/// user-agent shape.
pub open spec fn spec_ua_ch_mismatch(ua: Seq<char>, sec_ch_ua: Seq<char>, sec_ch_ua_mobile: Seq<char>) -> bool {
    let fam = family_of(crate::text::lower_seq(ua));
    let ch = crate::text::lower_seq(sec_ch_ua);
    let ualow = crate::text::lower_seq(ua);
    let family_mismatch = if ch.len() == 0 {
        false
    } else if fam == "chrome"@ {
        !crate::text::contains_seq(ch, "chrom"@)
    } else if fam == "firefox"@ {
        !crate::text::contains_seq(ch, "firefox"@)
    } else if fam == "safari"@ {
        !crate::text::contains_seq(ch, "safari"@)
    } else if fam == "edge"@ {
        !(crate::text::contains_seq(ch, "edge"@) || crate::text::contains_seq(ch, "edg"@))
    } else {
        false
    };
    let mobile_mismatch = match spec_mobile_hint(sec_ch_ua_mobile) {
        Some(true) => !crate::text::contains_seq(ualow, "mobile"@) && !crate::text::contains_seq(
            ualow,
            "android"@,
        ),
        Some(false) => crate::text::contains_seq(ualow, "mobile"@) && !crate::text::contains_seq(
            ualow,
            "ipad"@,
        ),
        None => false,
    };
    family_mismatch || mobile_mismatch
}

/// Test the user agent against its client hints.
pub fn detect_ua_client_hint_mismatch(evidence: &RequestEvidence) -> (r: bool)
    ensures
        r == spec_ua_ch_mismatch(
            evidence.user_agent@,
            evidence.sec_ch_ua@,
            evidence.sec_ch_ua_mobile@,
        ),
{
    let ua_family = normalize_browser_family(evidence.user_agent.as_str());
    let ch_ua = to_ascii_lower(evidence.sec_ch_ua.as_str());
    let ua_raw = to_ascii_lower(evidence.user_agent.as_str());
    let family_mismatch = if ch_ua.as_str().unicode_len() == 0 {
        false
    } else if str_eq(ua_family.as_str(), "chrome") {
        !str_contains(ch_ua.as_str(), "chrom")
    } else if str_eq(ua_family.as_str(), "firefox") {
        !str_contains(ch_ua.as_str(), "firefox")
    } else if str_eq(ua_family.as_str(), "safari") {
        !str_contains(ch_ua.as_str(), "safari")
    } else if str_eq(ua_family.as_str(), "edge") {
        !(str_contains(ch_ua.as_str(), "edge") || str_contains(ch_ua.as_str(), "edg"))
    } else {
        false
    };
    let mobile_mismatch = match bool_from_client_hint_mobile(
        evidence.sec_ch_ua_mobile.as_str(),
    ) {
        Some(true) => !str_contains(ua_raw.as_str(), "mobile") && !str_contains(
            ua_raw.as_str(),
            "android",
        ),
        Some(false) => str_contains(ua_raw.as_str(), "mobile") && !str_contains(
            ua_raw.as_str(),
            "ipad",
        ),
        None => false,
    };
    family_mismatch || mobile_mismatch
}

/// Whether trusted edge transport evidence names a family inconsistent
/// with the user agent: both sides name a known family and they differ.
pub open spec fn spec_transport_family_mismatch(
    ua_family: Seq<char>,
    edge_family_raw: Seq<char>,
) -> bool {
    &&& edge_family_raw.len() > 0
    &&& family_of(crate::text::lower_seq(edge_family_raw)) != "other"@
    &&& ua_family != "other"@
    &&& family_of(crate::text::lower_seq(edge_family_raw)) != ua_family
}

/// Test the user agent's family against the edge transport family.
pub fn ua_transport_family_mismatch(ua_family: &str, edge_family_raw: &str) -> (r: bool)
    ensures
        r == spec_transport_family_mismatch(ua_family@, edge_family_raw@),
{
    if edge_family_raw.unicode_len() == 0 {
        return false;
    }
    let edge_family = normalize_browser_family(edge_family_raw);
    !str_eq(edge_family.as_str(), "other") && !str_eq(ua_family, "other") && !str_eq(
        edge_family.as_str(),
        ua_family,
    )
}

/// FingerprintState record carried through the canonical JSON codec.
#[derive(Clone)]
pub struct FingerprintState {
    pub ts: u64,
    pub ua_family: String,
    pub ja4_hash: String,
}

/// The field list that encodes a FingerprintState.
pub open spec fn fp_state_fields(x: FingerprintState) -> Seq<JFieldV> {
    seq![
        ("ts"@, JValV::N(x.ts as u64)),
        ("ua_family"@, JValV::S(x.ua_family@)),
        ("ja4_hash"@, JValV::S(x.ja4_hash@)),
    ]
}

/// String fields fit for the codec.
pub open spec fn fp_state_plain(x: FingerprintState) -> bool {
    plain_str(x.ua_family@) && plain_str(x.ja4_hash@)
}

proof fn lemma_fp_state_keys_plain()
    ensures
        plain_str("ts"@),
        plain_str("ua_family"@),
        plain_str("ja4_hash"@),
{
    reveal_strlit("ts");
    assert(("ts"@).len() == 2);
    assert forall|i: int| 0 <= i < ("ts"@).len() implies plain_char(("ts"@)[i]) by {
        let s = "ts"@;
        assert(plain_char(s[0]));
        assert(plain_char(s[1]));
    }
    reveal_strlit("ua_family");
    assert(("ua_family"@).len() == 9);
    assert forall|i: int| 0 <= i < ("ua_family"@).len() implies plain_char(("ua_family"@)[i]) by {
        let s = "ua_family"@;
        assert(plain_char(s[0]));
        assert(plain_char(s[1]));
        assert(plain_char(s[2]));
        assert(plain_char(s[3]));
        assert(plain_char(s[4]));
        assert(plain_char(s[5]));
        assert(plain_char(s[6]));
        assert(plain_char(s[7]));
        assert(plain_char(s[8]));
    }
    reveal_strlit("ja4_hash");
    assert(("ja4_hash"@).len() == 8);
    assert forall|i: int| 0 <= i < ("ja4_hash"@).len() implies plain_char(("ja4_hash"@)[i]) by {
        let s = "ja4_hash"@;
        assert(plain_char(s[0]));
        assert(plain_char(s[1]));
        assert(plain_char(s[2]));
        assert(plain_char(s[3]));
        assert(plain_char(s[4]));
        assert(plain_char(s[5]));
        assert(plain_char(s[6]));
        assert(plain_char(s[7]));
    }
}

/// A plain FingerprintState yields a field list fit for encoding.
pub proof fn lemma_fp_state_fields_valid(x: FingerprintState)
    requires
        fp_state_plain(x),
    ensures
        valid_fields(fp_state_fields(x)),
{
    lemma_fp_state_keys_plain();
    let fs = fp_state_fields(x);
    assert forall|i: int| 0 <= i < fs.len() implies {
        &&& plain_str((#[trigger] fs[i]).0)
        &&& (fs[i].1 matches JValV::S(v) ==> plain_str(v))
    } by {
        if i == 0 {
            assert(fs[0].0 == "ts"@);
        } else if i == 1 {
            assert(fs[1].0 == "ua_family"@);
            assert(fs[1].1 == JValV::S(x.ua_family@));
        } else if i == 2 {
            assert(fs[2].0 == "ja4_hash"@);
            assert(fs[2].1 == JValV::S(x.ja4_hash@));
        }
    }
}

/// Lay a FingerprintState out as its field list.
pub fn fp_state_to_fields(x: &FingerprintState) -> (r: Vec<(String, JVal)>)
    ensures
        fields_view(r@) == fp_state_fields(*x),
{
    let mut v: Vec<(String, JVal)> = Vec::new();
    v.push(("ts".to_owned(), JVal::N(x.ts as u64)));
    v.push(("ua_family".to_owned(), JVal::S(x.ua_family.clone())));
    v.push(("ja4_hash".to_owned(), JVal::S(x.ja4_hash.clone())));
    proof {
        assert(fields_view(v@).len() == 3);
        assert(fields_view(v@)[0] == fp_state_fields(*x)[0]);
        assert(fields_view(v@)[1] == fp_state_fields(*x)[1]);
        assert(fields_view(v@)[2] == fp_state_fields(*x)[2]);
        assert(fields_view(v@) =~= fp_state_fields(*x));
    }
    v
}

/// Read a FingerprintState back from a parsed field list; the list must
/// carry exactly the expected keys, kinds and ranges.
pub fn fp_state_from_fields(v: &Vec<(String, JVal)>) -> (r: Option<FingerprintState>)
    ensures
        r matches Some(x) ==> fields_view(v@) == fp_state_fields(x),
        r is None ==> (forall|x: FingerprintState| fields_view(v@) != #[trigger] fp_state_fields(x)),
{
    if v.len() != 3 {
        proof {
            assert forall|x: FingerprintState| fields_view(v@) != #[trigger] fp_state_fields(x) by {
                assert(fp_state_fields(x).len() == 3);
            }
        }
        return None;
    }
    if !str_eq(v[0].0.as_str(), "ts") {
        proof {
            assert forall|x: FingerprintState| fields_view(v@) != #[trigger] fp_state_fields(x) by {
                if fields_view(v@) == fp_state_fields(x) {
                    assert(fields_view(v@)[0] == fp_state_fields(x)[0]);
                    assert(false);
                }
            }
        }
        return None;
    }
    let n_ts: u64 = match &v[0].1 {
        JVal::N(n) => *n,
        JVal::S(s) => {
        proof {
            assert forall|x: FingerprintState| fields_view(v@) != #[trigger] fp_state_fields(x) by {
                if fields_view(v@) == fp_state_fields(x) {
                    assert(fields_view(v@)[0] == fp_state_fields(x)[0]);
                    assert(false);
                }
            }
        }
        return None;
        },
    };
    let f_ts: u64 = n_ts;
    if !str_eq(v[1].0.as_str(), "ua_family") {
        proof {
            assert forall|x: FingerprintState| fields_view(v@) != #[trigger] fp_state_fields(x) by {
                if fields_view(v@) == fp_state_fields(x) {
                    assert(fields_view(v@)[1] == fp_state_fields(x)[1]);
                    assert(false);
                }
            }
        }
        return None;
    }
    let f_ua_family: String = match &v[1].1 {
        JVal::S(s) => s.clone(),
        JVal::N(n) => {
        proof {
            assert forall|x: FingerprintState| fields_view(v@) != #[trigger] fp_state_fields(x) by {
                if fields_view(v@) == fp_state_fields(x) {
                    assert(fields_view(v@)[1] == fp_state_fields(x)[1]);
                    assert(false);
                }
            }
        }
        return None;
        },
    };
    if !str_eq(v[2].0.as_str(), "ja4_hash") {
        proof {
            assert forall|x: FingerprintState| fields_view(v@) != #[trigger] fp_state_fields(x) by {
                if fields_view(v@) == fp_state_fields(x) {
                    assert(fields_view(v@)[2] == fp_state_fields(x)[2]);
                    assert(false);
                }
            }
        }
        return None;
    }
    let f_ja4_hash: String = match &v[2].1 {
        JVal::S(s) => s.clone(),
        JVal::N(n) => {
        proof {
            assert forall|x: FingerprintState| fields_view(v@) != #[trigger] fp_state_fields(x) by {
                if fields_view(v@) == fp_state_fields(x) {
                    assert(fields_view(v@)[2] == fp_state_fields(x)[2]);
                    assert(false);
                }
            }
        }
        return None;
        },
    };
    let x = FingerprintState {
        ts: f_ts,
        ua_family: f_ua_family,
        ja4_hash: f_ja4_hash,
    };
    proof {
        assert(fields_view(v@).len() == 3);
        assert(fields_view(v@)[0] == fp_state_fields(x)[0]);
        assert(fields_view(v@)[1] == fp_state_fields(x)[1]);
        assert(fields_view(v@)[2] == fp_state_fields(x)[2]);
        assert(fields_view(v@) =~= fp_state_fields(x));
    }
    Some(x)
}

/// A field list fit for encoding has plain string fields.
pub proof fn lemma_fp_state_fields_plain(x: FingerprintState)
    requires
        valid_fields(fp_state_fields(x)),
    ensures
        fp_state_plain(x),
{
    let fs = fp_state_fields(x);
    assert(fs[1].1 == JValV::S(x.ua_family@));
    assert(fs[2].1 == JValV::S(x.ja4_hash@));
}

/// The canonical encoding of a FingerprintState.
pub open spec fn fp_state_json(x: FingerprintState) -> Seq<char> {
    json_of(fp_state_fields(x))
}

/// Render a FingerprintState in its canonical form.
pub fn encode_fp_state(x: &FingerprintState) -> (r: String)
    ensures
        r@ == fp_state_json(*x),
{
    let fs = fp_state_to_fields(x);
    encode_fields(&fs)
}

/// Parse a FingerprintState from its canonical form: the encoding of a
/// plain record parses back to a record with the same fields.
pub fn decode_fp_state(s: &str) -> (r: Option<FingerprintState>)
    ensures
        r matches Some(x) ==> spec_parse_json(s@) == Some(fp_state_fields(x))
            && s@ == fp_state_json(x) && fp_state_plain(x),
        forall|x0: FingerprintState| fp_state_plain(x0) && s@ == fp_state_json(x0)
            ==> (r matches Some(x) && fp_state_fields(x) == fp_state_fields(x0)),
{
    let parsed = parse_fields(s);
    match parsed {
        None => {
            proof {
                assert forall|x0: FingerprintState| fp_state_plain(x0) && s@ == fp_state_json(x0)
                    implies false by {
                    lemma_fp_state_fields_valid(x0);
                    lemma_json_round_trip(fp_state_fields(x0));
                }
            }
            None
        },
        Some(v) => {
            match fp_state_from_fields(&v) {
                None => {
                    proof {
                        assert forall|x0: FingerprintState| fp_state_plain(x0) && s@ == fp_state_json(x0)
                            implies false by {
                            lemma_fp_state_fields_valid(x0);
                            lemma_json_round_trip(fp_state_fields(x0));
                            assert(fields_view(v@) == fp_state_fields(x0));
                        }
                    }
                    None
                },
                Some(x) => {
                    proof {
                        lemma_parse_json_sound(s@);
                        lemma_fp_state_fields_plain(x);
                        assert forall|x0: FingerprintState| fp_state_plain(x0) && s@ == fp_state_json(x0)
                            implies fp_state_fields(x) == fp_state_fields(x0) by {
                            lemma_fp_state_fields_valid(x0);
                            lemma_json_round_trip(fp_state_fields(x0));
                            assert(fields_view(v@) == fp_state_fields(x0));
                        }
                    }
                    Some(x)
                },
            }
        },
    }
}

/// The stored byte form of a FingerprintState.
pub open spec fn fp_state_bytes(x: FingerprintState) -> Seq<u8> {
    vstd::utf8::encode_utf8(fp_state_json(x))
}

/// Render a FingerprintState as its stored bytes.
pub fn encode_fp_state_bytes(x: &FingerprintState) -> (r: Vec<u8>)
    ensures
        r@ == fp_state_bytes(*x),
{
    let s = encode_fp_state(x);
    let b = s.as_str().as_bytes();
    vstd::slice::slice_to_vec(b)
}

/// Parse a FingerprintState from stored bytes; the bytes written by
/// the encoder always parse back to the same fields.
pub fn decode_fp_state_bytes(v: &[u8]) -> (r: Option<FingerprintState>)
    ensures
        r matches Some(x) ==> v@ == fp_state_bytes(x) && fp_state_plain(x),
        forall|x0: FingerprintState| fp_state_plain(x0) && v@ == #[trigger] fp_state_bytes(x0)
            ==> (r matches Some(x) && fp_state_fields(x) == fp_state_fields(x0)),
{
    let owned = vstd::slice::slice_to_vec(v);
    let s = match crate::crypto::string_from_utf8(owned) {
        Ok(s) => s,
        Err(_) => {
            return None;
        },
    };
    match decode_fp_state(s.as_str()) {
        Some(x) => {
            proof {
                assert forall|x0: FingerprintState| fp_state_plain(x0) && v@ == #[trigger] fp_state_bytes(x0)
                    implies fp_state_fields(x) == fp_state_fields(x0) by {
                    assert(s@ == fp_state_json(x0));
                }
            }
            Some(x)
        },
        None => {
            proof {
                assert forall|x0: FingerprintState| fp_state_plain(x0) && v@ == #[trigger] fp_state_bytes(x0)
                    implies false by {
                    assert(s@ == fp_state_json(x0));
                }
            }
            None
        },
    }
}

/// The pseudonymized identity: a digest prefix when enabled, the
/// sanitized address otherwise.
/// The identity the fingerprint state is keyed by: the sanitized
/// address, or its salted digest prefix when pseudonymizing.
pub open spec fn flow_identity_of(ip: Seq<char>, pseudonymize: bool, secret: Seq<char>) -> Seq<
    char,
> {
    if !pseudonymize {
        crate::buckets::sanitized_of(ip)
    } else {
        crate::crypto::take_chars(
            crate::crypto::digest_of(vstd::utf8::encode_utf8(secret + "|"@ + ip)),
            24,
        )
    }
}

pub fn flow_identity(ip: &str, pseudonymize: bool, fingerprint_secret: &str) -> (r: String)
    ensures
        r@ == flow_identity_of(ip@, pseudonymize, fingerprint_secret@),
        !pseudonymize ==> r@ == crate::buckets::sanitized_of(ip@),
{
    if !pseudonymize {
        return crate::buckets::sanitize_addr(ip);
    }
    let mut input = fingerprint_secret.to_owned();
    input.append("|");
    input.append(ip);
    assert(input@ =~= fingerprint_secret@ + "|"@ + ip@);
    let digest = crate::crypto::digest_hex(input.as_str());
    crate::crypto::str_take(digest.as_str(), 24)
}

/// The fingerprint state key for an identity.
pub fn fp_state_key(identity: &str) -> (r: String)
    ensures
        r@ == "fp:state:"@ + identity@,
{
    let mut out = "fp:state:".to_owned();
    out.append(identity);
    assert(out@ =~= "fp:state:"@ + identity@);
    out
}

/// Whether `key` holds the fingerprint record `x`.
pub open spec fn fp_state_stored(m: crate::kv::KvMap, key: Seq<char>, x: FingerprintState) -> bool {
    &&& fp_state_plain(x)
    &&& m.contains_key(key)
    &&& m[key] == fp_state_bytes(x)
}

/// Load the stored fingerprint state for an identity; on a store that
/// answers, exactly the stored record, when one decodes.
pub fn load_state<S: KeyValueStore>(store: &S, identity: &str) -> (r: Option<FingerprintState>)
    requires
        store.inv(),
    ensures
        store.reliable() ==> (r matches Some(s) ==> (fp_state_stored(
            store.kv(),
            "fp:state:"@ + identity@,
            s,
        ) && (forall|x: FingerprintState|
            fp_state_stored(store.kv(), "fp:state:"@ + identity@, x) ==> fp_state_fields(x)
                == fp_state_fields(s)))),
        store.reliable() ==> (r is None ==> !(exists|x: FingerprintState|
            fp_state_stored(store.kv(), "fp:state:"@ + identity@, x))),
{
    let key = fp_state_key(identity);
    let ghost gkey = "fp:state:"@ + identity@;
    let raw = match store.get(key.as_str()) {
        Ok(Some(v)) => v,
        _ => {
            proof {
                if store.reliable() {
                    assert(!store.kv().contains_key(gkey));
                }
            }
            return None;
        },
    };
    let decoded = decode_fp_state_bytes(raw.as_slice());
    proof {
        if store.reliable() {
            match &decoded {
                Some(s) => {
                    assert(store.kv()[gkey] == fp_state_bytes(*s));
                    assert(fp_state_stored(store.kv(), gkey, *s));
                    assert forall|x: FingerprintState|
                        fp_state_stored(store.kv(), gkey, x) implies fp_state_fields(x)
                        == fp_state_fields(*s) by {
                        assert(raw@ == fp_state_bytes(x));
                    }
                },
                None => {
                    assert forall|x: FingerprintState|
                        fp_state_stored(store.kv(), gkey, x) implies false by {
                        assert(raw@ == fp_state_bytes(x));
                    }
                },
            }
        }
    }
    decoded
}

/// Store the fingerprint state for an identity.
pub fn store_state<S: KeyValueStore>(store: &mut S, identity: &str, state: &FingerprintState)
    requires
        old(store).inv(),
    ensures
        final(store).inv(),
        final(store).reliable() == old(store).reliable(),
        old(store).reliable() ==> final(store).kv() == old(store).kv().insert(
            "fp:state:"@ + identity@,
            fp_state_bytes(*state),
        ),
{
    let key = fp_state_key(identity);
    let raw = encode_fp_state_bytes(state);
    let outcome = store.set(key.as_str(), raw.as_slice());
    proof {
        if old(store).reliable() {
            assert(outcome is Ok);
        }
    }
}

/// Whether a prior observation makes the current one a temporally
/// impossible transition: a different family inside the window (unless
/// either side is the unknown family), or a different JA4 hash under
/// the same family inside half the window.
pub open spec fn spec_temporal_impossible(
    p: FingerprintState,
    now: u64,
    window_seconds: u64,
    fam: Seq<char>,
    ja4: Seq<char>,
) -> bool {
    let age: int = if now > p.ts {
        now - p.ts
    } else {
        0
    };
    let half: int = if window_seconds / 2 == 0 {
        1
    } else {
        (window_seconds / 2) as int
    };
    &&& age <= window_seconds
    &&& {
        ||| (p.ua_family@ != fam && p.ua_family@ != "other"@ && fam != "other"@)
        ||| (p.ja4_hash@.len() > 0 && ja4.len() > 0 && p.ja4_hash@ != ja4 && age <= half
            && p.ua_family@ == fam)
    }
}

/// Test the prior state against the current observation.
pub fn temporal_transition_impossible(
    prior: Option<&FingerprintState>,
    now: u64,
    window_seconds: u64,
    current_ua_family: &str,
    current_ja4_hash: &str,
) -> (r: bool)
    ensures
        prior is None ==> !r,
        prior matches Some(p) ==> r == spec_temporal_impossible(
            *p,
            now,
            window_seconds,
            current_ua_family@,
            current_ja4_hash@,
        ),
{
    let p = match prior {
        Some(p) => p,
        None => {
            return false;
        },
    };
    let age = if now > p.ts {
        now - p.ts
    } else {
        0
    };
    if age > window_seconds {
        return false;
    }
    if !str_eq(p.ua_family.as_str(), current_ua_family) && !str_eq(p.ua_family.as_str(), "other")
        && !str_eq(current_ua_family, "other") {
        return true;
    }
    let half = if window_seconds / 2 == 0 {
        1
    } else {
        window_seconds / 2
    };
    if p.ja4_hash.as_str().unicode_len() > 0 && current_ja4_hash.unicode_len() > 0 && !str_eq(
        p.ja4_hash.as_str(),
        current_ja4_hash,
    ) && age <= half && str_eq(p.ua_family.as_str(), current_ua_family) {
        return true;
    }
    false
}

/// The per-window mismatch counter key: identity and window bucket.
pub open spec fn flow_counter_key_of(identity: Seq<char>, now: u64, window_seconds: u64) -> Seq<
    char,
> {
    let w: u64 = if window_seconds == 0 {
        1u64
    } else {
        window_seconds
    };
    "fp:flow:"@ + identity + ":"@ + crate::text::dec_of((now / w) as nat)
}

/// Count one flow-window observation: a rolled-over window drops the
/// stale bucket, and a mismatch raises the current bucket's counter.
/// The counter after this observation comes back, and on a store that
/// answers it is exactly what the window's counter key holds
/// afterwards; a counted mismatch always reports at least one.
pub fn update_flow_mismatch_count<S: KeyValueStore>(
    store: &mut S,
    identity: &str,
    now: u64,
    window_seconds: u64,
    mismatch_observed: bool,
) -> (r: u64)
    requires
        old(store).inv(),
    ensures
        final(store).inv(),
        final(store).reliable() == old(store).reliable(),
        mismatch_observed ==> r >= 1,
        old(store).reliable() ==> r == crate::text::counter_of(
            final(store).kv(),
            flow_counter_key_of(identity@, now, window_seconds),
        ),
{
    let safe_window = if window_seconds == 0 {
        1
    } else {
        window_seconds
    };
    let bucket = now / safe_window;
    let mut counter_key = "fp:flow:".to_owned();
    counter_key.append(identity);
    counter_key.append(":");
    crate::text::push_u64(&mut counter_key, bucket);
    assert(counter_key@ =~= flow_counter_key_of(identity@, now, window_seconds));
    let ghost ck = flow_counter_key_of(identity@, now, window_seconds);
    let mut last_bucket_key = "fp:flow:last_bucket:".to_owned();
    last_bucket_key.append(identity);
    let prior_bucket = match store.get(last_bucket_key.as_str()) {
        Ok(Some(raw)) => crate::text::parse_u64_bytes(raw.as_slice()),
        _ => None,
    };
    match prior_bucket {
        Some(pb) => {
            if pb != bucket {
                let mut stale_key = "fp:flow:".to_owned();
                stale_key.append(identity);
                stale_key.append(":");
                crate::text::push_u64(&mut stale_key, pb);
                let _ = store.delete(stale_key.as_str());
            }
        },
        None => {},
    }
    let bucket_bytes = crate::text::u64_to_dec_bytes(bucket);
    let _ = store.set(last_bucket_key.as_str(), bucket_bytes.as_slice());
    let read = store.get(counter_key.as_str());
    let mut count: u64 = match &read {
        Ok(Some(raw)) => match crate::text::parse_u64_bytes(raw.as_slice()) {
            Some(n) => n,
            None => 0,
        },
        _ => 0,
    };
    proof {
        if old(store).reliable() {
            assert(read is Ok);
            assert(count == crate::text::counter_of(store.kv(), ck));
        }
    }
    if mismatch_observed {
        count = if count < u64::MAX {
            count + 1
        } else {
            count
        };
        let count_bytes = crate::text::u64_to_dec_bytes(count);
        let outcome = store.set(counter_key.as_str(), count_bytes.as_slice());
        proof {
            if old(store).reliable() {
                assert(outcome is Ok);
                crate::text::lemma_dec_bytes_round_trip(count as nat);
                assert(final(store).kv()[ck] == crate::text::dec_bytes_of(count as nat));
                assert(count == crate::text::counter_of(final(store).kv(), ck));
            }
        }
    }
    count
}

/// The six fingerprint signals in their stable order: key, label and
/// family.
pub fn fingerprint_signal_catalog() -> (r: Vec<(&'static str, &'static str, SignalFamily)>)
    ensures
        r@.len() == 6,
{
    let mut out: Vec<(&'static str, &'static str, SignalFamily)> = Vec::new();
    out.push((
        "fp_ua_ch_mismatch",
        "UA and client-hint mismatch",
        SignalFamily::FingerprintHeaderRuntime,
    ));
    out.push((
        "fp_ua_transport_mismatch",
        "UA and transport browser mismatch",
        SignalFamily::FingerprintTransport,
    ));
    out.push((
        "fp_temporal_transition",
        "Impossible short-window fingerprint transition",
        SignalFamily::FingerprintTemporal,
    ));
    out.push((
        "fp_flow_violation",
        "Flow-window mismatch threshold exceeded",
        SignalFamily::FingerprintBehavior,
    ));
    out.push((
        "fp_persistence_marker_missing",
        "Expected persistence marker missing",
        SignalFamily::FingerprintPersistence,
    ));
    out.push((
        "fp_untrusted_transport_header",
        "Untrusted transport fingerprint headers present",
        SignalFamily::FingerprintTransport,
    ));
    out
}

/// The six fingerprint signals, in their stable order, switched off.
pub fn disabled_fingerprint_signals() -> (r: Vec<BotSignal>)
    ensures
        r@.len() == 6,
        forall|i: int| 0 <= i < r@.len() ==> !(#[trigger] r@[i]).active && r@[i].contribution == 0
            && r@[i].availability is Disabled,
        r@[0].key@ == "fp_ua_ch_mismatch"@,
        r@[1].key@ == "fp_ua_transport_mismatch"@,
        r@[2].key@ == "fp_temporal_transition"@,
        r@[3].key@ == "fp_flow_violation"@,
        r@[4].key@ == "fp_persistence_marker_missing"@,
        r@[5].key@ == "fp_untrusted_transport_header"@,
{
    let mut out: Vec<BotSignal> = Vec::new();
    out.push(BotSignal::disabled_with_metadata(
        "fp_ua_ch_mismatch",
        "UA and client-hint mismatch",
        SignalProvenance::Internal,
        10,
        SignalFamily::FingerprintHeaderRuntime,
    ));
    out.push(BotSignal::disabled_with_metadata(
        "fp_ua_transport_mismatch",
        "UA and transport browser mismatch",
        SignalProvenance::Internal,
        10,
        SignalFamily::FingerprintTransport,
    ));
    out.push(BotSignal::disabled_with_metadata(
        "fp_temporal_transition",
        "Impossible short-window fingerprint transition",
        SignalProvenance::Internal,
        10,
        SignalFamily::FingerprintTemporal,
    ));
    out.push(BotSignal::disabled_with_metadata(
        "fp_flow_violation",
        "Flow-window mismatch threshold exceeded",
        SignalProvenance::Internal,
        10,
        SignalFamily::FingerprintBehavior,
    ));
    out.push(BotSignal::disabled_with_metadata(
        "fp_persistence_marker_missing",
        "Expected persistence marker missing",
        SignalProvenance::Internal,
        10,
        SignalFamily::FingerprintPersistence,
    ));
    out.push(BotSignal::disabled_with_metadata(
        "fp_untrusted_transport_header",
        "Untrusted transport fingerprint headers present",
        SignalProvenance::Internal,
        10,
        SignalFamily::FingerprintTransport,
    ));
    out
}

/// The stored JA4 hash this observation records: the 16-character
/// digest prefix of the sanitized transport token when the headers
/// are trusted and the token survives sanitizing, the empty text
/// otherwise.
pub open spec fn spec_ja4_hash(edge_ja4: Seq<char>, headers_trusted: bool) -> Seq<char> {
    if headers_trusted && spec_sanitized_token(edge_ja4) is Some {
        crate::crypto::take_chars(
            crate::crypto::digest_of(vstd::utf8::encode_utf8(crate::text::lower_seq(edge_ja4))),
            16,
        )
    } else {
        Seq::empty()
    }
}

/// Whether the prior observation stored under `key` makes the current
/// one a temporally impossible transition.
pub open spec fn spec_stored_transition_impossible(
    m: crate::kv::KvMap,
    key: Seq<char>,
    now: u64,
    window_seconds: u64,
    fam: Seq<char>,
    ja4: Seq<char>,
) -> bool {
    exists|x: FingerprintState|
        #[trigger] fp_state_stored(m, key, x) && spec_temporal_impossible(
            x,
            now,
            window_seconds,
            fam,
            ja4,
        )
}

/// Extract the fingerprint signals for one request, updating the
/// stored per-identity state and flow-window counters along the way.
/// With the pipeline disabled the six signals come back switched off;
/// enabled, each signal's active flag reports its detector.
pub fn collect_bot_signals<S: KeyValueStore>(
    store: &mut S,
    evidence: &RequestEvidence,
    enabled: bool,
    pseudonymize: bool,
    flow_window_seconds: u64,
    flow_violation_threshold: u32,
    fingerprint_secret: &str,
    ip: &str,
    headers_trusted: bool,
    now: u64,
) -> (r: Vec<BotSignal>)
    requires
        old(store).inv(),
    ensures
        final(store).inv(),
        final(store).reliable() == old(store).reliable(),
        !enabled ==> r@.len() == 6 && final(store).kv() == old(store).kv(),
        !enabled ==> (forall|i: int| 0 <= i < r@.len() ==> !(#[trigger] r@[i]).active
            && r@[i].contribution == 0 && r@[i].availability is Disabled),
        enabled ==> 6 <= r@.len() <= 7,
        r@.len() >= 6 ==> (r@[0].key@ == "fp_ua_ch_mismatch"@ && r@[1].key@
            == "fp_ua_transport_mismatch"@ && r@[2].key@ == "fp_temporal_transition"@
            && r@[3].key@ == "fp_flow_violation"@ && r@[4].key@
            == "fp_persistence_marker_missing"@ && r@[5].key@
            == "fp_untrusted_transport_header"@),
        enabled ==> r@[0].active == spec_ua_ch_mismatch(
            evidence.user_agent@,
            evidence.sec_ch_ua@,
            evidence.sec_ch_ua_mobile@,
        ),
        enabled ==> r@[1].active == (headers_trusted && spec_sanitized_token(
            evidence.edge_browser_family@,
        ) is Some && spec_transport_family_mismatch(
            family_of(crate::text::lower_seq(evidence.user_agent@)),
            crate::text::lower_seq(evidence.edge_browser_family@),
        )),
        enabled ==> (r@[4].active ==> evidence.has_js_verified_cookie
            && !evidence.has_persistence_cookie),
        enabled && old(store).reliable() ==> r@[2].active == spec_stored_transition_impossible(
            old(store).kv(),
            "fp:state:"@ + flow_identity_of(ip@, pseudonymize, fingerprint_secret@),
            now,
            flow_window_seconds,
            family_of(crate::text::lower_seq(evidence.user_agent@)),
            spec_ja4_hash(evidence.edge_ja4@, headers_trusted),
        ),
        enabled && old(store).reliable() ==> r@[3].active == (crate::text::counter_of(
            final(store).kv(),
            flow_counter_key_of(
                flow_identity_of(ip@, pseudonymize, fingerprint_secret@),
                now,
                flow_window_seconds,
            ),
        ) >= flow_violation_threshold),
        enabled && old(store).reliable() ==> (exists|x: FingerprintState|
            {
                &&& x.ts == now
                &&& x.ua_family@ == family_of(crate::text::lower_seq(evidence.user_agent@))
                &&& x.ja4_hash@ == spec_ja4_hash(evidence.edge_ja4@, headers_trusted)
                &&& final(store).kv().contains_key(
                    "fp:state:"@ + flow_identity_of(ip@, pseudonymize, fingerprint_secret@),
                )
                &&& final(store).kv()["fp:state:"@ + flow_identity_of(
                    ip@,
                    pseudonymize,
                    fingerprint_secret@,
                )] == #[trigger] fp_state_bytes(x)
            }),
        enabled ==> r@[5].active == (!headers_trusted && (evidence.edge_ja3@.len() > 0
            || evidence.edge_ja4@.len() > 0 || evidence.edge_browser_family@.len() > 0
            || evidence.edge_score_present)),
        enabled ==> (r@.len() == 7 <==> (!headers_trusted && !(evidence.edge_ja3@.len() > 0
            || evidence.edge_ja4@.len() > 0 || evidence.edge_browser_family@.len() > 0
            || evidence.edge_score_present))),
{
    if !enabled {
        return disabled_fingerprint_signals();
    }
    let ghost m0 = store.kv();
    let identity = flow_identity(ip, pseudonymize, fingerprint_secret);
    let ghost gid = flow_identity_of(ip@, pseudonymize, fingerprint_secret@);
    let ghost skey = "fp:state:"@ + gid;
    let ghost famv = family_of(crate::text::lower_seq(evidence.user_agent@));
    let ghost ja4v = spec_ja4_hash(evidence.edge_ja4@, headers_trusted);
    let ua_family = normalize_browser_family(evidence.user_agent.as_str());
    let ja3 = if headers_trusted {
        sanitize_transport_token(evidence.edge_ja3.as_str())
    } else {
        None
    };
    let ja4 = if headers_trusted {
        sanitize_transport_token(evidence.edge_ja4.as_str())
    } else {
        None
    };
    let edge_family = if headers_trusted {
        sanitize_transport_token(evidence.edge_browser_family.as_str())
    } else {
        None
    };
    let untrusted_headers_present = !headers_trusted && (evidence.edge_ja3.as_str().unicode_len()
        > 0 || evidence.edge_ja4.as_str().unicode_len() > 0
        || evidence.edge_browser_family.as_str().unicode_len() > 0
        || evidence.edge_score_present);
    let ua_ch_mismatch = detect_ua_client_hint_mismatch(evidence);
    let ua_transport_mismatch = match &edge_family {
        Some(f) => ua_transport_family_mismatch(ua_family.as_str(), f.as_str()),
        None => false,
    };
    let ja4_hash: String = match &ja4 {
        Some(j) => crate::crypto::str_take(crate::crypto::digest_hex(j.as_str()).as_str(), 16),
        None => String::new(),
    };
    proof {
        assert(ja4_hash@ == ja4v);
    }
    let previous_state = load_state(store, identity.as_str());
    let temporal_transition = temporal_transition_impossible(
        previous_state.as_ref(),
        now,
        flow_window_seconds,
        ua_family.as_str(),
        ja4_hash.as_str(),
    );
    proof {
        if old(store).reliable() {
            match &previous_state {
                Some(p) => {
                    assert(fp_state_stored(m0, skey, *p));
                    if temporal_transition {
                        assert(spec_temporal_impossible(*p, now, flow_window_seconds, famv, ja4v));
                        assert(spec_stored_transition_impossible(
                            m0,
                            skey,
                            now,
                            flow_window_seconds,
                            famv,
                            ja4v,
                        ));
                    } else {
                        assert forall|x: FingerprintState|
                            fp_state_stored(m0, skey, x) && spec_temporal_impossible(
                                x,
                                now,
                                flow_window_seconds,
                                famv,
                                ja4v,
                            ) implies false by {
                            assert(fp_state_fields(x) == fp_state_fields(*p));
                            assert(fp_state_fields(x)[0] == fp_state_fields(*p)[0]);
                            assert(fp_state_fields(x)[1] == fp_state_fields(*p)[1]);
                            assert(fp_state_fields(x)[2] == fp_state_fields(*p)[2]);
                            assert(x.ts == p.ts);
                            assert(x.ua_family@ == p.ua_family@);
                            assert(x.ja4_hash@ == p.ja4_hash@);
                            assert(spec_temporal_impossible(
                                *p,
                                now,
                                flow_window_seconds,
                                famv,
                                ja4v,
                            ));
                        }
                    }
                },
                None => {
                    assert forall|x: FingerprintState|
                        fp_state_stored(m0, skey, x) && spec_temporal_impossible(
                            x,
                            now,
                            flow_window_seconds,
                            famv,
                            ja4v,
                        ) implies false by {}
                },
            }
            assert(temporal_transition == spec_stored_transition_impossible(
                m0,
                skey,
                now,
                flow_window_seconds,
                famv,
                ja4v,
            ));
        }
    }
    let mismatch_observed = ua_ch_mismatch || ua_transport_mismatch || temporal_transition
        || untrusted_headers_present;
    let mismatch_count = update_flow_mismatch_count(
        store,
        identity.as_str(),
        now,
        flow_window_seconds,
        mismatch_observed,
    );
    let flow_violation = mismatch_count >= flow_violation_threshold as u64;
    let persistence_marker_missing = evidence.has_js_verified_cookie
        && !evidence.has_persistence_cookie && mismatch_observed;
    let new_state = FingerprintState { ts: now, ua_family: ua_family.clone(), ja4_hash };
    let ghost kv_u = store.kv();
    store_state(store, identity.as_str(), &new_state);
    proof {
        if old(store).reliable() {
            let ck = flow_counter_key_of(gid, now, flow_window_seconds);
            reveal_strlit("fp:state:");
            reveal_strlit("fp:flow:");
            assert(("fp:state:"@).len() == 9);
            assert(("fp:flow:"@).len() == 8);
            assert(skey[3] == ("fp:state:"@)[3]);
            assert(("fp:state:"@)[3] == 's');
            assert(("fp:flow:"@ + gid)[3] == ("fp:flow:"@)[3]);
            assert((("fp:flow:"@ + gid) + ":"@)[3] == ("fp:flow:"@ + gid)[3]);
            assert(ck[3] == ("fp:flow:"@)[3]);
            assert(("fp:flow:"@)[3] == 'f');
            assert(skey != ck);
            assert(final(store).kv() == kv_u.insert(skey, fp_state_bytes(new_state)));
            assert(crate::text::counter_of(final(store).kv(), ck) == crate::text::counter_of(
                kv_u,
                ck,
            ));
            assert(mismatch_count == crate::text::counter_of(final(store).kv(), ck));
            assert(final(store).kv()[skey] == fp_state_bytes(new_state));
            assert(new_state.ts == now && new_state.ua_family@ == famv && new_state.ja4_hash@
                == ja4v);
        }
    }
    let transport_identity_present = match &ja3 {
        Some(_) => true,
        None => match &ja4 {
            Some(_) => true,
            None => false,
        },
    };
    let edge_confidence: u8 = if evidence.edge_score_high {
        if transport_identity_present {
            9
        } else {
            8
        }
    } else {
        7
    };
    let mut signals: Vec<BotSignal> = Vec::new();
    signals.push(BotSignal::scored_with_metadata(
        "fp_ua_ch_mismatch",
        "UA and client-hint mismatch",
        ua_ch_mismatch,
        2,
        SignalProvenance::Internal,
        8,
        SignalFamily::FingerprintHeaderRuntime,
    ));
    signals.push(BotSignal::scored_with_metadata(
        "fp_ua_transport_mismatch",
        "UA and transport browser mismatch",
        ua_transport_mismatch,
        3,
        SignalProvenance::ExternalTrusted,
        edge_confidence,
        SignalFamily::FingerprintTransport,
    ));
    signals.push(BotSignal::scored_with_metadata(
        "fp_temporal_transition",
        "Impossible short-window fingerprint transition",
        temporal_transition,
        2,
        SignalProvenance::Derived,
        8,
        SignalFamily::FingerprintTemporal,
    ));
    signals.push(BotSignal::scored_with_metadata(
        "fp_flow_violation",
        "Flow-window mismatch threshold exceeded",
        flow_violation,
        2,
        SignalProvenance::Derived,
        7,
        SignalFamily::FingerprintBehavior,
    ));
    signals.push(BotSignal::scored_with_metadata(
        "fp_persistence_marker_missing",
        "Expected persistence marker missing",
        persistence_marker_missing,
        1,
        SignalProvenance::Internal,
        6,
        SignalFamily::FingerprintPersistence,
    ));
    signals.push(BotSignal::scored_with_metadata(
        "fp_untrusted_transport_header",
        "Untrusted transport fingerprint headers present",
        untrusted_headers_present,
        3,
        SignalProvenance::ExternalUntrusted,
        9,
        SignalFamily::FingerprintTransport,
    ));
    if !headers_trusted && !untrusted_headers_present {
        signals.push(BotSignal::unavailable_with_metadata(
            "fp_transport_signal_unavailable",
            "Transport fingerprint headers unavailable",
            SignalProvenance::ExternalTrusted,
            10,
            SignalFamily::FingerprintTransport,
        ));
    }
    signals
}

} // verus!
