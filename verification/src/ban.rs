//! The ban store: short bans with expiry, reason and an optional
//! fingerprint summary, keyed by site and address. Expired records are
//! treated as absent on read; writers overwrite, extending the TTL.

use vstd::prelude::*;

use crate::json::{
    encode_fields, fields_view, json_of, lemma_json_round_trip, lemma_parse_json_sound,
    parse_fields, plain_char, plain_str, spec_parse_json, valid_fields, JFieldV, JVal, JValV,
};
use crate::kv::KeyValueStore;
use crate::text::{str_eq, string_push};

verus! {

/// BanEntry record carried through the canonical JSON codec.
#[derive(Clone)]
pub struct BanEntry {
    pub reason: String,
    pub expires: u64,
    pub summary: String,
}

/// The field list that encodes a BanEntry.
pub open spec fn ban_entry_fields(x: BanEntry) -> Seq<JFieldV> {
    seq![
        ("reason"@, JValV::S(x.reason@)),
        ("expires"@, JValV::N(x.expires as u64)),
        ("summary"@, JValV::S(x.summary@)),
    ]
}

/// String fields fit for the codec.
pub open spec fn ban_entry_plain(x: BanEntry) -> bool {
    plain_str(x.reason@) && plain_str(x.summary@)
}

proof fn lemma_ban_entry_keys_plain()
    ensures
        plain_str("reason"@),
        plain_str("expires"@),
        plain_str("summary"@),
{
    reveal_strlit("reason");
    assert(("reason"@).len() == 6);
    assert forall|i: int| 0 <= i < ("reason"@).len() implies plain_char(("reason"@)[i]) by {
        let s = "reason"@;
        assert(plain_char(s[0]));
        assert(plain_char(s[1]));
        assert(plain_char(s[2]));
        assert(plain_char(s[3]));
        assert(plain_char(s[4]));
        assert(plain_char(s[5]));
    }
    reveal_strlit("expires");
    assert(("expires"@).len() == 7);
    assert forall|i: int| 0 <= i < ("expires"@).len() implies plain_char(("expires"@)[i]) by {
        let s = "expires"@;
        assert(plain_char(s[0]));
        assert(plain_char(s[1]));
        assert(plain_char(s[2]));
        assert(plain_char(s[3]));
        assert(plain_char(s[4]));
        assert(plain_char(s[5]));
        assert(plain_char(s[6]));
    }
    reveal_strlit("summary");
    assert(("summary"@).len() == 7);
    assert forall|i: int| 0 <= i < ("summary"@).len() implies plain_char(("summary"@)[i]) by {
        let s = "summary"@;
        assert(plain_char(s[0]));
        assert(plain_char(s[1]));
        assert(plain_char(s[2]));
        assert(plain_char(s[3]));
        assert(plain_char(s[4]));
        assert(plain_char(s[5]));
        assert(plain_char(s[6]));
    }
}

/// A plain BanEntry yields a field list fit for encoding.
pub proof fn lemma_ban_entry_fields_valid(x: BanEntry)
    requires
        ban_entry_plain(x),
    ensures
        valid_fields(ban_entry_fields(x)),
{
    lemma_ban_entry_keys_plain();
    let fs = ban_entry_fields(x);
    assert forall|i: int| 0 <= i < fs.len() implies {
        &&& plain_str((#[trigger] fs[i]).0)
        &&& (fs[i].1 matches JValV::S(v) ==> plain_str(v))
    } by {
        if i == 0 {
            assert(fs[0].0 == "reason"@);
            assert(fs[0].1 == JValV::S(x.reason@));
        } else if i == 1 {
            assert(fs[1].0 == "expires"@);
        } else if i == 2 {
            assert(fs[2].0 == "summary"@);
            assert(fs[2].1 == JValV::S(x.summary@));
        }
    }
}

/// Lay a BanEntry out as its field list.
pub fn ban_entry_to_fields(x: &BanEntry) -> (r: Vec<(String, JVal)>)
    ensures
        fields_view(r@) == ban_entry_fields(*x),
{
    let mut v: Vec<(String, JVal)> = Vec::new();
    v.push(("reason".to_owned(), JVal::S(x.reason.clone())));
    v.push(("expires".to_owned(), JVal::N(x.expires as u64)));
    v.push(("summary".to_owned(), JVal::S(x.summary.clone())));
    proof {
        assert(fields_view(v@).len() == 3);
        assert(fields_view(v@)[0] == ban_entry_fields(*x)[0]);
        assert(fields_view(v@)[1] == ban_entry_fields(*x)[1]);
        assert(fields_view(v@)[2] == ban_entry_fields(*x)[2]);
        assert(fields_view(v@) =~= ban_entry_fields(*x));
    }
    v
}

/// Read a BanEntry back from a parsed field list; the list must
/// carry exactly the expected keys, kinds and ranges.
pub fn ban_entry_from_fields(v: &Vec<(String, JVal)>) -> (r: Option<BanEntry>)
    ensures
        r matches Some(x) ==> fields_view(v@) == ban_entry_fields(x),
        r is None ==> (forall|x: BanEntry| fields_view(v@) != #[trigger] ban_entry_fields(x)),
{
    if v.len() != 3 {
        proof {
            assert forall|x: BanEntry| fields_view(v@) != #[trigger] ban_entry_fields(x) by {
                assert(ban_entry_fields(x).len() == 3);
            }
        }
        return None;
    }
    if !str_eq(v[0].0.as_str(), "reason") {
        proof {
            assert forall|x: BanEntry| fields_view(v@) != #[trigger] ban_entry_fields(x) by {
                if fields_view(v@) == ban_entry_fields(x) {
                    assert(fields_view(v@)[0] == ban_entry_fields(x)[0]);
                    assert(false);
                }
            }
        }
        return None;
    }
    let f_reason: String = match &v[0].1 {
        JVal::S(s) => s.clone(),
        JVal::N(n) => {
        proof {
            assert forall|x: BanEntry| fields_view(v@) != #[trigger] ban_entry_fields(x) by {
                if fields_view(v@) == ban_entry_fields(x) {
                    assert(fields_view(v@)[0] == ban_entry_fields(x)[0]);
                    assert(false);
                }
            }
        }
        return None;
        },
    };
    if !str_eq(v[1].0.as_str(), "expires") {
        proof {
            assert forall|x: BanEntry| fields_view(v@) != #[trigger] ban_entry_fields(x) by {
                if fields_view(v@) == ban_entry_fields(x) {
                    assert(fields_view(v@)[1] == ban_entry_fields(x)[1]);
                    assert(false);
                }
            }
        }
        return None;
    }
    let n_expires: u64 = match &v[1].1 {
        JVal::N(n) => *n,
        JVal::S(s) => {
        proof {
            assert forall|x: BanEntry| fields_view(v@) != #[trigger] ban_entry_fields(x) by {
                if fields_view(v@) == ban_entry_fields(x) {
                    assert(fields_view(v@)[1] == ban_entry_fields(x)[1]);
                    assert(false);
                }
            }
        }
        return None;
        },
    };
    let f_expires: u64 = n_expires;
    if !str_eq(v[2].0.as_str(), "summary") {
        proof {
            assert forall|x: BanEntry| fields_view(v@) != #[trigger] ban_entry_fields(x) by {
                if fields_view(v@) == ban_entry_fields(x) {
                    assert(fields_view(v@)[2] == ban_entry_fields(x)[2]);
                    assert(false);
                }
            }
        }
        return None;
    }
    let f_summary: String = match &v[2].1 {
        JVal::S(s) => s.clone(),
        JVal::N(n) => {
        proof {
            assert forall|x: BanEntry| fields_view(v@) != #[trigger] ban_entry_fields(x) by {
                if fields_view(v@) == ban_entry_fields(x) {
                    assert(fields_view(v@)[2] == ban_entry_fields(x)[2]);
                    assert(false);
                }
            }
        }
        return None;
        },
    };
    let x = BanEntry {
        reason: f_reason,
        expires: f_expires,
        summary: f_summary,
    };
    proof {
        assert(fields_view(v@).len() == 3);
        assert(fields_view(v@)[0] == ban_entry_fields(x)[0]);
        assert(fields_view(v@)[1] == ban_entry_fields(x)[1]);
        assert(fields_view(v@)[2] == ban_entry_fields(x)[2]);
        assert(fields_view(v@) =~= ban_entry_fields(x));
    }
    Some(x)
}

/// A field list fit for encoding has plain string fields.
pub proof fn lemma_ban_entry_fields_plain(x: BanEntry)
    requires
        valid_fields(ban_entry_fields(x)),
    ensures
        ban_entry_plain(x),
{
    let fs = ban_entry_fields(x);
    assert(fs[0].1 == JValV::S(x.reason@));
    assert(fs[2].1 == JValV::S(x.summary@));
}

/// The canonical encoding of a BanEntry.
pub open spec fn ban_entry_json(x: BanEntry) -> Seq<char> {
    json_of(ban_entry_fields(x))
}

/// Render a BanEntry in its canonical form.
pub fn encode_ban_entry(x: &BanEntry) -> (r: String)
    ensures
        r@ == ban_entry_json(*x),
{
    let fs = ban_entry_to_fields(x);
    encode_fields(&fs)
}

/// Parse a BanEntry from its canonical form: the encoding of a
/// plain record parses back to a record with the same fields.
pub fn decode_ban_entry(s: &str) -> (r: Option<BanEntry>)
    ensures
        r matches Some(x) ==> spec_parse_json(s@) == Some(ban_entry_fields(x))
            && s@ == ban_entry_json(x) && ban_entry_plain(x),
        forall|x0: BanEntry| ban_entry_plain(x0) && s@ == ban_entry_json(x0)
            ==> (r matches Some(x) && ban_entry_fields(x) == ban_entry_fields(x0)),
{
    let parsed = parse_fields(s);
    match parsed {
        None => {
            proof {
                assert forall|x0: BanEntry| ban_entry_plain(x0) && s@ == ban_entry_json(x0)
                    implies false by {
                    lemma_ban_entry_fields_valid(x0);
                    lemma_json_round_trip(ban_entry_fields(x0));
                }
            }
            None
        },
        Some(v) => {
            match ban_entry_from_fields(&v) {
                None => {
                    proof {
                        assert forall|x0: BanEntry| ban_entry_plain(x0) && s@ == ban_entry_json(x0)
                            implies false by {
                            lemma_ban_entry_fields_valid(x0);
                            lemma_json_round_trip(ban_entry_fields(x0));
                            assert(fields_view(v@) == ban_entry_fields(x0));
                        }
                    }
                    None
                },
                Some(x) => {
                    proof {
                        lemma_parse_json_sound(s@);
                        lemma_ban_entry_fields_plain(x);
                        assert forall|x0: BanEntry| ban_entry_plain(x0) && s@ == ban_entry_json(x0)
                            implies ban_entry_fields(x) == ban_entry_fields(x0) by {
                            lemma_ban_entry_fields_valid(x0);
                            lemma_json_round_trip(ban_entry_fields(x0));
                            assert(fields_view(v@) == ban_entry_fields(x0));
                        }
                    }
                    Some(x)
                },
            }
        },
    }
}

/// The stored byte form of a BanEntry.
pub open spec fn ban_entry_bytes(x: BanEntry) -> Seq<u8> {
    vstd::utf8::encode_utf8(ban_entry_json(x))
}

/// Render a BanEntry as its stored bytes.
pub fn encode_ban_entry_bytes(x: &BanEntry) -> (r: Vec<u8>)
    ensures
        r@ == ban_entry_bytes(*x),
{
    let s = encode_ban_entry(x);
    let b = s.as_str().as_bytes();
    vstd::slice::slice_to_vec(b)
}

/// Parse a BanEntry from stored bytes; the bytes written by
/// the encoder always parse back to the same fields.
pub fn decode_ban_entry_bytes(v: &[u8]) -> (r: Option<BanEntry>)
    ensures
        r matches Some(x) ==> v@ == ban_entry_bytes(x) && ban_entry_plain(x),
        forall|x0: BanEntry| ban_entry_plain(x0) && v@ == #[trigger] ban_entry_bytes(x0)
            ==> (r matches Some(x) && ban_entry_fields(x) == ban_entry_fields(x0)),
{
    let owned = vstd::slice::slice_to_vec(v);
    let s = match crate::crypto::string_from_utf8(owned) {
        Ok(s) => s,
        Err(_) => {
            return None;
        },
    };
    match decode_ban_entry(s.as_str()) {
        Some(x) => {
            proof {
                assert forall|x0: BanEntry| ban_entry_plain(x0) && v@ == #[trigger] ban_entry_bytes(x0)
                    implies ban_entry_fields(x) == ban_entry_fields(x0) by {
                    assert(s@ == ban_entry_json(x0));
                }
            }
            Some(x)
        },
        None => {
            proof {
                assert forall|x0: BanEntry| ban_entry_plain(x0) && v@ == #[trigger] ban_entry_bytes(x0)
                    implies false by {
                    assert(s@ == ban_entry_json(x0));
                }
            }
            None
        },
    }
}

/// The ban record key for one site and address.
pub open spec fn ban_key_of(site: Seq<char>, ip: Seq<char>) -> Seq<char> {
    "ban:"@ + site + ":"@ + ip
}

/// Build the ban record key.
pub fn ban_key(site: &str, ip: &str) -> (r: String)
    ensures
        r@ == ban_key_of(site@, ip@),
{
    let mut out = "ban:".to_owned();
    out.append(site);
    out.append(":");
    out.append(ip);
    assert(out@ =~= ban_key_of(site@, ip@));
    out
}

/// Whether the store holds an unexpired ban record under `key`.
pub open spec fn banned_in(m: crate::kv::KvMap, key: Seq<char>, now: u64) -> bool {
    m.contains_key(key) && (exists|x: BanEntry|
        {
            &&& ban_entry_plain(x)
            &&& m[key] == #[trigger] ban_entry_bytes(x)
            &&& now < x.expires
        })
}

/// Record a ban: reason, expiry `now + duration`, and the fingerprint
/// summary. Overwrites any standing record.
pub fn ban_ip_with_fingerprint_at<S: KeyValueStore>(
    store: &mut S,
    site: &str,
    ip: &str,
    reason: &str,
    duration_secs: u64,
    summary: &str,
    now: u64,
)
    requires
        old(store).inv(),
        now + duration_secs <= u64::MAX,
        plain_str(reason@),
        plain_str(summary@),
    ensures
        final(store).inv(),
        final(store).reliable() == old(store).reliable(),
        final(store).kv() == old(store).kv() || (exists|x: BanEntry|
            {
                &&& ban_entry_plain(x)
                &&& x.reason@ == reason@
                &&& x.expires == now + duration_secs
                &&& x.summary@ == summary@
                &&& final(store).kv() == old(store).kv().insert(
                    ban_key_of(site@, ip@),
                    #[trigger] ban_entry_bytes(x),
                )
            }),
        old(store).reliable() && duration_secs > 0 ==> banned_in(
            final(store).kv(),
            ban_key_of(site@, ip@),
            now,
        ),
        old(store).reliable() ==> (exists|x: BanEntry|
            {
                &&& ban_entry_plain(x)
                &&& x.reason@ == reason@
                &&& x.expires == now + duration_secs
                &&& x.summary@ == summary@
                &&& final(store).kv() == old(store).kv().insert(
                    ban_key_of(site@, ip@),
                    #[trigger] ban_entry_bytes(x),
                )
            }),
{
    let entry = BanEntry {
        reason: reason.to_owned(),
        expires: now + duration_secs,
        summary: summary.to_owned(),
    };
    let raw = encode_ban_entry_bytes(&entry);
    let key = ban_key(site, ip);
    let outcome = store.set(key.as_str(), raw.as_slice());
    proof {
        if outcome is Ok {
            assert(final(store).kv() == old(store).kv().insert(key@, raw@));
            assert(ban_entry_plain(entry));
            assert(final(store).kv() == old(store).kv().insert(
                ban_key_of(site@, ip@),
                ban_entry_bytes(entry),
            ));
            if duration_secs > 0 {
                assert(final(store).kv()[key@] == ban_entry_bytes(entry));
                assert(banned_in(final(store).kv(), ban_key_of(site@, ip@), now));
            }
        }
    }
}

/// Record a ban without a fingerprint summary.
pub fn ban_ip_at<S: KeyValueStore>(
    store: &mut S,
    site: &str,
    ip: &str,
    reason: &str,
    duration_secs: u64,
    now: u64,
)
    requires
        old(store).inv(),
        now + duration_secs <= u64::MAX,
        plain_str(reason@),
    ensures
        final(store).inv(),
        final(store).reliable() == old(store).reliable(),
        old(store).reliable() && duration_secs > 0 ==> banned_in(
            final(store).kv(),
            ban_key_of(site@, ip@),
            now,
        ),
{
    proof {
        reveal_strlit("");
    }
    ban_ip_with_fingerprint_at(store, site, ip, reason, duration_secs, "", now);
}

/// Whether the address is banned at `now`: absent and expired records
/// both read as not banned, and a record that does not decode is
/// treated as absent.
pub fn is_banned_at<S: KeyValueStore>(store: &S, site: &str, ip: &str, now: u64) -> (r: bool)
    requires
        store.inv(),
    ensures
        store.reliable() ==> r == banned_in(store.kv(), ban_key_of(site@, ip@), now),
        r ==> banned_in(store.kv(), ban_key_of(site@, ip@), now),
{
    let key = ban_key(site, ip);
    let raw = match store.get(key.as_str()) {
        Ok(Some(v)) => v,
        Ok(None) => {
            return false;
        },
        Err(_) => {
            return false;
        },
    };
    match decode_ban_entry_bytes(raw.as_slice()) {
        Some(entry) => {
            if now < entry.expires {
                proof {
                    assert(store.kv()[key@] == ban_entry_bytes(entry));
                }
                true
            } else {
                proof {
                    if banned_in(store.kv(), key@, now) {
                        let x = choose|x: BanEntry|
                            {
                                &&& ban_entry_plain(x)
                                &&& store.kv()[key@] == #[trigger] ban_entry_bytes(x)
                                &&& now < x.expires
                            };
                        assert(raw@ == ban_entry_bytes(x));
                        assert(ban_entry_fields(entry) == ban_entry_fields(x));
                        assert(entry.expires == x.expires);
                    }
                }
                false
            }
        },
        None => {
            proof {
                if banned_in(store.kv(), key@, now) {
                    let x = choose|x: BanEntry|
                        {
                            &&& ban_entry_plain(x)
                            &&& store.kv()[key@] == #[trigger] ban_entry_bytes(x)
                            &&& now < x.expires
                        };
                    assert(raw@ == ban_entry_bytes(x));
                }
            }
            false
        },
    }
}

/// Lift a standing ban.
pub fn unban_ip<S: KeyValueStore>(store: &mut S, site: &str, ip: &str)
    requires
        old(store).inv(),
    ensures
        final(store).inv(),
        final(store).reliable() == old(store).reliable(),
        old(store).reliable() ==> final(store).kv() == old(store).kv().remove(
            ban_key_of(site@, ip@),
        ),
        old(store).reliable() ==> forall|now: u64|
            !banned_in(final(store).kv(), ban_key_of(site@, ip@), now),
{
    let key = ban_key(site, ip);
    let outcome = store.delete(key.as_str());
    proof {
        if outcome is Ok {
            assert(!final(store).kv().contains_key(key@));
        }
    }
}

/// Banning marks the address and unbanning clears it: immediately after
/// `ban` with a positive duration the address reads banned, and after
/// `unban` it reads not banned, on a store that answers.
pub proof fn lemma_ban_then_unban(m: crate::kv::KvMap, key: Seq<char>, x: BanEntry, now: u64)
    requires
        ban_entry_plain(x),
        now < x.expires,
    ensures
        banned_in(m.insert(key, ban_entry_bytes(x)), key, now),
        forall|t: u64| !banned_in(m.insert(key, ban_entry_bytes(x)).remove(key), key, t),
{
    assert(m.insert(key, ban_entry_bytes(x))[key] == ban_entry_bytes(x));
}

} // verus!
