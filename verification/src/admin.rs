//! Event logging for enforcement actions: typed entries appended to an
//! hour-bucketed log key, one encoded record per line.

use vstd::prelude::*;

use crate::json::{
    encode_fields, fields_view, json_of, lemma_json_round_trip, lemma_parse_json_sound,
    parse_fields, plain_char, plain_str, spec_parse_json, valid_fields, JFieldV, JVal, JValV,
};
use crate::kv::KeyValueStore;
use crate::text::{dec_of, push_u64, str_eq, string_push};

verus! {

/// What kind of enforcement event is being recorded.
#[derive(Clone, Copy, Debug, PartialEq, Eq, Structural)]
pub enum EventType {
    Ban,
    Unban,
    Challenge,
    Block,
    AdminAction,
}

impl EventType {
    /// The stable label used in the stored entry.
    pub fn as_str(self) -> (r: &'static str)
        ensures
            self is Ban ==> r@ == "ban"@,
            self is Unban ==> r@ == "unban"@,
            self is Challenge ==> r@ == "challenge"@,
            self is Block ==> r@ == "block"@,
            self is AdminAction ==> r@ == "admin_action"@,
    {
        match self {
            EventType::Ban => "ban",
            EventType::Unban => "unban",
            EventType::Challenge => "challenge",
            EventType::Block => "block",
            EventType::AdminAction => "admin_action",
        }
    }
}

/// EventLogEntry record carried through the canonical JSON codec.
#[derive(Clone)]
pub struct EventLogEntry {
    pub ts: u64,
    pub event: String,
    pub ip: String,
    pub reason: String,
    pub outcome: String,
    pub admin: String,
}

/// The field list that encodes a EventLogEntry.
pub open spec fn event_entry_fields(x: EventLogEntry) -> Seq<JFieldV> {
    seq![
        ("ts"@, JValV::N(x.ts as u64)),
        ("event"@, JValV::S(x.event@)),
        ("ip"@, JValV::S(x.ip@)),
        ("reason"@, JValV::S(x.reason@)),
        ("outcome"@, JValV::S(x.outcome@)),
        ("admin"@, JValV::S(x.admin@)),
    ]
}

/// String fields fit for the codec.
pub open spec fn event_entry_plain(x: EventLogEntry) -> bool {
    plain_str(x.event@) && plain_str(x.ip@) && plain_str(x.reason@) && plain_str(x.outcome@) && plain_str(x.admin@)
}

proof fn lemma_event_entry_keys_plain()
    ensures
        plain_str("ts"@),
        plain_str("event"@),
        plain_str("ip"@),
        plain_str("reason"@),
        plain_str("outcome"@),
        plain_str("admin"@),
{
    reveal_strlit("ts");
    assert(("ts"@).len() == 2);
    assert forall|i: int| 0 <= i < ("ts"@).len() implies plain_char(("ts"@)[i]) by {
        let s = "ts"@;
        assert(plain_char(s[0]));
        assert(plain_char(s[1]));
    }
    reveal_strlit("event");
    assert(("event"@).len() == 5);
    assert forall|i: int| 0 <= i < ("event"@).len() implies plain_char(("event"@)[i]) by {
        let s = "event"@;
        assert(plain_char(s[0]));
        assert(plain_char(s[1]));
        assert(plain_char(s[2]));
        assert(plain_char(s[3]));
        assert(plain_char(s[4]));
    }
    reveal_strlit("ip");
    assert(("ip"@).len() == 2);
    assert forall|i: int| 0 <= i < ("ip"@).len() implies plain_char(("ip"@)[i]) by {
        let s = "ip"@;
        assert(plain_char(s[0]));
        assert(plain_char(s[1]));
    }
    reveal_strlit("reason");
    assert(("reason"@).len() == 6);
    assert forall|i: int| 0 <= i < ("reason"@).len() implies plain_char(("reason"@)[i]) by {
        let s = "reason"@;
        assert(plain_char(s[0]));
        assert(plain_char(s[1]));
        assert(plain_char(s[2]));
        assert(plain_char(s[3]));
        assert(plain_char(s[4]));
        assert(plain_char(s[5]));
    }
    reveal_strlit("outcome");
    assert(("outcome"@).len() == 7);
    assert forall|i: int| 0 <= i < ("outcome"@).len() implies plain_char(("outcome"@)[i]) by {
        let s = "outcome"@;
        assert(plain_char(s[0]));
        assert(plain_char(s[1]));
        assert(plain_char(s[2]));
        assert(plain_char(s[3]));
        assert(plain_char(s[4]));
        assert(plain_char(s[5]));
        assert(plain_char(s[6]));
    }
    reveal_strlit("admin");
    assert(("admin"@).len() == 5);
    assert forall|i: int| 0 <= i < ("admin"@).len() implies plain_char(("admin"@)[i]) by {
        let s = "admin"@;
        assert(plain_char(s[0]));
        assert(plain_char(s[1]));
        assert(plain_char(s[2]));
        assert(plain_char(s[3]));
        assert(plain_char(s[4]));
    }
}

/// A plain EventLogEntry yields a field list fit for encoding.
pub proof fn lemma_event_entry_fields_valid(x: EventLogEntry)
    requires
        event_entry_plain(x),
    ensures
        valid_fields(event_entry_fields(x)),
{
    lemma_event_entry_keys_plain();
    let fs = event_entry_fields(x);
    assert forall|i: int| 0 <= i < fs.len() implies {
        &&& plain_str((#[trigger] fs[i]).0)
        &&& (fs[i].1 matches JValV::S(v) ==> plain_str(v))
    } by {
        if i == 0 {
            assert(fs[0].0 == "ts"@);
        } else if i == 1 {
            assert(fs[1].0 == "event"@);
            assert(fs[1].1 == JValV::S(x.event@));
        } else if i == 2 {
            assert(fs[2].0 == "ip"@);
            assert(fs[2].1 == JValV::S(x.ip@));
        } else if i == 3 {
            assert(fs[3].0 == "reason"@);
            assert(fs[3].1 == JValV::S(x.reason@));
        } else if i == 4 {
            assert(fs[4].0 == "outcome"@);
            assert(fs[4].1 == JValV::S(x.outcome@));
        } else if i == 5 {
            assert(fs[5].0 == "admin"@);
            assert(fs[5].1 == JValV::S(x.admin@));
        }
    }
}

/// Lay a EventLogEntry out as its field list.
pub fn event_entry_to_fields(x: &EventLogEntry) -> (r: Vec<(String, JVal)>)
    ensures
        fields_view(r@) == event_entry_fields(*x),
{
    let mut v: Vec<(String, JVal)> = Vec::new();
    v.push(("ts".to_owned(), JVal::N(x.ts as u64)));
    v.push(("event".to_owned(), JVal::S(x.event.clone())));
    v.push(("ip".to_owned(), JVal::S(x.ip.clone())));
    v.push(("reason".to_owned(), JVal::S(x.reason.clone())));
    v.push(("outcome".to_owned(), JVal::S(x.outcome.clone())));
    v.push(("admin".to_owned(), JVal::S(x.admin.clone())));
    proof {
        assert(fields_view(v@).len() == 6);
        assert(fields_view(v@)[0] == event_entry_fields(*x)[0]);
        assert(fields_view(v@)[1] == event_entry_fields(*x)[1]);
        assert(fields_view(v@)[2] == event_entry_fields(*x)[2]);
        assert(fields_view(v@)[3] == event_entry_fields(*x)[3]);
        assert(fields_view(v@)[4] == event_entry_fields(*x)[4]);
        assert(fields_view(v@)[5] == event_entry_fields(*x)[5]);
        assert(fields_view(v@) =~= event_entry_fields(*x));
    }
    v
}

/// Read a EventLogEntry back from a parsed field list; the list must
/// carry exactly the expected keys, kinds and ranges.
pub fn event_entry_from_fields(v: &Vec<(String, JVal)>) -> (r: Option<EventLogEntry>)
    ensures
        r matches Some(x) ==> fields_view(v@) == event_entry_fields(x),
        r is None ==> (forall|x: EventLogEntry| fields_view(v@) != #[trigger] event_entry_fields(x)),
{
    if v.len() != 6 {
        proof {
            assert forall|x: EventLogEntry| fields_view(v@) != #[trigger] event_entry_fields(x) by {
                assert(event_entry_fields(x).len() == 6);
            }
        }
        return None;
    }
    if !str_eq(v[0].0.as_str(), "ts") {
        proof {
            assert forall|x: EventLogEntry| fields_view(v@) != #[trigger] event_entry_fields(x) by {
                if fields_view(v@) == event_entry_fields(x) {
                    assert(fields_view(v@)[0] == event_entry_fields(x)[0]);
                    assert(false);
                }
            }
        }
        return None;
    }
    let n_ts: u64 = match &v[0].1 {
        JVal::N(n) => *n,
        JVal::S(s) => {
        proof {
            assert forall|x: EventLogEntry| fields_view(v@) != #[trigger] event_entry_fields(x) by {
                if fields_view(v@) == event_entry_fields(x) {
                    assert(fields_view(v@)[0] == event_entry_fields(x)[0]);
                    assert(false);
                }
            }
        }
        return None;
        },
    };
    let f_ts: u64 = n_ts;
    if !str_eq(v[1].0.as_str(), "event") {
        proof {
            assert forall|x: EventLogEntry| fields_view(v@) != #[trigger] event_entry_fields(x) by {
                if fields_view(v@) == event_entry_fields(x) {
                    assert(fields_view(v@)[1] == event_entry_fields(x)[1]);
                    assert(false);
                }
            }
        }
        return None;
    }
    let f_event: String = match &v[1].1 {
        JVal::S(s) => s.clone(),
        JVal::N(n) => {
        proof {
            assert forall|x: EventLogEntry| fields_view(v@) != #[trigger] event_entry_fields(x) by {
                if fields_view(v@) == event_entry_fields(x) {
                    assert(fields_view(v@)[1] == event_entry_fields(x)[1]);
                    assert(false);
                }
            }
        }
        return None;
        },
    };
    if !str_eq(v[2].0.as_str(), "ip") {
        proof {
            assert forall|x: EventLogEntry| fields_view(v@) != #[trigger] event_entry_fields(x) by {
                if fields_view(v@) == event_entry_fields(x) {
                    assert(fields_view(v@)[2] == event_entry_fields(x)[2]);
                    assert(false);
                }
            }
        }
        return None;
    }
    let f_ip: String = match &v[2].1 {
        JVal::S(s) => s.clone(),
        JVal::N(n) => {
        proof {
            assert forall|x: EventLogEntry| fields_view(v@) != #[trigger] event_entry_fields(x) by {
                if fields_view(v@) == event_entry_fields(x) {
                    assert(fields_view(v@)[2] == event_entry_fields(x)[2]);
                    assert(false);
                }
            }
        }
        return None;
        },
    };
    if !str_eq(v[3].0.as_str(), "reason") {
        proof {
            assert forall|x: EventLogEntry| fields_view(v@) != #[trigger] event_entry_fields(x) by {
                if fields_view(v@) == event_entry_fields(x) {
                    assert(fields_view(v@)[3] == event_entry_fields(x)[3]);
                    assert(false);
                }
            }
        }
        return None;
    }
    let f_reason: String = match &v[3].1 {
        JVal::S(s) => s.clone(),
        JVal::N(n) => {
        proof {
            assert forall|x: EventLogEntry| fields_view(v@) != #[trigger] event_entry_fields(x) by {
                if fields_view(v@) == event_entry_fields(x) {
                    assert(fields_view(v@)[3] == event_entry_fields(x)[3]);
                    assert(false);
                }
            }
        }
        return None;
        },
    };
    if !str_eq(v[4].0.as_str(), "outcome") {
        proof {
            assert forall|x: EventLogEntry| fields_view(v@) != #[trigger] event_entry_fields(x) by {
                if fields_view(v@) == event_entry_fields(x) {
                    assert(fields_view(v@)[4] == event_entry_fields(x)[4]);
                    assert(false);
                }
            }
        }
        return None;
    }
    let f_outcome: String = match &v[4].1 {
        JVal::S(s) => s.clone(),
        JVal::N(n) => {
        proof {
            assert forall|x: EventLogEntry| fields_view(v@) != #[trigger] event_entry_fields(x) by {
                if fields_view(v@) == event_entry_fields(x) {
                    assert(fields_view(v@)[4] == event_entry_fields(x)[4]);
                    assert(false);
                }
            }
        }
        return None;
        },
    };
    if !str_eq(v[5].0.as_str(), "admin") {
        proof {
            assert forall|x: EventLogEntry| fields_view(v@) != #[trigger] event_entry_fields(x) by {
                if fields_view(v@) == event_entry_fields(x) {
                    assert(fields_view(v@)[5] == event_entry_fields(x)[5]);
                    assert(false);
                }
            }
        }
        return None;
    }
    let f_admin: String = match &v[5].1 {
        JVal::S(s) => s.clone(),
        JVal::N(n) => {
        proof {
            assert forall|x: EventLogEntry| fields_view(v@) != #[trigger] event_entry_fields(x) by {
                if fields_view(v@) == event_entry_fields(x) {
                    assert(fields_view(v@)[5] == event_entry_fields(x)[5]);
                    assert(false);
                }
            }
        }
        return None;
        },
    };
    let x = EventLogEntry {
        ts: f_ts,
        event: f_event,
        ip: f_ip,
        reason: f_reason,
        outcome: f_outcome,
        admin: f_admin,
    };
    proof {
        assert(fields_view(v@).len() == 6);
        assert(fields_view(v@)[0] == event_entry_fields(x)[0]);
        assert(fields_view(v@)[1] == event_entry_fields(x)[1]);
        assert(fields_view(v@)[2] == event_entry_fields(x)[2]);
        assert(fields_view(v@)[3] == event_entry_fields(x)[3]);
        assert(fields_view(v@)[4] == event_entry_fields(x)[4]);
        assert(fields_view(v@)[5] == event_entry_fields(x)[5]);
        assert(fields_view(v@) =~= event_entry_fields(x));
    }
    Some(x)
}

/// A field list fit for encoding has plain string fields.
pub proof fn lemma_event_entry_fields_plain(x: EventLogEntry)
    requires
        valid_fields(event_entry_fields(x)),
    ensures
        event_entry_plain(x),
{
    let fs = event_entry_fields(x);
    assert(fs[1].1 == JValV::S(x.event@));
    assert(fs[2].1 == JValV::S(x.ip@));
    assert(fs[3].1 == JValV::S(x.reason@));
    assert(fs[4].1 == JValV::S(x.outcome@));
    assert(fs[5].1 == JValV::S(x.admin@));
}

/// The canonical encoding of a EventLogEntry.
pub open spec fn event_entry_json(x: EventLogEntry) -> Seq<char> {
    json_of(event_entry_fields(x))
}

/// Render a EventLogEntry in its canonical form.
pub fn encode_event_entry(x: &EventLogEntry) -> (r: String)
    ensures
        r@ == event_entry_json(*x),
{
    let fs = event_entry_to_fields(x);
    encode_fields(&fs)
}

/// Parse a EventLogEntry from its canonical form: the encoding of a
/// plain record parses back to a record with the same fields.
pub fn decode_event_entry(s: &str) -> (r: Option<EventLogEntry>)
    ensures
        r matches Some(x) ==> spec_parse_json(s@) == Some(event_entry_fields(x))
            && s@ == event_entry_json(x) && event_entry_plain(x),
        forall|x0: EventLogEntry| event_entry_plain(x0) && s@ == event_entry_json(x0)
            ==> (r matches Some(x) && event_entry_fields(x) == event_entry_fields(x0)),
{
    let parsed = parse_fields(s);
    match parsed {
        None => {
            proof {
                assert forall|x0: EventLogEntry| event_entry_plain(x0) && s@ == event_entry_json(x0)
                    implies false by {
                    lemma_event_entry_fields_valid(x0);
                    lemma_json_round_trip(event_entry_fields(x0));
                }
            }
            None
        },
        Some(v) => {
            match event_entry_from_fields(&v) {
                None => {
                    proof {
                        assert forall|x0: EventLogEntry| event_entry_plain(x0) && s@ == event_entry_json(x0)
                            implies false by {
                            lemma_event_entry_fields_valid(x0);
                            lemma_json_round_trip(event_entry_fields(x0));
                            assert(fields_view(v@) == event_entry_fields(x0));
                        }
                    }
                    None
                },
                Some(x) => {
                    proof {
                        lemma_parse_json_sound(s@);
                        lemma_event_entry_fields_plain(x);
                        assert forall|x0: EventLogEntry| event_entry_plain(x0) && s@ == event_entry_json(x0)
                            implies event_entry_fields(x) == event_entry_fields(x0) by {
                            lemma_event_entry_fields_valid(x0);
                            lemma_json_round_trip(event_entry_fields(x0));
                            assert(fields_view(v@) == event_entry_fields(x0));
                        }
                    }
                    Some(x)
                },
            }
        },
    }
}

/// The stored byte form of a EventLogEntry.
pub open spec fn event_entry_bytes(x: EventLogEntry) -> Seq<u8> {
    vstd::utf8::encode_utf8(event_entry_json(x))
}

/// Render a EventLogEntry as its stored bytes.
pub fn encode_event_entry_bytes(x: &EventLogEntry) -> (r: Vec<u8>)
    ensures
        r@ == event_entry_bytes(*x),
{
    let s = encode_event_entry(x);
    let b = s.as_str().as_bytes();
    vstd::slice::slice_to_vec(b)
}

/// Parse a EventLogEntry from stored bytes; the bytes written by
/// the encoder always parse back to the same fields.
pub fn decode_event_entry_bytes(v: &[u8]) -> (r: Option<EventLogEntry>)
    ensures
        r matches Some(x) ==> v@ == event_entry_bytes(x) && event_entry_plain(x),
        forall|x0: EventLogEntry| event_entry_plain(x0) && v@ == #[trigger] event_entry_bytes(x0)
            ==> (r matches Some(x) && event_entry_fields(x) == event_entry_fields(x0)),
{
    let owned = vstd::slice::slice_to_vec(v);
    let s = match crate::crypto::string_from_utf8(owned) {
        Ok(s) => s,
        Err(_) => {
            return None;
        },
    };
    match decode_event_entry(s.as_str()) {
        Some(x) => {
            proof {
                assert forall|x0: EventLogEntry| event_entry_plain(x0) && v@ == #[trigger] event_entry_bytes(x0)
                    implies event_entry_fields(x) == event_entry_fields(x0) by {
                    assert(s@ == event_entry_json(x0));
                }
            }
            Some(x)
        },
        None => {
            proof {
                assert forall|x0: EventLogEntry| event_entry_plain(x0) && v@ == #[trigger] event_entry_bytes(x0)
                    implies false by {
                    assert(s@ == event_entry_json(x0));
                }
            }
            None
        },
    }
}

/// The hour-bucketed log key for a timestamp.
pub open spec fn eventlog_key_of(ts: u64) -> Seq<char> {
    "eventlog:"@ + dec_of((ts / 3600) as nat)
}

/// Build the hour-bucketed log key.
pub fn eventlog_key(ts: u64) -> (r: String)
    ensures
        r@ == eventlog_key_of(ts),
{
    let mut out = "eventlog:".to_owned();
    push_u64(&mut out, ts / 3600);
    assert(out@ =~= eventlog_key_of(ts));
    out
}

/// Append an entry to the hour's log: the stored value grows by the
/// entry's encoded bytes and a newline. A write the store refuses is
/// dropped, leaving the log as it was.
pub fn log_event<S: KeyValueStore>(store: &mut S, entry: &EventLogEntry)
    requires
        old(store).inv(),
    ensures
        final(store).inv(),
        final(store).reliable() == old(store).reliable(),
        old(store).reliable() ==> {
            let key = eventlog_key_of(entry.ts);
            let prior: Seq<u8> = if old(store).kv().contains_key(key) {
                old(store).kv()[key]
            } else {
                Seq::empty()
            };
            final(store).kv() == old(store).kv().insert(
                key,
                prior + event_entry_bytes(*entry) + seq![10u8],
            )
        },
        final(store).kv() == old(store).kv() || (exists|prior: Seq<u8>|
            final(store).kv() == old(store).kv().insert(
                #[trigger] eventlog_key_of(entry.ts),
                prior + event_entry_bytes(*entry) + seq![10u8],
            )),
{
    let key = eventlog_key(entry.ts);
    let mut line: Vec<u8> = match store.get(key.as_str()) {
        Ok(Some(v)) => v,
        _ => Vec::new(),
    };
    let ghost prior = line@;
    let encoded = encode_event_entry_bytes(entry);
    line.extend_from_slice(encoded.as_slice());
    line.push(10u8);
    proof {
        assert(line@ =~= prior + event_entry_bytes(*entry) + seq![10u8]) by {
            assert(forall|i: int| 0 <= i < encoded@.len()
                ==> line@[prior.len() + i] == #[trigger] encoded@[i]);
        }
    }
    let outcome = store.set(key.as_str(), line.as_slice());
    proof {
        if outcome is Err {
            assert(final(store).kv() == old(store).kv());
        }
    }
}

/// Relies on std's SystemTime: seconds since the Unix epoch, or zero if
/// the clock reads before it. Nothing is assumed of the value.
#[verifier::external_body]
pub fn now_ts() -> u64 {
    std::time::SystemTime::now().duration_since(std::time::UNIX_EPOCH).map(|d| d.as_secs()).unwrap_or(0)
}

/// Relies on std's SystemTime: milliseconds since the Unix epoch, or
/// zero if the clock reads before it. Nothing is assumed of the value.
#[verifier::external_body]
pub fn now_ms() -> u64 {
    std::time::SystemTime::now().duration_since(std::time::UNIX_EPOCH).map(|d| d.as_millis() as u64).unwrap_or(0)
}

/// Whether a path names one of the admin endpoints.
pub fn sanitize_path(path: &str) -> (r: bool)
    ensures
        r == (path@ == "/admin"@ || path@ == "/admin/ban"@ || path@ == "/admin/unban"@
            || path@ == "/admin/analytics"@ || path@ == "/admin/events"@),
{
    str_eq(path, "/admin") || str_eq(path, "/admin/ban") || str_eq(path, "/admin/unban")
        || str_eq(path, "/admin/analytics") || str_eq(path, "/admin/events")
}

} // verus!
