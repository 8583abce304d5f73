//! Request-edge validation: body-size caps, query-string parameter
//! extraction, seed-token shape checks, and the JSON body accessors
//! that lean on serde_json.

use vstd::prelude::*;

use crate::text::string_push;
use vstd::string::StringSliceAdditionalSpecFns;

verus! {

/// The cap on challenge form bodies.
pub const MAX_CHALLENGE_FORM_BYTES: usize = 4096;

/// The cap on checkpoint and issuance bodies.
pub const MAX_POW_VERIFY_BYTES: usize = 8192;

/// Reject a body above the cap.
pub fn enforce_body_size(body: &[u8], cap: usize) -> (r: Result<(), ()>)
    ensures
        r is Ok <==> body@.len() <= cap,
{
    if body.len() <= cap {
        Ok(())
    } else {
        Err(())
    }
}

fn scan_to(query: &str, from: usize, stop: usize, c: char) -> (r: usize)
    requires
        from <= stop <= query@.len(),
    ensures
        from <= r <= stop,
{
    let mut k = from;
    while k < stop
        invariant
            from <= k <= stop,
            stop <= query@.len(),
        decreases stop - k,
    {
        if query.get_char(k) == c {
            return k;
        }
        k = k + 1;
    }
    stop
}

/// Extract a query parameter by key: the raw value text of the first
/// `key=value` pair between ampersands, or the empty text for a bare
/// key.
pub fn query_param(query: &str, key: &str) -> (r: Option<String>)
{
    let qlen = query.unicode_len();
    let klen = key.unicode_len();
    let mut start: usize = 0;
    while start < qlen
        invariant
            0 <= start <= qlen,
            qlen == query@.len(),
            klen == key@.len(),
        decreases qlen - start,
    {
        let stop = scan_to(query, start, qlen, '&');
        let eq = scan_to(query, start, stop, '=');
        let found_eq = eq < stop;
        let key_end = eq;
        if key_end - start == klen {
            let mut matches_key = true;
            let mut k: usize = 0;
            while k < klen
                invariant
                    0 <= k <= klen,
                    klen == key@.len(),
                    start + klen <= qlen,
                    qlen == query@.len(),
                decreases klen - k,
            {
                if query.get_char(start + k) != key.get_char(k) {
                    matches_key = false;
                    break;
                }
                k = k + 1;
            }
            if matches_key {
                let vstart = if found_eq {
                    eq + 1
                } else {
                    stop
                };
                return Some(crate::text::str_range(query, vstart, stop));
            }
        }
        if stop >= qlen {
            return None;
        }
        start = stop + 1;
    }
    None
}

/// Whether a seed token has a plausible shape: nonempty, at most 4096
/// characters, and made of base64 text with one dot.
pub fn validate_seed_token(token: &str) -> (r: bool)
    ensures
        r ==> token@.len() > 0 && token@.len() <= 4096,
{
    let len = token.unicode_len();
    if len == 0 || len > 4096 {
        return false;
    }
    let mut i: usize = 0;
    let mut dots: u32 = 0;
    while i < len
        invariant
            0 <= i <= len,
            len == token@.len(),
            0 < len <= 4096,
        decreases len - i,
    {
        let c = token.get_char(i);
        let ok = (c >= 'a' && c <= 'z') || (c >= 'A' && c <= 'Z') || (c >= '0' && c <= '9') || c
            == '+' || c == '/' || c == '=' || c == '.' || c == '-' || c == '_';
        if !ok {
            return false;
        }
        if c == '.' {
            if dots >= 1000 {
                return false;
            }
            dots = dots + 1;
        }
        i = i + 1;
    }
    dots == 1
}

} // verus!
