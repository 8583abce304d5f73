//! Coarse, privacy-preserving request-binding descriptors: the IP bucket
//! and the user-agent bucket that signed tokens are bound to.

use vstd::prelude::*;

use crate::crypto::{digest_hex, digest_of, take_chars};
use crate::text::string_push;

verus! {

/// Characters kept as they stand when sanitizing an address-like string.
pub open spec fn addr_char_ok(c: char) -> bool {
    ('a' <= c && c <= 'z') || ('A' <= c && c <= 'Z') || ('0' <= c && c <= '9') || c == '.'
        || c == ':' || c == '-'
}

pub open spec fn sanitize_char(c: char) -> char {
    if addr_char_ok(c) {
        c
    } else {
        '_'
    }
}

/// An address with every other character replaced by an underscore.
pub open spec fn sanitized_of(s: Seq<char>) -> Seq<char> {
    s.map_values(|c: char| sanitize_char(c))
}

/// Replace every character outside the address alphabet by `_`.
pub fn sanitize_addr(s: &str) -> (r: String)
    ensures
        r@ == sanitized_of(s@),
{
    let len = s.unicode_len();
    let mut out = String::new();
    let mut i: usize = 0;
    while i < len
        invariant
            0 <= i <= len,
            len == s@.len(),
            out@ =~= sanitized_of(s@).subrange(0, i as int),
        decreases len - i,
    {
        let c = s.get_char(i);
        let keep = (c >= 'a' && c <= 'z') || (c >= 'A' && c <= 'Z') || (c >= '0' && c <= '9')
            || c == '.' || c == ':' || c == '-';
        let sc: char = if keep {
            c
        } else {
            '_'
        };
        assert(sc == sanitized_of(s@)[i as int]);
        string_push(&mut out, sc);
        assert(out@ =~= sanitized_of(s@).subrange(0, i + 1 as int));
        i = i + 1;
    }
    assert(out@ =~= sanitized_of(s@));
    out
}

/// The index just past the last dot of `s`, or 0 when there is none.
pub open spec fn after_last_dot(s: Seq<char>, i: int) -> int
    decreases i,
{
    if i <= 0 {
        0
    } else if s[i - 1] == '.' {
        i
    } else {
        after_last_dot(s, i - 1)
    }
}

/// The IP bucket: a dotted address is truncated after its last dot and
/// closed with a zero (an IPv4 /24); any other address is sanitized whole.
pub open spec fn ip_bucket_of(s: Seq<char>) -> Seq<char> {
    let cut = after_last_dot(s, s.len() as int);
    if cut > 0 {
        s.subrange(0, cut).push('0')
    } else {
        sanitized_of(s)
    }
}

fn find_after_last_dot(s: &str) -> (r: usize)
    ensures
        r == after_last_dot(s@, s@.len() as int),
{
    let len = s.unicode_len();
    let mut i = len;
    while i > 0
        invariant
            0 <= i <= len,
            len == s@.len(),
            after_last_dot(s@, len as int) == after_last_dot(s@, i as int),
        decreases i,
    {
        if s.get_char(i - 1) == '.' {
            return i;
        }
        i = i - 1;
    }
    0
}

/// Coarsen a client address into its rate/state bucket.
pub fn bucket_ip(ip: &str) -> (r: String)
    ensures
        r@ == ip_bucket_of(ip@),
{
    let cut = find_after_last_dot(ip);
    proof {
        lemma_after_last_dot_le(ip@, ip@.len() as int);
    }
    if cut > 0 {
        let mut out = String::new();
        let mut i: usize = 0;
        while i < cut
            invariant
                0 <= i <= cut,
                cut <= ip@.len(),
                out@ =~= ip@.subrange(0, i as int),
            decreases cut - i,
        {
            string_push(&mut out, ip.get_char(i));
            assert(out@ =~= ip@.subrange(0, i + 1 as int));
            i = i + 1;
        }
        string_push(&mut out, '0');
        assert(out@ =~= ip@.subrange(0, cut as int).push('0'));
        out
    } else {
        sanitize_addr(ip)
    }
}

proof fn lemma_after_last_dot_le(s: Seq<char>, i: int)
    requires
        0 <= i <= s.len(),
    ensures
        0 <= after_last_dot(s, i) <= i,
    decreases i,
{
    if i > 0 && s[i - 1] != '.' {
        lemma_after_last_dot_le(s, i - 1);
    }
}

/// The user-agent bucket: a short stable digest of the raw string.
pub open spec fn ua_bucket_of(s: Seq<char>) -> Seq<char> {
    take_chars(digest_of(vstd::utf8::encode_utf8(s)), 12)
}

/// Coarsen a user-agent string into its bucket.
pub fn ua_bucket(ua: &str) -> (r: String)
    ensures
        r@ == ua_bucket_of(ua@),
{
    let full = digest_hex(ua);
    crate::crypto::str_take(full.as_str(), 12)
}



} // verus!
