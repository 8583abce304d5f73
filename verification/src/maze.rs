//! The maze tarpit: synthetic traversal pages under a derived route
//! namespace, signed continuation tokens, concurrency budgets, micro
//! proof-of-work gating and graduated fallback.

pub mod policy;
pub mod rng;
pub mod runtime;
pub mod state;
pub mod token;

use vstd::prelude::*;

use crate::crypto::{digest_hex, digest_of, take_chars};
use crate::text::{str_eq, str_starts_with, string_push};
use vstd::string::StringSliceAdditionalSpecFns;

verus! {

/// The stable route segment: the first twelve characters of the digest
/// of a fixed label joined to the deployment secret.
pub open spec fn route_segment_of(secret: Seq<char>) -> Seq<char> {
    take_chars(digest_of(vstd::utf8::encode_utf8("maze-route-v1::"@ + secret)), 12)
}

/// Derive the route segment for a deployment secret.
pub fn route_segment(secret: &str) -> (r: String)
    ensures
        r@ == route_segment_of(secret@),
{
    let mut seed = "maze-route-v1::".to_owned();
    seed.append(secret);
    assert(seed@ =~= "maze-route-v1::"@ + secret@);
    let digest = digest_hex(seed.as_str());
    crate::crypto::str_take(digest.as_str(), 12)
}

/// The namespace prefix all maze paths live under.
pub open spec fn path_prefix_of(segment: Seq<char>) -> Seq<char> {
    "/_/"@ + segment + "/"@
}

/// The maze path prefix, with its trailing slash.
pub fn path_prefix(segment: &str) -> (r: String)
    ensures
        r@ == path_prefix_of(segment@),
{
    let mut out = "/_/".to_owned();
    out.append(segment);
    out.append("/");
    assert(out@ =~= path_prefix_of(segment@));
    out
}

/// The maze root path: the prefix without its trailing slash.
pub fn root_path(segment: &str) -> (r: String)
    ensures
        r@ == "/_/"@ + segment@,
{
    let mut out = "/_/".to_owned();
    out.append(segment);
    assert(out@ =~= "/_/"@ + segment@);
    out
}

/// The checkpoint beacon path.
pub fn checkpoint_path(segment: &str) -> (r: String)
    ensures
        r@ == path_prefix_of(segment@) + "checkpoint"@,
{
    let mut out = path_prefix(segment);
    out.append("checkpoint");
    assert(out@ =~= path_prefix_of(segment@) + "checkpoint"@);
    out
}

/// The hidden-link issuance path.
pub fn issue_links_path(segment: &str) -> (r: String)
    ensures
        r@ == path_prefix_of(segment@) + "issue-links"@,
{
    let mut out = path_prefix(segment);
    out.append("issue-links");
    assert(out@ =~= path_prefix_of(segment@) + "issue-links"@);
    out
}

/// The content-addressed asset prefix.
pub fn assets_prefix(segment: &str) -> (r: String)
    ensures
        r@ == "/_/"@ + segment@ + "/assets"@,
{
    let mut out = root_path(segment);
    out.append("/assets");
    assert(out@ =~= "/_/"@ + segment@ + "/assets"@);
    out
}

/// A maze entry path for a suffix, leading slashes stripped.
pub open spec fn strip_leading_slashes(s: Seq<char>) -> Seq<char>
    decreases s.len(),
{
    if s.len() > 0 && s[0] == '/' {
        strip_leading_slashes(s.skip(1))
    } else {
        s
    }
}

fn first_non_slash(s: &str) -> (r: usize)
    ensures
        r <= s@.len(),
        strip_leading_slashes(s@) =~= s@.skip(r as int),
{
    let len = s.unicode_len();
    let mut k: usize = 0;
    proof {
        assert(s@.skip(0) =~= s@);
    }
    while k < len
        invariant
            0 <= k <= len,
            len == s@.len(),
            strip_leading_slashes(s@) == strip_leading_slashes(s@.skip(k as int)),
        decreases len - k,
    {
        if s.get_char(k) != '/' {
            proof {
                assert(s@.skip(k as int)[0] == s@[k as int]);
                assert(strip_leading_slashes(s@.skip(k as int)) =~= s@.skip(k as int));
            }
            return k;
        }
        proof {
            assert(s@.skip(k as int)[0] == '/');
            assert(s@.skip(k as int).skip(1) =~= s@.skip(k + 1));
        }
        k = k + 1;
    }
    proof {
        assert(s@.skip(len as int) =~= Seq::<char>::empty());
        assert(strip_leading_slashes(s@.skip(len as int)) =~= Seq::<char>::empty());
    }
    len
}

/// Join a suffix onto the maze prefix.
pub fn entry_path(segment: &str, suffix: &str) -> (r: String)
    ensures
        r@ == path_prefix_of(segment@) + strip_leading_slashes(suffix@),
{
    let mut out = path_prefix(segment);
    let len = suffix.unicode_len();
    let i = first_non_slash(suffix);
    let mut j = i;
    let ghost base = out@;
    while j < len
        invariant
            i <= j <= len,
            len == suffix@.len(),
            out@ =~= base + suffix@.subrange(i as int, j as int),
        decreases len - j,
    {
        string_push(&mut out, suffix.get_char(j));
        assert(out@ =~= base + suffix@.subrange(i as int, j + 1 as int));
        j = j + 1;
    }
    proof {
        assert(suffix@.subrange(i as int, len as int) =~= suffix@.skip(i as int));
        assert(out@ =~= path_prefix_of(segment@) + strip_leading_slashes(suffix@));
    }
    out
}

/// The default preview entry.
pub fn default_preview_path(segment: &str) -> (r: String)
    ensures
        r@ == path_prefix_of(segment@) + "preview"@,
{
    proof {
        reveal_strlit("preview");
    }
    let r = entry_path(segment, "preview");
    assert(strip_leading_slashes("preview"@) =~= "preview"@);
    r
}

/// A character allowed in a maze path suffix.
pub open spec fn suffix_char_ok(c: char) -> bool {
    ('a' <= c && c <= 'z') || ('A' <= c && c <= 'Z') || ('0' <= c && c <= '9') || c == '/'
        || c == '-' || c == '_' || c == '.' || c == '~'
}

/// Whether a path targets a maze entry point: the root, the prefix
/// itself, or the prefix followed by a clean suffix with no doubled
/// slash, no dot-dot and no characters outside the path alphabet.
pub open spec fn is_maze_path_spec(path: Seq<char>, segment: Seq<char>) -> bool {
    let prefix = path_prefix_of(segment);
    if path == "/_/"@ + segment || path == prefix {
        true
    } else if !(prefix.len() <= path.len() && path.subrange(0, prefix.len() as int) =~= prefix) {
        false
    } else {
        let suffix = path.skip(prefix.len() as int);
        {
            &&& suffix.len() > 0
            &&& suffix[0] != '/'
            &&& !crate::text::contains_seq(suffix, "//"@)
            &&& !crate::text::contains_seq(suffix, ".."@)
            &&& (forall|i: int| 0 <= i < suffix.len() ==> suffix_char_ok(#[trigger] suffix[i]))
        }
    }
}

/// Check whether a request path targets a maze entry point.
pub fn is_maze_path(path: &str, segment: &str) -> (r: bool)
    ensures
        r == is_maze_path_spec(path@, segment@),
{
    let root = root_path(segment);
    let prefix = path_prefix(segment);
    if str_eq(path, root.as_str()) || str_eq(path, prefix.as_str()) {
        return true;
    }
    if !str_starts_with(path, prefix.as_str()) {
        proof {
            if prefix@.len() <= path@.len() && path@.subrange(0, prefix@.len() as int) =~= prefix@ {
                assert(crate::text::starts_with_seq(path@, prefix@));
            }
        }
        return false;
    }
    let plen = prefix.as_str().unicode_len();
    let len = path.unicode_len();
    let ghost suffix = path@.skip(plen as int);
    if plen == len {
        assert(path@ =~= prefix@);
        return false;
    }
    if path.get_char(plen) == '/' {
        assert(suffix[0] == '/');
        return false;
    }
    let mut i = plen;
    while i < len
        invariant
            plen <= i <= len,
            len == path@.len(),
            plen < len,
            plen == prefix@.len(),
            prefix@ == path_prefix_of(segment@),
            path@ != "/_/"@ + segment@,
            path@ != prefix@,
            path@.subrange(0, plen as int) =~= prefix@,
            suffix == path@.skip(plen as int),
            suffix[0] != '/',
            forall|k: int| 0 <= k < i - plen ==> suffix_char_ok(#[trigger] suffix[k]),
            forall|k: int| 0 <= k < i - plen - 1
                ==> !(#[trigger] suffix[k] == '/' && suffix[k + 1] == '/'),
            forall|k: int| 0 <= k < i - plen - 1
                ==> !(#[trigger] suffix[k] == '.' && suffix[k + 1] == '.'),
        decreases len - i,
    {
        let c = path.get_char(i);
        let ok = (c >= 'a' && c <= 'z') || (c >= 'A' && c <= 'Z') || (c >= '0' && c <= '9') || c
            == '/' || c == '-' || c == '_' || c == '.' || c == '~';
        if !ok {
            proof {
                assert(suffix[i - plen] == path@[i as int]);
                assert(!suffix_char_ok(suffix[i - plen]));
            }
            return false;
        }
        if i > plen {
            let prev = path.get_char(i - 1);
            if prev == '/' && c == '/' {
                proof {
                    let k = i - plen - 1;
                    assert(suffix[k] == path@[i - 1]);
                    assert(suffix[k + 1] == path@[i as int]);
                    assert(crate::text::contains_seq(suffix, "//"@)) by {
                        reveal_strlit("//");
                        assert(suffix.subrange(k, k + 2) =~= "//"@);
                    }
                }
                return false;
            }
            if prev == '.' && c == '.' {
                proof {
                    let k = i - plen - 1;
                    assert(suffix[k] == path@[i - 1]);
                    assert(suffix[k + 1] == path@[i as int]);
                    assert(crate::text::contains_seq(suffix, ".."@)) by {
                        reveal_strlit("..");
                        assert(suffix.subrange(k, k + 2) =~= ".."@);
                    }
                }
                return false;
            }
        }
        proof {
            assert(suffix[i - plen] == path@[i as int]);
            if i > plen {
                assert(suffix[i - plen - 1] == path@[i - 1]);
            }
        }
        i = i + 1;
    }
    proof {
        assert(suffix.len() == len - plen > 0);
        assert(suffix[0] != '/');
        if crate::text::contains_seq(suffix, "//"@) {
            reveal_strlit("//");
            let k = choose|k: int|
                0 <= k && k + ("//"@).len() <= suffix.len() && #[trigger] suffix.subrange(
                    k,
                    k + ("//"@).len(),
                ) =~= "//"@;
            assert(suffix.subrange(k, k + 2)[0] == suffix[k]);
            assert(suffix.subrange(k, k + 2)[1] == suffix[k + 1]);
            assert(suffix[k] == '/' && suffix[k + 1] == '/');
        }
        if crate::text::contains_seq(suffix, ".."@) {
            reveal_strlit("..");
            let k = choose|k: int|
                0 <= k && k + (".."@).len() <= suffix.len() && #[trigger] suffix.subrange(
                    k,
                    k + (".."@).len(),
                ) =~= ".."@;
            assert(suffix.subrange(k, k + 2)[0] == suffix[k]);
            assert(suffix.subrange(k, k + 2)[1] == suffix[k + 1]);
            assert(suffix[k] == '.' && suffix[k + 1] == '.');
        }
        assert(crate::text::starts_with_seq(path@, prefix@));
        assert(path@.subrange(0, prefix@.len() as int) =~= prefix@);
    }
    true
}

} // verus!
