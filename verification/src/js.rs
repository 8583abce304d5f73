//! JavaScript verification: the HMAC cookie that marks a client as
//! having executed the challenge script, and the browser allow-list
//! bypass.

use vstd::prelude::*;

use crate::text::{str_eq, str_starts_with, string_push};
use vstd::string::StringSliceAdditionalSpecFns;

verus! {

/// The verification cookie value for an address: the base64 HMAC of
/// the address under the script secret.
pub fn make_token(ip: &str, secret: &str) -> (r: String)
    ensures
        r@ == crate::crypto::b64_of(
            crate::crypto::hmac_sha256_of(secret.spec_bytes(), vstd::utf8::encode_utf8(ip@)),
        ),
{
    let tag = crate::crypto::hmac_sha256(secret.as_bytes(), ip.as_bytes());
    crate::crypto::b64_encode(tag.as_slice())
}

/// Whether a request still needs JS verification: no cookie part reads
/// `js_verified=` followed by the address's token. A request read as
/// verified really carries the cookie with the address's own token.
pub fn needs_js_verification(cookie_header: Option<&String>, ip: &str, secret: &str) -> (r: bool)
    ensures
        cookie_header is None ==> r,
        !r ==> (cookie_header matches Some(h) && crate::text::contains_seq(
            h@,
            "js_verified="@ + crate::crypto::b64_of(
                crate::crypto::hmac_sha256_of(
                    secret.spec_bytes(),
                    vstd::utf8::encode_utf8(ip@),
                ),
            ),
        )),
{
    let header = match cookie_header {
        Some(h) => h,
        None => {
            return true;
        },
    };
    let expected = make_token(ip, secret);
    let hs = header.as_str();
    let len = hs.unicode_len();
    let mut start: usize = 0;
    while start < len
        invariant
            0 <= start <= len,
            len == hs@.len(),
            (cookie_header matches Some(hh) && hh@ == hs@),
            expected@ == crate::crypto::b64_of(
                crate::crypto::hmac_sha256_of(
                    secret.spec_bytes(),
                    vstd::utf8::encode_utf8(ip@),
                ),
            ),
        decreases len - start,
    {
        let mut stop = start;
        while stop < len
            invariant
                start <= stop <= len,
                len == hs@.len(),
            decreases len - stop,
        {
            if hs.get_char(stop) == ';' {
                break;
            }
            stop = stop + 1;
        }
        let mut trim = start;
        while trim < stop
            invariant
                start <= trim <= stop,
                stop <= len,
                len == hs@.len(),
            decreases stop - trim,
        {
            if hs.get_char(trim) != ' ' {
                break;
            }
            trim = trim + 1;
        }
        let part = crate::text::str_range(hs, trim, stop);
        if str_starts_with(part.as_str(), "js_verified=") {
            proof {
                reveal_strlit("js_verified=");
                assert(("js_verified="@).len() == 12);
            }
            let value = crate::text::str_range(part.as_str(), 12, part.as_str().unicode_len());
            if str_eq(value.as_str(), expected.as_str()) {
                proof {
                    let needle = "js_verified="@ + expected@;
                    assert(part@ =~= needle);
                    assert(hs@.subrange(trim as int, trim as int + needle.len()) =~= needle);
                    assert(crate::text::contains_seq(hs@, needle));
                }
                return false;
            }
        }
        if stop >= len {
            return true;
        }
        start = stop + 1;
    }
    true
}

/// Extract the major version a user agent claims for a browser name:
/// the digits after `name/`.
pub fn extract_version(ua: &str, name: &str) -> (r: Option<u64>) {
    let len = ua.unicode_len();
    let nlen = name.unicode_len();
    if nlen == 0 || nlen >= len {
        return None;
    }
    let bound = len - nlen - 1;
    let mut start: usize = 0;
    while start <= bound
        invariant
            0 <= start <= bound + 1,
            bound == len - nlen - 1,
            nlen < len,
            len == ua@.len(),
            nlen == name@.len(),
        decreases bound + 1 - start,
    {
        let mut matched = true;
        let mut k: usize = 0;
        while k < nlen
            invariant
                0 <= k <= nlen,
                start + nlen < len,
                len == ua@.len(),
                nlen == name@.len(),
            decreases nlen - k,
        {
            if ua.get_char(start + k) != name.get_char(k) {
                matched = false;
                break;
            }
            k = k + 1;
        }
        if matched && ua.get_char(start + nlen) == '/' {
            let mut d = start + nlen + 1;
            while d < len
                invariant
                    start + nlen + 1 <= d <= len,
                    len == ua@.len(),
                decreases len - d,
            {
                let c = ua.get_char(d);
                if !(c >= '0' && c <= '9') {
                    break;
                }
                d = d + 1;
            }
            if d > start + nlen + 1 {
                let digits = crate::text::str_range(ua, start + nlen + 1, d);
                return crate::text::parse_u64(digits.as_str());
            }
            return None;
        }
        start = start + 1;
    }
    None
}

/// Whether a request needs JS verification, with an allow-list of
/// browsers whose recent versions bypass the challenge.
pub fn needs_js_verification_with_whitelist(
    cookie_header: Option<&String>,
    ip: &str,
    secret: &str,
    user_agent: &str,
    browser_whitelist: &Vec<(String, u64)>,
) -> (r: bool) {
    let n = browser_whitelist.len();
    let mut i: usize = 0;
    while i < n
        invariant
            0 <= i <= n,
            n == browser_whitelist@.len(),
        decreases n - i,
    {
        match extract_version(user_agent, browser_whitelist[i].0.as_str()) {
            Some(ver) => {
                if ver >= browser_whitelist[i].1 {
                    return false;
                }
            },
            None => {},
        }
        i = i + 1;
    }
    needs_js_verification(cookie_header, ip, secret)
}

/// The challenge page that sets the verification cookie and reloads.
pub fn inject_js_challenge(ip: &str, secret: &str) -> (r: (u16, String))
    ensures
        r.0 == 200,
{
    let token = make_token(ip, secret);
    let mut html = "<html><head></head><body><script>document.cookie='js_verified=".to_owned();
    html.append(token.as_str());
    html.append("; path=/; SameSite=Strict; Max-Age=86400';window.location.reload();</script><noscript>Please enable JavaScript to continue.</noscript></body></html>");
    (200, html)
}

} // verus!
