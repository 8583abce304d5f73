//! Admin authentication: a constant-shape bearer-token comparison and
//! the address allow-list.

use vstd::prelude::*;

use crate::text::str_eq;
use vstd::string::StringSliceAdditionalSpecFns;

verus! {

/// Whether the authorization header carries exactly the expected
/// bearer token. The comparison walks every character of equal-length
/// inputs so timing does not name the first mismatch.
pub fn is_authorized(authorization: Option<&String>, api_key: &str) -> (r: bool)
    ensures
        r <==> (match authorization {
            Some(h) => h@ == "Bearer "@ + api_key@,
            None => false,
        }),
{
    let header = match authorization {
        Some(h) => h,
        None => {
            return false;
        },
    };
    let mut expected = "Bearer ".to_owned();
    expected.append(api_key);
    assert(expected@ =~= "Bearer "@ + api_key@);
    let hs = header.as_str();
    let es = expected.as_str();
    let hlen = hs.unicode_len();
    let elen = es.unicode_len();
    if hlen != elen {
        return false;
    }
    let mut diff: u32 = 0;
    let mut i: usize = 0;
    while i < hlen
        invariant
            0 <= i <= hlen,
            hlen == hs@.len(),
            hlen == es@.len(),
            diff == 0 <==> (forall|k: int| 0 <= k < i ==> hs@[k] == es@[k]),
        decreases hlen - i,
    {
        if hs.get_char(i) != es.get_char(i) {
            diff = 1;
        } else if diff != 0 {
            diff = 1;
        }
        i = i + 1;
    }
    if diff == 0 {
        proof {
            assert(hs@ =~= es@);
        }
        true
    } else {
        false
    }
}

/// The admin identifier recorded in event entries.
pub fn get_admin_id(authorized: bool) -> (r: String)
    ensures
        authorized ==> r@ == "admin"@,
        !authorized ==> r@ == "-"@,
{
    if authorized {
        "admin".to_owned()
    } else {
        "-".to_owned()
    }
}

/// Whether admin access is allowed from this address: an empty list
/// allows every address, otherwise the address must be listed.
pub fn is_admin_ip_allowed(ip: &str, allowlist: &Vec<String>) -> (r: bool)
    ensures
        allowlist@.len() == 0 ==> r,
{
    let n = allowlist.len();
    if n == 0 {
        return true;
    }
    let mut i: usize = 0;
    while i < n
        invariant
            0 <= i <= n,
            n == allowlist@.len(),
        decreases n - i,
    {
        if str_eq(allowlist[i].as_str(), ip) {
            return true;
        }
        i = i + 1;
    }
    false
}

} // verus!
