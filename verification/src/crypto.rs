//! Cryptographic primitives behind trusted wrappers, and the verified
//! hex encoding used for digests and identifiers.
//!
//! The HMAC, SHA-256 and base64 computations are done by outside crates;
//! their results are named by uninterpreted spec functions so that the
//! callers' contracts can speak of them exactly.

use vstd::prelude::*;

use vstd::string::StringSliceAdditionalSpecFns;
use crate::text::string_push;
use base64::Engine;
use hmac::{Hmac, KeyInit, Mac};
use sha2::Digest;

verus! {

/// The HMAC-SHA256 tag of a message under a key.
pub uninterp spec fn hmac_sha256_of(key: Seq<u8>, msg: Seq<u8>) -> Seq<u8>;

/// The SHA-256 digest of a byte sequence.
pub uninterp spec fn sha256_of(data: Seq<u8>) -> Seq<u8>;

/// The standard (padded) base64 encoding of a byte sequence.
pub uninterp spec fn b64_of(bytes: Seq<u8>) -> Seq<char>;

/// The percent-decoding of a string.
pub uninterp spec fn percent_decoded_of(s: Seq<char>) -> Seq<char>;

/// Relies on hmac and sha2: computes the HMAC-SHA256 tag, a 32-byte value
/// that depends on the key and the message alone.
#[verifier::external_body]
pub fn hmac_sha256(key: &[u8], msg: &[u8]) -> (r: Vec<u8>)
    ensures
        r@ == hmac_sha256_of(key@, msg@),
        r@.len() == 32,
{
    let mut mac = match Hmac::<sha2::Sha256>::new_from_slice(key) {
        Ok(mac) => mac,
        Err(_) => return Vec::new(),
    };
    mac.update(msg);
    mac.finalize().into_bytes().to_vec()
}

/// Relies on hmac's Mac::verify_slice: constant-time comparison of the
/// candidate tag against the freshly computed HMAC-SHA256 tag.
#[verifier::external_body]
pub fn hmac_verify(key: &[u8], msg: &[u8], tag: &[u8]) -> (r: bool)
    ensures
        r == (tag@ == hmac_sha256_of(key@, msg@)),
{
    let mut mac = match Hmac::<sha2::Sha256>::new_from_slice(key) {
        Ok(mac) => mac,
        Err(_) => return false,
    };
    mac.update(msg);
    mac.verify_slice(tag).is_ok()
}

/// Relies on sha2's Sha256: computes the 32-byte SHA-256 digest, which
/// depends on the input bytes alone.
#[verifier::external_body]
pub fn sha256(data: &[u8]) -> (r: Vec<u8>)
    ensures
        r@ == sha256_of(data@),
        r@.len() == 32,
{
    sha2::Sha256::digest(data).to_vec()
}

/// Relies on base64's STANDARD engine: padded encoding, a function of the
/// input bytes alone; its alphabet holds letters, digits, `+`, `/` and
/// `=`, so the result never contains a dot.
#[verifier::external_body]
pub fn b64_encode(bytes: &[u8]) -> (r: String)
    ensures
        r@ == b64_of(bytes@),
        forall|i: int| 0 <= i < r@.len() ==> r@[i] != '.',
        bytes@.len() > 0 ==> r@.len() > 0,
{
    base64::engine::general_purpose::STANDARD.encode(bytes)
}

/// Relies on base64's STANDARD engine: strict decoding, which accepts a
/// string exactly when it is the canonical padded encoding of some bytes
/// and then returns those bytes.
#[verifier::external_body]
pub fn b64_decode(s: &str) -> (r: Result<Vec<u8>, ()>)
    ensures
        r matches Ok(b) ==> s@ == b64_of(b@) && (forall|x: Seq<u8>|
            s@ == #[trigger] b64_of(x) ==> x == b@),
        r matches Err(e) ==> forall|x: Seq<u8>| s@ != #[trigger] b64_of(x),
{
    base64::engine::general_purpose::STANDARD.decode(s.as_bytes()).map_err(|_| ())
}

/// Relies on percent_encoding's percent_decode_str: replaces %XX escapes
/// and leaves every other character as it stands, so a string without a
/// percent sign decodes to itself.
#[verifier::external_body]
pub fn url_decode(s: &str) -> (r: String)
    ensures
        r@ == percent_decoded_of(s@),
        (forall|i: int| 0 <= i < s@.len() ==> s@[i] != '%') ==> r@ == s@,
{
    percent_encoding::percent_decode_str(s).decode_utf8_lossy().to_string()
}

/// Relies on rand::random: draws a uniformly random 64-bit value.
#[verifier::external_body]
pub fn random_u64() -> u64 {
    rand::random::<u64>()
}

/// The lower-case hex digit character for a value below sixteen.
pub open spec fn hex_digit(d: int) -> char {
    if d < 10 {
        crate::text::dec_digit(d)
    } else if d == 10 {
        'a'
    } else if d == 11 {
        'b'
    } else if d == 12 {
        'c'
    } else if d == 13 {
        'd'
    } else if d == 14 {
        'e'
    } else {
        'f'
    }
}

/// The lower-case hex rendering of a byte sequence, two digits per byte.
pub open spec fn hex_of(bytes: Seq<u8>) -> Seq<char>
    decreases bytes.len(),
{
    if bytes.len() == 0 {
        Seq::empty()
    } else {
        hex_of(bytes.drop_last()) + seq![
            hex_digit(bytes.last() as int / 16),
            hex_digit(bytes.last() as int % 16),
        ]
    }
}

fn hex_digit_char(d: u8) -> (c: char)
    requires
        d < 16,
    ensures
        c == hex_digit(d as int),
{
    if d == 10 {
        'a'
    } else if d == 11 {
        'b'
    } else if d == 12 {
        'c'
    } else if d == 13 {
        'd'
    } else if d == 14 {
        'e'
    } else if d == 15 {
        'f'
    } else if d == 0 {
        '0'
    } else if d == 1 {
        '1'
    } else if d == 2 {
        '2'
    } else if d == 3 {
        '3'
    } else if d == 4 {
        '4'
    } else if d == 5 {
        '5'
    } else if d == 6 {
        '6'
    } else if d == 7 {
        '7'
    } else if d == 8 {
        '8'
    } else {
        '9'
    }
}

/// Render bytes as lower-case hex.
pub fn bytes_to_hex(bytes: &[u8]) -> (r: String)
    ensures
        r@ == hex_of(bytes@),
{
    let mut out = String::new();
    let len = bytes.len();
    let mut i: usize = 0;
    while i < len
        invariant
            0 <= i <= len,
            len == bytes@.len(),
            out@ =~= hex_of(bytes@.subrange(0, i as int)),
        decreases len - i,
    {
        let b = bytes[i];
        string_push(&mut out, hex_digit_char(b / 16));
        string_push(&mut out, hex_digit_char(b % 16));
        proof {
            let pre = bytes@.subrange(0, i + 1 as int);
            assert(pre.drop_last() =~= bytes@.subrange(0, i as int));
            assert(pre.last() == bytes@[i as int]);
        }
        i = i + 1;
    }
    assert(bytes@.subrange(0, len as int) =~= bytes@);
    out
}

/// The hex SHA-256 digest of a byte sequence: 64 lower-case hex characters.
pub open spec fn digest_of(data: Seq<u8>) -> Seq<char> {
    hex_of(sha256_of(data))
}

/// Hex SHA-256 digest of a string's UTF-8 bytes.
pub fn digest_hex(s: &str) -> (r: String)
    ensures
        r@ == digest_of(s.spec_bytes()),
{
    let raw = sha256(s.as_bytes());
    bytes_to_hex(raw.as_slice())
}

/// The first `n` characters of a sequence, or all of it when shorter.
pub open spec fn take_chars(s: Seq<char>, n: int) -> Seq<char> {
    if s.len() <= n {
        s
    } else {
        s.subrange(0, n)
    }
}

/// The first characters of a string's hex SHA-256 digest.
pub fn hash_prefix(input: &str, chars: usize) -> (r: String)
    ensures
        r@ == take_chars(digest_of(input.spec_bytes()), chars as int),
{
    let full = digest_hex(input);
    str_take(full.as_str(), chars)
}

/// Copy at most the first `n` characters of a string.
pub fn str_take(s: &str, n: usize) -> (r: String)
    ensures
        r@ == take_chars(s@, n as int),
{
    let len = s.unicode_len();
    let end = if len <= n {
        len
    } else {
        n
    };
    let mut out = String::new();
    let mut i: usize = 0;
    while i < end
        invariant
            0 <= i <= end,
            end <= len,
            len == s@.len(),
            out@ =~= s@.subrange(0, i as int),
        decreases end - i,
    {
        string_push(&mut out, s.get_char(i));
        assert(out@ =~= s@.subrange(0, i + 1 as int));
        i = i + 1;
    }
    assert(out@ =~= s@.subrange(0, end as int));
    assert(out@ == take_chars(s@, n as int));
    out
}


/// Relies on String::from_utf8: accepts exactly the byte strings that are
/// the UTF-8 encoding of some character sequence, and returns it.
#[verifier::external_body]
pub fn string_from_utf8(v: Vec<u8>) -> (r: Result<String, ()>)
    ensures
        r matches Ok(s) ==> v@ == vstd::utf8::encode_utf8(s@) && (forall|cs: Seq<char>|
            v@ == #[trigger] vstd::utf8::encode_utf8(cs) ==> cs == s@),
        r matches Err(e) ==> forall|cs: Seq<char>| v@ != #[trigger] vstd::utf8::encode_utf8(cs),
{
    String::from_utf8(v).map_err(|_| ())
}

} // verus!
