//! Small text utilities shared across the crate: decimal codecs over
//! characters and over bytes, ASCII case folding, and substring search.

use vstd::prelude::*;

verus! {

/// Relies on String::push: appends one character to the string.
#[verifier::external_body]
pub fn string_push(s: &mut String, c: char)
    ensures
        final(s)@ == old(s)@.push(c),
{
    s.push(c);
}

/// The decimal digit character for a value below ten.
pub open spec fn dec_digit(d: int) -> char {
    if d == 0 {
        '0'
    } else if d == 1 {
        '1'
    } else if d == 2 {
        '2'
    } else if d == 3 {
        '3'
    } else if d == 4 {
        '4'
    } else if d == 5 {
        '5'
    } else if d == 6 {
        '6'
    } else if d == 7 {
        '7'
    } else if d == 8 {
        '8'
    } else {
        '9'
    }
}

/// The canonical decimal rendering of a natural number, without leading zeros.
pub open spec fn dec_of(n: nat) -> Seq<char>
    decreases n,
{
    if n < 10 {
        seq![dec_digit(n as int)]
    } else {
        dec_of(n / 10).push(dec_digit((n % 10) as int))
    }
}

fn dec_digit_char(d: u64) -> (c: char)
    requires
        d < 10,
    ensures
        c == dec_digit(d as int),
{
    if d == 0 {
        '0'
    } else if d == 1 {
        '1'
    } else if d == 2 {
        '2'
    } else if d == 3 {
        '3'
    } else if d == 4 {
        '4'
    } else if d == 5 {
        '5'
    } else if d == 6 {
        '6'
    } else if d == 7 {
        '7'
    } else if d == 8 {
        '8'
    } else {
        '9'
    }
}

/// Append the decimal rendering of `n` to `out`.
pub fn push_u64(out: &mut String, n: u64)
    ensures
        final(out)@ == old(out)@ + dec_of(n as nat),
    decreases n,
{
    if n < 10 {
        string_push(out, dec_digit_char(n));
    } else {
        push_u64(out, n / 10);
        string_push(out, dec_digit_char(n % 10));
    }
}

/// The decimal rendering of `n` as a fresh string.
pub fn u64_to_string(n: u64) -> (r: String)
    ensures
        r@ == dec_of(n as nat),
{
    let mut s = String::new();
    push_u64(&mut s, n);
    assert(s@ =~= dec_of(n as nat));
    s
}

/// Whether `c` is a decimal digit character.
pub open spec fn is_dec_digit(c: char) -> bool {
    '0' <= c && c <= '9'
}

/// The numeric value of a digit character.
pub open spec fn digit_val(c: char) -> int {
    c as int - '0' as int
}

/// The value of a digit string read most-significant first.
pub open spec fn digits_val(s: Seq<char>) -> int
    decreases s.len(),
{
    if s.len() == 0 {
        0
    } else {
        digits_val(s.drop_last()) * 10 + digit_val(s.last())
    }
}

/// Whether every character of `s` is a decimal digit.
pub open spec fn all_dec_digits(s: Seq<char>) -> bool {
    forall|i: int| 0 <= i < s.len() ==> is_dec_digit(#[trigger] s[i])
}

/// Parse an unsigned decimal number. Accepts leading zeros; rejects an
/// empty string, a non-digit character, and a value that does not fit.
pub fn parse_u64(s: &str) -> (r: Option<u64>)
    ensures
        r matches Some(v) ==> s@.len() > 0 && all_dec_digits(s@) && digits_val(s@) == v as int,
        r is None ==> s@.len() == 0 || !all_dec_digits(s@) || digits_val(s@) > u64::MAX,
{
    let len = s.unicode_len();
    if len == 0 {
        return None;
    }
    let mut value: u64 = 0;
    let mut i: usize = 0;
    while i < len
        invariant
            0 <= i <= len,
            len == s@.len(),
            all_dec_digits(s@.subrange(0, i as int)),
            digits_val(s@.subrange(0, i as int)) == value as int,
        decreases len - i,
    {
        let c = s.get_char(i);
        if !(c >= '0' && c <= '9') {
            assert(!is_dec_digit(s@[i as int]));
            return None;
        }
        let d: u64 = (c as u32 as u64) - 48;
        assert(d == digit_val(s@[i as int]) && d < 10);
        if value > (u64::MAX - d) / 10 {
            proof {
                lemma_digits_val_grows(s@, i as int);
                if s@.len() > 0 && all_dec_digits(s@) {
                    assert(digits_val(s@) > u64::MAX);
                }
            }
            return None;
        }
        value = value * 10 + d;
        assert(s@.subrange(0, i + 1 as int).drop_last() =~= s@.subrange(0, i as int));
        i = i + 1;
    }
    assert(s@.subrange(0, len as int) =~= s@);
    Some(value)
}

/// Once a digit prefix overflows, the whole digit string value
/// exceeds `u64::MAX` as well.
pub proof fn lemma_digits_val_grows(s: Seq<char>, i: int)
    requires
        0 <= i < s.len(),
        digits_val(s.subrange(0, i)) * 10 + digit_val(s[i]) > u64::MAX,
    ensures
        all_dec_digits(s) ==> digits_val(s) > u64::MAX,
    decreases s.len() - i,
{
    if all_dec_digits(s) {
        assert(s.subrange(0, i + 1).drop_last() =~= s.subrange(0, i));
        assert(s.subrange(0, i + 1).last() == s[i]);
        if i + 1 == s.len() {
            assert(s.subrange(0, i + 1) =~= s);
        } else {
            assert(digits_val(s.subrange(0, i + 1)) > u64::MAX);
            assert(is_dec_digit(s[i + 1]));
            assert(digit_val(s[i + 1]) >= 0);
            lemma_digits_val_grows(s, i + 1);
        }
    }
}

/// Parse an unsigned decimal number that must also fit in 32 bits.
pub fn parse_u32(s: &str) -> (r: Option<u32>)
    ensures
        r matches Some(v) ==> s@.len() > 0 && all_dec_digits(s@) && digits_val(s@) == v as int,
        r is None ==> s@.len() == 0 || !all_dec_digits(s@) || digits_val(s@) > u32::MAX,
{
    match parse_u64(s) {
        Some(v) => {
            if v <= 0xffff_ffffu64 {
                Some(v as u32)
            } else {
                None
            }
        },
        None => {
            proof {
                if s@.len() > 0 && all_dec_digits(s@) {
                    lemma_digits_val_nonneg_pub(s@);
                }
            }
            None
        },
    }
}

pub proof fn lemma_digits_val_nonneg_pub(s: Seq<char>)
    requires
        all_dec_digits(s),
    ensures
        digits_val(s) >= 0,
    decreases s.len(),
{
    if s.len() > 0 {
        assert(all_dec_digits(s.drop_last()));
        lemma_digits_val_nonneg_pub(s.drop_last());
    }
}

/// ASCII lower-casing of one character; other characters pass through.
pub open spec fn lower_char(c: char) -> char {
    if 'A' <= c && c <= 'Z' {
        ((c as int) + 32) as char
    } else {
        c
    }
}

/// ASCII lower-casing of a character sequence.
pub open spec fn lower_seq(s: Seq<char>) -> Seq<char> {
    s.map_values(|c: char| lower_char(c))
}

/// Lower-case the ASCII letters of `s`; other characters are kept.
pub fn to_ascii_lower(s: &str) -> (r: String)
    ensures
        r@ == lower_seq(s@),
{
    let len = s.unicode_len();
    let mut out = String::new();
    let mut i: usize = 0;
    while i < len
        invariant
            0 <= i <= len,
            len == s@.len(),
            out@ =~= lower_seq(s@).subrange(0, i as int),
        decreases len - i,
    {
        let c = s.get_char(i);
        let lc: char = if c >= 'A' && c <= 'Z' {
            lower_code_char((c as u32) + 32)
        } else {
            c
        };
        assert(lc == lower_seq(s@)[i as int]);
        string_push(&mut out, lc);
        assert(out@ =~= lower_seq(s@).subrange(0, i + 1 as int));
        i = i + 1;
    }
    assert(out@ =~= lower_seq(s@));
    out
}

/// Relies on char::from_u32: for codes below 0xD800 it returns the
/// character with that scalar value.
#[verifier::external_body]
pub fn lower_code_char(code: u32) -> (c: char)
    requires
        code < 0xd800,
    ensures
        c as int == code as int,
{
    char::from_u32(code).unwrap_or(' ')
}

/// Whether `pat` occurs as a contiguous run inside `s`.
pub open spec fn contains_seq(s: Seq<char>, pat: Seq<char>) -> bool {
    exists|i: int|
        0 <= i && i + pat.len() <= s.len() && #[trigger] s.subrange(i, i + pat.len()) =~= pat
}

/// Substring search, character by character.
/// A run found in a prefix is found in the whole: text that contains
/// `n` still contains it after more text is appended.
pub proof fn lemma_contains_prefix(a: Seq<char>, c: Seq<char>, n: Seq<char>)
    requires
        contains_seq(a, n),
        a.len() <= c.len(),
        c.subrange(0, a.len() as int) == a,
    ensures
        contains_seq(c, n),
{
    let k = choose|k: int|
        0 <= k && k + n.len() <= a.len() && #[trigger] a.subrange(k, k + n.len()) =~= n;
    assert forall|i: int| 0 <= i < n.len() implies c.subrange(k, k + n.len())[i] == n[i] by {
        assert(c.subrange(0, a.len() as int)[k + i] == c[k + i]);
        assert(a.subrange(k, k + n.len())[i] == a[k + i]);
    }
    assert(c.subrange(k, k + n.len()) =~= n);
}

pub fn str_contains(s: &str, pat: &str) -> (r: bool)
    ensures
        r == contains_seq(s@, pat@),
{
    let slen = s.unicode_len();
    let plen = pat.unicode_len();
    if plen > slen {
        return false;
    }
    let mut start: usize = 0;
    while start <= slen - plen
        invariant
            0 <= start,
            plen <= slen,
            slen == s@.len(),
            plen == pat@.len(),
            forall|i: int|
                0 <= i < start ==> !(#[trigger] s@.subrange(i, i + pat@.len()) =~= pat@),
        decreases slen - start,
    {
        let mut j: usize = 0;
        let mut matched = true;
        while j < plen
            invariant
                0 <= j <= plen,
                plen <= slen,
                start + plen <= slen,
                slen == s@.len(),
                plen == pat@.len(),
                matched ==> forall|k: int| 0 <= k < j ==> s@[start + k] == pat@[k],
                !matched ==> !(s@.subrange(start as int, start + pat@.len()) =~= pat@),
            decreases plen - j,
        {
            if s.get_char(start + j) != pat.get_char(j) {
                proof {
                    let sub = s@.subrange(start as int, start + pat@.len());
                    assert(sub[j as int] == s@[start + j]);
                    assert(sub[j as int] != pat@[j as int]);
                }
                matched = false;
                j = plen;
            } else {
                j = j + 1;
            }
        }
        if matched {
            assert(s@.subrange(start as int, start + pat@.len()) =~= pat@);
            return true;
        }
        start = start + 1;
    }
    assert forall|i: int| 0 <= i && i + pat@.len() <= s@.len() implies !(#[trigger] s@.subrange(
        i,
        i + pat@.len(),
    ) =~= pat@) by {
        assert(i < start);
    }
    false
}

/// Whether `s` begins with `pre`.
pub open spec fn starts_with_seq(s: Seq<char>, pre: Seq<char>) -> bool {
    pre.len() <= s.len() && s.subrange(0, pre.len() as int) =~= pre
}

/// Prefix test, character by character.
pub fn str_starts_with(s: &str, pre: &str) -> (r: bool)
    ensures
        r == starts_with_seq(s@, pre@),
{
    let slen = s.unicode_len();
    let plen = pre.unicode_len();
    if plen > slen {
        return false;
    }
    let mut j: usize = 0;
    while j < plen
        invariant
            0 <= j <= plen,
            plen <= slen,
            slen == s@.len(),
            plen == pre@.len(),
            forall|k: int| 0 <= k < j ==> s@[k] == pre@[k],
        decreases plen - j,
    {
        if s.get_char(j) != pre.get_char(j) {
            assert(!(s@.subrange(0, pre@.len() as int) =~= pre@));
            return false;
        }
        j = j + 1;
    }
    assert(s@.subrange(0, pre@.len() as int) =~= pre@);
    true
}

/// Equality of two string slices, character by character.
pub fn str_eq(a: &str, b: &str) -> (r: bool)
    ensures
        r == (a@ == b@),
{
    let alen = a.unicode_len();
    let blen = b.unicode_len();
    if alen != blen {
        return false;
    }
    let mut j: usize = 0;
    while j < alen
        invariant
            0 <= j <= alen,
            alen == a@.len(),
            alen == b@.len(),
            forall|k: int| 0 <= k < j ==> a@[k] == b@[k],
        decreases alen - j,
    {
        if a.get_char(j) != b.get_char(j) {
            assert(a@[j as int] != b@[j as int]);
            return false;
        }
        j = j + 1;
    }
    assert(a@ =~= b@);
    true
}


/// Whether `b` is an ASCII digit byte.
pub open spec fn is_digit_byte(b: u8) -> bool {
    48 <= b <= 57
}

/// The numeric value of a digit byte.
pub open spec fn digit_byte_val(b: u8) -> int {
    b - 48
}

/// The value of a digit byte string read most-significant first.
pub open spec fn digits_val_bytes(s: Seq<u8>) -> int
    decreases s.len(),
{
    if s.len() == 0 {
        0
    } else {
        digits_val_bytes(s.drop_last()) * 10 + digit_byte_val(s.last())
    }
}

pub open spec fn all_digit_bytes(s: Seq<u8>) -> bool {
    forall|i: int| 0 <= i < s.len() ==> is_digit_byte(#[trigger] s[i])
}

/// The canonical decimal rendering of a natural number as ASCII bytes.
pub open spec fn dec_bytes_of(n: nat) -> Seq<u8>
    decreases n,
{
    if n < 10 {
        seq![(48 + n) as u8]
    } else {
        dec_bytes_of(n / 10).push((48 + n % 10) as u8)
    }
}

/// Append the decimal rendering of `n` to a byte vector.
pub fn push_dec_bytes(out: &mut Vec<u8>, n: u64)
    ensures
        final(out)@ == old(out)@ + dec_bytes_of(n as nat),
    decreases n,
{
    if n < 10 {
        out.push(48 + n as u8);
        assert(final(out)@ =~= old(out)@ + dec_bytes_of(n as nat));
    } else {
        push_dec_bytes(out, n / 10);
        out.push(48 + (n % 10) as u8);
        assert(final(out)@ =~= old(out)@ + dec_bytes_of(n as nat));
    }
}

/// The decimal rendering of `n` as a fresh byte vector.
pub fn u64_to_dec_bytes(n: u64) -> (r: Vec<u8>)
    ensures
        r@ == dec_bytes_of(n as nat),
{
    let mut out: Vec<u8> = Vec::new();
    push_dec_bytes(&mut out, n);
    assert(out@ =~= dec_bytes_of(n as nat));
    out
}

/// What a whole byte string parses to as a canonical decimal number:
/// all digits, no redundant leading zero, and a value that fits.
pub open spec fn spec_parse_u64_bytes(s: Seq<u8>) -> Option<u64> {
    if s.len() > 0 && all_digit_bytes(s) && (s[0] != 48 || s.len() == 1)
        && digits_val_bytes(s) <= u64::MAX {
        Some(digits_val_bytes(s) as u64)
    } else {
        None
    }
}

/// Once a digit-byte prefix overflows, the whole string's value does too.
proof fn lemma_digit_bytes_grow(s: Seq<u8>, i: int)
    requires
        0 <= i < s.len(),
        digits_val_bytes(s.subrange(0, i)) * 10 + digit_byte_val(s[i]) > u64::MAX,
    ensures
        all_digit_bytes(s) ==> digits_val_bytes(s) > u64::MAX,
    decreases s.len() - i,
{
    if all_digit_bytes(s) {
        assert(s.subrange(0, i + 1).drop_last() =~= s.subrange(0, i));
        assert(s.subrange(0, i + 1).last() == s[i]);
        if i + 1 == s.len() {
            assert(s.subrange(0, i + 1) =~= s);
        } else {
            assert(digits_val_bytes(s.subrange(0, i + 1)) > u64::MAX);
            assert(is_digit_byte(s[i + 1]));
            lemma_digit_bytes_grow(s, i + 1);
        }
    }
}

/// Parse a whole byte string as a canonical decimal number.
pub fn parse_u64_bytes(v: &[u8]) -> (r: Option<u64>)
    ensures
        r == spec_parse_u64_bytes(v@),
{
    let len = v.len();
    if len == 0 {
        return None;
    }
    if v[0] == 48 && len > 1 {
        return None;
    }
    let mut value: u64 = 0;
    let mut i: usize = 0;
    while i < len
        invariant
            0 <= i <= len,
            len == v@.len(),
            v@[0] != 48 || len == 1,
            all_digit_bytes(v@.subrange(0, i as int)),
            digits_val_bytes(v@.subrange(0, i as int)) == value as int,
        decreases len - i,
    {
        let b = v[i];
        if !(b >= 48 && b <= 57) {
            assert(!is_digit_byte(v@[i as int]));
            return None;
        }
        let d: u64 = (b - 48) as u64;
        assert(d == digit_byte_val(v@[i as int]) && d < 10);
        if value > (u64::MAX - d) / 10 {
            proof {
                lemma_digit_bytes_grow(v@, i as int);
            }
            return None;
        }
        value = value * 10 + d;
        assert(v@.subrange(0, i + 1 as int).drop_last() =~= v@.subrange(0, i as int));
        i = i + 1;
    }
    assert(v@.subrange(0, len as int) =~= v@);
    Some(value)
}

/// The canonical decimal byte rendering parses back to its value.
pub proof fn lemma_dec_bytes_round_trip(n: nat)
    ensures
        dec_bytes_of(n).len() >= 1,
        all_digit_bytes(dec_bytes_of(n)),
        digits_val_bytes(dec_bytes_of(n)) == n,
        n >= 1 ==> dec_bytes_of(n)[0] != 48,
        dec_bytes_of(n)[0] != 48 || dec_bytes_of(n).len() == 1,
        n <= u64::MAX ==> spec_parse_u64_bytes(dec_bytes_of(n)) == Some(n as u64),
    decreases n,
{
    let s = dec_bytes_of(n);
    if n < 10 {
        assert(s == seq![(48 + n) as u8]);
        assert(seq![(48 + n) as u8].drop_last() =~= Seq::<u8>::empty());
        assert(digits_val_bytes(Seq::<u8>::empty()) == 0);
        assert(digits_val_bytes(s) == n);
        assert(is_digit_byte(s[0]));
    } else {
        lemma_dec_bytes_round_trip(n / 10);
        let pre = dec_bytes_of(n / 10);
        let d = (48 + n % 10) as u8;
        assert(s == pre.push(d));
        assert(pre.push(d).drop_last() =~= pre);
        assert(pre.push(d).last() == d);
        assert(is_digit_byte(d) && digit_byte_val(d) == n % 10);
        assert forall|i: int| 0 <= i < s.len() implies is_digit_byte(#[trigger] s[i]) by {
            if i < pre.len() {
                assert(s[i] == pre[i]);
            }
        }
        assert(digits_val_bytes(pre.push(d)) == digits_val_bytes(pre) * 10 + digit_byte_val(d));
        assert(digits_val_bytes(s) == n / 10 * 10 + n % 10);
        assert(n / 10 * 10 + n % 10 == n);
        assert(s[0] == pre[0]);
        assert(n / 10 >= 1);
    }
}

/// A parsed number, or zero where parsing failed.
pub open spec fn parsed_or_zero(v: Option<u64>) -> u64 {
    match v {
        Some(n) => n,
        None => 0,
    }
}

/// The value recorded for a KV counter key: the parsed decimal, or zero
/// when the key is absent or its bytes are not a canonical number.
pub open spec fn counter_of(m: crate::kv::KvMap, key: Seq<char>) -> u64 {
    if m.contains_key(key) {
        parsed_or_zero(spec_parse_u64_bytes(m[key]))
    } else {
        0
    }
}


/// Copy the characters of `s` from `a` (inclusive) to `b` (exclusive).
pub fn str_range(s: &str, a: usize, b: usize) -> (r: String)
    requires
        a <= b <= s@.len(),
    ensures
        r@ == s@.subrange(a as int, b as int),
{
    let mut out = String::new();
    let mut i = a;
    while i < b
        invariant
            a <= i <= b,
            b <= s@.len(),
            out@ =~= s@.subrange(a as int, i as int),
        decreases b - i,
    {
        string_push(&mut out, s.get_char(i));
        assert(out@ =~= s@.subrange(a as int, i + 1 as int));
        i = i + 1;
    }
    out
}

} // verus!
