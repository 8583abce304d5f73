//! A canonical JSON object codec for signed payloads.
//!
//! Payloads travel as one flat JSON object whose values are strings or
//! unsigned numbers, written without spaces and in a fixed field order.
//! The encoder emits exactly that canonical form and the parser accepts
//! exactly it, which is what makes the mint/parse round trip provable.

use vstd::prelude::*;

use crate::text::{
    all_dec_digits, dec_digit, dec_of, digit_val, digits_val, is_dec_digit, string_push,
};

verus! {

/// A JSON scalar of the payload object: a string or an unsigned number.
pub enum JVal {
    S(String),
    N(u64),
}

/// The spec-level shape of a scalar.
pub enum JValV {
    S(Seq<char>),
    N(u64),
}

/// The spec-level shape of one field.
pub type JFieldV = (Seq<char>, JValV);

/// A parsed field list.
pub type FieldList = Vec<(String, JVal)>;

pub open spec fn jval_view(v: JVal) -> JValV {
    match v {
        JVal::S(s) => JValV::S(s@),
        JVal::N(n) => JValV::N(n),
    }
}

pub open spec fn fields_view(v: Seq<(String, JVal)>) -> Seq<JFieldV> {
    v.map_values(|f: (String, JVal)| (f.0@, jval_view(f.1)))
}

/// Characters allowed inside encoded strings: no quote, no backslash,
/// no control characters.
pub open spec fn plain_char(c: char) -> bool {
    c != '"' && c != '\\' && c as int >= 0x20
}

pub open spec fn plain_str(s: Seq<char>) -> bool {
    forall|i: int| 0 <= i < s.len() ==> plain_char(#[trigger] s[i])
}

/// A field list fit for encoding: plain keys and plain string values.
pub open spec fn valid_fields(fs: Seq<JFieldV>) -> bool {
    forall|i: int| 0 <= i < fs.len() ==> {
        &&& plain_str((#[trigger] fs[i]).0)
        &&& (fs[i].1 matches JValV::S(v) ==> plain_str(v))
    }
}

/// A quoted string.
pub open spec fn jstr(s: Seq<char>) -> Seq<char> {
    seq!['"'] + s + seq!['"']
}

pub open spec fn jval_enc(v: JValV) -> Seq<char> {
    match v {
        JValV::S(s) => jstr(s),
        JValV::N(n) => dec_of(n as nat),
    }
}

pub open spec fn field_enc(f: JFieldV) -> Seq<char> {
    jstr(f.0) + seq![':'] + jval_enc(f.1)
}

pub open spec fn inner_enc(fs: Seq<JFieldV>) -> Seq<char>
    decreases fs.len(),
{
    if fs.len() == 0 {
        Seq::empty()
    } else if fs.len() == 1 {
        field_enc(fs[0])
    } else {
        field_enc(fs[0]) + seq![','] + inner_enc(fs.skip(1))
    }
}

/// The canonical encoding of a field list.
pub open spec fn json_of(fs: Seq<JFieldV>) -> Seq<char> {
    seq!['{'] + inner_enc(fs) + seq!['}']
}

// ---------------------------------------------------------------------
// The spec-level parser: a deterministic recursive descent that the
// executable parser mirrors step for step.
// ---------------------------------------------------------------------

/// Index of the first quote at or after `i`, or the length when none.
pub open spec fn first_quote(s: Seq<char>, i: int) -> int
    decreases s.len() - i,
{
    if i < 0 || i >= s.len() {
        s.len() as int
    } else if s[i] == '"' {
        i
    } else {
        first_quote(s, i + 1)
    }
}

/// Index of the first non-digit at or after `i`, or the length when none.
pub open spec fn first_nondigit(s: Seq<char>, i: int) -> int
    decreases s.len() - i,
{
    if i < 0 || i >= s.len() {
        s.len() as int
    } else if !is_dec_digit(s[i]) {
        i
    } else {
        first_nondigit(s, i + 1)
    }
}

pub open spec fn spec_parse_jstr(s: Seq<char>, i: int) -> Option<(Seq<char>, int)> {
    if 0 <= i < s.len() && s[i] == '"' {
        let e = first_quote(s, i + 1);
        if e < s.len() && plain_str(s.subrange(i + 1, e)) {
            Some((s.subrange(i + 1, e), e + 1))
        } else {
            None
        }
    } else {
        None
    }
}

pub open spec fn spec_parse_num(s: Seq<char>, i: int) -> Option<(u64, int)> {
    let e = first_nondigit(s, i);
    if 0 <= i < e && (s[i] != '0' || e == i + 1) && digits_val(s.subrange(i, e)) <= u64::MAX {
        Some((digits_val(s.subrange(i, e)) as u64, e))
    } else {
        None
    }
}

pub open spec fn spec_parse_field(s: Seq<char>, i: int) -> Option<(JFieldV, int)> {
    match spec_parse_jstr(s, i) {
        None => None,
        Some((key, j)) => {
            if j < s.len() && s[j] == ':' {
                if j + 1 < s.len() && s[j + 1] == '"' {
                    match spec_parse_jstr(s, j + 1) {
                        None => None,
                        Some((v, k)) => Some(((key, JValV::S(v)), k)),
                    }
                } else {
                    match spec_parse_num(s, j + 1) {
                        None => None,
                        Some((n, k)) => Some(((key, JValV::N(n)), k)),
                    }
                }
            } else {
                None
            }
        },
    }
}

pub open spec fn spec_parse_rest(s: Seq<char>, i: int) -> Option<(Seq<JFieldV>, int)>
    decreases s.len() - i,
{
    match spec_parse_field(s, i) {
        None => None,
        Some((f, j)) => {
            if j <= i || j > s.len() {
                None
            } else if j < s.len() && s[j] == ',' {
                match spec_parse_rest(s, j + 1) {
                    None => None,
                    Some((fs, k)) => Some((seq![f] + fs, k)),
                }
            } else {
                Some((seq![f], j))
            }
        },
    }
}

/// The whole-object parser: accepts exactly the canonical form.
pub open spec fn spec_parse_json(s: Seq<char>) -> Option<Seq<JFieldV>> {
    if s.len() >= 2 && s[0] == '{' {
        if s.len() == 2 && s[1] == '}' {
            Some(Seq::empty())
        } else {
            match spec_parse_rest(s, 1) {
                None => None,
                Some((fs, j)) => {
                    if j == s.len() - 1 && s[j] == '}' {
                        Some(fs)
                    } else {
                        None
                    }
                },
            }
        }
    } else {
        None
    }
}

// ---------------------------------------------------------------------
// Facts about the decimal rendering, needed for the round trip.
// ---------------------------------------------------------------------

pub proof fn lemma_dec_of_canonical(n: nat)
    ensures
        dec_of(n).len() >= 1,
        all_dec_digits(dec_of(n)),
        n >= 1 ==> dec_of(n)[0] != '0',
        dec_of(n)[0] != '0' || dec_of(n).len() == 1,
        digits_val(dec_of(n)) == n,
    decreases n,
{
    if n < 10 {
        let d = dec_digit(n as int);
        assert(dec_of(n) == seq![d]);
        assert(seq![d].drop_last() =~= Seq::<char>::empty());
        assert(digits_val(seq![d]) == digits_val(seq![d].drop_last()) * 10 + digit_val(d));
        assert(digits_val(Seq::<char>::empty()) == 0);
        assert(digit_val(d) == n);
        assert(is_dec_digit(d));
        assert(n >= 1 ==> d != '0');
    } else {
        lemma_dec_of_canonical(n / 10);
        let pre = dec_of(n / 10);
        let d = dec_digit((n % 10) as int);
        assert(dec_of(n) == pre.push(d));
        assert(pre.push(d).drop_last() =~= pre);
        assert(pre.push(d).last() == d);
        assert(is_dec_digit(d) && digit_val(d) == n % 10);
        assert forall|i: int| 0 <= i < dec_of(n).len() implies is_dec_digit(
            #[trigger] dec_of(n)[i],
        ) by {
            if i < pre.len() {
                assert(dec_of(n)[i] == pre[i]);
            }
        }
        assert(digits_val(pre.push(d)) == digits_val(pre) * 10 + digit_val(d));
        assert(digits_val(pre) == n / 10);
        assert(n / 10 * 10 + n % 10 == n);
        assert(dec_of(n)[0] == pre[0]);
        assert(n / 10 >= 1);
    }
}

// ---------------------------------------------------------------------
// Round trip: the spec parser accepts the canonical encoding and
// returns the field list unchanged.
// ---------------------------------------------------------------------

proof fn lemma_first_quote_bounds(s: Seq<char>, i: int)
    requires
        0 <= i <= s.len(),
    ensures
        i <= first_quote(s, i) <= s.len(),
        first_quote(s, i) < s.len() ==> s[first_quote(s, i)] == '"',
        forall|k: int| i <= k < first_quote(s, i) ==> s[k] != '"',
    decreases s.len() - i,
{
    if i < s.len() && s[i] != '"' {
        lemma_first_quote_bounds(s, i + 1);
    }
}

proof fn lemma_first_quote_finds(s: Seq<char>, i: int, q: int)
    requires
        0 <= i <= q < s.len(),
        s[q] == '"',
        forall|k: int| i <= k < q ==> s[k] != '"',
    ensures
        first_quote(s, i) == q,
    decreases q - i,
{
    if i < q {
        lemma_first_quote_finds(s, i + 1, q);
    }
}

proof fn lemma_first_nondigit_finds(s: Seq<char>, i: int, q: int)
    requires
        0 <= i <= q < s.len(),
        !is_dec_digit(s[q]),
        forall|k: int| i <= k < q ==> is_dec_digit(s[k]),
    ensures
        first_nondigit(s, i) == q,
    decreases q - i,
{
    if i < q {
        lemma_first_nondigit_finds(s, i + 1, q);
    }
}

/// Parsing a quoted plain string that follows the prefix `pre`.
proof fn lemma_parse_jstr_at(s: Seq<char>, pre: Seq<char>, v: Seq<char>, tail: Seq<char>)
    requires
        s =~= pre + jstr(v) + tail,
        plain_str(v),
        tail.len() > 0,
    ensures
        spec_parse_jstr(s, pre.len() as int) == Some((v, pre.len() as int + v.len() + 2)),
{
    let i = pre.len() as int;
    assert(s.len() == i + v.len() + 2 + tail.len());
    assert(s[i] == '"');
    assert(s[i + v.len() + 1] == '"');
    assert forall|k: int| i + 1 <= k < i + 1 + v.len() implies s[k] != '"' by {
        assert(s[k] == v[k - i - 1]);
        assert(plain_char(v[k - i - 1]));
    }
    lemma_first_quote_finds(s, i + 1, i + 1 + v.len());
    assert(s.subrange(i + 1, i + 1 + v.len()) =~= v);
}

/// Parsing a canonical number that follows the prefix `pre`.
proof fn lemma_parse_num_at(s: Seq<char>, pre: Seq<char>, n: u64, tail: Seq<char>)
    requires
        s =~= pre + dec_of(n as nat) + tail,
        tail.len() > 0,
        !is_dec_digit(tail[0]),
    ensures
        spec_parse_num(s, pre.len() as int) == Some((n, pre.len() as int + dec_of(n as nat).len())),
{
    let i = pre.len() as int;
    let d = dec_of(n as nat);
    lemma_dec_of_canonical(n as nat);
    assert(s.len() == i + d.len() + tail.len());
    assert forall|k: int| i <= k < i + d.len() implies is_dec_digit(s[k]) by {
        assert(s[k] == d[k - i]);
    }
    assert(s[i + d.len()] == tail[0]);
    lemma_first_nondigit_finds(s, i, i + d.len());
    assert(s.subrange(i, i + d.len()) =~= d);
    assert(s[i] == d[0]);
    assert(digits_val(s.subrange(i, i + d.len())) == n);
    if d.len() > 1 {
        assert(s[i] != '0');
    }
}

/// Parsing one `"key":value` pair that follows the prefix `pre`.
proof fn lemma_parse_field_at(s: Seq<char>, pre: Seq<char>, f: JFieldV, tail: Seq<char>)
    requires
        s =~= pre + field_enc(f) + tail,
        plain_str(f.0),
        f.1 matches JValV::S(v) ==> plain_str(v),
        tail.len() > 0,
        tail[0] == ',' || tail[0] == '}',
    ensures
        spec_parse_field(s, pre.len() as int) == Some((f, pre.len() as int + field_enc(f).len())),
        pre.len() + field_enc(f).len() < s.len(),
        s[pre.len() as int + field_enc(f).len()] == tail[0],
{
    let i = pre.len() as int;
    let vtail = seq![':'] + jval_enc(f.1) + tail;
    assert(s =~= pre + jstr(f.0) + vtail);
    lemma_parse_jstr_at(s, pre, f.0, vtail);
    let key_end = i + f.0.len() + 2;
    assert(s[key_end] == ':');
    let pre2 = pre + jstr(f.0) + seq![':'];
    let vstart = key_end + 1;
    assert(pre2.len() == vstart);
    assert(s =~= pre2 + jval_enc(f.1) + tail);
    match f.1 {
        JValV::S(v) => {
            lemma_parse_jstr_at(s, pre2, v, tail);
            assert(s[vstart] == '"');
            assert(s[i + field_enc(f).len()] == tail[0]);
        },
        JValV::N(n) => {
            lemma_dec_of_canonical(n as nat);
            lemma_parse_num_at(s, pre2, n, tail);
            assert(s[vstart] == dec_of(n as nat)[0]);
            assert(is_dec_digit(dec_of(n as nat)[0]));
            assert(s[vstart] != '"');
            assert(s[i + field_enc(f).len()] == tail[0]);
        },
    }
}

/// Parsing a non-empty field list that follows the prefix `pre` and is
/// terminated by the closing brace that ends the whole input.
#[verifier::rlimit(50)]
proof fn lemma_parse_rest_at(s: Seq<char>, pre: Seq<char>, fs: Seq<JFieldV>)
    requires
        fs.len() > 0,
        valid_fields(fs),
        s =~= pre + inner_enc(fs) + seq!['}'],
    ensures
        spec_parse_rest(s, pre.len() as int) == Some((fs, s.len() - 1)),
        s[s.len() - 1] == '}',
    decreases fs.len(),
{
    let i = pre.len() as int;
    assert(plain_str(fs[0].0));
    if fs.len() == 1 {
        assert(inner_enc(fs) =~= field_enc(fs[0]));
        lemma_parse_field_at(s, pre, fs[0], seq!['}']);
        let j = i + field_enc(fs[0]).len();
        assert(j == s.len() - 1);
        assert(s[j] == '}');
        assert(seq![fs[0]] =~= fs);
    } else {
        let tail = seq![','] + inner_enc(fs.skip(1)) + seq!['}'];
        assert(inner_enc(fs) =~= field_enc(fs[0]) + seq![','] + inner_enc(fs.skip(1)));
        assert(s =~= pre + field_enc(fs[0]) + tail);
        lemma_parse_field_at(s, pre, fs[0], tail);
        let j = i + field_enc(fs[0]).len();
        assert(s[j] == ',');
        let pre2 = pre + field_enc(fs[0]) + seq![','];
        assert(pre2.len() == j + 1);
        assert(s =~= pre2 + inner_enc(fs.skip(1)) + seq!['}']);
        assert(valid_fields(fs.skip(1))) by {
            assert forall|k: int| 0 <= k < fs.skip(1).len() implies {
                &&& plain_str((#[trigger] fs.skip(1)[k]).0)
                &&& (fs.skip(1)[k].1 matches JValV::S(v) ==> plain_str(v))
            } by {
                assert(fs.skip(1)[k] == fs[k + 1]);
            }
        }
        lemma_parse_rest_at(s, pre2, fs.skip(1));
        assert(seq![fs[0]] + fs.skip(1) =~= fs);
    }
}

/// The round trip: the canonical encoding of a valid field list parses
/// back to exactly that list.
pub proof fn lemma_json_round_trip(fs: Seq<JFieldV>)
    requires
        valid_fields(fs),
    ensures
        spec_parse_json(json_of(fs)) == Some(fs),
{
    let s = json_of(fs);
    assert(s[0] == '{');
    if fs.len() == 0 {
        assert(inner_enc(fs) =~= Seq::<char>::empty());
        assert(s.len() == 2 && s[1] == '}');
        assert(spec_parse_json(s) == Some(fs));
    } else {
        assert(s =~= seq!['{'] + inner_enc(fs) + seq!['}']);
        lemma_parse_rest_at(s, seq!['{'], fs);
        assert(inner_enc(fs).len() > 0) by {
            assert(field_enc(fs[0]).len() > 0);
        }
        assert(s.len() > 2 || s[1] != '}') by {
            if s.len() == 2 {
                assert(inner_enc(fs).len() == 0);
            }
        }
        assert(spec_parse_json(s) == Some(fs));
    }
}


// ---------------------------------------------------------------------
// The executable encoder and parser.
// ---------------------------------------------------------------------

proof fn lemma_inner_enc_snoc(fs: Seq<JFieldV>, f: JFieldV)
    ensures
        fs.len() == 0 ==> inner_enc(fs.push(f)) == field_enc(f),
        fs.len() > 0 ==> inner_enc(fs.push(f)) == inner_enc(fs) + seq![','] + field_enc(f),
    decreases fs.len(),
{
    if fs.len() == 0 {
        assert(fs.push(f)[0] == f);
        assert(inner_enc(fs.push(f)) == field_enc(f));
    } else {
        lemma_inner_enc_snoc(fs.skip(1), f);
        assert(fs.push(f).skip(1) =~= fs.skip(1).push(f));
        assert(fs.push(f)[0] == fs[0]);
        assert(fs.push(f).len() >= 2);
        assert(inner_enc(fs.push(f)) == field_enc(fs[0]) + seq![','] + inner_enc(fs.skip(1).push(f)));
        if fs.len() == 1 {
            assert(inner_enc(fs.skip(1).push(f)) == field_enc(f));
            assert(inner_enc(fs) == field_enc(fs[0]));
            assert(inner_enc(fs.push(f)) =~= inner_enc(fs) + seq![','] + field_enc(f));
        } else {
            assert(inner_enc(fs.skip(1).push(f)) == inner_enc(fs.skip(1)) + seq![','] + field_enc(f));
            assert(inner_enc(fs) == field_enc(fs[0]) + seq![','] + inner_enc(fs.skip(1)));
            assert(inner_enc(fs.push(f)) =~= inner_enc(fs) + seq![','] + field_enc(f));
        }
    }
}

fn push_jstr(out: &mut String, v: &str)
    ensures
        final(out)@ == old(out)@ + jstr(v@),
{
    string_push(out, '"');
    out.append(v);
    string_push(out, '"');
    assert(final(out)@ =~= old(out)@ + jstr(v@));
}

/// Render a field list in the canonical form.
pub fn encode_fields(fields: &Vec<(String, JVal)>) -> (out: String)
    ensures
        out@ == json_of(fields_view(fields@)),
{
    let mut out = String::new();
    string_push(&mut out, '{');
    let n = fields.len();
    let ghost fsv = fields_view(fields@);
    proof {
        assert(fsv.len() == n);
        assert(fsv.subrange(0, 0) =~= Seq::<JFieldV>::empty());
        assert(out@ =~= seq!['{'] + inner_enc(fsv.subrange(0, 0)));
    }
    let mut i: usize = 0;
    while i < n
        invariant
            0 <= i <= n,
            n == fields@.len(),
            fsv == fields_view(fields@),
            fsv.len() == n,
            out@ == seq!['{'] + inner_enc(fsv.subrange(0, i as int)),
        decreases n - i,
    {
        if i > 0 {
            string_push(&mut out, ',');
        }
        let ghost pre_field = out@;
        string_push(&mut out, '"');
        out.append(fields[i].0.as_str());
        string_push(&mut out, '"');
        string_push(&mut out, ':');
        match &fields[i].1 {
            JVal::S(v) => {
                push_jstr(&mut out, v.as_str());
            },
            JVal::N(x) => {
                crate::text::push_u64(&mut out, *x);
            },
        }
        proof {
            assert(fsv[i as int] == (fields@[i as int].0@, jval_view(fields@[i as int].1)));
            assert(out@ =~= pre_field + field_enc(fsv[i as int]));
            lemma_inner_enc_snoc(fsv.subrange(0, i as int), fsv[i as int]);
            assert(fsv.subrange(0, i as int).push(fsv[i as int]) =~= fsv.subrange(0, i + 1));
            assert(out@ =~= seq!['{'] + inner_enc(fsv.subrange(0, i + 1)));
        }
        i = i + 1;
    }
    string_push(&mut out, '}');
    proof {
        assert(fsv.subrange(0, n as int) =~= fsv);
        assert(out@ =~= json_of(fsv));
    }
    out
}

fn quote_from(s: &str, i: usize) -> (r: usize)
    requires
        i <= s@.len(),
    ensures
        r == first_quote(s@, i as int),
{
    let len = s.unicode_len();
    let mut k = i;
    while k < len
        invariant
            i <= k <= len,
            len == s@.len(),
            first_quote(s@, i as int) == first_quote(s@, k as int),
        decreases len - k,
    {
        if s.get_char(k) == '"' {
            return k;
        }
        k = k + 1;
    }
    k
}

fn parse_jstr_x(s: &str, i: usize) -> (r: Option<(String, usize)>)
    requires
        i <= s@.len(),
    ensures
        r matches Some(p) ==> spec_parse_jstr(s@, i as int) == Some((p.0@, p.1 as int))
            && p.1 <= s@.len(),
        r is None ==> (spec_parse_jstr(s@, i as int) is None),
{
    let len = s.unicode_len();
    if i >= len || s.get_char(i) != '"' {
        return None;
    }
    let e = quote_from(s, i + 1);
    proof {
        lemma_first_quote_bounds(s@, i + 1);
    }
    if e >= len {
        return None;
    }
    let mut v = String::new();
    let mut k = i + 1;
    while k < e
        invariant
            i + 1 <= k <= e,
            e < s@.len(),
            e == first_quote(s@, i + 1),
            s@[i as int] == '"',
            v@ =~= s@.subrange(i + 1, k as int),
            plain_str(s@.subrange(i + 1, k as int)),
        decreases e - k,
    {
        let c = s.get_char(k);
        if c == '"' || c == '\\' || (c as u32) < 0x20 {
            proof {
                assert(!plain_char(s@[k as int]));
                let sub = s@.subrange(i + 1, e as int);
                assert(sub[k - i - 1] == s@[k as int]);
                assert(!plain_str(sub));
            }
            return None;
        }
        string_push(&mut v, c);
        assert(v@ =~= s@.subrange(i + 1, k + 1 as int));
        k = k + 1;
    }
    assert(v@ =~= s@.subrange(i + 1, e as int));
    Some((v, e + 1))
}

fn nondigit_from(s: &str, i: usize) -> (r: usize)
    requires
        i <= s@.len(),
    ensures
        r == first_nondigit(s@, i as int),
        i <= r <= s@.len(),
        forall|k: int| i <= k < r ==> is_dec_digit(#[trigger] s@[k]),
{
    let len = s.unicode_len();
    let mut k = i;
    while k < len
        invariant
            i <= k <= len,
            len == s@.len(),
            first_nondigit(s@, i as int) == first_nondigit(s@, k as int),
            forall|j: int| i <= j < k ==> is_dec_digit(#[trigger] s@[j]),
        decreases len - k,
    {
        let c = s.get_char(k);
        if !(c >= '0' && c <= '9') {
            assert(!is_dec_digit(s@[k as int]));
            return k;
        }
        k = k + 1;
    }
    k
}

fn parse_num_x(s: &str, i: usize) -> (r: Option<(u64, usize)>)
    requires
        i <= s@.len(),
    ensures
        r matches Some(p) ==> spec_parse_num(s@, i as int) == Some((p.0, p.1 as int))
            && p.1 <= s@.len(),
        r is None ==> (spec_parse_num(s@, i as int) is None),
{
    let len = s.unicode_len();
    let e = nondigit_from(s, i);
    if e == i {
        return None;
    }
    if s.get_char(i) == '0' && e > i + 1 {
        return None;
    }
    let ghost digits = s@.subrange(i as int, e as int);
    assert(all_dec_digits(digits));
    let mut value: u64 = 0;
    let mut k = i;
    while k < e
        invariant
            i <= k <= e,
            i < e,
            e <= s@.len(),
            e == first_nondigit(s@, i as int),
            s@[i as int] != '0' || e == i + 1,
            digits == s@.subrange(i as int, e as int),
            all_dec_digits(digits),
            digits_val(s@.subrange(i as int, k as int)) == value as int,
        decreases e - k,
    {
        let c = s.get_char(k);
        assert(digits[k - i] == s@[k as int]);
        assert(is_dec_digit(s@[k as int]));
        let d: u64 = (c as u32 as u64) - 48;
        assert(d == digit_val(s@[k as int]) && d < 10);
        if value > (u64::MAX - d) / 10 {
            proof {
                let local = s@.subrange(i as int, e as int);
                assert(local.subrange(0, k - i) =~= s@.subrange(i as int, k as int));
                assert(local[k - i] == s@[k as int]);
                crate::text::lemma_digits_val_grows(local, k - i);
                assert(digits_val(local) > u64::MAX);
            }
            return None;
        }
        value = value * 10 + d;
        assert(s@.subrange(i as int, k + 1 as int).drop_last() =~= s@.subrange(i as int, k as int));
        k = k + 1;
    }
    Some((value, e))
}

fn parse_field_x(s: &str, i: usize) -> (r: Option<((String, JVal), usize)>)
    requires
        i <= s@.len(),
    ensures
        r matches Some(p) ==> spec_parse_field(s@, i as int)
            == Some(((p.0.0@, jval_view(p.0.1)), p.1 as int)) && p.1 <= s@.len(),
        r is None ==> (spec_parse_field(s@, i as int) is None),
{
    let len = s.unicode_len();
    let (key, j) = match parse_jstr_x(s, i) {
        Some(p) => p,
        None => {
            return None;
        },
    };
    if j >= len || s.get_char(j) != ':' {
        return None;
    }
    if j + 1 < len && s.get_char(j + 1) == '"' {
        match parse_jstr_x(s, j + 1) {
            Some((v, k)) => Some(((key, JVal::S(v)), k)),
            None => None,
        }
    } else {
        match parse_num_x(s, j + 1) {
            Some((n, k)) => Some(((key, JVal::N(n)), k)),
            None => {
                assert(spec_parse_num(s@, j + 1 as int) is None);
                None
            },
        }
    }
}

fn parse_rest_x(s: &str, i: usize) -> (r: Option<(Vec<(String, JVal)>, usize)>)
    requires
        i <= s@.len(),
    ensures
        r matches Some(p) ==> spec_parse_rest(s@, i as int)
            == Some((fields_view(p.0@), p.1 as int)) && p.1 <= s@.len(),
        r is None ==> (spec_parse_rest(s@, i as int) is None),
    decreases s@.len() - i,
{
    let len = s.unicode_len();
    let (f, j) = match parse_field_x(s, i) {
        Some(p) => p,
        None => {
            return None;
        },
    };
    if j <= i {
        return None;
    }
    if j < len && s.get_char(j) == ',' {
        match parse_rest_x(s, j + 1) {
            Some((mut fs, k)) => {
                let ghost tail_view = fields_view(fs@);
                fs.insert(0, f);
                proof {
                    assert(fields_view(fs@) =~= seq![(f.0@, jval_view(f.1))] + tail_view);
                }
                Some((fs, k))
            },
            None => None,
        }
    } else {
        let mut fs: Vec<(String, JVal)> = Vec::new();
        fs.push(f);
        proof {
            assert(fields_view(fs@) =~= seq![(f.0@, jval_view(f.1))]);
        }
        Some((fs, j))
    }
}

/// Parse the canonical form back into a field list. Accepts exactly the
/// strings that `encode_fields` produces.
pub fn parse_fields(s: &str) -> (r: Option<FieldList>)
    ensures
        r matches Some(v) ==> spec_parse_json(s@) == Some(fields_view(v@)),
        r is None ==> (spec_parse_json(s@) is None),
{
    let len = s.unicode_len();
    let opener_ok = len >= 2 && s.get_char(0) == '{';
    if !opener_ok {
        return None;
    }
    let only_braces = len == 2 && s.get_char(1) == '}';
    if only_braces {
        let empty: Vec<(String, JVal)> = Vec::new();
        proof {
            assert(fields_view(empty@) =~= Seq::<JFieldV>::empty());
        }
        return Some(empty);
    }
    match parse_rest_x(s, 1) {
        Some((fs, j)) => {
            let closer_ok = j == len - 1 && s.get_char(j) == '}';
            if closer_ok {
                Some(fs)
            } else {
                None
            }
        },
        None => None,
    }
}


/// Whether every character of the string is fit for the codec.
pub fn is_plain(s: &str) -> (r: bool)
    ensures
        r == plain_str(s@),
{
    let len = s.unicode_len();
    let mut i: usize = 0;
    while i < len
        invariant
            0 <= i <= len,
            len == s@.len(),
            forall|k: int| 0 <= k < i ==> plain_char(#[trigger] s@[k]),
        decreases len - i,
    {
        let c = s.get_char(i);
        if c == '"' || c == '\\' || (c as u32) < 0x20 {
            assert(!plain_char(s@[i as int]));
            return false;
        }
        i = i + 1;
    }
    true
}


// ---------------------------------------------------------------------
// Soundness: whatever the spec parser accepts is the canonical encoding
// of what it returns.
// ---------------------------------------------------------------------

proof fn lemma_digits_val_lower(v: Seq<char>)
    requires
        all_dec_digits(v),
        v.len() > 0,
        v[0] != '0',
    ensures
        digits_val(v) >= 1,
    decreases v.len(),
{
    if v.len() == 1 {
        assert(digit_val(v[0]) >= 1);
    } else {
        assert(all_dec_digits(v.drop_last())) by {
            assert(forall|i: int| 0 <= i < v.drop_last().len() ==> v.drop_last()[i] == v[i]);
        }
        assert(v.drop_last()[0] == v[0]);
        lemma_digits_val_lower(v.drop_last());
        assert(digit_val(v.last()) >= 0);
    }
}

/// Canonical digit strings are unique: same digits, no redundant
/// leading zero, same value, same rendering.
proof fn lemma_canon_digits(v: Seq<char>)
    requires
        all_dec_digits(v),
        v.len() > 0,
        v[0] != '0' || v.len() == 1,
    ensures
        digits_val(v) >= 0,
        v == dec_of(digits_val(v) as nat),
    decreases v.len(),
{
    crate::text::lemma_digits_val_nonneg_pub(v);
    let n = digits_val(v);
    if v.len() == 1 {
        assert(digit_val(v[0]) < 10);
        assert(v.drop_last() =~= Seq::<char>::empty());
        assert(digits_val(Seq::<char>::empty()) == 0);
        assert(v.last() == v[0]);
        assert(n == digits_val(v.drop_last()) * 10 + digit_val(v.last()));
        assert(n == digit_val(v[0]));
        assert(dec_of(n as nat) == seq![dec_digit(n)]);
        assert(dec_digit(n) == v[0]);
        assert(v =~= dec_of(n as nat));
    } else {
        let pre = v.drop_last();
        let d = digit_val(v.last());
        assert(all_dec_digits(pre)) by {
            assert(forall|i: int| 0 <= i < pre.len() ==> pre[i] == v[i]);
        }
        assert(pre[0] == v[0]);
        assert(pre[0] != '0');
        lemma_digits_val_lower(pre);
        lemma_canon_digits(pre);
        assert(n == digits_val(pre) * 10 + d);
        assert(0 <= d < 10);
        assert(n / 10 == digits_val(pre) && n % 10 == d) by (nonlinear_arith)
            requires
                n == digits_val(pre) * 10 + d,
                0 <= d < 10,
                digits_val(pre) >= 0,
        ;
        assert(n >= 10);
        assert(dec_of(n as nat) == dec_of((n / 10) as nat).push(dec_digit(n % 10)));
        assert(dec_of((n / 10) as nat) == pre);
        assert(dec_digit(n % 10) == v.last());
        assert(v =~= pre.push(v.last()));
    }
}

proof fn lemma_parse_jstr_sound(s: Seq<char>, i: int)
    requires
        spec_parse_jstr(s, i) is Some,
    ensures
        ({
            let (v, j) = spec_parse_jstr(s, i).unwrap();
            &&& i + 2 <= j <= s.len()
            &&& j == i + 2 + v.len()
            &&& s.subrange(i, j) == jstr(v)
            &&& plain_str(v)
        }),
{
    let (v, j) = spec_parse_jstr(s, i).unwrap();
    let e = first_quote(s, i + 1);
    lemma_first_quote_bounds(s, i + 1);
    assert(s[e] == '"');
    assert(s.subrange(i, e + 1) =~= jstr(s.subrange(i + 1, e)));
}

proof fn lemma_parse_num_sound(s: Seq<char>, i: int)
    requires
        spec_parse_num(s, i) is Some,
    ensures
        ({
            let (n, e) = spec_parse_num(s, i).unwrap();
            &&& i < e <= s.len()
            &&& s.subrange(i, e) == dec_of(n as nat)
            &&& (e < s.len() ==> !is_dec_digit(s[e]))
        }),
    decreases s.len() - i,
{
    let (n, e) = spec_parse_num(s, i).unwrap();
    lemma_first_nondigit_bounds(s, i);
    let digits = s.subrange(i, e);
    assert(all_dec_digits(digits)) by {
        assert(forall|k: int| 0 <= k < digits.len() ==> digits[k] == s[i + k]);
    }
    assert(digits[0] == s[i]);
    lemma_canon_digits(digits);
}

proof fn lemma_first_nondigit_bounds(s: Seq<char>, i: int)
    requires
        0 <= i <= s.len(),
    ensures
        i <= first_nondigit(s, i) <= s.len(),
        first_nondigit(s, i) < s.len() ==> !is_dec_digit(s[first_nondigit(s, i)]),
        forall|k: int| i <= k < first_nondigit(s, i) ==> is_dec_digit(s[k]),
    decreases s.len() - i,
{
    if i < s.len() && is_dec_digit(s[i]) {
        lemma_first_nondigit_bounds(s, i + 1);
    }
}

proof fn lemma_parse_field_sound(s: Seq<char>, i: int)
    requires
        spec_parse_field(s, i) is Some,
    ensures
        ({
            let (f, j) = spec_parse_field(s, i).unwrap();
            &&& i < j <= s.len()
            &&& s.subrange(i, j) == field_enc(f)
            &&& plain_str(f.0)
            &&& (f.1 matches JValV::S(v) ==> plain_str(v))
        }),
{
    let (f, j) = spec_parse_field(s, i).unwrap();
    let (key, k1) = spec_parse_jstr(s, i).unwrap();
    lemma_parse_jstr_sound(s, i);
    assert(s[k1] == ':');
    match f.1 {
        JValV::S(v) => {
            lemma_parse_jstr_sound(s, k1 + 1);
            assert(s.subrange(i, j) =~= s.subrange(i, k1) + seq![':'] + s.subrange(k1 + 1, j));
        },
        JValV::N(n) => {
            lemma_parse_num_sound(s, k1 + 1);
            assert(s.subrange(i, j) =~= s.subrange(i, k1) + seq![':'] + s.subrange(k1 + 1, j));
        },
    }
}

proof fn lemma_parse_rest_sound(s: Seq<char>, i: int)
    requires
        spec_parse_rest(s, i) is Some,
    ensures
        ({
            let (fs, j) = spec_parse_rest(s, i).unwrap();
            &&& i < j <= s.len()
            &&& fs.len() > 0
            &&& s.subrange(i, j) == inner_enc(fs)
            &&& valid_fields(fs)
        }),
    decreases s.len() - i,
{
    let (fs, j) = spec_parse_rest(s, i).unwrap();
    let (f, k) = spec_parse_field(s, i).unwrap();
    lemma_parse_field_sound(s, i);
    if k < s.len() && s[k] == ',' {
        let (fs2, j2) = spec_parse_rest(s, k + 1).unwrap();
        lemma_parse_rest_sound(s, k + 1);
        assert(fs == seq![f] + fs2);
        assert(fs[0] == f);
        assert(fs.skip(1) =~= fs2);
        assert(inner_enc(fs) == field_enc(f) + seq![','] + inner_enc(fs2)) by {
            assert(fs.len() >= 2);
        }
        assert(s.subrange(i, j) =~= s.subrange(i, k) + seq![','] + s.subrange(k + 1, j));
        assert(valid_fields(fs)) by {
            assert forall|p: int| 0 <= p < fs.len() implies {
                &&& plain_str((#[trigger] fs[p]).0)
                &&& (fs[p].1 matches JValV::S(v) ==> plain_str(v))
            } by {
                if p > 0 {
                    assert(fs[p] == fs2[p - 1]);
                }
            }
        }
    } else {
        assert(fs =~= seq![f]);
        assert(inner_enc(fs) == field_enc(f));
        assert(valid_fields(fs)) by {
            assert(forall|p: int| 0 <= p < fs.len() ==> fs[p] == f);
        }
    }
}

/// What the parser accepts is exactly the canonical encoding of its
/// result, with every string plain.
pub proof fn lemma_parse_json_sound(s: Seq<char>)
    requires
        spec_parse_json(s) is Some,
    ensures
        s == json_of(spec_parse_json(s).unwrap()),
        valid_fields(spec_parse_json(s).unwrap()),
{
    let fs = spec_parse_json(s).unwrap();
    if s.len() == 2 && s[1] == '}' {
        assert(fs =~= Seq::<JFieldV>::empty());
        assert(json_of(fs) =~= seq!['{'] + seq!['}']);
        assert(s =~= seq!['{'] + seq!['}']);
    } else {
        let (fs1, j) = spec_parse_rest(s, 1).unwrap();
        lemma_parse_rest_sound(s, 1);
        assert(s =~= seq!['{'] + s.subrange(1, j) + seq!['}']);
    }
}

} // verus!
