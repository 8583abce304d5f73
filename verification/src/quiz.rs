//! The fallback math quiz for banned users: a random small question
//! whose answer is parked in the store, and the unbanning submission.

use vstd::prelude::*;

use crate::kv::KeyValueStore;
use crate::text::{str_eq, string_push};
use vstd::string::StringSliceAdditionalSpecFns;

verus! {

/// The quiz answer key for an address.
pub fn quiz_key(ip: &str) -> (r: String)
    ensures
        r@ == "quiz:"@ + ip@,
{
    let mut out = "quiz:".to_owned();
    out.append(ip);
    assert(out@ =~= "quiz:"@ + ip@);
    out
}

/// Build one question from drawn values: sums and ordered differences
/// of two-digit terms, or a small product.
pub fn quiz_question(kind: u64, a: u64, b: u64) -> (r: (String, u64))
    requires
        10 <= a <= 99,
        10 <= b <= 99,
    ensures
        kind % 3 == 0 ==> r.1 == a + b,
        kind % 3 == 1 ==> r.1 == if a > b {
            a - b
        } else {
            b - a
        },
        kind % 3 == 2 ==> r.1 == (2 + a % 11) * (2 + b % 11),
        r.1 <= 198,
{
    let mut q = String::new();
    if kind % 3 == 0 {
        crate::text::push_u64(&mut q, a);
        q.append(" + ");
        crate::text::push_u64(&mut q, b);
        (q, a + b)
    } else if kind % 3 == 1 {
        let (x, y) = if a > b {
            (a, b)
        } else {
            (b, a)
        };
        crate::text::push_u64(&mut q, x);
        q.append(" - ");
        crate::text::push_u64(&mut q, y);
        (q, x - y)
    } else {
        let x = 2 + a % 11;
        let y = 2 + b % 11;
        crate::text::push_u64(&mut q, x);
        q.append(" x ");
        crate::text::push_u64(&mut q, y);
        proof {
            assert(x * y <= 13 * 13) by (nonlinear_arith)
                requires
                    2 <= x <= 13,
                    2 <= y <= 13,
            ;
        }
        (q, x * y)
    }
}

/// Serve a quiz page: a freshly drawn question whose answer and kind
/// are parked under the requester's key.
pub fn serve_quiz<S: KeyValueStore>(store: &mut S, ip: &str) -> (r: (u16, String))
    requires
        old(store).inv(),
    ensures
        final(store).inv(),
        final(store).reliable() == old(store).reliable(),
        r.0 == 200,
        old(store).reliable() ==> final(store).kv().contains_key("quiz:"@ + ip@),
        forall|k: Seq<char>| k != "quiz:"@ + ip@ ==> crate::kv::kv_same_at(
            old(store).kv(),
            final(store).kv(),
            k,
        ),
{
    let kind = crate::crypto::random_u64();
    let a = 10 + crate::crypto::random_u64() % 90;
    let b = 10 + crate::crypto::random_u64() % 90;
    let (question, answer) = quiz_question(kind, a, b);
    let key = quiz_key(ip);
    let mut value: Vec<u8> = crate::text::u64_to_dec_bytes(answer);
    value.push(58u8);
    let kind_label: &str = if kind % 3 == 0 {
        "add"
    } else if kind % 3 == 1 {
        "sub"
    } else {
        "mul"
    };
    value.extend_from_slice(kind_label.as_bytes());
    let _ = store.set(key.as_str(), value.as_slice());
    let mut html = "<html><body><h2>Are you human?</h2><form method=\"POST\" action=\"/quiz\"><label>Solve: ".to_owned();
    html.append(question.as_str());
    html.append(" = </label><input name=\"answer\" type=\"number\" required autofocus><input type=\"hidden\" name=\"ip\" value=\"");
    html.append(ip);
    html.append("\"><button type=\"submit\">Submit</button></form></body></html>");
    (200, html)
}

/// Validate a quiz submission: the right answer lifts the ban and
/// clears the parked question — the submitter's ban record is absent
/// afterwards — and everything else refuses without touching the
/// store.
pub fn handle_quiz_submit<S: KeyValueStore>(store: &mut S, body: &[u8]) -> (r: (u16, String))
    requires
        old(store).inv(),
    ensures
        final(store).inv(),
        final(store).reliable() == old(store).reliable(),
        r.0 == 200 || r.0 == 403,
        r.0 == 403 ==> final(store).kv() == old(store).kv(),
        old(store).reliable() ==> (r.0 == 200 ==> (exists|ipv: Seq<char>|
            {
                &&& !final(store).kv().contains_key(#[trigger] crate::ban::ban_key_of(
                    "default"@,
                    ipv,
                ))
                &&& !final(store).kv().contains_key("quiz:"@ + ipv)
            })),
{
    let incorrect = (
        403u16,
        "<html><body><h2>Incorrect answer. Please try again.</h2><a href=\"/quiz\">Back to quiz</a></body></html>".to_owned(),
    );
    let owned = vstd::slice::slice_to_vec(body);
    let form = match crate::crypto::string_from_utf8(owned) {
        Ok(s) => s,
        Err(_) => {
            return incorrect;
        },
    };
    let answer = match crate::challenge::get_form_field(form.as_str(), "answer") {
        Some(v) => v,
        None => {
            return incorrect;
        },
    };
    let ip = match crate::challenge::get_form_field(form.as_str(), "ip") {
        Some(v) => v,
        None => {
            return incorrect;
        },
    };
    let key = quiz_key(ip.as_str());
    let stored = match store.get(key.as_str()) {
        Ok(Some(v)) => v,
        _ => {
            return incorrect;
        },
    };
    let stored_text = match crate::crypto::string_from_utf8(stored) {
        Ok(s) => s,
        Err(_) => {
            return incorrect;
        },
    };
    let stop = scan_colon(stored_text.as_str());
    let expected = crate::text::str_range(stored_text.as_str(), 0, stop);
    if str_eq(answer.as_str(), expected.as_str()) {
        let ban_key = crate::ban::ban_key("default", ip.as_str());
        let _ = store.delete(ban_key.as_str());
        let _ = store.delete(key.as_str());
        proof {
            if old(store).reliable() {
                assert(!final(store).kv().contains_key(crate::ban::ban_key_of("default"@, ip@)));
                assert(!final(store).kv().contains_key("quiz:"@ + ip@));
            }
        }
        (
            200,
            "<html><body><h2>Thank you! You are unbanned. Please reload the page.</h2></body></html>".to_owned(),
        )
    } else {
        incorrect
    }
}

fn scan_colon(s: &str) -> (r: usize)
    ensures
        r <= s@.len(),
{
    let len = s.unicode_len();
    let mut k: usize = 0;
    while k < len
        invariant
            0 <= k <= len,
            len == s@.len(),
        decreases len - k,
    {
        if s.get_char(k) == ':' {
            return k;
        }
        k = k + 1;
    }
    len
}

} // verus!
