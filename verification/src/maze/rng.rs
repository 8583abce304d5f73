//! The deterministic xorshift generator that drives decoy content, and
//! the candidate-path derivation shared with the client worker.

use vstd::prelude::*;

use crate::text::string_push;

verus! {

/// One xorshift step over 32 bits.
pub open spec fn next_seed_of(seed: u32) -> u32 {
    let a = seed ^ (seed << 13);
    let b = a ^ (a >> 7);
    b ^ (b << 17)
}

/// Advance a worker seed by one xorshift step.
pub fn worker_next_seed(seed: u32) -> (r: u32)
    ensures
        r == next_seed_of(seed),
{
    let a = seed ^ (seed << 13u32);
    let b = a ^ (a >> 7u32);
    b ^ (b << 17u32)
}

/// A seeded deterministic generator: the same seed yields the same
/// stream.
pub struct SeededRng {
    pub state: u32,
}

impl SeededRng {
    /// Start a stream at a seed.
    pub fn new(seed: u32) -> (r: SeededRng)
        ensures
            r.state == seed,
    {
        SeededRng { state: seed }
    }

    /// The next value of the stream.
    pub fn next(&mut self) -> (r: u32)
        ensures
            final(self).state == next_seed_of(old(self).state),
            r == next_seed_of(old(self).state),
    {
        let n = worker_next_seed(self.state);
        self.state = n;
        n
    }

    /// A value in `min..=max`; `min` when the range is empty.
    pub fn range(&mut self, min: usize, max: usize) -> (r: usize)
        ensures
            final(self).state == next_seed_of(old(self).state),
            min <= max ==> min <= r <= max,
            max < min ==> r == min,
    {
        let n = self.next();
        if max <= min {
            return min;
        }
        let span = max - min;
        if span == usize::MAX {
            return n as usize;
        }
        min + (n as usize) % (span + 1)
    }
}

/// The path-segment alphabet: lower-case letters then digits.
pub open spec fn segment_char(i: int) -> char {
    if i < 26 {
        (('a' as int) + i) as char
    } else {
        (('0' as int) + (i - 26)) as char
    }
}

fn segment_char_x(i: u32) -> (c: char)
    requires
        i < 36,
    ensures
        c == segment_char(i as int),
{
    if i < 26 {
        crate::text::lower_code_char(97 + i)
    } else {
        crate::text::lower_code_char(48 + (i - 26))
    }
}

/// The deterministic segment the stream yields: `n` characters drawn
/// from the alphabet by successive seeds.
pub open spec fn segment_of(seed: u32, n: int) -> (Seq<char>, u32)
    decreases n,
{
    if n <= 0 {
        (Seq::empty(), seed)
    } else {
        let s2 = next_seed_of(seed);
        let rest = segment_of(s2, n - 1);
        (seq![segment_char(s2 as int % 36)] + rest.0, rest.1)
    }
}

/// Generate one path segment of the given length.
pub fn generate_path_segment(rng: &mut SeededRng, len: usize) -> (r: String)
    requires
        len <= 64,
    ensures
        r@ == segment_of(old(rng).state, len as int).0,
        final(rng).state == segment_of(old(rng).state, len as int).1,
    decreases len,
{
    if len == 0 {
        let r = String::new();
        assert(r@ =~= segment_of(rng.state, 0).0);
        return r;
    }
    let c_raw = rng.next();
    let c = segment_char_x(c_raw % 36);
    let rest = generate_path_segment(rng, len - 1);
    let mut out = String::new();
    string_push(&mut out, c);
    out.append(rest.as_str());
    proof {
        assert(out@ =~= seq![c] + rest@);
    }
    out
}

/// The candidate paths the worker derives: `count` segments of length
/// `seg_len` appended to the prefix, drawn from one seed stream.
pub open spec fn candidate_paths_of(
    seed: u32,
    count: int,
    seg_len: int,
    prefix: Seq<char>,
) -> Seq<Seq<char>>
    decreases count,
{
    if count <= 0 {
        Seq::empty()
    } else {
        let seg = segment_of(seed, seg_len);
        seq![prefix + seg.0] + candidate_paths_of(seg.1, count - 1, seg_len, prefix)
    }
}

/// Regenerate the candidate path set for a signed expansion seed. The
/// count is capped at twenty-four and the segment length clamped into
/// 8..=48, as the worker clamps them.
pub fn worker_candidate_paths(seed: u32, hidden_count: u64, segment_len: u64, path_prefix: &str)
    -> (r: Vec<String>)
    ensures
        ({
            let bounded: int = if hidden_count > 24 {
                24
            } else {
                hidden_count as int
            };
            let seg: int = if segment_len < 8 {
                8
            } else if segment_len > 48 {
                48
            } else {
                segment_len as int
            };
            &&& r@.len() == bounded
            &&& r@.map_values(|s: String| s@) == candidate_paths_of(
                seed,
                bounded,
                seg,
                path_prefix@,
            )
        }),
{
    let bounded: usize = if hidden_count > 24 {
        24
    } else {
        hidden_count as usize
    };
    let seg: usize = if segment_len < 8 {
        8
    } else if segment_len > 48 {
        48
    } else {
        segment_len as usize
    };
    let mut rng = SeededRng::new(seed);
    let mut out: Vec<String> = Vec::new();
    let mut i: usize = 0;
    while i < bounded
        invariant
            0 <= i <= bounded,
            bounded <= 24,
            8 <= seg <= 48,
            out@.len() == i,
            candidate_paths_of(seed, bounded as int, seg as int, path_prefix@)
                =~= out@.map_values(|s: String| s@) + candidate_paths_of(
                rng.state,
                bounded - i,
                seg as int,
                path_prefix@,
            ),
        decreases bounded - i,
    {
        let ghost pre_rng = rng.state;
        let ghost prev = out@;
        let segment = generate_path_segment(&mut rng, seg);
        let mut path = path_prefix.to_owned();
        path.append(segment.as_str());
        assert(path@ == path_prefix@ + segment@);
        out.push(path);
        proof {
            assert(out@ =~= prev.push(path));
            assert(out@.map_values(|s: String| s@) =~= prev.map_values(|s: String| s@) + seq![
                path_prefix@ + segment@,
            ]);
            assert(candidate_paths_of(pre_rng, bounded - i, seg as int, path_prefix@)
                =~= seq![path_prefix@ + segment_of(pre_rng, seg as int).0]
                + candidate_paths_of(
                segment_of(pre_rng, seg as int).1,
                bounded - i - 1,
                seg as int,
                path_prefix@,
            ));
            assert(candidate_paths_of(seed, bounded as int, seg as int, path_prefix@)
                =~= out@.map_values(|s: String| s@) + candidate_paths_of(
                rng.state,
                bounded - i - 1,
                seg as int,
                path_prefix@,
            ));
        }
        i = i + 1;
    }
    proof {
        assert(candidate_paths_of(rng.state, 0, seg as int, path_prefix@) =~= Seq::<
            Seq<char>,
        >::empty());
        assert(out@.map_values(|s: String| s@) =~= candidate_paths_of(
            seed,
            bounded as int,
            seg as int,
            path_prefix@,
        ));
    }
    out
}

} // verus!
