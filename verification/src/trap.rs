//! The fixed-name decoy routes kept from before the derived namespace:
//! simple prefix predicates that older deployments still answer.

use vstd::prelude::*;

use crate::text::{starts_with_seq, str_starts_with};

verus! {

/// Whether a path targets one of the fixed decoy prefixes, with a
/// non-empty remainder.
pub open spec fn legacy_maze_path(path: Seq<char>) -> bool {
    (starts_with_seq(path, "/trap/"@) && path.len() > 6) || (starts_with_seq(path, "/maze/"@)
        && path.len() > 6)
}

/// Check whether a request path targets a fixed-name decoy route.
pub fn is_maze_path(path: &str) -> (r: bool)
    ensures
        r == legacy_maze_path(path@),
{
    proof {
        reveal_strlit("/trap/");
        reveal_strlit("/maze/");
    }
    let len = path.unicode_len();
    (str_starts_with(path, "/trap/") && len > 6) || (str_starts_with(path, "/maze/") && len > 6)
}

} // verus!
