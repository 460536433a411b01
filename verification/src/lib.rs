//! Directory-bookmark resolution and interactive fuzzy-selection engine.
//!
//! A persisted configuration maps named projects to filesystem roots and
//! alias sub-paths. This library determines the active project from a
//! working directory, expands its aliases into labeled directory
//! candidates, renders previews with graceful fallback, and interprets a
//! single-choice fuzzy selection session.

pub mod collect;
pub mod config;
pub mod preview;
pub mod resolve;
pub mod select;

use vstd::prelude::*;

verus! {

/// A path-component separator, as a one-character sequence.
pub open spec fn slash() -> Seq<char> {
    seq!['/']
}

/// Joins two path fragments with a single separator between them.
pub fn join_with_slash(a: &str, b: &str) -> (r: String)
    ensures
        r@ == a@ + slash() + b@,
{
    let mut s = String::from_str(a);
    s.append("/");
    s.append(b);
    proof {
        reveal_strlit("/");
        assert(s@ =~= a@ + slash() + b@);
    }
    s
}

} // verus!
