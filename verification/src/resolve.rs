//! Picking the active project for a working directory: scan the stored
//! projects in order and return the first whose root is a
//! path-component-prefix of the working directory. Pure; no side effects.

use vstd::prelude::*;

use crate::config::Project;

verus! {

/// `root` is a path-component-prefix of `d`: either the same path, or a
/// proper prefix that ends exactly at a separator. The separator test is
/// what keeps a root `/foo` from matching a directory `/foo-bar`.
pub open spec fn is_path_prefix(root: Seq<char>, d: Seq<char>) -> bool {
    root == d || (root.len() < d.len() && d.subrange(0, root.len() as int) == root && d[
        root.len() as int
    ] == '/')
}

/// The first project in `ps` whose root is a path-component-prefix of
/// `d`, or none when no root matches.
pub open spec fn resolve_spec(d: Seq<char>, ps: Seq<Project>) -> Option<Project>
    decreases ps.len(),
{
    if ps.len() == 0 {
        None
    } else if is_path_prefix(ps[0].root@, d) {
        Some(ps[0])
    } else {
        resolve_spec(d, ps.drop_first())
    }
}

/// Decides `is_path_prefix(root@, d@)` by comparing characters.
pub fn is_path_prefix_of(root: &str, d: &str) -> (r: bool)
    ensures
        r == is_path_prefix(root@, d@),
{
    let rl = root.unicode_len();
    let dl = d.unicode_len();
    if rl > dl {
        return false;
    }
    let mut i: usize = 0;
    while i < rl
        invariant
            rl == root@.len(),
            dl == d@.len(),
            rl <= dl,
            i <= rl,
            forall|j: int| 0 <= j < i ==> root@[j] == d@[j],
        decreases rl - i,
    {
        if root.get_char(i) != d.get_char(i) {
            proof {
                assert(root@[i as int] != d@.subrange(0, rl as int)[i as int]);
            }
            return false;
        }
        i += 1;
    }
    proof {
        assert(d@.subrange(0, rl as int) =~= root@);
    }
    if rl == dl {
        proof {
            assert(root@ =~= d@);
        }
        return true;
    }
    d.get_char(rl) == '/'
}

/// Returns the first project whose root is a path-component-prefix of
/// `cwd`, scanning in stored order; none when no root matches.
pub fn resolve<'a>(cwd: &str, projects: &'a Vec<Project>) -> (r: Option<&'a Project>)
    ensures
        match r {
            Some(p) => resolve_spec(cwd@, projects@) == Some(*p),
            None => resolve_spec(cwd@, projects@) is None,
        },
{
    let n = projects.len();
    proof {
        assert(projects@.skip(0) =~= projects@);
    }
    let mut i: usize = 0;
    while i < n
        invariant
            n == projects@.len(),
            i <= n,
            resolve_spec(cwd@, projects@) == resolve_spec(cwd@, projects@.skip(i as int)),
            forall|j: int| 0 <= j < i ==> !is_path_prefix(#[trigger] projects@[j].root@, cwd@),
        decreases n - i,
    {
        if is_path_prefix_of(projects[i].root.as_str(), cwd) {
            proof {
                assert(projects@.skip(i as int)[0] == projects@[i as int]);
            }
            return Some(&projects[i]);
        }
        proof {
            assert(projects@.skip(i as int).drop_first() =~= projects@.skip(i as int + 1));
            assert(projects@.skip(i as int)[0] == projects@[i as int]);
        }
        i += 1;
    }
    proof {
        assert(projects@.skip(n as int) =~= Seq::<Project>::empty());
    }
    None
}

/// No root of the first `n` projects matches `d`.
pub open spec fn no_match_before(d: Seq<char>, ps: Seq<Project>, n: int) -> bool {
    forall|j: int| 0 <= j < n ==> !is_path_prefix(#[trigger] ps[j].root@, d)
}

/// The first-match law, one direction: a matching project preceded only
/// by non-matching ones is the one resolution returns.
pub proof fn lemma_resolve_first_match(d: Seq<char>, ps: Seq<Project>, i: int)
    requires
        0 <= i < ps.len(),
        is_path_prefix(ps[i].root@, d),
        no_match_before(d, ps, i),
    ensures
        resolve_spec(d, ps) == Some(ps[i]),
    decreases ps.len(),
{
    if i > 0 {
        assert(!is_path_prefix(ps[0].root@, d));
        assert(ps.drop_first()[i - 1] == ps[i]);
        assert forall|j: int| 0 <= j < i - 1 implies !is_path_prefix(
            #[trigger] ps.drop_first()[j].root@,
            d,
        ) by {
            assert(ps.drop_first()[j] == ps[j + 1]);
        }
        lemma_resolve_first_match(d, ps.drop_first(), i - 1);
    }
}

/// The first-match law, other direction: resolution comes back empty
/// exactly when no stored root matches.
pub proof fn lemma_resolve_none(d: Seq<char>, ps: Seq<Project>)
    ensures
        (resolve_spec(d, ps) is None) <==> no_match_before(d, ps, ps.len() as int),
    decreases ps.len(),
{
    if ps.len() > 0 {
        lemma_resolve_none(d, ps.drop_first());
        if !is_path_prefix(ps[0].root@, d) {
            if no_match_before(d, ps.drop_first(), ps.len() - 1) {
                assert forall|j: int| 0 <= j < ps.len() implies !is_path_prefix(
                    #[trigger] ps[j].root@,
                    d,
                ) by {
                    if j > 0 {
                        assert(ps.drop_first()[j - 1] == ps[j]);
                    }
                }
            } else {
                let j = choose|j: int|
                    0 <= j < ps.drop_first().len() && is_path_prefix(
                        #[trigger] ps.drop_first()[j].root@,
                        d,
                    );
                assert(ps.drop_first()[j] == ps[j + 1]);
                assert(!no_match_before(d, ps, ps.len() as int));
            }
        }
    }
}

} // verus!
