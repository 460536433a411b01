//! Expanding a project's aliases into a flat list of selectable,
//! labeled directory candidates. Directory contents arrive as plain
//! listings observed by the caller at collection time: each alias root
//! either lists its immediate subdirectory names or is unreadable, and an
//! unreadable alias contributes no candidates rather than failing the
//! whole collection.

use vstd::prelude::*;

use crate::config::{Alias, Project};
use crate::join_with_slash;
use crate::slash;

verus! {

/// An ephemeral selectable directory: a human-readable label and the
/// absolute directory path it resolves to.
#[derive(Clone)]
pub struct NicknamedDir {
    pub short: String,
    pub path: String,
}

/// The mathematical value of a candidate: its label and path as
/// character sequences.
pub struct NicknamedDirView {
    pub short: Seq<char>,
    pub path: Seq<char>,
}

impl View for NicknamedDir {
    type V = NicknamedDirView;

    open spec fn view(&self) -> NicknamedDirView {
        NicknamedDirView { short: self.short@, path: self.path@ }
    }
}

impl NicknamedDir {
    /// Labels a subdirectory `name` under an alias root: the label is
    /// `nickname/name` and the path is `path/name`.
    pub fn new(nickname: &str, path: &str, name: &str) -> (r: Self)
        ensures
            r@.short == nickname@ + slash() + name@,
            r@.path == path@ + slash() + name@,
    {
        NicknamedDir { short: join_with_slash(nickname, name), path: join_with_slash(path, name) }
    }
}

/// What one alias root looked like at collection time: the names of its
/// immediate subdirectory entries, or the fact that it could not be read.
pub enum AliasListing {
    Subdirs(Vec<String>),
    Unreadable,
}

/// The absolute root of an alias: the project root joined with the
/// alias's relative path.
pub open spec fn alias_root(root: Seq<char>, rel: Seq<char>) -> Seq<char> {
    root + slash() + rel
}

/// One candidate per subdirectory entry, labeled `name/entry` and
/// pointing at `ar/entry`, in listing order.
pub open spec fn subdir_candidates(name: Seq<char>, ar: Seq<char>, entries: Seq<String>) -> Seq<
    NicknamedDirView,
>
    decreases entries.len(),
{
    if entries.len() == 0 {
        Seq::empty()
    } else {
        subdir_candidates(name, ar, entries.drop_last()).push(
            NicknamedDirView {
                short: name + slash() + entries.last()@,
                path: ar + slash() + entries.last()@,
            },
        )
    }
}

/// All candidates one alias contributes: the alias root itself, labeled
/// with the bare alias name, then one candidate per subdirectory; an
/// unreadable alias contributes nothing.
pub open spec fn candidates_for_alias(root: Seq<char>, a: Alias, l: AliasListing) -> Seq<
    NicknamedDirView,
> {
    match l {
        AliasListing::Unreadable => Seq::empty(),
        AliasListing::Subdirs(entries) => seq![
            NicknamedDirView { short: a.name@, path: alias_root(root, a.path@) },
        ] + subdir_candidates(a.name@, alias_root(root, a.path@), entries@),
    }
}

/// The candidates of the first `n` aliases, in alias order.
pub open spec fn collect_prefix(p: Project, ls: Seq<AliasListing>, n: int) -> Seq<NicknamedDirView>
    decreases n,
{
    if n <= 0 {
        Seq::empty()
    } else {
        collect_prefix(p, ls, n - 1) + candidates_for_alias(p.root@, p.aliases@[n - 1], ls[n - 1])
    }
}

/// Every candidate of every alias of `p`, given one listing per alias.
pub open spec fn collect_spec(p: Project, ls: Seq<AliasListing>) -> Seq<NicknamedDirView> {
    collect_prefix(p, ls, p.aliases@.len() as int)
}

/// The views of a sequence of candidates.
pub open spec fn cands_view(s: Seq<NicknamedDir>) -> Seq<NicknamedDirView> {
    s.map_values(|c: NicknamedDir| c@)
}

/// Appends one candidate per subdirectory entry of one alias root.
fn push_subdir_candidates(
    r: &mut Vec<NicknamedDir>,
    name: &str,
    ar: &str,
    entries: &Vec<String>,
)
    ensures
        cands_view(final(r)@) == cands_view(old(r)@) + subdir_candidates(name@, ar@, entries@),
{
    let m = entries.len();
    let mut j: usize = 0;
    proof {
        assert(entries@.subrange(0, 0) =~= Seq::<String>::empty());
        assert(cands_view(r@) =~= cands_view(old(r)@) + subdir_candidates(
            name@,
            ar@,
            entries@.subrange(0, 0),
        ));
    }
    while j < m
        invariant
            m == entries@.len(),
            j <= m,
            cands_view(r@) == cands_view(old(r)@) + subdir_candidates(
                name@,
                ar@,
                entries@.subrange(0, j as int),
            ),
        decreases m - j,
    {
        let c = NicknamedDir::new(name, ar, entries[j].as_str());
        let ghost before = r@;
        r.push(c);
        proof {
            let pre = entries@.subrange(0, j as int);
            let post = entries@.subrange(0, j as int + 1);
            assert(post.drop_last() =~= pre);
            assert(post.last() == entries@[j as int]);
            assert(c@ == (NicknamedDirView {
                short: name@ + slash() + post.last()@,
                path: ar@ + slash() + post.last()@,
            }));
            assert(subdir_candidates(name@, ar@, post) == subdir_candidates(name@, ar@, pre).push(
                c@,
            ));
            assert(r@ == before.push(c));
            assert(cands_view(r@) =~= cands_view(before).push(c@));
            assert(cands_view(before).push(c@) =~= cands_view(old(r)@) + subdir_candidates(
                name@,
                ar@,
                post,
            ));
        }
        j += 1;
    }
    proof {
        assert(entries@.subrange(0, m as int) =~= entries@);
    }
}

/// Expands each alias of `project` into its candidates, given the
/// listing observed for each alias root: first the alias root itself,
/// labeled with the alias name, then its subdirectories, labeled
/// `alias/entry`; unreadable aliases are skipped.
pub fn collect(project: &Project, listings: &Vec<AliasListing>) -> (r: Vec<NicknamedDir>)
    requires
        listings@.len() == project.aliases@.len(),
    ensures
        cands_view(r@) == collect_spec(*project, listings@),
{
    let mut r: Vec<NicknamedDir> = Vec::new();
    let n = project.aliases.len();
    proof {
        assert(cands_view(r@) =~= collect_prefix(*project, listings@, 0));
    }
    let mut i: usize = 0;
    while i < n
        invariant
            n == project.aliases@.len(),
            listings@.len() == n,
            i <= n,
            cands_view(r@) == collect_prefix(*project, listings@, i as int),
        decreases n - i,
    {
        let a = &project.aliases[i];
        match &listings[i] {
            AliasListing::Unreadable => {
                proof {
                    assert(cands_view(r@) =~= collect_prefix(*project, listings@, i as int + 1));
                }
            },
            AliasListing::Subdirs(entries) => {
                let ghost base = cands_view(r@);
                let ar = join_with_slash(project.root.as_str(), a.path.as_str());
                r.push(NicknamedDir { short: a.name.clone(), path: ar.clone() });
                proof {
                    assert(cands_view(r@) =~= base + seq![
                        NicknamedDirView {
                            short: a.name@,
                            path: alias_root(project.root@, a.path@),
                        },
                    ]);
                }
                push_subdir_candidates(&mut r, a.name.as_str(), ar.as_str(), entries);
                proof {
                    assert(cands_view(r@) =~= collect_prefix(*project, listings@, i as int + 1));
                }
            },
        }
        i += 1;
    }
    r
}

/// The listing of some alias vouches for `c`'s path: the path is that
/// alias's readable root, or that root joined with one of its listed
/// subdirectory entries. Listings hold what existed as a directory at
/// collection time, so a vouched path named an existing directory then.
pub open spec fn vouched_by_alias(
    root: Seq<char>,
    a: Alias,
    l: AliasListing,
    c: NicknamedDirView,
) -> bool {
    l matches AliasListing::Subdirs(entries) && (c.path == alias_root(root, a.path@) || exists|
        j: int,
    |
        0 <= j < entries@.len() && c.path == alias_root(root, a.path@) + slash()
            + #[trigger] entries@[j]@)
}

/// Some alias of `p` vouches for `c`'s path.
pub open spec fn candidate_vouched(p: Project, ls: Seq<AliasListing>, c: NicknamedDirView) -> bool {
    exists|i: int| 0 <= i < ls.len() && vouched_by_alias(p.root@, #[trigger] p.aliases@[i], ls[i], c)
}

/// Subdirectory expansion yields one candidate per listed entry, in
/// listing order, each labeled `name/entry` and pointing at `ar/entry`.
pub proof fn lemma_subdir_candidates_index(name: Seq<char>, ar: Seq<char>, entries: Seq<String>)
    ensures
        subdir_candidates(name, ar, entries).len() == entries.len(),
        forall|k: int|
            0 <= k < entries.len() ==> #[trigger] subdir_candidates(name, ar, entries)[k]
                == (NicknamedDirView {
                short: name + slash() + entries[k]@,
                path: ar + slash() + entries[k]@,
            }),
    decreases entries.len(),
{
    if entries.len() > 0 {
        lemma_subdir_candidates_index(name, ar, entries.drop_last());
    }
}

proof fn lemma_collect_prefix_vouched(p: Project, ls: Seq<AliasListing>, n: int)
    requires
        0 <= n <= ls.len(),
        ls.len() == p.aliases@.len(),
    ensures
        forall|k: int|
            0 <= k < collect_prefix(p, ls, n).len() ==> candidate_vouched(
                p,
                ls,
                #[trigger] collect_prefix(p, ls, n)[k],
            ),
    decreases n,
{
    if n > 0 {
        lemma_collect_prefix_vouched(p, ls, n - 1);
        let prev = collect_prefix(p, ls, n - 1);
        let a = p.aliases@[n - 1];
        let blk = candidates_for_alias(p.root@, a, ls[n - 1]);
        assert forall|k: int|
            0 <= k < collect_prefix(p, ls, n).len() implies candidate_vouched(
            p,
            ls,
            #[trigger] collect_prefix(p, ls, n)[k],
        ) by {
            if k < prev.len() {
                assert(collect_prefix(p, ls, n)[k] == prev[k]);
            } else {
                let c = collect_prefix(p, ls, n)[k];
                assert(c == blk[k - prev.len()]);
                match ls[n - 1] {
                    AliasListing::Unreadable => {},
                    AliasListing::Subdirs(entries) => {
                        let ar = alias_root(p.root@, a.path@);
                        if k == prev.len() {
                            assert(c.path == ar);
                        } else {
                            lemma_subdir_candidates_index(a.name@, ar, entries@);
                            let j = k - prev.len() - 1;
                            assert(c == subdir_candidates(a.name@, ar, entries@)[j]);
                            assert(c.path == ar + slash() + entries@[j]@);
                        }
                        assert(vouched_by_alias(p.root@, p.aliases@[n - 1], ls[n - 1], c));
                    },
                }
            }
        }
    }
}

/// Collection never emits a candidate whose path the listings do not
/// vouch for: every emitted path is a readable alias root or one of its
/// listed subdirectories, so it named an existing directory at
/// collection time.
pub proof fn lemma_collect_paths_vouched(p: Project, ls: Seq<AliasListing>)
    requires
        ls.len() == p.aliases@.len(),
    ensures
        forall|k: int|
            0 <= k < collect_spec(p, ls).len() ==> candidate_vouched(
                p,
                ls,
                #[trigger] collect_spec(p, ls)[k],
            ),
{
    lemma_collect_prefix_vouched(p, ls, ls.len() as int);
}

} // verus!
