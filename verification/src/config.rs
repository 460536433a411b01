//! The persisted configuration model: projects, their roots, and their
//! named aliases. Loaded once per invocation and read-only thereafter;
//! the on-disk read/write mechanics live outside this library, which only
//! defines the data and its interchange form (flat name/path pairs).

use vstd::prelude::*;

verus! {

/// One named alias: a name mapped to a path relative to a project's root.
#[derive(Clone)]
pub struct Alias {
    pub name: String,
    pub path: String,
}

/// A bookmarked directory tree: a root path and a set of named aliases.
#[derive(Clone)]
pub struct Project {
    pub root: String,
    pub aliases: Vec<Alias>,
}

/// The whole persisted state: an ordered sequence of projects.
pub struct GotoFile {
    pub projects: Vec<Project>,
}

impl Project {
    /// Alias names are unique within a project.
    pub open spec fn wf(self) -> bool {
        forall|i: int, j: int|
            0 <= i < j < self.aliases@.len() ==> self.aliases@[i].name@ != self.aliases@[j].name@
    }

    /// Whether some alias of this project already carries `name`.
    pub open spec fn has_alias(self, name: Seq<char>) -> bool {
        exists|i: int| 0 <= i < self.aliases@.len() && self.aliases@[i].name@ == name
    }

    pub fn new(root: String) -> (p: Project)
        ensures
            p.root == root,
            p.aliases@ =~= Seq::<Alias>::empty(),
            p.wf(),
    {
        Project { root, aliases: Vec::new() }
    }

    /// Adds an alias unless its name is already taken; returns whether it
    /// was added. Uniqueness of alias names is preserved either way.
    pub fn add_alias(&mut self, name: String, path: String) -> (added: bool)
        requires
            old(self).wf(),
        ensures
            final(self).wf(),
            final(self).root == old(self).root,
            added <==> !old(self).has_alias(name@),
            added ==> final(self).aliases@ == old(self).aliases@.push(Alias { name, path }),
            !added ==> *final(self) == *old(self),
    {
        let n = self.aliases.len();
        let mut i: usize = 0;
        while i < n
            invariant
                n == self.aliases@.len(),
                i <= n,
                old(self).wf(),
                *self == *old(self),
                forall|j: int| 0 <= j < i ==> self.aliases@[j].name@ != name@,
            decreases n - i,
        {
            if self.aliases[i].name == name {
                return false;
            }
            i += 1;
        }
        self.aliases.push(Alias { name, path });
        true
    }

    /// The project's aliases as flat `(name, relative_path)` pairs: the
    /// interchange form in which a configuration is persisted.
    pub fn alias_pairs(&self) -> (r: Vec<(String, String)>)
        ensures
            r@.len() == self.aliases@.len(),
            forall|i: int|
                0 <= i < r@.len() ==> r@[i].0 == self.aliases@[i].name && r@[i].1
                    == self.aliases@[i].path,
    {
        let mut r: Vec<(String, String)> = Vec::new();
        let n = self.aliases.len();
        let mut i: usize = 0;
        while i < n
            invariant
                n == self.aliases@.len(),
                i <= n,
                r@.len() == i,
                forall|j: int|
                    0 <= j < i ==> r@[j].0 == self.aliases@[j].name && r@[j].1
                        == self.aliases@[j].path,
            decreases n - i,
        {
            r.push((self.aliases[i].name.clone(), self.aliases[i].path.clone()));
            i += 1;
        }
        r
    }

    /// Rebuilds a project from its persisted pair form. Later pairs whose
    /// name repeats an earlier one are dropped; when all names are
    /// distinct the aliases reproduce the pairs exactly, in order.
    pub fn from_alias_pairs(root: String, pairs: &Vec<(String, String)>) -> (p: Project)
        ensures
            p.wf(),
            p.root == root,
            pairwise_distinct_names(pairs@) ==> p.aliases@.len() == pairs@.len()
                && forall|i: int|
                0 <= i < pairs@.len() ==> p.aliases@[i].name == pairs@[i].0 && p.aliases@[i].path
                    == pairs@[i].1,
    {
        let mut p = Project::new(root);
        let n = pairs.len();
        let mut i: usize = 0;
        while i < n
            invariant
                n == pairs@.len(),
                i <= n,
                p.wf(),
                p.root == root,
                pairwise_distinct_names(pairs@) ==> p.aliases@.len() == i && forall|j: int|
                    0 <= j < i ==> p.aliases@[j].name == pairs@[j].0 && p.aliases@[j].path
                        == pairs@[j].1,
            decreases n - i,
        {
            let name = pairs[i].0.clone();
            let path = pairs[i].1.clone();
            proof {
                if pairwise_distinct_names(pairs@) {
                    assert forall|k: int|
                        0 <= k < p.aliases@.len() implies p.aliases@[k].name@ != name@ by {
                        assert(p.aliases@[k].name == pairs@[k].0);
                        assert(pairs@[k].0@ != pairs@[i as int].0@);
                    }
                }
            }
            p.add_alias(name, path);
            i += 1;
        }
        p
    }
}

/// The reload half of the persistence round trip: the pair form of a
/// well-formed project has pairwise-distinct names, so rebuilding from
/// it reproduces the project's aliases exactly, in order, by the
/// contract of the rebuild.
pub proof fn lemma_wf_pairs_distinct(p: Project, pairs: Seq<(String, String)>)
    requires
        p.wf(),
        pairs.len() == p.aliases@.len(),
        forall|i: int|
            0 <= i < pairs.len() ==> #[trigger] pairs[i].0 == p.aliases@[i].name && pairs[i].1
                == p.aliases@[i].path,
    ensures
        pairwise_distinct_names(pairs),
{
}

/// No two pairs share a name, compared by characters.
pub open spec fn pairwise_distinct_names(pairs: Seq<(String, String)>) -> bool {
    forall|i: int, j: int| 0 <= i < j < pairs.len() ==> pairs[i].0@ != pairs[j].0@
}

} // verus!
