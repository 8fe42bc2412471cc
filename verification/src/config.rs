//! The list of registered workspaces.

use crate::text::str_eq;
use vstd::prelude::*;

verus! {

/// One registered workspace: the directory it lives in, as text.
#[derive(Debug)]
pub struct Workspace {
    pub path: String,
}

impl View for Workspace {
    type V = Seq<char>;

    open spec fn view(&self) -> Seq<char> {
        self.path@
    }
}

/// The paths of a sequence of workspaces, in order.
pub open spec fn workspace_views(s: Seq<Workspace>) -> Seq<Seq<char>> {
    s.map_values(|w: Workspace| w@)
}

/// The list of registered workspaces, in the order in which they were added.
#[derive(Debug)]
pub struct Config {
    workspaces: Vec<Workspace>,
}

impl View for Config {
    type V = Seq<Seq<char>>;

    closed spec fn view(&self) -> Seq<Seq<char>> {
        workspace_views(self.workspaces@)
    }
}

impl Default for Config {
    fn default() -> (r: Self)
        ensures
            r@ == Seq::<Seq<char>>::empty(),
    {
        let config = Config { workspaces: Vec::new() };
        assert(config@ =~= Seq::<Seq<char>>::empty());
        config
    }
}

impl Config {
    /// A configuration that holds the given workspaces.
    pub fn new(workspaces: Vec<Workspace>) -> (r: Self)
        ensures
            r@ == workspace_views(workspaces@),
    {
        Config { workspaces }
    }

    /// Whether a workspace with exactly this path is registered.
    pub fn has_ws(&self, path: &str) -> (r: bool)
        ensures
            r == self@.contains(path@),
    {
        let mut i: usize = 0;
        while i < self.workspaces.len()
            invariant
                i <= self.workspaces@.len(),
                self@ == workspace_views(self.workspaces@),
                forall|j: int| 0 <= j < i ==> self@[j] != path@,
            decreases self.workspaces@.len() - i,
        {
            if str_eq(self.workspaces[i].path.as_str(), path) {
                assert(self@[i as int] == path@);
                return true;
            }
            i += 1;
        }
        false
    }

    /// All registered workspaces, in the order in which they were added.
    pub fn get_ws_all(&self) -> (r: &[Workspace])
        ensures
            workspace_views(r@) == self@,
    {
        self.workspaces.as_slice()
    }

    /// Registers a workspace at the end of the list. Nothing is checked:
    /// a path that is already registered is registered once more.
    pub fn add_ws(&mut self, path: &str)
        ensures
            final(self)@ == old(self)@.push(path@),
    {
        self.workspaces.push(Workspace { path: path.to_owned() });
        assert(self@ =~= old(self)@.push(path@));
    }

    /// Removes every workspace with exactly this path and keeps the others
    /// in their order. Returns whether anything was removed.
    pub fn remove_ws(&mut self, path: &str) -> (r: bool)
        ensures
            final(self)@ == old(self)@.filter(|p: Seq<char>| p != path@),
            r == old(self)@.contains(path@),
    {
        let ghost original = self@;
        let ghost keep = |p: Seq<char>| p != path@;
        let ghost mut j: int = 0;
        let mut removed = false;
        let mut i: usize = 0;
        proof {
            assert(original.take(0) =~= Seq::<Seq<char>>::empty());
            reveal(Seq::filter);
            assert(original.take(0).filter(keep) =~= Seq::<Seq<char>>::empty());
            assert(original.skip(0) =~= original);
        }
        while i < self.workspaces.len()
            invariant
                0 <= j <= original.len(),
                i <= self.workspaces@.len(),
                keep == |p: Seq<char>| p != path@,
                self@ == workspace_views(self.workspaces@),
                i == original.take(j).filter(keep).len(),
                self@ == original.take(j).filter(keep) + original.skip(j),
                removed == (exists|k: int| 0 <= k < j && #[trigger] original[k] == path@),
            decreases original.len() - j,
        {
            let ghost kept = original.take(j).filter(keep);
            let ghost listed = self@;
            proof {
                assert(self@.len() == kept.len() + original.skip(j).len());
                assert(j < original.len());
                assert(self@[i as int] == original.skip(j)[0]);
                assert(original.take(j + 1) =~= original.take(j).push(original[j]));
                original.take(j).lemma_filter_push(original[j], keep);
            }
            if str_eq(self.workspaces[i].path.as_str(), path) {
                self.workspaces.remove(i);
                removed = true;
                proof {
                    assert(self@ =~= listed.remove(i as int));
                    assert(listed.remove(i as int) =~= kept + original.skip(j + 1));
                    assert(original[j] == path@);
                }
            } else {
                i += 1;
                proof {
                    assert(self@ =~= kept.push(original[j]) + original.skip(j + 1));
                }
            }
            proof {
                j = j + 1;
            }
        }
        proof {
            assert(self@.len() == original.take(j).filter(keep).len() + original.skip(j).len());
            assert(j == original.len());
            assert(original.take(j) =~= original);
            assert(original.skip(j) =~= Seq::<Seq<char>>::empty());
            assert(self@ =~= original.filter(keep));
            if original.contains(path@) {
                let k = choose|k: int| 0 <= k < original.len() && original[k] == path@;
                assert(original[k] == path@);
            }
        }
        removed
    }
}

} // verus!
