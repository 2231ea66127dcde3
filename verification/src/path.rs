//! Paths below a root, as the names that lead from the root to an entry.

use vstd::prelude::*;
use vstd::string::*;

verus! {

/// A path relative to a root directory: the names of the directories passed
/// on the way, and last the name of the entry itself. The empty path is the
/// root.
#[derive(Debug, PartialEq, Eq)]
pub struct RelPath {
    pub parts: Vec<String>,
}

impl View for RelPath {
    type V = Seq<Seq<char>>;

    open spec fn view(&self) -> Seq<Seq<char>> {
        Seq::new(self.parts@.len(), |i: int| self.parts@[i]@)
    }
}

impl Clone for RelPath {
    fn clone(&self) -> (copy: RelPath)
        ensures
            copy@ == self@,
    {
        let mut parts: Vec<String> = Vec::new();
        let mut i: usize = 0;
        while i < self.parts.len()
            invariant
                i <= self.parts@.len(),
                parts@.len() == i,
                forall|k: int| 0 <= k < i ==> parts@[k]@ == self.parts@[k]@,
            decreases self.parts@.len() - i,
        {
            parts.push(self.parts[i].clone());
            i += 1;
        }
        let copy = RelPath { parts };
        assert(copy@ =~= self@);
        copy
    }
}

impl RelPath {
    /// The path of the root itself.
    pub fn root() -> (path: RelPath)
        ensures
            path@ == Seq::<Seq<char>>::empty(),
    {
        let path = RelPath { parts: Vec::new() };
        assert(path@ =~= Seq::<Seq<char>>::empty());
        path
    }

    /// The path of the entry `name` in the directory `self`.
    pub fn child(&self, name: &str) -> (path: RelPath)
        ensures
            path@ == self@.push(name@),
    {
        let mut path = self.clone();
        let ghost before = path@;
        path.parts.push(String::from_str(name));
        assert(path@ =~= before.push(name@));
        path
    }

    /// The number of names in the path.
    pub fn depth(&self) -> (depth: usize)
        ensures
            depth == self@.len(),
    {
        self.parts.len()
    }
}

} // verus!
