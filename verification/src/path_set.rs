//! Sets of paths.

use vstd::prelude::*;

use crate::paths::{plain, plain_of, plains};
use crate::text::views;
use crate::text_set::TextSet;

verus! {

/// A set of paths. Paths with the same components are the same.
#[derive(Debug)]
pub struct PathSet {
    texts: TextSet,
}

/// The paths, each with nothing in it but its components.
impl View for PathSet {
    type V = Set<Seq<char>>;

    closed spec fn view(&self) -> Set<Seq<char>> {
        self.texts@
    }
}

impl Default for PathSet {
    fn default() -> (s: Self)
        ensures
            s.wf(),
            s@ == Set::<Seq<char>>::empty(),
    {
        PathSet::new()
    }
}

impl PathSet {
    /// Whether no path is kept twice.
    pub closed spec fn wf(&self) -> bool {
        self.texts.wf()
    }

    pub fn new() -> (s: Self)
        ensures
            s.wf(),
            s@ == Set::<Seq<char>>::empty(),
    {
        PathSet { texts: TextSet::new() }
    }

    /// How many paths there are.
    pub fn len(&self) -> (n: usize)
        requires
            self.wf(),
        ensures
            n == self@.len(),
            self@.finite(),
    {
        self.texts.len()
    }

    /// Whether a path is in the set.
    pub fn contains(&self, path: &str) -> (r: bool)
        ensures
            r == self@.contains(plain(path@)),
    {
        self.texts.contains(plain_of(path).as_str())
    }

    /// Puts a path into the set.
    pub fn insert(&mut self, path: &str)
        requires
            old(self).wf(),
        ensures
            final(self).wf(),
            final(self)@ == old(self)@.insert(plain(path@)),
    {
        self.texts.insert(plain_of(path).as_str());
    }

    /// Takes a path out of the set.
    pub fn remove(&mut self, path: &str)
        requires
            old(self).wf(),
        ensures
            final(self).wf(),
            final(self)@ == old(self)@.remove(plain(path@)),
    {
        self.texts.remove(plain_of(path).as_str());
    }

    /// Takes all paths out of the set.
    pub fn clear(&mut self)
        ensures
            final(self).wf(),
            final(self)@ == Set::<Seq<char>>::empty(),
    {
        self.texts.clear();
    }

    /// Keeps only the paths that are listed.
    pub fn retain(&mut self, valid: &[String])
        requires
            old(self).wf(),
        ensures
            final(self).wf(),
            final(self)@ == old(self)@.intersect(plains(views(valid@)).to_set()),
    {
        let mut listed: Vec<String> = Vec::new();
        let mut i: usize = 0;
        while i < valid.len()
            invariant
                i <= valid@.len(),
                views(listed@) =~= plains(views(valid@)).take(i as int),
            decreases valid.len() - i,
        {
            let ghost before = listed@;
            let text = plain_of(valid[i].as_str());
            listed.push(text);
            proof {
                assert(views(listed@) =~= views(before).push(text@));
            }
            i += 1;
        }
        proof {
            assert(views(listed@) =~= plains(views(valid@)));
        }
        self.texts.retain(listed.as_slice());
    }
}

} // verus!
