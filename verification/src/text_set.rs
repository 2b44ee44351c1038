//! Sets of texts.

use vstd::prelude::*;

use crate::text::{same, views};

verus! {

/// A set of texts.
#[derive(Debug)]
pub struct TextSet {
    items: Vec<String>,
}

impl View for TextSet {
    type V = Set<Seq<char>>;

    closed spec fn view(&self) -> Set<Seq<char>> {
        views(self.items@).to_set()
    }
}

impl Default for TextSet {
    fn default() -> (s: Self)
        ensures
            s.wf(),
            s@ == Set::<Seq<char>>::empty(),
    {
        TextSet::new()
    }
}

impl TextSet {
    /// Whether no text is kept twice.
    pub closed spec fn wf(&self) -> bool {
        views(self.items@).no_duplicates()
    }

    pub fn new() -> (s: Self)
        ensures
            s.wf(),
            s@ == Set::<Seq<char>>::empty(),
    {
        let s = TextSet { items: Vec::new() };
        proof {
            assert(views(s.items@) =~= Seq::empty());
            assert(s@ =~= Set::empty());
        }
        s
    }

    /// How many texts there are.
    pub fn len(&self) -> (n: usize)
        requires
            self.wf(),
        ensures
            n == self@.len(),
            self@.finite(),
    {
        proof {
            views(self.items@).unique_seq_to_set();
        }
        self.items.len()
    }

    fn find(&self, text: &str) -> (at: Option<usize>)
        ensures
            at is Some == self@.contains(text@),
            at matches Some(i) ==> i < self.items@.len() && self.items@[i as int]@ == text@,
    {
        let mut i: usize = 0;
        while i < self.items.len()
            invariant
                i <= self.items@.len(),
                forall|j: int| 0 <= j < i ==> #[trigger] views(self.items@)[j] != text@,
            decreases self.items.len() - i,
        {
            proof {
                assert(views(self.items@)[i as int] == self.items@[i as int]@);
            }
            if same(self.items[i].as_str(), text) {
                return Some(i);
            }
            i += 1;
        }
        None
    }

    /// Whether a text is in the set.
    pub fn contains(&self, text: &str) -> (r: bool)
        ensures
            r == self@.contains(text@),
    {
        self.find(text).is_some()
    }

    /// Puts a text into the set.
    pub fn insert(&mut self, text: &str)
        requires
            old(self).wf(),
        ensures
            final(self).wf(),
            final(self)@ == old(self)@.insert(text@),
    {
        let ghost before = views(self.items@);
        if self.find(text).is_none() {
            let item = text.to_owned();
            self.items.push(item);
            proof {
                assert(views(self.items@) =~= before.push(text@));
                assert forall|p: Seq<char>| #[trigger] self@.contains(p) <==> before.to_set().insert(
                    text@,
                ).contains(p) by {
                    if p == text@ {
                        assert(before.push(text@)[before.len() as int] == p);
                    } else if before.contains(p) {
                        let i = choose|i: int| 0 <= i < before.len() && before[i] == p;
                        assert(before.push(text@)[i] == p);
                    } else if before.push(text@).contains(p) {
                        let i = choose|i: int|
                            0 <= i < before.push(text@).len() && before.push(text@)[i] == p;
                        assert(before[i] == p);
                    }
                }
                assert(self@ =~= before.to_set().insert(text@));
                assert(self.wf()) by {
                    assert(!before.contains(text@));
                }
            }
        } else {
            proof {
                assert(before.to_set().insert(text@) =~= before.to_set());
            }
        }
    }

    /// Takes a text out of the set.
    pub fn remove(&mut self, text: &str)
        requires
            old(self).wf(),
        ensures
            final(self).wf(),
            final(self)@ == old(self)@.remove(text@),
    {
        let ghost before = views(self.items@);
        if let Some(i) = self.find(text) {
            let _ = self.items.remove(i);
            proof {
                let after = views(self.items@);
                assert(after =~= before.remove(i as int));
                assert(before[i as int] == text@);
                assert forall|p: Seq<char>| #[trigger] self@.contains(p) <==> before.to_set().remove(
                    text@,
                ).contains(p) by {
                    if after.contains(p) {
                        let k = choose|k: int| 0 <= k < after.len() && after[k] == p;
                        let m = if k < i {
                            k
                        } else {
                            k + 1
                        };
                        assert(before[m] == p);
                    }
                    if before.contains(p) && p != text@ {
                        let m = choose|m: int| 0 <= m < before.len() && before[m] == p;
                        let k = if m < i {
                            m
                        } else {
                            m - 1
                        };
                        assert(after[k] == p);
                    }
                }
                assert(self@ =~= before.to_set().remove(text@));
            }
        } else {
            proof {
                assert(before.to_set().remove(text@) =~= before.to_set());
            }
        }
    }

    /// Takes all texts out of the set.
    pub fn clear(&mut self)
        ensures
            final(self).wf(),
            final(self)@ == Set::<Seq<char>>::empty(),
    {
        *self = TextSet::new();
    }

    /// Keeps only the texts that are listed.
    pub fn retain(&mut self, valid: &[String])
        requires
            old(self).wf(),
        ensures
            final(self).wf(),
            final(self)@ == old(self)@.intersect(views(valid@).to_set()),
    {
        let ghost before = self@;
        let mut kept = TextSet::new();
        let mut i: usize = 0;
        proof {
            assert(kept@ =~= before.intersect(views(valid@).take(0).to_set()));
        }
        while i < valid.len()
            invariant
                i <= valid@.len(),
                self.wf(),
                self@ == before,
                kept.wf(),
                kept@ == before.intersect(views(valid@).take(i as int).to_set()),
            decreases valid.len() - i,
        {
            let ghost upto = views(valid@).take(i as int);
            let ghost next = views(valid@).take(i + 1);
            let ghost p = valid@[i as int]@;
            proof {
                assert(next =~= upto.push(p));
                assert forall|q: Seq<char>| #[trigger] next.to_set().contains(q)
                    <==> upto.to_set().insert(p).contains(q) by {
                    if q == p {
                        assert(next[i as int] == q);
                    } else if upto.contains(q) {
                        let k = choose|k: int| 0 <= k < upto.len() && upto[k] == q;
                        assert(next[k] == q);
                    } else if next.contains(q) {
                        let k = choose|k: int| 0 <= k < next.len() && next[k] == q;
                        assert(upto[k] == q);
                    }
                }
                assert(next.to_set() =~= upto.to_set().insert(p));
            }
            if self.contains(valid[i].as_str()) {
                kept.insert(valid[i].as_str());
                proof {
                    assert(before.intersect(upto.to_set()).insert(p) =~= before.intersect(
                        next.to_set(),
                    ));
                }
            } else {
                proof {
                    assert(before.intersect(upto.to_set()) =~= before.intersect(next.to_set()));
                }
            }
            i += 1;
        }
        proof {
            assert(views(valid@).take(valid@.len() as int) == views(valid@));
        }
        *self = kept;
    }
}

} // verus!
