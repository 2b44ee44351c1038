//! The cache of previews: one state per file and purpose.

use vstd::prelude::*;

use crate::assoc::{assoc, has_distinct_keys, lemma_assoc, lemma_assoc_push, lemma_assoc_update};
use crate::git::Oid;
use crate::paths::{plain, same_path};
use crate::shared::share;
use crate::ui::file_preview::{PreviewMode, PreviewState, State};

verus! {

/// What file a preview is of.
#[derive(Debug, Clone, PartialEq, Eq, Hash)]
pub enum PreviewIdentity {
    /// A blob, by its content.
    Blob(Oid),
    /// A file of the working tree, as it was at some time.
    Path { path: String, mtime_ns: u128 },
}

/// A preview by its file and its purpose.
#[derive(Debug, Clone, PartialEq, Eq, Hash)]
pub struct PreviewKey {
    pub identity: PreviewIdentity,
    pub mode: PreviewMode,
}

/// What file a preview is of, by its contents.
pub enum Identity {
    Blob(Seq<u8>),
    Path(Seq<char>, u128),
}

/// A preview by its file and its purpose.
pub struct Key {
    pub identity: Identity,
    pub mode: PreviewMode,
}

impl View for PreviewKey {
    type V = Key;

    open spec fn view(&self) -> Key {
        Key {
            identity: match self.identity {
                PreviewIdentity::Blob(oid) => Identity::Blob(oid.bytes@),
                PreviewIdentity::Path { path, mtime_ns } => Identity::Path(plain(path@), mtime_ns),
            },
            mode: self.mode,
        }
    }
}

impl PreviewKey {
    /// Whether two keys stand for the same preview.
    pub fn same_as(&self, other: &PreviewKey) -> (r: bool)
        ensures
            r == (self@ == other@),
    {
        if self.mode != other.mode {
            return false;
        }
        match (&self.identity, &other.identity) {
            (PreviewIdentity::Blob(a), PreviewIdentity::Blob(b)) => a.same(b),
            (
                PreviewIdentity::Path { path: a, mtime_ns: s },
                PreviewIdentity::Path { path: b, mtime_ns: t },
            ) => *s == *t && same_path(a.as_str(), b.as_str()),
            (PreviewIdentity::Blob(_), PreviewIdentity::Path { .. }) => false,
            (PreviewIdentity::Path { .. }, PreviewIdentity::Blob(_)) => false,
        }
    }
}

impl PreviewState {
    /// The same state again. The pixels are shared.
    pub fn duplicate(&self) -> (r: PreviewState)
        ensures
            r@ == self@,
    {
        match self {
            PreviewState::Pending => PreviewState::Pending,
            PreviewState::Ready(img) => PreviewState::Ready(share(img)),
            PreviewState::Unsupported { label } => PreviewState::Unsupported { label: *label },
            PreviewState::TooLarge { bytes } => PreviewState::TooLarge { bytes: *bytes },
            PreviewState::Failed { reason } => PreviewState::Failed { reason: reason.clone() },
        }
    }
}

/// The states of all previews that were asked for.
pub struct PreviewCache {
    entries: Vec<(PreviewKey, PreviewState)>,
}

/// The contents of a list of entries.
pub open spec fn pairs(entries: Seq<(PreviewKey, PreviewState)>) -> Seq<(Key, State)> {
    entries.map_values(|e: (PreviewKey, PreviewState)| (e.0@, e.1@))
}

impl View for PreviewCache {
    type V = Map<Key, State>;

    closed spec fn view(&self) -> Map<Key, State> {
        assoc(pairs(self.entries@))
    }
}

impl PreviewCache {
    /// Whether there is one state per key.
    pub closed spec fn wf(&self) -> bool {
        has_distinct_keys(pairs(self.entries@))
    }

    pub fn new() -> (cache: Self)
        ensures
            cache.wf(),
            cache@ == Map::<Key, State>::empty(),
    {
        let cache = PreviewCache { entries: Vec::new() };
        proof {
            assert(pairs(cache.entries@) =~= Seq::empty());
        }
        cache
    }

    fn find(&self, key: &PreviewKey) -> (at: Option<usize>)
        requires
            self.wf(),
        ensures
            at is Some == self@.contains_key(key@),
            at matches Some(i) ==> i < self.entries@.len() && self.entries@[i as int].0@ == key@
                && self@[key@] == self.entries@[i as int].1@,
            at is None ==> forall|i: int|
                0 <= i < pairs(self.entries@).len() ==> (#[trigger] pairs(self.entries@)[i]).0 != key@,
    {
        let ghost ps = pairs(self.entries@);
        proof {
            lemma_assoc(ps);
        }
        let mut i: usize = 0;
        while i < self.entries.len()
            invariant
                i <= self.entries@.len(),
                ps == pairs(self.entries@),
                self.wf(),
                forall|j: int| 0 <= j < i ==> (#[trigger] ps[j]).0 != key@,
            decreases self.entries.len() - i,
        {
            let here = self.entries[i].0.same_as(key);
            proof {
                assert(ps[i as int] == (self.entries@[i as int].0@, self.entries@[i as int].1@));
            }
            if here {
                proof {
                    lemma_assoc(ps);
                }
                return Some(i);
            }
            i += 1;
        }
        None
    }

    /// The state of a preview, if it was asked for.
    pub fn peek(&self, key: &PreviewKey) -> (state: Option<PreviewState>)
        requires
            self.wf(),
        ensures
            state is Some == self@.contains_key(key@),
            state matches Some(s) ==> s@ == self@[key@],
    {
        match self.find(key) {
            Some(i) => Some(self.entries[i].1.duplicate()),
            None => None,
        }
    }

    /// Sets the state of a preview.
    pub fn store(&mut self, key: PreviewKey, state: PreviewState)
        requires
            old(self).wf(),
        ensures
            final(self).wf(),
            final(self)@ == old(self)@.insert(key@, state@),
    {
        let ghost before = pairs(self.entries@);
        match self.find(&key) {
            Some(i) => {
                proof {
                    assert(before[i as int].0 == key@);
                    lemma_assoc_update(before, i as int, state@);
                }
                self.entries.set(i, (key, state));
                proof {
                    assert(pairs(self.entries@) =~= before.update(i as int, (key@, state@)));
                }
            },
            None => {
                proof {
                    lemma_assoc_push(before, key@, state@);
                }
                self.entries.push((key, state));
                proof {
                    assert(pairs(self.entries@) =~= before.push((key@, state@)));
                }
            },
        }
    }

    /// The state of a preview, which is pending when it is asked for first.
    /// The second result says whether a decoding has to be queued.
    pub fn request(&mut self, key: PreviewKey) -> (out: (PreviewState, bool))
        requires
            old(self).wf(),
        ensures
            final(self).wf(),
            out.1 == !old(self)@.contains_key(key@),
            out.1 ==> final(self)@ == old(self)@.insert(key@, State::Pending) && out.0@
                == State::Pending,
            !out.1 ==> final(self)@ == old(self)@ && out.0@ == old(self)@[key@],
    {
        match self.peek(&key) {
            Some(state) => (state, false),
            None => {
                self.store(key, PreviewState::Pending);
                (PreviewState::Pending, true)
            },
        }
    }

    /// Takes over the previews that were decoded, in order. Says whether there
    /// was any.
    pub fn pump(&mut self, results: Vec<(PreviewKey, PreviewState)>) -> (got_any: bool)
        requires
            old(self).wf(),
        ensures
            final(self).wf(),
            final(self)@ == stored(old(self)@, pairs(results@)),
            got_any == (results@.len() > 0),
    {
        let ghost all = pairs(results@);
        let n: usize = results.len();
        let mut results = results;
        let mut reversed: Vec<(PreviewKey, PreviewState)> = Vec::new();
        while results.len() > 0
            invariant
                pairs(results@) + pairs(reversed@).reverse() == all,
            decreases results.len(),
        {
            let ghost rest = pairs(results@);
            let ghost done = pairs(reversed@);
            if let Some(e) = results.pop() {
                reversed.push(e);
                proof {
                    assert(pairs(results@) =~= rest.drop_last());
                    assert(pairs(reversed@) =~= done.push(rest.last()));
                    assert(pairs(results@) + pairs(reversed@).reverse() =~= rest + done.reverse());
                }
            }
        }
        proof {
            assert(pairs(reversed@).reverse() =~= all);
            assert(stored(self@, all.take(0)) == self@);
        }
        let mut taken: usize = 0;
        while reversed.len() > 0
            invariant
                self.wf(),
                taken + reversed@.len() == n,
                all.len() == n,
                forall|i: int|
                    0 <= i < reversed@.len() ==> #[trigger] pairs(reversed@)[i] == all[n - 1 - i],
                self@ == stored(old(self)@, all.take(taken as int)),
            decreases reversed.len(),
        {
            let ghost rest = reversed@;
            if let Some(e) = reversed.pop() {
                proof {
                    assert(pairs(rest)[rest.len() - 1] == (e.0@, e.1@));
                    assert(all[taken as int] == (e.0@, e.1@));
                    assert(all.take(taken + 1).drop_last() == all.take(taken as int));
                    assert forall|i: int| 0 <= i < reversed@.len() implies #[trigger] pairs(
                        reversed@,
                    )[i] == all[n - 1 - i] by {
                        assert(pairs(rest)[i] == pairs(reversed@)[i]);
                    }
                }
                self.store(e.0, e.1);
                taken += 1;
            }
        }
        proof {
            assert(all.take(n as int) == all);
        }
        n > 0
    }
}

/// A map after pairs were put into it, in order.
pub open spec fn stored(map: Map<Key, State>, pairs: Seq<(Key, State)>) -> Map<Key, State>
    decreases pairs.len(),
{
    if pairs.len() == 0 {
        map
    } else {
        stored(map, pairs.drop_last()).insert(pairs.last().0, pairs.last().1)
    }
}

/// A preview is queued once: asking again before it is decoded finds it
/// pending and queues nothing, and asking after that finds what was decoded.
pub proof fn law_requested_once(cache: Map<Key, State>, key: Key, state: State)
    ensures
        ({
            let asked = cache.insert(key, State::Pending);
            let decoded = stored(asked, seq![(key, state)]);
            &&& asked.contains_key(key)
            &&& asked[key] == State::Pending
            &&& decoded.contains_key(key)
            &&& decoded[key] == state
        }),
{
    let asked = cache.insert(key, State::Pending);
    let one: Seq<(Key, State)> = seq![(key, state)];
    assert(one.drop_last() =~= Seq::empty());
    assert(stored(asked, one.drop_last()) == asked);
}

} // verus!
