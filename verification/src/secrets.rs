//! Tokens and keys, in a file and in memory.
//!
//! Every secret has a key of two texts. The file is a list of entries, which
//! is read and written as a whole; the store keeps what was read or written in
//! memory, so that the file is read once for each secret.

use rand_core::{OsRng, RngCore};
use vstd::prelude::*;

use crate::assoc::{
    assoc, has_distinct_keys, lemma_assoc, lemma_assoc_push, lemma_assoc_remove,
    lemma_assoc_update,
};
use crate::git::{hex, hex_digit, lemma_hex_len, to_hex};
use crate::paths::{changed_extension, join, joined, with_extension};
use crate::providers::types::AccountId;
use crate::text::{opt_view, same};

verus! {

/// The key of a secret.
#[derive(Debug, Clone, PartialEq, Eq, Hash, PartialOrd, Ord)]
pub struct Credential {
    pub service: String,
    pub account: String,
}

impl View for Credential {
    type V = (Seq<char>, Seq<char>);

    open spec fn view(&self) -> (Seq<char>, Seq<char>) {
        (self.service@, self.account@)
    }
}

impl Credential {
    pub fn new(service: &str, account: &str) -> (c: Credential)
        ensures
            c@ == (service@, account@),
    {
        Credential { service: service.to_string(), account: account.to_string() }
    }

    fn copy(&self) -> (c: Credential)
        ensures
            c@ == self@,
    {
        Credential { service: self.service.clone(), account: self.account.clone() }
    }

    /// Whether two keys are the same.
    pub fn same(&self, other: &Credential) -> (r: bool)
        ensures
            r == (self@ == other@),
    {
        same(self.service.as_str(), other.service.as_str()) && same(
            self.account.as_str(),
            other.account.as_str(),
        )
    }
}

/// An entry of the file.
#[derive(Clone)]
pub struct FileEntry {
    pub service: String,
    pub account: String,
    pub value: String,
}

impl View for FileEntry {
    type V = ((Seq<char>, Seq<char>), Seq<char>);

    open spec fn view(&self) -> ((Seq<char>, Seq<char>), Seq<char>) {
        ((self.service@, self.account@), self.value@)
    }
}

/// A key, as it is seen in contracts.
pub type Key = (Seq<char>, Seq<char>);

/// What the file holds.
#[derive(Clone)]
pub struct FileStoreDoc {
    pub warning: String,
    pub entries: Vec<FileEntry>,
}

/// What stands at the head of the file.
pub open spec fn warning_text() -> Seq<char> {
    "mergefox secrets — PLAINTEXT tokens. Anyone with read access to this file can impersonate your Git / AI accounts. Protect it like you would ~/.ssh/id_ed25519."@
}

/// The value of the first entry with a key.
pub open spec fn lookup(entries: Seq<(Key, Seq<char>)>, key: Key) -> Option<Seq<char>>
    decreases entries.len(),
{
    if entries.len() == 0 {
        None
    } else if entries[0].0 == key {
        Some(entries[0].1)
    } else {
        lookup(entries.drop_first(), key)
    }
}

/// The entries without those that have a key.
pub open spec fn without(entries: Seq<(Key, Seq<char>)>, key: Key) -> Seq<(Key, Seq<char>)>
    decreases entries.len(),
{
    if entries.len() == 0 {
        Seq::empty()
    } else if entries[0].0 == key {
        without(entries.drop_first(), key)
    } else {
        seq![entries[0]] + without(entries.drop_first(), key)
    }
}

/// The entries with a value for a key: in place of the first that has the
/// key, or at the end.
pub open spec fn with_value(
    entries: Seq<(Key, Seq<char>)>,
    key: Key,
    value: Seq<char>,
) -> Seq<(Key, Seq<char>)>
    decreases entries.len(),
{
    if entries.len() == 0 {
        seq![(key, value)]
    } else if entries[0].0 == key {
        entries.update(0, (key, value))
    } else {
        seq![entries[0]] + with_value(entries.drop_first(), key, value)
    }
}

/// The entries after a value was written: an empty value takes the key out.
pub open spec fn written(
    entries: Seq<(Key, Seq<char>)>,
    key: Key,
    value: Seq<char>,
) -> Seq<(Key, Seq<char>)> {
    if value.len() == 0 {
        without(entries, key)
    } else {
        with_value(entries, key, value)
    }
}

proof fn lemma_lookup_skip(entries: Seq<(Key, Seq<char>)>, key: Key, i: int)
    requires
        0 <= i <= entries.len(),
        forall|k: int| 0 <= k < i ==> (#[trigger] entries[k]).0 != key,
    ensures
        lookup(entries, key) == lookup(entries.skip(i), key),
    decreases i,
{
    if i > 0 {
        let rest = entries.drop_first();
        assert forall|k: int| 0 <= k < i - 1 implies (#[trigger] rest[k]).0 != key by {
            assert(rest[k] == entries[k + 1]);
        }
        assert(entries[0].0 != key);
        lemma_lookup_skip(rest, key, i - 1);
        assert(rest.skip(i - 1) =~= entries.skip(i));
    } else {
        assert(entries.skip(0) =~= entries);
    }
}

proof fn lemma_with_value_at(entries: Seq<(Key, Seq<char>)>, key: Key, value: Seq<char>, i: int)
    requires
        0 <= i <= entries.len(),
        forall|k: int| 0 <= k < i ==> (#[trigger] entries[k]).0 != key,
        i < entries.len() ==> entries[i].0 == key,
    ensures
        i < entries.len() ==> with_value(entries, key, value) == entries.update(i, (key, value)),
        i == entries.len() ==> with_value(entries, key, value) == entries.push((key, value)),
    decreases entries.len(),
{
    if entries.len() == 0 {
        assert(entries.push((key, value)) =~= seq![(key, value)]);
    } else if i > 0 {
        let rest = entries.drop_first();
        assert forall|k: int| 0 <= k < i - 1 implies (#[trigger] rest[k]).0 != key by {
            assert(rest[k] == entries[k + 1]);
        }
        assert(entries[0].0 != key);
        lemma_with_value_at(rest, key, value, i - 1);
        if i < entries.len() {
            assert(seq![entries[0]] + rest.update(i - 1, (key, value)) =~= entries.update(
                i,
                (key, value),
            ));
        } else {
            assert(seq![entries[0]] + rest.push((key, value)) =~= entries.push((key, value)));
        }
    }
}

/// What was written is read back, an empty value as nothing, and what stands
/// under other keys stays.
pub proof fn law_read_after_write(
    entries: Seq<(Key, Seq<char>)>,
    key: Key,
    value: Seq<char>,
    other: Key,
)
    ensures
        lookup(written(entries, key, value), key) == (if value.len() == 0 {
            None
        } else {
            Some(value)
        }),
        other != key ==> lookup(written(entries, key, value), other) == lookup(entries, other),
    decreases entries.len(),
{
    if value.len() == 0 {
        law_read_after_delete(entries, key, other);
    } else {
        lemma_with_value_lookup(entries, key, value, other);
    }
}

proof fn lemma_with_value_lookup(
    entries: Seq<(Key, Seq<char>)>,
    key: Key,
    value: Seq<char>,
    other: Key,
)
    ensures
        lookup(with_value(entries, key, value), key) == Some(value),
        other != key ==> lookup(with_value(entries, key, value), other) == lookup(entries, other),
    decreases entries.len(),
{
    let after = with_value(entries, key, value);
    if entries.len() == 0 {
        assert(after.drop_first() =~= Seq::empty());
        assert(lookup(after.drop_first(), other) is None);
    } else {
        let rest = entries.drop_first();
        lemma_with_value_lookup(rest, key, value, other);
        if entries[0].0 == key {
            assert(after.drop_first() =~= rest);
        } else {
            assert(after.drop_first() =~= with_value(rest, key, value));
        }
    }
}

/// What was deleted is not read again, and what stands under other keys
/// stays.
pub proof fn law_read_after_delete(entries: Seq<(Key, Seq<char>)>, key: Key, other: Key)
    ensures
        lookup(without(entries, key), key) is None,
        other != key ==> lookup(without(entries, key), other) == lookup(entries, other),
    decreases entries.len(),
{
    if entries.len() > 0 {
        let rest = entries.drop_first();
        law_read_after_delete(rest, key, other);
        if entries[0].0 != key {
            assert(without(entries, key).drop_first() =~= without(rest, key));
        }
    }
}

/// The entries of a file, as they are seen in contracts.
pub open spec fn entry_views(entries: Seq<FileEntry>) -> Seq<(Key, Seq<char>)> {
    entries.map_values(|e: FileEntry| e@)
}

fn has_key(e: &FileEntry, cred: &Credential) -> (r: bool)
    ensures
        r == (e@.0 == cred@),
{
    same(e.service.as_str(), cred.service.as_str()) && same(
        e.account.as_str(),
        cred.account.as_str(),
    )
}

impl FileStoreDoc {
    /// What a file that is not there holds.
    pub fn new() -> (d: FileStoreDoc)
        ensures
            d.warning@ == ""@,
            d.entries@.len() == 0,
    {
        FileStoreDoc { warning: "".to_string(), entries: Vec::new() }
    }

    fn find(&self, cred: &Credential) -> (at: usize)
        ensures
            at <= self.entries@.len(),
            forall|k: int| 0 <= k < at ==> (#[trigger] self.entries@[k])@.0 != cred@,
            at < self.entries@.len() ==> self.entries@[at as int]@.0 == cred@,
    {
        let mut i: usize = 0;
        while i < self.entries.len()
            invariant
                i <= self.entries@.len(),
                forall|k: int| 0 <= k < i ==> (#[trigger] self.entries@[k])@.0 != cred@,
            decreases self.entries.len() - i,
        {
            if has_key(&self.entries[i], cred) {
                return i;
            }
            i += 1;
        }
        i
    }

    /// The secret under a key.
    pub fn read(&self, cred: &Credential) -> (out: Option<String>)
        ensures
            opt_view(out) == lookup(entry_views(self.entries@), cred@),
    {
        let at: usize = self.find(cred);
        proof {
            let list = entry_views(self.entries@);
            assert forall|k: int| 0 <= k < at implies (#[trigger] list[k]).0 != cred@ by {
                assert(self.entries@[k]@.0 != cred@);
            }
            lemma_lookup_skip(list, cred@, at as int);
            if at < self.entries@.len() {
                assert(list.skip(at as int)[0] == self.entries@[at as int]@);
            }
        }
        if at < self.entries.len() {
            Some(self.entries[at].value.clone())
        } else {
            None
        }
    }

    fn drop_key(&mut self, cred: &Credential) -> (dropped: bool)
        ensures
            final(self).warning == old(self).warning,
            entry_views(final(self).entries@) == without(entry_views(old(self).entries@), cred@),
            dropped == (final(self).entries@.len() != old(self).entries@.len()),
    {
        let mut kept: Vec<FileEntry> = Vec::new();
        let mut i: usize = 0;
        let ghost list = entry_views(self.entries@);
        proof {
            assert(list.skip(0) =~= list);
            assert(entry_views(kept@) + without(list, cred@) =~= without(list, cred@));
        }
        while i < self.entries.len()
            invariant
                i <= self.entries@.len(),
                list == entry_views(self.entries@),
                kept@.len() <= i,
                without(list, cred@) == entry_views(kept@) + without(
                    list.skip(i as int),
                    cred@,
                ),
            decreases self.entries.len() - i,
        {
            let ghost rest = list.skip(i as int);
            let ghost before = kept@;
            proof {
                assert(rest.drop_first() =~= list.skip(i + 1));
                assert(rest[0] == self.entries@[i as int]@);
            }
            if !has_key(&self.entries[i], cred) {
                let e = &self.entries[i];
                kept.push(
                    FileEntry {
                        service: e.service.clone(),
                        account: e.account.clone(),
                        value: e.value.clone(),
                    },
                );
                proof {
                    assert(entry_views(kept@) =~= entry_views(before).push(rest[0]));
                    assert(entry_views(before) + (seq![rest[0]] + without(
                        rest.drop_first(),
                        cred@,
                    )) =~= entry_views(kept@) + without(list.skip(i + 1), cred@));
                }
            }
            i += 1;
        }
        proof {
            assert(without(list.skip(i as int), cred@) =~= Seq::empty());
            assert(entry_views(kept@) =~= without(list, cred@));
        }
        let dropped = kept.len() != self.entries.len();
        self.entries = kept;
        dropped
    }

    /// Puts a secret under a key. An empty one takes the key out.
    pub fn write(&mut self, cred: &Credential, value: &str)
        ensures
            final(self).warning@ == warning_text(),
            entry_views(final(self).entries@) == written(
                entry_views(old(self).entries@),
                cred@,
                value@,
            ),
    {
        self.warning =
        "mergefox secrets — PLAINTEXT tokens. Anyone with read access to this file can impersonate your Git / AI accounts. Protect it like you would ~/.ssh/id_ed25519.".to_string();
        if value.is_empty() {
            self.drop_key(cred);
            return ;
        }
        let at: usize = self.find(cred);
        let ghost list = entry_views(self.entries@);
        proof {
            assert forall|k: int| 0 <= k < at implies (#[trigger] list[k]).0 != cred@ by {
                assert(self.entries@[k]@.0 != cred@);
            }
            lemma_with_value_at(list, cred@, value@, at as int);
        }
        let entry = FileEntry {
            service: cred.service.clone(),
            account: cred.account.clone(),
            value: value.to_string(),
        };
        if at < self.entries.len() {
            self.entries.set(at, entry);
            proof {
                assert(entry_views(self.entries@) =~= list.update(at as int, (cred@, value@)));
            }
        } else {
            self.entries.push(entry);
            proof {
                assert(entry_views(self.entries@) =~= list.push((cred@, value@)));
            }
        }
    }

    /// Takes a key out, and says whether it was there.
    pub fn delete(&mut self, cred: &Credential) -> (changed: bool)
        ensures
            final(self).warning == old(self).warning,
            entry_views(final(self).entries@) == without(entry_views(old(self).entries@), cred@),
            changed == (lookup(entry_views(old(self).entries@), cred@) is Some),
    {
        proof {
            lemma_without_len(entry_views(self.entries@), cred@);
        }
        self.drop_key(cred)
    }
}

proof fn lemma_without_len(entries: Seq<(Key, Seq<char>)>, key: Key)
    ensures
        without(entries, key).len() <= entries.len(),
        without(entries, key).len() == entries.len() <==> lookup(entries, key) is None,
    decreases entries.len(),
{
    if entries.len() > 0 {
        lemma_without_len(entries.drop_first(), key);
    }
}

/// Why a secret could not be read or kept.
#[derive(Debug, Clone)]
pub enum StoreError {
    /// No store was set up.
    NotInitialised,
    Read { path: String },
    Parse { path: String },
    Write { path: String },
    Rename { from: String, to: String },
    /// The system has no random numbers.
    NoRandomness,
}

/// An error in words.
pub open spec fn store_error_text(e: StoreError) -> Seq<char> {
    match e {
        StoreError::NotInitialised => "secret store not yet initialised (programmer error)"@,
        StoreError::Read { path } => "read "@ + path@,
        StoreError::Parse { path } => "parse "@ + path@,
        StoreError::Write { path } => "write "@ + path@,
        StoreError::Rename { from, to } => "rename "@ + from@ + " -> "@ + to@,
        StoreError::NoRandomness => "no random numbers"@,
    }
}

fn with(start: &str, rest: &str) -> (out: String)
    ensures
        out@ == start@ + rest@,
{
    let mut out: String = start.to_string();
    out.append(rest);
    out
}

impl StoreError {
    /// The error in words.
    pub fn message(&self) -> (out: String)
        ensures
            out@ == store_error_text(*self),
    {
        match self {
            StoreError::NotInitialised => "secret store not yet initialised (programmer error)".to_string(),
            StoreError::Read { path } => with("read ", path.as_str()),
            StoreError::Parse { path } => with("parse ", path.as_str()),
            StoreError::Write { path } => with("write ", path.as_str()),
            StoreError::Rename { from, to } => {
                let mut out = with("rename ", from.as_str());
                out.append(" -> ");
                out.append(to.as_str());
                out
            },
            StoreError::NoRandomness => "no random numbers".to_string(),
        }
    }
}

/// The secrets that were read or written, in memory.
pub struct SecretStore {
    cache: Vec<(Credential, String)>,
}

impl SecretStore {
    spec fn pairs(self) -> Seq<(Key, Seq<char>)> {
        self.cache@.map_values(|p: (Credential, String)| (p.0@, p.1@))
    }

    /// Whether no key is kept twice.
    pub closed spec fn wf(self) -> bool {
        has_distinct_keys(self.pairs())
    }
}

impl View for SecretStore {
    type V = Map<Key, Seq<char>>;

    closed spec fn view(&self) -> Map<Key, Seq<char>> {
        assoc(self.pairs())
    }
}

/// What a map holds under a key, or nothing.
pub open spec fn held(m: Map<Key, Seq<char>>, key: Key) -> Option<Seq<char>> {
    if m.contains_key(key) {
        Some(m[key])
    } else {
        None
    }
}

impl SecretStore {
    /// A store that has read nothing yet.
    pub fn new() -> (s: SecretStore)
        ensures
            s.wf(),
            s@ == Map::<Key, Seq<char>>::empty(),
    {
        SecretStore { cache: Vec::new() }
    }

    fn position(&self, cred: &Credential) -> (at: usize)
        requires
            self.wf(),
        ensures
            at <= self.cache@.len(),
            at < self.cache@.len() ==> self.pairs()[at as int].0 == cred@ && self@.contains_key(cred@)
                && self@[cred@] == self.cache@[at as int].1@,
            at == self.cache@.len() ==> !self@.contains_key(cred@) && forall|k: int|
                0 <= k < at ==> (#[trigger] self.pairs()[k]).0 != cred@,
    {
        proof {
            lemma_assoc(self.pairs());
        }
        let mut i: usize = 0;
        while i < self.cache.len()
            invariant
                i <= self.cache@.len(),
                self.pairs().len() == self.cache@.len(),
                forall|k: int|
                    0 <= k < self.pairs().len() ==> assoc(self.pairs()).contains_key(
                        (#[trigger] self.pairs()[k]).0,
                    ) && assoc(self.pairs())[self.pairs()[k].0] == self.pairs()[k].1,
                forall|k: int| 0 <= k < i ==> (#[trigger] self.pairs()[k]).0 != cred@,
            decreases self.cache.len() - i,
        {
            if self.cache[i].0.same(cred) {
                proof {
                    assert(self.pairs()[i as int] == (
                        self.cache@[i as int].0@,
                        self.cache@[i as int].1@,
                    ));
                }
                return i;
            }
            i += 1;
        }
        i
    }

    fn put(&mut self, cred: &Credential, value: &str)
        requires
            old(self).wf(),
        ensures
            final(self).wf(),
            final(self)@ == old(self)@.insert(cred@, value@),
    {
        let at: usize = self.position(cred);
        let ghost before = self.pairs();
        if at < self.cache.len() {
            proof {
                lemma_assoc_update(before, at as int, value@);
            }
            self.cache.set(at, (cred.copy(), value.to_string()));
            proof {
                assert(self.pairs() =~= before.update(at as int, (before[at as int].0, value@)));
            }
        } else {
            proof {
                lemma_assoc_push(before, cred@, value@);
            }
            self.cache.push((cred.copy(), value.to_string()));
            proof {
                assert(self.pairs() =~= before.push((cred@, value@)));
            }
        }
    }

    fn forget(&mut self, cred: &Credential)
        requires
            old(self).wf(),
        ensures
            final(self).wf(),
            final(self)@ == old(self)@.remove(cred@),
    {
        let at: usize = self.position(cred);
        let ghost before = self.pairs();
        if at < self.cache.len() {
            proof {
                lemma_assoc_remove(before, at as int);
            }
            self.cache.remove(at);
            proof {
                assert(self.pairs() =~= before.remove(at as int));
            }
        } else {
            proof {
                assert(self@.remove(cred@) =~= self@);
            }
        }
    }

    /// The secret under a key, if it is in memory.
    pub fn cached(&self, cred: &Credential) -> (out: Option<String>)
        requires
            self.wf(),
        ensures
            opt_view(out) == held(self@, cred@),
    {
        let at: usize = self.position(cred);
        if at < self.cache.len() {
            Some(self.cache[at].1.clone())
        } else {
            None
        }
    }

    /// The secret under a key: from memory, or else from the file. What comes
    /// from the file is kept in memory.
    pub fn load(&mut self, cred: &Credential, file: &FileStoreDoc) -> (out: Option<String>)
        requires
            old(self).wf(),
        ensures
            final(self).wf(),
            opt_view(out) == (if old(self)@.contains_key(cred@) {
                Some(old(self)@[cred@])
            } else {
                lookup(entry_views(file.entries@), cred@)
            }),
            final(self)@ == (match opt_view(out) {
                Some(value) => old(self)@.insert(cred@, value),
                None => old(self)@,
            }),
    {
        if let Some(value) = self.cached(cred) {
            proof {
                assert(self@.insert(cred@, value@) =~= self@);
            }
            return Some(value);
        }
        let loaded = file.read(cred);
        if let Some(value) = &loaded {
            self.put(cred, value.as_str());
        }
        loaded
    }

    /// Keeps a secret in memory once it was written to the file. If that
    /// failed, memory stays as it was.
    pub fn save(
        &mut self,
        cred: &Credential,
        value: &str,
        outcome: Result<(), StoreError>,
    ) -> (r: Result<(), StoreError>)
        requires
            old(self).wf(),
        ensures
            final(self).wf(),
            r == outcome,
            final(self)@ == (if outcome is Ok {
                old(self)@.insert(cred@, value@)
            } else {
                old(self)@
            }),
    {
        if outcome.is_ok() {
            self.put(cred, value);
        }
        outcome
    }

    /// Takes a secret out of memory once it was taken out of the file. If
    /// that failed, memory stays as it was.
    pub fn delete(&mut self, cred: &Credential, outcome: Result<(), StoreError>) -> (r: Result<
        (),
        StoreError,
    >)
        requires
            old(self).wf(),
        ensures
            final(self).wf(),
            r == outcome,
            final(self)@ == (if outcome is Ok {
                old(self)@.remove(cred@)
            } else {
                old(self)@
            }),
    {
        if outcome.is_ok() {
            self.forget(cred);
        }
        outcome
    }

    /// The key of an AI endpoint. Where there is none, it is empty.
    pub fn load_api_key(
        &mut self,
        service: &str,
        endpoint_name: &str,
        file: &FileStoreDoc,
    ) -> (out: String)
        requires
            old(self).wf(),
        ensures
            final(self).wf(),
            ({
                let key = (service@, endpoint_name@);
                let loaded = if old(self)@.contains_key(key) {
                    Some(old(self)@[key])
                } else {
                    lookup(entry_views(file.entries@), key)
                };
                match loaded {
                    Some(value) => out@ == value && final(self)@ == old(self)@.insert(key, value),
                    None => out@ == ""@ && final(self)@ == old(self)@,
                }
            }),
    {
        match self.load(&Credential::new(service, endpoint_name), file) {
            Some(value) => value,
            None => "".to_string(),
        }
    }

    /// Keeps the key of an AI endpoint once it was written to the file.
    pub fn save_api_key(
        &mut self,
        service: &str,
        endpoint_name: &str,
        key: &str,
        outcome: Result<(), StoreError>,
    ) -> (r: Result<(), StoreError>)
        requires
            old(self).wf(),
        ensures
            final(self).wf(),
            r == outcome,
            final(self)@ == (if outcome is Ok {
                old(self)@.insert((service@, endpoint_name@), key@)
            } else {
                old(self)@
            }),
    {
        self.save(&Credential::new(service, endpoint_name), key, outcome)
    }

    /// Takes the key of an AI endpoint out of memory once it was taken out of
    /// the file.
    pub fn delete_api_key(
        &mut self,
        service: &str,
        endpoint_name: &str,
        outcome: Result<(), StoreError>,
    ) -> (r: Result<(), StoreError>)
        requires
            old(self).wf(),
        ensures
            final(self).wf(),
            r == outcome,
            final(self)@ == (if outcome is Ok {
                old(self)@.remove((service@, endpoint_name@))
            } else {
                old(self)@
            }),
    {
        self.delete(&Credential::new(service, endpoint_name), outcome)
    }

    /// The session token of the MCP server: from memory, or else from the
    /// file, or else a new one. A new one is to be written to the file, and
    /// then handed to `finish_mcp_token`.
    pub fn load_or_generate_mcp_token(&mut self, file: &FileStoreDoc) -> (r: Result<
        (String, bool),
        StoreError,
    >)
        requires
            old(self).wf(),
        ensures
            final(self).wf(),
            ({
                let kept = if old(self)@.contains_key(mcp_key()) {
                    Some(old(self)@[mcp_key()])
                } else {
                    lookup(entry_views(file.entries@), mcp_key())
                };
                match kept {
                    Some(token) => {
                        &&& r matches Ok(out)
                        &&& out.0@ == token
                        &&& !out.1
                        &&& final(self)@ == old(self)@.insert(mcp_key(), token)
                    },
                    None => {
                        &&& final(self)@ == old(self)@
                        &&& match r {
                            Ok(out) => out.0@.len() == 64 && is_url_safe(out.0@) && out.1,
                            Err(e) => e == StoreError::NoRandomness,
                        }
                    },
                }
            }),
    {
        let kept = self.load(&mcp_credential(), file);
        mcp_token_or_new(kept)
    }

    /// Keeps a new session token once it was written to the file, and hands it
    /// out.
    pub fn finish_mcp_token(&mut self, token: String, outcome: Result<(), StoreError>) -> (r: Result<
        String,
        StoreError,
    >)
        requires
            old(self).wf(),
        ensures
            final(self).wf(),
            match outcome {
                Ok(_) => r == Ok::<String, StoreError>(token) && final(self)@ == old(self)@.insert(
                    mcp_key(),
                    token@,
                ),
                Err(e) => r == Err::<String, StoreError>(e) && final(self)@ == old(self)@,
            },
    {
        match self.save(&mcp_credential(), token.as_str(), outcome) {
            Ok(()) => Ok(token),
            Err(e) => Err(e),
        }
    }

    /// Takes the session token out of memory once it was taken out of the
    /// file.
    pub fn delete_mcp_token(&mut self, outcome: Result<(), StoreError>) -> (r: Result<
        (),
        StoreError,
    >)
        requires
            old(self).wf(),
        ensures
            final(self).wf(),
            r == outcome,
            final(self)@ == (if outcome is Ok {
                old(self)@.remove(mcp_key())
            } else {
                old(self)@
            }),
    {
        self.delete(&mcp_credential(), outcome)
    }
}

/// The key of the session token of the MCP server.
pub open spec fn mcp_key() -> Key {
    ("mergefox-mcp"@, "session-token"@)
}

/// What was saved is loaded again, whatever the file holds, and what is kept
/// under other keys stays.
pub proof fn law_load_after_save(before: Map<Key, Seq<char>>, key: Key, value: Seq<char>, other: Key)
    ensures
        held(before.insert(key, value), key) == Some(value),
        other != key ==> held(before.insert(key, value), other) == held(before, other),
{
}

/// What was deleted from the file and from memory is not loaded again, and
/// what is kept under other keys stays.
pub proof fn law_load_after_delete(
    before: Map<Key, Seq<char>>,
    entries: Seq<(Key, Seq<char>)>,
    key: Key,
    other: Key,
)
    ensures
        held(before.remove(key), key) is None,
        lookup(without(entries, key), key) is None,
        other != key ==> held(before.remove(key), other) == held(before, other) && lookup(
            without(entries, key),
            other,
        ) == lookup(entries, other),
{
    law_read_after_delete(entries, key, other);
}

/// The key of an account's token.
pub fn pat_credential(account: &AccountId) -> (c: Credential)
    ensures
        c@ == (account.service(), account.user()),
{
    Credential { service: account.keyring_service(), account: account.keyring_user() }
}

/// The key of the session token of the MCP server.
pub fn mcp_credential() -> (c: Credential)
    ensures
        c@ == mcp_key(),
{
    Credential::new("mergefox-mcp", "session-token")
}

/// Random bytes of the system: `OsRng::try_fill_bytes` on 32 bytes. Which they
/// are is left to chance, and the system may have none to give.
#[verifier::external_body]
pub(crate) fn random_bytes() -> (r: Option<[u8; 32]>) {
    let mut bytes = [0u8; 32];
    match OsRng.try_fill_bytes(&mut bytes) {
        Ok(()) => Some(bytes),
        Err(_) => None,
    }
}

/// Whether a text is made of digits that need no escape in an address.
pub open spec fn is_url_safe(text: Seq<char>) -> bool {
    forall|i: int| 0 <= i < text.len() ==> is_token_char(#[trigger] text[i])
}

/// Whether a character is a hexadecimal digit in lower case.
pub open spec fn is_token_char(c: char) -> bool {
    ('0' <= c && c <= '9') || ('a' <= c && c <= 'f')
}

proof fn lemma_hex_url_safe(bytes: Seq<u8>)
    ensures
        is_url_safe(hex(bytes)),
    decreases bytes.len(),
{
    if bytes.len() > 0 {
        lemma_hex_url_safe(bytes.drop_last());
        let b = bytes.last();
        lemma_digit_char((b / 16) as nat);
        lemma_digit_char((b % 16) as nat);
    }
}

proof fn lemma_digit_char(d: nat)
    requires
        d < 16,
    ensures
        is_token_char(hex_digit(d)),
{
}

/// The token that some bytes stand for.
pub fn token_of(bytes: &[u8]) -> (out: String)
    ensures
        out@ == hex(bytes@),
        out@.len() == 2 * bytes@.len(),
        is_url_safe(out@),
{
    proof {
        lemma_hex_url_safe(bytes@);
        lemma_hex_len(bytes@);
    }
    to_hex(bytes)
}

/// A new session token: 32 random bytes in hexadecimal.
pub fn generate_mcp_token() -> (r: Result<String, StoreError>)
    ensures
        r matches Ok(token) ==> token@.len() == 64 && is_url_safe(token@),
        r matches Err(e) ==> e == StoreError::NoRandomness,
{
    match random_bytes() {
        Some(bytes) => Ok(token_of(bytes.as_slice())),
        None => Err(StoreError::NoRandomness),
    }
}

/// The session token: the one that is kept, or else a new one, which is then
/// to be kept.
pub fn mcp_token_or_new(kept: Option<String>) -> (r: Result<(String, bool), StoreError>)
    ensures
        kept matches Some(token) ==> r == Ok::<(String, bool), StoreError>((token, false)),
        kept is None ==> match r {
            Ok(p) => p.0@.len() == 64 && is_url_safe(p.0@) && p.1,
            Err(e) => e == StoreError::NoRandomness,
        },
{
    match kept {
        Some(token) => Ok((token, false)),
        None => match generate_mcp_token() {
            Ok(token) => Ok((token, true)),
            Err(e) => Err(e),
        },
    }
}

/// The file that is written first and then takes the place of the file of
/// secrets, so that readers never see half of it.
pub fn temporary_path(path: &str) -> (out: String)
    ensures
        out@ == changed_extension(path@, "json.tmp"@),
{
    with_extension(path, "json.tmp")
}

/// The file in the directory of settings, or in the current one.
pub fn file_path(config_dir: Option<&str>) -> (out: String)
    ensures
        out@ == (match config_dir {
            Some(dir) => joined(joined(dir@, "mergefox"@), "secrets.json"@),
            None => "secrets.json"@,
        }),
{
    match config_dir {
        Some(dir) => join(join(dir, "mergefox").as_str(), "secrets.json"),
        None => "secrets.json".to_string(),
    }
}

} // verus!
