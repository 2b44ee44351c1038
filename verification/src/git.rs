//! What the panels know of a repository.

use vstd::prelude::*;

verus! {

/// The name of a Git object.
#[derive(Clone, Copy, Debug, PartialEq, Eq, Hash, PartialOrd, Ord)]
pub struct Oid {
    pub bytes: [u8; 20],
}

/// A hexadecimal digit.
pub open spec fn hex_digit(d: nat) -> char {
    if d < 10 {
        (48 + d) as char
    } else {
        (87 + d) as char
    }
}

/// Bytes in hexadecimal, two digits each.
pub open spec fn hex(bytes: Seq<u8>) -> Seq<char>
    decreases bytes.len(),
{
    if bytes.len() == 0 {
        Seq::empty()
    } else {
        hex(bytes.drop_last()) + seq![
            hex_digit((bytes.last() / 16) as nat),
            hex_digit((bytes.last() % 16) as nat),
        ]
    }
}

/// Every byte takes two digits.
pub proof fn lemma_hex_len(bytes: Seq<u8>)
    ensures
        hex(bytes).len() == 2 * bytes.len(),
    decreases bytes.len(),
{
    if bytes.len() > 0 {
        lemma_hex_len(bytes.drop_last());
    }
}

pub fn hex_char(d: u8) -> (c: char)
    requires
        d < 16,
    ensures
        c == hex_digit(d as nat),
{
    if d < 10 {
        (48u8 + d) as char
    } else {
        (87u8 + d) as char
    }
}

/// Bytes in hexadecimal, two digits each.
pub fn to_hex(bytes: &[u8]) -> (out: String)
    ensures
        out@ == hex(bytes@),
{
    let mut out: String = String::new();
    let mut i: usize = 0;
    while i < bytes.len()
        invariant
            i <= bytes@.len(),
            out@ == hex(bytes@.take(i as int)),
        decreases bytes.len() - i,
    {
        proof {
            assert(bytes@.take(i + 1).drop_last() == bytes@.take(i as int));
        }
        out.push(hex_char(bytes[i] / 16));
        out.push(hex_char(bytes[i] % 16));
        proof {
            assert(out@ == hex(bytes@.take(i + 1)));
        }
        i += 1;
    }
    proof {
        assert(bytes@.take(bytes@.len() as int) == bytes@);
    }
    out
}

impl Oid {
    /// The name in hexadecimal.
    pub open spec fn text(&self) -> Seq<char> {
        hex(self.bytes@)
    }

    pub fn to_hex(&self) -> (out: String)
        ensures
            out@ == self.text(),
    {
        to_hex(self.bytes.as_slice())
    }

    /// The first seven digits of the name.
    pub fn short(&self) -> (out: String)
        ensures
            out@ == self.text().take(7),
    {
        let full = self.to_hex();
        proof {
            lemma_hex_len(self.bytes@);
        }
        let chars = crate::text::chars_of(full.as_str());
        let out = crate::text::string_of(&chars, 0, 7);
        proof {
            assert(self.text().subrange(0, 7) == self.text().take(7));
        }
        out
    }

    /// Whether two names are the same.
    pub fn same(&self, other: &Oid) -> (r: bool)
        ensures
            r == (self.bytes@ == other.bytes@),
    {
        let mut i: usize = 0;
        while i < 20
            invariant
                i <= 20,
                forall|k: int| 0 <= k < i ==> self.bytes@[k] == other.bytes@[k],
            decreases 20 - i,
        {
            if self.bytes[i] != other.bytes[i] {
                return false;
            }
            i += 1;
        }
        proof {
            assert(self.bytes@ =~= other.bytes@);
        }
        true
    }
}

/// The operation that a repository is in the middle of.
#[derive(Clone, Copy, Debug, PartialEq, Eq, Structural)]
pub enum RepoState {
    Clean,
    Merge,
    Revert,
    RevertSequence,
    CherryPick,
    CherryPickSequence,
    Bisect,
    Rebase,
    RebaseInteractive,
    RebaseMerge,
    ApplyMailbox,
    ApplyMailboxOrRebase,
}

/// Which side of a conflicted file to keep.
#[derive(Clone, Copy, Debug, PartialEq, Eq, Structural)]
pub enum ConflictChoice {
    Ours,
    Theirs,
}

/// One side of a conflicted file.
#[derive(Clone, Debug)]
pub struct ConflictBlob {
    pub oid: Option<Oid>,
    pub size: usize,
    /// The content, where it is text.
    pub text: Option<String>,
}

/// A conflicted file.
#[derive(Clone, Debug)]
pub struct ConflictEntry {
    /// Path below the root of the repository, with `/` between components.
    pub path: String,
    pub ours: Option<ConflictBlob>,
    pub theirs: Option<ConflictBlob>,
    /// The text of the working tree, where it is text.
    pub merged_text: Option<String>,
    pub is_binary: bool,
}

/// How one hunk of a conflicted file is resolved.
#[derive(Clone, Copy, Debug, PartialEq, Eq, Structural)]
pub enum HunkResolution {
    Pending,
    Ours,
    Theirs,
    Both,
    Custom,
}

/// The resolution of one hunk, with the text that was typed for it.
#[derive(Clone, Debug, PartialEq, Eq)]
pub struct HunkResolutionState {
    pub resolution: HunkResolution,
    pub custom_text: String,
}

/// A stretch of a conflicted file.
#[derive(Clone, Debug, PartialEq, Eq)]
pub enum ConflictHunkKind {
    Context(String),
    Conflict { ours: String, theirs: String, ancestor: Option<String> },
}

/// A conflicted file, cut into stretches.
#[derive(Clone, Debug, PartialEq, Eq)]
pub struct ParsedConflict {
    pub chunks: Vec<ConflictHunkKind>,
}

/// How many of the stretches are conflicts.
pub open spec fn count_conflicts(chunks: Seq<ConflictHunkKind>) -> nat
    decreases chunks.len(),
{
    if chunks.len() == 0 {
        0
    } else {
        count_conflicts(chunks.drop_last()) + (if chunks.last() is Conflict {
            1nat
        } else {
            0
        })
    }
}

impl ParsedConflict {
    /// How many conflicts the file holds.
    pub fn conflict_count(&self) -> (n: usize)
        ensures
            n == count_conflicts(self.chunks@),
    {
        let mut n: usize = 0;
        let mut i: usize = 0;
        while i < self.chunks.len()
            invariant
                i <= self.chunks@.len(),
                n <= i,
                n == count_conflicts(self.chunks@.take(i as int)),
            decreases self.chunks.len() - i,
        {
            proof {
                assert(self.chunks@.take(i + 1).drop_last() == self.chunks@.take(i as int));
            }
            if let ConflictHunkKind::Conflict { .. } = &self.chunks[i] {
                n += 1;
            }
            i += 1;
        }
        proof {
            assert(self.chunks@.take(self.chunks@.len() as int) == self.chunks@);
        }
        n
    }
}

/// What a line of a diff is.
#[derive(Clone, Copy, Debug, PartialEq, Eq, Structural)]
pub enum LineKind {
    Context,
    Add,
    Remove,
    Meta,
}

/// A line of a diff.
#[derive(Clone, Debug, PartialEq, Eq)]
pub struct DiffLine {
    pub kind: LineKind,
    pub content: String,
    pub old_lineno: Option<u32>,
    pub new_lineno: Option<u32>,
}

/// A hunk of a diff.
#[derive(Clone, Debug, PartialEq, Eq)]
pub struct Hunk {
    pub header: String,
    pub old_start: u32,
    pub old_lines: u32,
    pub new_start: u32,
    pub new_lines: u32,
    pub lines: Vec<DiffLine>,
}

/// What a diff shows of a file.
#[derive(Clone, Debug, PartialEq, Eq)]
pub enum FileKind {
    Text { hunks: Vec<Hunk>, lines_added: usize, lines_removed: usize, truncated: bool },
    Image { ext: String },
    Binary,
    TooLarge,
}

/// What happened to a file.
#[derive(Clone, Copy, Debug, PartialEq, Eq, Structural)]
pub enum DeltaStatus {
    Added,
    Deleted,
    Modified,
    Renamed,
    Copied,
    Typechange,
    Unmodified,
}

/// The diff of a file.
#[derive(Clone, Debug, PartialEq, Eq)]
pub struct FileDiff {
    pub old_path: Option<String>,
    pub new_path: Option<String>,
    pub status: DeltaStatus,
    pub kind: FileKind,
    pub old_size: usize,
    pub new_size: usize,
    pub old_oid: Option<Oid>,
    pub new_oid: Option<Oid>,
}

/// The diff of a commit, or of several.
#[derive(Clone, Debug, PartialEq, Eq)]
pub struct RepoDiff {
    pub title: String,
    pub commit_oid: Option<Oid>,
    pub commit_parent_oids: Vec<Oid>,
    pub commit_message: Option<String>,
    pub commit_author: Option<String>,
    pub commit_author_email: Option<String>,
    pub commit_author_time: Option<i64>,
    pub files: Vec<FileDiff>,
}

/// What happened to a file of the working tree.
#[derive(Clone, Copy, Debug, PartialEq, Eq, Structural)]
pub enum EntryKind {
    New,
    Modified,
    Deleted,
    Renamed,
    Typechange,
    Untracked,
    Conflicted,
}

/// A changed file of the working tree.
#[derive(Clone, Debug, PartialEq, Eq)]
pub struct StatusEntry {
    pub path: String,
    pub kind: EntryKind,
    pub staged: bool,
    pub unstaged: bool,
    pub conflicted: bool,
}

impl StatusEntry {
    /// The same entry again.
    pub fn duplicate(&self) -> (r: StatusEntry)
        ensures
            r == *self,
    {
        StatusEntry {
            path: self.path.clone(),
            kind: self.kind,
            staged: self.staged,
            unstaged: self.unstaged,
            conflicted: self.conflicted,
        }
    }
}

/// Whether two names that may be missing are the same.
pub open spec fn oid_bytes(oid: Option<Oid>) -> Option<Seq<u8>> {
    match oid {
        Some(o) => Some(o.bytes@),
        None => None,
    }
}

/// Whether two names that may be missing are the same.
pub fn same_oid(a: &Option<Oid>, b: &Option<Oid>) -> (r: bool)
    ensures
        r == (oid_bytes(*a) == oid_bytes(*b)),
{
    match (a, b) {
        (Some(x), Some(y)) => x.same(y),
        (None, None) => true,
        (Some(_), None) => false,
        (None, Some(_)) => false,
    }
}

} // verus!
