//! Searching the working tree and the messages of commits, and replacing what
//! was ticked.

use vstd::prelude::*;

use crate::git::Oid;
use crate::path_order::{
    is_before, law_keys_are_distinct, law_keys_are_ordered, order_key, order_key_of,
};
use crate::path_set::PathSet;
use crate::paths::{components, plain};
use crate::text::{
    bytes_of, bytes_of_char, chars_of, decimal, digits, pad_start, padded, string_of, text_bytes,
    views,
};
use crate::text_set::TextSet;
use crate::ui::conflicts::{plural, plural_ending};
use crate::ui::file_groups::{
    group_by_key, holds, is_group, is_grouping, is_listed, less, DirGroup,
};

verus! {

/// A hit in a file. Where it stands in its line is counted in bytes.
#[derive(Debug, Clone)]
pub struct WorkingTreeMatch {
    pub path: String,
    pub line_number: usize,
    pub line: String,
    pub match_start: usize,
    pub match_end: usize,
}

/// A hit in the message of a commit.
#[derive(Debug, Clone)]
pub struct CommitMatch {
    pub oid: Oid,
    pub subject: String,
    pub subject_hit: bool,
    pub body_hit: bool,
}

/// The state of the search window.
pub struct FindFixModalState {
    pub pattern: String,
    pub replacement: String,
    pub include_working_tree: bool,
    pub include_commit_messages: bool,
    /// How many commits are searched.
    pub commit_history_limit: usize,
    pub working_tree_results: Vec<WorkingTreeMatch>,
    pub commit_results: Vec<CommitMatch>,
    /// The files that are ticked. All hits of a file are replaced, or none.
    pub selected_paths: PathSet,
    /// The commits that are ticked, by their full names.
    pub selected_commits: TextSet,
    pub last_scan_error: Option<String>,
    pub scan_busy: bool,
    pub apply_busy: bool,
    /// Whether a search was ever finished.
    pub scanned_at_least_once: bool,
}

impl FindFixModalState {
    /// Whether no file and no commit is ticked twice.
    pub open spec fn wf(self) -> bool {
        self.selected_paths.wf() && self.selected_commits.wf()
    }

    /// A window in which nothing was typed yet.
    pub fn new() -> (s: FindFixModalState)
        ensures
            s.wf(),
            s.pattern@ == ""@,
            s.replacement@ == ""@,
            s.include_working_tree,
            s.include_commit_messages,
            s.commit_history_limit == 1000,
            s.working_tree_results@.len() == 0,
            s.commit_results@.len() == 0,
            s.selected_paths@ == Set::<Seq<char>>::empty(),
            s.selected_commits@ == Set::<Seq<char>>::empty(),
            s.last_scan_error is None,
            !s.scan_busy,
            !s.apply_busy,
            !s.scanned_at_least_once,
    {
        FindFixModalState {
            pattern: "".to_string(),
            replacement: "".to_string(),
            include_working_tree: true,
            include_commit_messages: true,
            commit_history_limit: 1000,
            working_tree_results: Vec::new(),
            commit_results: Vec::new(),
            selected_paths: PathSet::new(),
            selected_commits: TextSet::new(),
            last_scan_error: None,
            scan_busy: false,
            apply_busy: false,
            scanned_at_least_once: false,
        }
    }

    /// Whether a search can start: with something to look for, somewhere to
    /// look, and nothing under way.
    pub fn can_scan(&self) -> (r: bool)
        ensures
            r == (self.pattern@.len() > 0 && !self.scan_busy && !self.apply_busy && (
            self.include_working_tree || self.include_commit_messages)),
    {
        !self.pattern.as_str().is_empty() && !self.scan_busy && !self.apply_busy && (
        self.include_working_tree || self.include_commit_messages)
    }

    /// What the search button says.
    pub fn scan_label(&self) -> (r: &'static str)
        ensures
            r@ == (if self.scan_busy {
                "Scanning…"@
            } else {
                "Search"@
            }),
    {
        if self.scan_busy {
            "Scanning…"
        } else {
            "Search"
        }
    }

    /// How many files and commits are ticked.
    pub fn selected_count(&self) -> (n: usize)
        requires
            self.wf(),
            self.selected_paths@.len() + self.selected_commits@.len() <= usize::MAX,
        ensures
            n == self.selected_paths@.len() + self.selected_commits@.len(),
    {
        let a: usize = self.selected_paths.len();
        let b: usize = self.selected_commits.len();
        a + b
    }

    /// Whether what is ticked can be replaced.
    pub fn can_apply(&self) -> (r: bool)
        requires
            self.wf(),
            self.selected_paths@.len() + self.selected_commits@.len() <= usize::MAX,
        ensures
            r == (self.selected_paths@.len() + self.selected_commits@.len() > 0 && !self.apply_busy
                && !self.scan_busy && self.pattern@.len() > 0),
    {
        self.selected_count() > 0 && !self.apply_busy && !self.scan_busy && !self.pattern.as_str().is_empty()
    }

    /// What the button that replaces says.
    pub fn apply_label(&self) -> (out: String)
        requires
            self.wf(),
            self.selected_paths@.len() + self.selected_commits@.len() <= usize::MAX,
        ensures
            out@ == (if self.apply_busy {
                "Applying…"@
            } else if self.selected_paths@.len() + self.selected_commits@.len() == 0 {
                "Apply"@
            } else {
                "Apply ("@ + digits(self.selected_paths@.len() + self.selected_commits@.len()) + ")"@
            }),
    {
        let n: usize = self.selected_count();
        if self.apply_busy {
            "Applying…".to_string()
        } else if n == 0 {
            "Apply".to_string()
        } else {
            let mut out: String = "Apply (".to_string();
            out.append(decimal(n as u64).as_str());
            out.append(")");
            out
        }
    }

    /// What stands in place of the hits, if there are none.
    pub fn empty_text(&self) -> (r: Option<&'static str>)
        ensures
            self.working_tree_results@.len() > 0 || self.commit_results@.len() > 0 ==> r is None,
            self.working_tree_results@.len() == 0 && self.commit_results@.len() == 0 ==> (r matches Some(
                text,
            ) && text@ == (if self.scanned_at_least_once {
                "No matches."@
            } else {
                "Type a search term and press Search to scan."@
            })),
    {
        if self.working_tree_results.len() > 0 || self.commit_results.len() > 0 {
            None
        } else if self.scanned_at_least_once {
            Some("No matches.")
        } else {
            Some("Type a search term and press Search to scan.")
        }
    }

    /// How many hits there are, in words, if there are any.
    pub fn hits_text(&self) -> (out: Option<String>)
        ensures
            out is None <==> self.working_tree_results@.len() + self.commit_results@.len() == 0,
            out matches Some(text) ==> text@ == digits(self.working_tree_results@.len())
                + " file hit"@ + plural(self.working_tree_results@.len()) + " · "@ + digits(
                self.commit_results@.len(),
            ) + " commit hit"@ + plural(self.commit_results@.len()),
    {
        let files: usize = self.working_tree_results.len();
        let commits: usize = self.commit_results.len();
        if files == 0 && commits == 0 {
            return None;
        }
        let mut out: String = decimal(files as u64);
        out.append(" file hit");
        out.append(plural_ending(files));
        out.append(" · ");
        out.append(decimal(commits as u64).as_str());
        out.append(" commit hit");
        out.append(plural_ending(commits));
        Some(out)
    }

    /// Ticks a file, or takes its tick away.
    pub fn tick_path(&mut self, path: &str, ticked: bool)
        requires
            old(self).wf(),
        ensures
            final(self).wf(),
            final(self).selected_paths@ == (if ticked {
                old(self).selected_paths@.insert(plain(path@))
            } else {
                old(self).selected_paths@.remove(plain(path@))
            }),
            *final(self) == (FindFixModalState {
                selected_paths: final(self).selected_paths,
                ..*old(self)
            }),
    {
        if ticked {
            self.selected_paths.insert(path);
        } else {
            self.selected_paths.remove(path);
        }
    }

    /// Ticks a commit, or takes its tick away.
    pub fn tick_commit(&mut self, oid: &Oid, ticked: bool)
        requires
            old(self).wf(),
        ensures
            final(self).wf(),
            final(self).selected_commits@ == (if ticked {
                old(self).selected_commits@.insert(oid.text())
            } else {
                old(self).selected_commits@.remove(oid.text())
            }),
            *final(self) == (FindFixModalState {
                selected_commits: final(self).selected_commits,
                ..*old(self)
            }),
    {
        if ticked {
            self.selected_commits.insert(oid.to_hex().as_str());
        } else {
            self.selected_commits.remove(oid.to_hex().as_str());
        }
    }

    /// Whether a file is ticked.
    pub fn is_path_ticked(&self, path: &str) -> (r: bool)
        ensures
            r == self.selected_paths@.contains(plain(path@)),
    {
        self.selected_paths.contains(path)
    }

    /// Whether a commit is ticked.
    pub fn is_commit_ticked(&self, oid: &Oid) -> (r: bool)
        ensures
            r == self.selected_commits@.contains(oid.text()),
    {
        self.selected_commits.contains(oid.to_hex().as_str())
    }
}

/// A number of hits under a name.
pub open spec fn hits_of(name: Seq<char>, n: nat) -> Seq<char> {
    name + " — "@ + digits(n) + " hit"@ + plural(n)
}

/// The heading of a number of hits: those of the working tree, of commit
/// messages, or of a file.
pub fn hits_heading(name: &str, n: usize) -> (out: String)
    ensures
        out@ == hits_of(name@, n as nat),
{
    let mut out: String = name.to_string();
    out.append(" — ");
    out.append(decimal(n as u64).as_str());
    out.append(" hit");
    out.append(plural_ending(n));
    out
}

/// The keys of the hits, by which their files are ordered.
pub open spec fn hit_keys(hits: Seq<WorkingTreeMatch>) -> Seq<Seq<char>> {
    hits.map_values(|h: WorkingTreeMatch| order_key(components(h.path@)))
}

/// The hits of a file, by their positions in the list.
#[derive(Debug, Clone, PartialEq, Eq)]
pub struct FileHits {
    pub path: String,
    pub hits: Vec<usize>,
}

/// Whether a group holds hits of one file, in order, under the path of the
/// first.
pub open spec fn is_file_group(hits: Seq<WorkingTreeMatch>, g: FileHits) -> bool {
    &&& g.hits@.len() > 0
    &&& g.hits@[0] < hits.len()
    &&& g.path@ == hits[g.hits@[0] as int].path@
    &&& forall|k: int|
        0 <= k < g.hits@.len() ==> (#[trigger] g.hits@[k]) < hits.len() && components(
            hits[g.hits@[k] as int].path@,
        ) == components(g.path@)
    &&& forall|j: int, k: int|
        0 <= j < k < g.hits@.len() ==> (#[trigger] g.hits@[j]) < (#[trigger] g.hits@[k])
}

/// Whether a group holds the hit `i`.
pub open spec fn has_hit(g: FileHits, i: int) -> bool {
    exists|k: int| 0 <= k < g.hits@.len() && #[trigger] g.hits@[k] == i
}

/// Whether one of the groups holds the hit `i`.
pub open spec fn is_grouped(groups: Seq<FileHits>, i: int) -> bool {
    exists|g: int| 0 <= g < groups.len() && #[trigger] has_hit(groups[g], i)
}

/// Whether groups are the hits by their files: the files in order, each of
/// them once, and every hit under its own.
pub open spec fn is_by_file(hits: Seq<WorkingTreeMatch>, groups: Seq<FileHits>) -> bool {
    &&& forall|i: int| 0 <= i < groups.len() ==> is_file_group(hits, #[trigger] groups[i])
    &&& forall|i: int, j: int|
        0 <= i < j < groups.len() ==> is_before(
            components((#[trigger] groups[i]).path@),
            components((#[trigger] groups[j]).path@),
        )
    &&& forall|i: int| 0 <= i < hits.len() ==> #[trigger] is_grouped(groups, i)
}

proof fn lemma_by_file(
    hits: Seq<WorkingTreeMatch>,
    groups: Seq<DirGroup>,
    out: Seq<FileHits>,
)
    requires
        is_grouping(hit_keys(hits), groups),
        out.len() == groups.len(),
        forall|i: int| 0 <= i < out.len() ==> (#[trigger] out[i]).hits@ == groups[i].files@,
        forall|i: int|
            0 <= i < out.len() ==> (#[trigger] out[i]).path@ == hits[groups[i].files@[0] as int].path@,
    ensures
        is_by_file(hits, out),
{
    let keys = hit_keys(hits);
    assert forall|i: int| 0 <= i < out.len() implies is_file_group(hits, #[trigger] out[i])
        && groups[i].dir@ == order_key(components(out[i].path@)) by {
        let g = groups[i];
        assert(is_group(keys, g));
        let first = g.files@[0];
        assert(keys[first as int] == order_key(components(out[i].path@)));
        assert forall|k: int| 0 <= k < out[i].hits@.len() implies (#[trigger] out[i].hits@[k])
            < hits.len() && components(hits[out[i].hits@[k] as int].path@) == components(
            out[i].path@,
        ) by {
            let at = g.files@[k];
            assert(keys[at as int] == order_key(components(hits[at as int].path@)));
            law_keys_are_distinct(
                components(hits[at as int].path@),
                components(out[i].path@),
            );
        }
    }
    assert forall|i: int, j: int| 0 <= i < j < out.len() implies is_before(
        components((#[trigger] out[i]).path@),
        components((#[trigger] out[j]).path@),
    ) by {
        assert(less(groups[i].dir@, groups[j].dir@));
        law_keys_are_ordered(components(out[i].path@), components(out[j].path@));
    }
    assert forall|i: int| 0 <= i < hits.len() implies #[trigger] is_grouped(out, i) by {
        assert(is_listed(groups, i));
        let g = choose|g: int| 0 <= g < groups.len() && #[trigger] holds(groups[g], i);
        let k = choose|k: int| 0 <= k < groups[g].files@.len() && #[trigger] groups[g].files@[k] == i;
        assert(out[g].hits@[k] == i);
        assert(has_hit(out[g], i));
    }
}

/// Groups the hits by their files.
pub fn group_hits(hits: &[WorkingTreeMatch]) -> (out: Vec<FileHits>)
    ensures
        is_by_file(hits@, out@),
{
    let mut keys: Vec<String> = Vec::new();
    let mut i: usize = 0;
    while i < hits.len()
        invariant
            i <= hits@.len(),
            views(keys@) =~= hit_keys(hits@).take(i as int),
        decreases hits.len() - i,
    {
        let ghost before = keys@;
        let key = order_key_of(hits[i].path.as_str());
        keys.push(key);
        proof {
            assert(views(keys@) =~= views(before).push(key@));
        }
        i += 1;
    }
    proof {
        assert(views(keys@) =~= hit_keys(hits@));
    }
    let groups = group_by_key(keys.as_slice());
    let mut out: Vec<FileHits> = Vec::new();
    let mut g: usize = 0;
    while g < groups.len()
        invariant
            g <= groups@.len(),
            is_grouping(hit_keys(hits@), groups@),
            out@.len() == g,
            forall|i: int| 0 <= i < g ==> (#[trigger] out@[i]).hits@ == groups@[i].files@,
            forall|i: int|
                0 <= i < g ==> (#[trigger] out@[i]).path@ == hits@[groups@[i].files@[0] as int].path@,
        decreases groups.len() - g,
    {
        proof {
            assert(is_group(hit_keys(hits@), groups@[g as int]));
        }
        let first: usize = groups[g].files[0];
        let path = hits[first].path.clone();
        out.push(FileHits { path, hits: groups[g].files.clone() });
        g += 1;
    }
    proof {
        lemma_by_file(hits@, groups@, out@);
    }
    out
}

/// Where a commit was hit.
pub fn commit_tag(m: &CommitMatch) -> (r: &'static str)
    ensures
        r@ == (if m.subject_hit && m.body_hit {
            "subject+body"@
        } else if m.subject_hit {
            "subject"@
        } else if m.body_hit {
            "body"@
        } else {
            ""@
        }),
{
    if m.subject_hit && m.body_hit {
        "subject+body"
    } else if m.subject_hit {
        "subject"
    } else if m.body_hit {
        "body"
    } else {
        ""
    }
}

/// The number in front of a line.
pub fn line_number_text(n: usize) -> (out: String)
    ensures
        out@ == padded(digits(n as nat), ' ', 5) + "  "@,
{
    let mut out = pad_start(decimal(n as u64).as_str(), ' ', 5);
    out.append("  ");
    out
}

/// Whether a text can be cut after so many bytes.
pub open spec fn is_boundary(s: Seq<char>, at: nat) -> bool {
    exists|i: int| 0 <= i <= s.len() && #[trigger] text_bytes(s.take(i)) == at
}

/// The smaller of two numbers.
pub open spec fn least(a: nat, b: nat) -> nat {
    if a < b {
        a
    } else {
        b
    }
}

proof fn lemma_prefix_bytes(s: Seq<char>, i: int, j: int)
    requires
        0 <= i <= j <= s.len(),
    ensures
        text_bytes(s.take(i)) + (j - i) <= text_bytes(s.take(j)),
    decreases j - i,
{
    if i < j {
        lemma_prefix_bytes(s, i, j - 1);
        assert(s.take(j).drop_last() == s.take(j - 1));
    }
}

fn cut(chars: &Vec<char>, at: usize) -> (i: usize)
    requires
        is_boundary(chars@, at as nat),
    ensures
        i <= chars@.len(),
        text_bytes(chars@.take(i as int)) == at,
{
    let ghost j = choose|j: int| 0 <= j <= chars@.len() && #[trigger] text_bytes(chars@.take(j)) == at;
    let n: usize = chars.len();
    let mut i: usize = 0;
    let mut bytes: usize = 0;
    while bytes < at
        invariant
            0 <= i <= j <= n == chars@.len(),
            text_bytes(chars@.take(j)) == at,
            text_bytes(chars@.take(i as int)) == bytes,
            bytes <= at,
        decreases j - i,
    {
        proof {
            assert(i < j);
            lemma_prefix_bytes(chars@, i + 1, j);
            assert(chars@.take(i + 1).drop_last() == chars@.take(i as int));
        }
        bytes = bytes + bytes_of_char(chars[i]);
        i += 1;
    }
    i
}

/// Whether a hit can be shown: its ends stand between characters, and in
/// order.
pub open spec fn is_hit(hit: WorkingTreeMatch) -> bool {
    let n = text_bytes(hit.line@);
    &&& hit.match_start <= hit.match_end
    &&& is_boundary(hit.line@, least(hit.match_start as nat, n))
    &&& is_boundary(hit.line@, least(hit.match_end as nat, n))
}

/// The line of a hit, in three parts: before the hit, the hit, and behind it.
/// What lies beyond the end of the line is left out.
pub fn split_hit(hit: &WorkingTreeMatch) -> (out: (String, String, String))
    requires
        is_hit(*hit),
    ensures
        out.0@ + out.1@ + out.2@ == hit.line@,
        text_bytes(out.0@) == least(hit.match_start as nat, text_bytes(hit.line@)),
        text_bytes(out.0@ + out.1@) == least(hit.match_end as nat, text_bytes(hit.line@)),
{
    let n: usize = bytes_of(hit.line.as_str());
    let chars = chars_of(hit.line.as_str());
    let start: usize = if hit.match_start < n {
        hit.match_start
    } else {
        n
    };
    let end: usize = if hit.match_end < n {
        hit.match_end
    } else {
        n
    };
    let a: usize = cut(&chars, start);
    let b: usize = cut(&chars, end);
    let len: usize = chars.len();
    proof {
        if a > b {
            lemma_prefix_bytes(chars@, b as int, a as int);
        }
    }
    let pre = string_of(&chars, 0, a);
    let mid = string_of(&chars, a, b);
    let post = string_of(&chars, b, len);
    proof {
        assert(pre@ =~= chars@.take(a as int));
        assert(pre@ + mid@ =~= chars@.take(b as int));
        assert(pre@ + mid@ + post@ =~= chars@);
    }
    (pre, mid, post)
}

} // verus!
