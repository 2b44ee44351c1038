//! The commit dialog: its two panels of files, the selection in them, what
//! its buttons allow, and what becomes of it after each action.

use vstd::prelude::*;

use crate::git::{EntryKind, Oid, StatusEntry};
use crate::path_set::PathSet;
use crate::paths::{is_path, opt_plain, plain, plains, same_path};
use crate::text::{blank, decimal, digits, is_blank, opt_view, same, trim, trimmed, views};
use crate::ui::diff_view::count_of;

verus! {

/// The author of a commit.
#[derive(Debug, Clone, PartialEq, Eq)]
pub struct CommitAuthor {
    pub name: String,
    pub email: String,
}

/// The state of the dialog.
#[derive(Debug)]
pub struct CommitModal {
    pub message: String,
    pub last_error: Option<String>,
    pub ai_error: Option<String>,
    /// The files that are ticked, in either panel.
    pub selection: PathSet,
    /// The file that was clicked last.
    pub selection_anchor: Option<String>,
    /// The repository that the amend fields belong to.
    pub amend_author_repo_path: Option<String>,
    pub amend_head_available: bool,
    pub amend_head_author_name: String,
    pub amend_head_author_email: String,
    pub amend_author_override: bool,
    pub amend_author_name: String,
    pub amend_author_email: String,
}

impl Default for CommitModal {
    fn default() -> (m: Self)
        ensures
            m.selection.wf(),
            m.selection@ == Set::<Seq<char>>::empty(),
            m.message@.len() == 0,
            m.last_error is None,
            m.ai_error is None,
            m.selection_anchor is None,
            m.amend_is_reset(),
    {
        CommitModal {
            message: String::new(),
            last_error: None,
            ai_error: None,
            selection: PathSet::new(),
            selection_anchor: None,
            amend_author_repo_path: None,
            amend_head_available: false,
            amend_head_author_name: String::new(),
            amend_head_author_email: String::new(),
            amend_author_override: false,
            amend_author_name: String::new(),
            amend_author_email: String::new(),
        }
    }
}

impl CommitModal {
    /// Whether the amend fields are empty.
    pub open spec fn amend_is_reset(&self) -> bool {
        &&& self.amend_author_repo_path is None
        &&& !self.amend_head_available
        &&& self.amend_head_author_name@.len() == 0
        &&& self.amend_head_author_email@.len() == 0
        &&& !self.amend_author_override
        &&& self.amend_author_name@.len() == 0
        &&& self.amend_author_email@.len() == 0
    }

    /// Whether the amend fields are those of another state of the dialog.
    pub open spec fn same_amend(&self, other: &CommitModal) -> bool {
        &&& self.amend_author_repo_path == other.amend_author_repo_path
        &&& self.amend_head_available == other.amend_head_available
        &&& self.amend_head_author_name == other.amend_head_author_name
        &&& self.amend_head_author_email == other.amend_head_author_email
        &&& self.amend_author_override == other.amend_author_override
        &&& self.amend_author_name == other.amend_author_name
        &&& self.amend_author_email == other.amend_author_email
    }

    /// Whether everything but the amend fields is that of another state.
    pub open spec fn same_rest(&self, other: &CommitModal) -> bool {
        &&& self.message == other.message
        &&& self.last_error == other.last_error
        &&& self.ai_error == other.ai_error
        &&& self.selection == other.selection
        &&& self.selection_anchor == other.selection_anchor
    }
}

/// The two panels.
#[derive(Debug, Clone, Copy, PartialEq, Eq, Structural)]
pub enum PanelKind {
    Unstaged,
    Staged,
}

/// Whether a file is listed in a panel. One can be in both.
pub open spec fn belongs(kind: PanelKind, e: StatusEntry) -> bool {
    match kind {
        PanelKind::Unstaged => e.unstaged || e.kind == EntryKind::Untracked || e.conflicted,
        PanelKind::Staged => e.staged,
    }
}

fn is_listed(kind: PanelKind, e: &StatusEntry) -> (r: bool)
    ensures
        r == belongs(kind, *e),
{
    match kind {
        PanelKind::Unstaged => e.unstaged || e.kind == EntryKind::Untracked || e.conflicted,
        PanelKind::Staged => e.staged,
    }
}

/// The files of a panel, in order.
pub open spec fn panel(entries: Seq<StatusEntry>, kind: PanelKind) -> Seq<StatusEntry> {
    entries.filter(|e: StatusEntry| belongs(kind, e))
}

/// The files of a panel, in order.
pub fn panel_entries(entries: &[StatusEntry], kind: PanelKind) -> (out: Vec<StatusEntry>)
    ensures
        out@ == panel(entries@, kind),
{
    let ghost f = |e: StatusEntry| belongs(kind, e);
    let mut out: Vec<StatusEntry> = Vec::new();
    let mut i: usize = 0;
    proof {
        assert(entries@.take(0).filter(f) =~= Seq::empty());
    }
    while i < entries.len()
        invariant
            i <= entries@.len(),
            f == (|e: StatusEntry| belongs(kind, e)),
            out@ == entries@.take(i as int).filter(f),
        decreases entries.len() - i,
    {
        proof {
            let upto = entries@.take(i as int);
            assert(entries@.take(i + 1) =~= upto.push(entries@[i as int]));
            assert(entries@.take(i + 1).drop_last() =~= upto);
            reveal(Seq::filter);
        }
        if is_listed(kind, &entries[i]) {
            out.push(entries[i].duplicate());
        }
        i += 1;
    }
    proof {
        assert(entries@.take(entries@.len() as int) == entries@);
    }
    out
}

/// How many files the heading of a panel counts.
pub fn panel_count(entries: &[StatusEntry], kind: PanelKind) -> (n: usize)
    ensures
        n == (match kind {
            PanelKind::Unstaged => count_of(
                entries@,
                |e: StatusEntry| e.unstaged || e.kind == EntryKind::Untracked,
            ),
            PanelKind::Staged => count_of(entries@, |e: StatusEntry| e.staged),
        }),
{
    let ghost f = match kind {
        PanelKind::Unstaged => |e: StatusEntry| e.unstaged || e.kind == EntryKind::Untracked,
        PanelKind::Staged => |e: StatusEntry| e.staged,
    };
    let mut n: usize = 0;
    let mut i: usize = 0;
    while i < entries.len()
        invariant
            i <= entries@.len(),
            n <= i,
            kind == PanelKind::Unstaged ==> f == (|e: StatusEntry|
                e.unstaged || e.kind == EntryKind::Untracked),
            kind == PanelKind::Staged ==> f == (|e: StatusEntry| e.staged),
            n == count_of(entries@.take(i as int), f),
        decreases entries.len() - i,
    {
        let e = &entries[i];
        proof {
            assert(entries@.take(i + 1).drop_last() == entries@.take(i as int));
        }
        let counts: bool = match kind {
            PanelKind::Unstaged => e.unstaged || e.kind == EntryKind::Untracked,
            PanelKind::Staged => e.staged,
        };
        if counts {
            n += 1;
        }
        i += 1;
    }
    proof {
        assert(entries@.take(entries@.len() as int) == entries@);
    }
    n
}

/// The paths of some files, each with nothing in it but its components.
pub open spec fn paths_of(entries: Seq<StatusEntry>) -> Seq<Seq<char>> {
    entries.map_values(|e: StatusEntry| plain(e.path@))
}

/// The paths of the files that are ticked, in order.
pub open spec fn ticked(entries: Seq<StatusEntry>, selection: Set<Seq<char>>) -> Seq<Seq<char>>
    decreases entries.len(),
{
    if entries.len() == 0 {
        Seq::empty()
    } else {
        let before = ticked(entries.drop_last(), selection);
        if selection.contains(plain(entries.last().path@)) {
            before.push(entries.last().path@)
        } else {
            before
        }
    }
}

/// The files of a panel that are ticked.
pub fn selected_in_panel(panel: &[StatusEntry], selection: &PathSet) -> (out: Vec<String>)
    ensures
        views(out@) == ticked(panel@, selection@),
{
    let mut out: Vec<String> = Vec::new();
    let mut i: usize = 0;
    proof {
        assert(views(out@) =~= Seq::empty());
    }
    while i < panel.len()
        invariant
            i <= panel@.len(),
            views(out@) == ticked(panel@.take(i as int), selection@),
        decreases panel.len() - i,
    {
        proof {
            assert(panel@.take(i + 1).drop_last() == panel@.take(i as int));
        }
        if selection.contains(panel[i].path.as_str()) {
            let ghost before = out@;
            let path = panel[i].path.clone();
            out.push(path);
            proof {
                assert(views(out@) =~= views(before).push(path@));
            }
        }
        i += 1;
    }
    proof {
        assert(panel@.take(panel@.len() as int) == panel@);
    }
    out
}

/// Whether every file of a panel is ticked, and there is one.
pub fn all_selected(panel: &[StatusEntry], selection: &PathSet) -> (r: bool)
    ensures
        r == (panel@.len() > 0 && forall|i: int|
            0 <= i < panel@.len() ==> selection@.contains(plain((#[trigger] panel@[i]).path@))),
{
    let mut i: usize = 0;
    while i < panel.len()
        invariant
            i <= panel@.len(),
            forall|k: int| 0 <= k < i ==> selection@.contains(plain((#[trigger] panel@[k]).path@)),
        decreases panel.len() - i,
    {
        if !selection.contains(panel[i].path.as_str()) {
            return false;
        }
        i += 1;
    }
    panel.len() > 0
}

/// Ticks every file of a stretch of a panel, or none of it.
pub open spec fn marked(
    selection: Set<Seq<char>>,
    paths: Seq<Seq<char>>,
    tick: bool,
) -> Set<Seq<char>> {
    if tick {
        selection.union(paths.to_set())
    } else {
        selection.difference(paths.to_set())
    }
}

proof fn lemma_marked_push(
    selection: Set<Seq<char>>,
    paths: Seq<Seq<char>>,
    path: Seq<char>,
    tick: bool,
)
    ensures
        marked(selection, paths.push(path), tick) == (if tick {
            marked(selection, paths, tick).insert(path)
        } else {
            marked(selection, paths, tick).remove(path)
        }),
{
    let more = paths.push(path);
    assert forall|p: Seq<char>| #[trigger] more.to_set().contains(p) <==> paths.to_set().insert(
        path,
    ).contains(p) by {
        if p == path {
            assert(more[paths.len() as int] == p);
        } else if paths.contains(p) {
            let i = choose|i: int| 0 <= i < paths.len() && paths[i] == p;
            assert(more[i] == p);
        } else if more.contains(p) {
            let i = choose|i: int| 0 <= i < more.len() && more[i] == p;
            assert(paths[i] == p);
        }
    }
    assert(more.to_set() =~= paths.to_set().insert(path));
    if tick {
        assert(marked(selection, more, tick) =~= marked(selection, paths, tick).insert(path));
    } else {
        assert(marked(selection, more, tick) =~= marked(selection, paths, tick).remove(path));
    }
}

/// Ticks the files `from..to` of a panel, or takes their ticks away.
fn mark_range(
    selection: &mut PathSet,
    panel: &[StatusEntry],
    from: usize,
    to: usize,
    tick: bool,
)
    requires
        old(selection).wf(),
        from <= to <= panel@.len(),
    ensures
        final(selection).wf(),
        final(selection)@ == marked(
            old(selection)@,
            paths_of(panel@.subrange(from as int, to as int)),
            tick,
        ),
{
    let ghost before = selection@;
    let mut i: usize = from;
    proof {
        let none = paths_of(panel@.subrange(from as int, from as int));
        assert(none =~= Seq::empty());
        assert(none.to_set() =~= Set::empty());
        assert(marked(before, none, tick) =~= before);
    }
    while i < to
        invariant
            from <= i <= to <= panel@.len(),
            selection.wf(),
            selection@ == marked(before, paths_of(panel@.subrange(from as int, i as int)), tick),
        decreases to - i,
    {
        proof {
            let upto = paths_of(panel@.subrange(from as int, i as int));
            assert(paths_of(panel@.subrange(from as int, i + 1)) =~= upto.push(
                plain(panel@[i as int].path@),
            ));
            lemma_marked_push(before, upto, plain(panel@[i as int].path@), tick);
        }
        if tick {
            selection.insert(panel[i].path.as_str());
        } else {
            selection.remove(panel[i].path.as_str());
        }
        i += 1;
    }
}

/// A click on the box that ticks all files of a panel, or none.
pub fn toggle_all(modal: &mut CommitModal, panel: &[StatusEntry], checked: bool)
    requires
        old(modal).selection.wf(),
    ensures
        final(modal).selection.wf(),
        final(modal).selection@ == marked(old(modal).selection@, paths_of(panel@), checked),
        final(modal).selection_anchor == old(modal).selection_anchor,
        final(modal).message == old(modal).message,
        final(modal).last_error == old(modal).last_error,
        final(modal).ai_error == old(modal).ai_error,
        final(modal).same_amend(old(modal)),
{
    mark_range(&mut modal.selection, panel, 0, panel.len(), checked);
    proof {
        assert(panel@.subrange(0, panel@.len() as int) =~= panel@);
    }
}

/// Where a path stands in a panel, first, or -1.
pub open spec fn position(paths: Seq<Seq<char>>, path: Seq<char>) -> int
    decreases paths.len(),
{
    if paths.len() == 0 {
        -1
    } else {
        let before = position(paths.drop_last(), path);
        if before >= 0 {
            before
        } else if paths.last() == path {
            paths.len() - 1
        } else {
            -1
        }
    }
}

fn find_path(panel: &[StatusEntry], path: &str) -> (at: Option<usize>)
    ensures
        at matches Some(i) ==> i == position(paths_of(panel@), plain(path@)) && i < panel@.len(),
        at is None ==> position(paths_of(panel@), plain(path@)) == -1,
{
    let ghost all = paths_of(panel@);
    let mut i: usize = 0;
    let mut found: Option<usize> = None;
    while i < panel.len()
        invariant
            i <= panel@.len(),
            all == paths_of(panel@),
            found matches Some(k) ==> k == position(all.take(i as int), plain(path@)) && k < i,
            found is None ==> position(all.take(i as int), plain(path@)) == -1,
        decreases panel.len() - i,
    {
        proof {
            assert(all.take(i + 1).drop_last() == all.take(i as int));
            assert(all.take(i + 1).last() == plain(panel@[i as int].path@));
        }
        if found.is_none() && same_path(panel[i].path.as_str(), path) {
            found = Some(i);
        }
        i += 1;
    }
    proof {
        assert(all.take(all.len() as int) == all);
    }
    found
}

/// The selection after a range was ticked, or its ticks were taken away: the
/// files between the one clicked last and the one clicked now, in either
/// order. Without the former in the panel it is the latter alone.
pub open spec fn range_selected(
    selection: Set<Seq<char>>,
    panel: Seq<StatusEntry>,
    anchor: Option<Seq<char>>,
    clicked: Seq<char>,
    tick: bool,
) -> Set<Seq<char>> {
    let paths = paths_of(panel);
    let c = position(paths, plain(clicked));
    let a = if anchor is Some && position(paths, plain(anchor->0)) >= 0 {
        position(paths, plain(anchor->0))
    } else {
        c
    };
    if c < 0 {
        selection
    } else if a <= c {
        marked(selection, paths_of(panel.subrange(a, c + 1)), tick)
    } else {
        marked(selection, paths_of(panel.subrange(c, a + 1)), tick)
    }
}

/// Ticks the files between the one clicked last and the one clicked now, or
/// takes their ticks away.
pub fn apply_range_selection(
    modal: &mut CommitModal,
    panel: &[StatusEntry],
    clicked: &str,
    tick: bool,
)
    requires
        old(modal).selection.wf(),
    ensures
        final(modal).selection.wf(),
        final(modal).selection@ == range_selected(
            old(modal).selection@,
            panel@,
            opt_view(old(modal).selection_anchor),
            clicked@,
            tick,
        ),
        final(modal).selection_anchor == old(modal).selection_anchor,
        final(modal).message == old(modal).message,
        final(modal).last_error == old(modal).last_error,
        final(modal).ai_error == old(modal).ai_error,
        final(modal).same_amend(old(modal)),
{
    let n: usize = panel.len();
    if let Some(c) = find_path(panel, clicked) {
        let a: usize = match &modal.selection_anchor {
            Some(anchor) => match find_path(panel, anchor.as_str()) {
                Some(i) => i,
                None => c,
            },
            None => c,
        };
        if a <= c {
            proof {
                assert(c < n);
            }
            mark_range(&mut modal.selection, panel, a, c + 1, tick);
        } else {
            proof {
                assert(a < n);
            }
            mark_range(&mut modal.selection, panel, c, a + 1, tick);
        }
    }
}

/// A click on a file. Alone it changes the file's tick; with Shift it ticks a
/// range, and with Alt as well it takes the ticks of the range away.
pub fn apply_selection_click(
    modal: &mut CommitModal,
    panel: &[StatusEntry],
    clicked: &str,
    shift: bool,
    alt: bool,
)
    requires
        old(modal).selection.wf(),
    ensures
        final(modal).selection.wf(),
        final(modal).selection@ == (if shift {
            range_selected(
                old(modal).selection@,
                panel@,
                opt_view(old(modal).selection_anchor),
                clicked@,
                !alt,
            )
        } else if old(modal).selection@.contains(plain(clicked@)) {
            old(modal).selection@.remove(plain(clicked@))
        } else {
            old(modal).selection@.insert(plain(clicked@))
        }),
        opt_view(final(modal).selection_anchor) == Some(clicked@),
        final(modal).message == old(modal).message,
        final(modal).last_error == old(modal).last_error,
        final(modal).ai_error == old(modal).ai_error,
        final(modal).same_amend(old(modal)),
{
    if shift {
        apply_range_selection(modal, panel, clicked, !alt);
    } else if modal.selection.contains(clicked) {
        modal.selection.remove(clicked);
    } else {
        modal.selection.insert(clicked);
    }
    modal.selection_anchor = Some(clicked.to_owned());
}

/// Forgets selected files that are not in the list any more.
pub fn prune_selection(modal: &mut CommitModal, valid: &[String])
    requires
        old(modal).selection.wf(),
    ensures
        final(modal).selection.wf(),
        final(modal).selection@ == old(modal).selection@.intersect(plains(views(valid@)).to_set()),
        opt_view(final(modal).selection_anchor) == (match opt_view(old(modal).selection_anchor) {
            Some(p) => if plains(views(valid@)).contains(plain(p)) {
                Some(p)
            } else {
                None
            },
            None => None,
        }),
        final(modal).message == old(modal).message,
        final(modal).last_error == old(modal).last_error,
        final(modal).ai_error == old(modal).ai_error,
        final(modal).same_amend(old(modal)),
{
    modal.selection.retain(valid);
    let mut gone: bool = false;
    if let Some(anchor) = &modal.selection_anchor {
        gone = !is_listed_path(valid, anchor.as_str());
    }
    if gone {
        modal.selection_anchor = None;
    }
}

fn is_listed_path(list: &[String], path: &str) -> (r: bool)
    ensures
        r == plains(views(list@)).contains(plain(path@)),
{
    let mut i: usize = 0;
    while i < list.len()
        invariant
            i <= list@.len(),
            forall|k: int| 0 <= k < i ==> #[trigger] plains(views(list@))[k] != plain(path@),
        decreases list.len() - i,
    {
        proof {
            assert(plains(views(list@))[i as int] == plain(list@[i as int]@));
        }
        if same_path(list[i].as_str(), path) {
            return true;
        }
        i += 1;
    }
    false
}

fn is_in(list: &[String], text: &str) -> (r: bool)
    ensures
        r == views(list@).contains(text@),
{
    let mut i: usize = 0;
    while i < list.len()
        invariant
            i <= list@.len(),
            forall|k: int| 0 <= k < i ==> #[trigger] views(list@)[k] != text@,
        decreases list.len() - i,
    {
        proof {
            assert(views(list@)[i as int] == list@[i as int]@);
        }
        if same(list[i].as_str(), text) {
            return true;
        }
        i += 1;
    }
    false
}

/// Messages of commits, the newest last, as they are offered again: trimmed,
/// the newest first, none of them empty or twice, and eight at most.
pub open spec fn offered(messages: Seq<Seq<char>>) -> Seq<Seq<char>>
    decreases messages.len(),
{
    if messages.len() == 0 {
        Seq::empty()
    } else {
        let before = offered(messages.drop_last());
        let m = trim(messages.last());
        if m.len() == 0 || before.contains(m) || before.len() >= 8 {
            before
        } else {
            before.push(m)
        }
    }
}

/// The messages that are offered again, of commits with the newest last.
pub fn recent_messages(commits: &[String]) -> (out: Vec<String>)
    ensures
        views(out@) == offered(views(commits@).reverse()),
{
    let ghost all = views(commits@).reverse();
    let mut out: Vec<String> = Vec::new();
    let n: usize = commits.len();
    let mut i: usize = 0;
    proof {
        assert(views(out@) =~= Seq::empty());
    }
    while i < n
        invariant
            i <= n == commits@.len(),
            all == views(commits@).reverse(),
            views(out@) == offered(all.take(i as int)),
        decreases n - i,
    {
        let m = trimmed(commits[n - 1 - i].as_str());
        proof {
            assert(all.take(i + 1).drop_last() == all.take(i as int));
            assert(all[i as int] == views(commits@)[n - 1 - i]);
            assert(views(out@).len() == out@.len());
        }
        if !m.as_str().is_empty() && !is_in(out.as_slice(), m.as_str()) && out.len() < 8 {
            let ghost before = out@;
            out.push(m);
            proof {
                assert(views(out@) =~= views(before).push(m@));
            }
        }
        i += 1;
    }
    proof {
        assert(all.take(all.len() as int) == all);
    }
    out
}

/// A file whose changes are thrown away.
#[derive(Debug, Clone, PartialEq, Eq)]
pub struct DiscardPath {
    pub path: String,
    pub untracked: bool,
}

/// A file whose changes are thrown away.
pub fn discard_path(entry: &StatusEntry) -> (d: DiscardPath)
    ensures
        d.path@ == entry.path@,
        d.untracked == (entry.kind == EntryKind::Untracked),
{
    DiscardPath { path: entry.path.clone(), untracked: entry.kind == EntryKind::Untracked }
}

/// What the panels ask for.
#[derive(Debug, Clone, PartialEq, Eq)]
pub enum MoveIntent {
    Stage(Vec<String>),
    Unstage(Vec<String>),
    StageAll,
    UnstageAll,
    StageOne(String),
    UnstageOne(String),
    /// Throw the changes of files away. Tracked ones are restored, untracked
    /// ones removed.
    Discard(Vec<DiscardPath>),
}

/// What Git is asked to do.
#[derive(Debug, Clone, PartialEq, Eq)]
pub enum MoveCall {
    StageAll,
    UnstageAll,
    StagePaths(Vec<String>),
    UnstagePaths(Vec<String>),
    DiscardPaths { restore: Vec<String>, remove: Vec<String> },
}

/// The paths that are untracked, or those that are not, in order.
pub open spec fn discarded(paths: Seq<DiscardPath>, untracked: bool) -> Seq<Seq<char>>
    decreases paths.len(),
{
    if paths.len() == 0 {
        Seq::empty()
    } else {
        let before = discarded(paths.drop_last(), untracked);
        if paths.last().untracked == untracked {
            before.push(paths.last().path@)
        } else {
            before
        }
    }
}

fn split_discarded(paths: &Vec<DiscardPath>, untracked: bool) -> (out: Vec<String>)
    ensures
        views(out@) == discarded(paths@, untracked),
{
    let mut out: Vec<String> = Vec::new();
    let mut i: usize = 0;
    proof {
        assert(views(out@) =~= Seq::empty());
    }
    while i < paths.len()
        invariant
            i <= paths@.len(),
            views(out@) == discarded(paths@.take(i as int), untracked),
        decreases paths.len() - i,
    {
        proof {
            assert(paths@.take(i + 1).drop_last() == paths@.take(i as int));
        }
        if paths[i].untracked == untracked {
            let ghost before = out@;
            let p = paths[i].path.clone();
            out.push(p);
            proof {
                assert(views(out@) =~= views(before).push(p@));
            }
        }
        i += 1;
    }
    proof {
        assert(paths@.take(paths@.len() as int) == paths@);
    }
    out
}

/// What Git is asked to do for the panels.
pub fn plan_move(intent: MoveIntent) -> (call: MoveCall)
    ensures
        match intent {
            MoveIntent::StageAll => call == MoveCall::StageAll,
            MoveIntent::UnstageAll => call == MoveCall::UnstageAll,
            MoveIntent::Stage(paths) => call == MoveCall::StagePaths(paths),
            MoveIntent::Unstage(paths) => call == MoveCall::UnstagePaths(paths),
            MoveIntent::StageOne(path) => call matches MoveCall::StagePaths(ps) && ps@ == seq![path],
            MoveIntent::UnstageOne(path) => call matches MoveCall::UnstagePaths(ps) && ps@
                == seq![path],
            MoveIntent::Discard(paths) => call matches MoveCall::DiscardPaths { restore, remove }
                && views(restore@) == discarded(paths@, false) && views(remove@) == discarded(
                paths@,
                true,
            ),
        },
{
    match intent {
        MoveIntent::StageAll => MoveCall::StageAll,
        MoveIntent::UnstageAll => MoveCall::UnstageAll,
        MoveIntent::Stage(paths) => MoveCall::StagePaths(paths),
        MoveIntent::Unstage(paths) => MoveCall::UnstagePaths(paths),
        MoveIntent::StageOne(path) => {
            let mut ps: Vec<String> = Vec::new();
            ps.push(path);
            MoveCall::StagePaths(ps)
        },
        MoveIntent::UnstageOne(path) => {
            let mut ps: Vec<String> = Vec::new();
            ps.push(path);
            MoveCall::UnstagePaths(ps)
        },
        MoveIntent::Discard(paths) => MoveCall::DiscardPaths {
            restore: split_discarded(&paths, false),
            remove: split_discarded(&paths, true),
        },
    }
}

/// Every file that is thrown away is restored or removed, and none both.
pub proof fn law_discard_splits(paths: Seq<DiscardPath>)
    ensures
        discarded(paths, false).len() + discarded(paths, true).len() == paths.len(),
        forall|i: int|
            0 <= i < paths.len() ==> discarded(paths, (#[trigger] paths[i]).untracked).contains(
                paths[i].path@,
            ),
    decreases paths.len(),
{
    if paths.len() > 0 {
        let init = paths.drop_last();
        law_discard_splits(init);
        assert forall|i: int| 0 <= i < paths.len() implies discarded(
            paths,
            (#[trigger] paths[i]).untracked,
        ).contains(paths[i].path@) by {
            let u = paths[i].untracked;
            let after = discarded(paths, u);
            if i < init.len() {
                let before = discarded(init, u);
                assert(init[i] == paths[i]);
                assert(before.contains(init[i].path@));
                let k = choose|k: int| 0 <= k < before.len() && before[k] == init[i].path@;
                assert(after[k] == before[k]);
            } else {
                assert(after.last() == paths[i].path@);
                assert(after[after.len() - 1] == paths[i].path@);
            }
        }
    }
}

/// What Git answered to the panels.
pub fn finish_move(modal: &mut CommitModal, outcome: Result<(), String>)
    ensures
        *final(modal) == (CommitModal {
            last_error: match outcome {
                Ok(_) => None,
                Err(e) => Some(e),
            },
            ..*old(modal)
        }),
{
    modal.last_error = match outcome {
        Ok(_) => None,
        Err(e) => Some(e),
    };
}

/// A proposed commit message.
#[derive(Debug, Clone, PartialEq, Eq)]
pub struct CommitSuggestion {
    pub title: String,
    pub body: Option<String>,
}

/// A proposed message as text.
pub open spec fn suggestion_text(s: CommitSuggestion) -> Seq<char> {
    match s.body {
        Some(body) => s.title@ + "\n\n"@ + body@,
        None => s.title@,
    }
}

/// A proposed message as text.
pub fn format_suggestion(sugg: &CommitSuggestion) -> (out: String)
    ensures
        out@ == suggestion_text(*sugg),
{
    let mut out: String = sugg.title.clone();
    if let Some(body) = &sugg.body {
        out.append("\n\n");
        out.append(body.as_str());
    }
    out
}

/// Takes over a proposed message, behind what was typed already, or says why
/// there is none.
pub fn finish_ai(modal: &mut CommitModal, outcome: Result<CommitSuggestion, String>)
    ensures
        match outcome {
            Ok(s) => {
                &&& final(modal).message@ == (if is_blank(old(modal).message@) {
                    suggestion_text(s)
                } else {
                    old(modal).message@ + "\n\n--- AI suggestion ---\n"@ + suggestion_text(s)
                })
                &&& final(modal).ai_error is None
            },
            Err(e) => {
                &&& final(modal).message == old(modal).message
                &&& final(modal).ai_error == Some(e)
            },
        },
        *final(modal) == (CommitModal {
            message: final(modal).message,
            ai_error: final(modal).ai_error,
            ..*old(modal)
        }),
{
    match outcome {
        Ok(s) => {
            let suggestion = format_suggestion(&s);
            if blank(modal.message.as_str()) {
                modal.message = suggestion;
            } else {
                let mut message: String = modal.message.clone();
                message.append("\n\n--- AI suggestion ---\n");
                message.append(suggestion.as_str());
                modal.message = message;
            }
            modal.ai_error = None;
        },
        Err(e) => {
            modal.ai_error = Some(e);
        },
    }
}

/// Checks what a proposal needs: an endpoint with its key, and staged changes.
/// Gives the changes, or says what is missing.
pub fn check_ai(
    has_endpoint: bool,
    key: Result<(), String>,
    diff: Result<String, String>,
) -> (out: Result<String, String>)
    ensures
        match out {
            Ok(d) => has_endpoint && key is Ok && diff == Ok::<String, String>(d) && !is_blank(d@),
            Err(message) => message@ == (if !has_endpoint {
                "No AI endpoint configured."@
            } else if key is Err {
                "secret store: "@ + key->Err_0@
            } else if diff is Err {
                "diff: "@ + diff->Err_0@
            } else {
                "Nothing to diff — stage or modify some files first."@
            }) && (has_endpoint && key is Ok && diff is Ok ==> is_blank(diff->Ok_0@)),
        },
{
    if !has_endpoint {
        return Err("No AI endpoint configured.".to_string());
    }
    if let Err(e) = key {
        let mut message: String = "secret store: ".to_string();
        message.append(e.as_str());
        return Err(message);
    }
    match diff {
        Ok(d) => if blank(d.as_str()) {
            Err("Nothing to diff — stage or modify some files first.".to_string())
        } else {
            Ok(d)
        },
        Err(e) => {
            let mut message: String = "diff: ".to_string();
            message.append(e.as_str());
            Err(message)
        },
    }
}

/// Empties the amend fields.
pub fn reset_amend_author_state(modal: &mut CommitModal)
    ensures
        final(modal).amend_is_reset(),
        final(modal).same_rest(old(modal)),
{
    modal.amend_author_repo_path = None;
    modal.amend_head_available = false;
    modal.amend_head_author_name = String::new();
    modal.amend_head_author_email = String::new();
    modal.amend_author_override = false;
    modal.amend_author_name = String::new();
    modal.amend_author_email = String::new();
}

/// Fills the amend fields for a repository from its last commit's author,
/// where it has one. They stay as they are when they belong to it already.
pub fn sync_amend_author_state(
    modal: &mut CommitModal,
    repo_path: &str,
    head_author: Option<CommitAuthor>,
)
    ensures
        final(modal).same_rest(old(modal)),
        if opt_plain(opt_view(old(modal).amend_author_repo_path)) == Some(plain(repo_path@)) {
            final(modal).same_amend(old(modal))
        } else {
            &&& opt_view(final(modal).amend_author_repo_path) == Some(repo_path@)
            &&& !final(modal).amend_author_override
            &&& final(modal).amend_head_available == head_author is Some
            &&& match head_author {
                Some(a) => {
                    &&& final(modal).amend_head_author_name@ == a.name@
                    &&& final(modal).amend_head_author_email@ == a.email@
                    &&& final(modal).amend_author_name@ == a.name@
                    &&& final(modal).amend_author_email@ == a.email@
                },
                None => {
                    &&& final(modal).amend_head_author_name@.len() == 0
                    &&& final(modal).amend_head_author_email@.len() == 0
                    &&& final(modal).amend_author_name@.len() == 0
                    &&& final(modal).amend_author_email@.len() == 0
                },
            }
        },
{
    if is_path(&modal.amend_author_repo_path, repo_path) {
        return;
    }
    reset_amend_author_state(modal);
    modal.amend_author_repo_path = Some(repo_path.to_owned());
    if let Some(author) = head_author {
        modal.amend_head_available = true;
        modal.amend_head_author_name = author.name.clone();
        modal.amend_head_author_email = author.email.clone();
        modal.amend_author_name = author.name;
        modal.amend_author_email = author.email;
    }
}

/// The author that an amended commit gets: none if it is not to be changed or
/// would stay the same. `normalized` is what becomes of the author typed.
pub fn amend_author_override(
    modal: &CommitModal,
    normalized: Result<CommitAuthor, String>,
) -> (out: Result<Option<CommitAuthor>, String>)
    ensures
        if !modal.amend_author_override {
            out == Ok::<Option<CommitAuthor>, String>(None)
        } else {
            match normalized {
                Ok(author) => if trim(modal.amend_head_author_name@) == author.name@ && trim(
                    modal.amend_head_author_email@,
                ) == author.email@ {
                    out == Ok::<Option<CommitAuthor>, String>(None)
                } else {
                    out == Ok::<Option<CommitAuthor>, String>(Some(author))
                },
                Err(e) => out matches Err(message) && message@ == "amend author: "@ + e@,
            }
        },
{
    if !modal.amend_author_override {
        return Ok(None);
    }
    match normalized {
        Ok(author) => {
            let name = trimmed(modal.amend_head_author_name.as_str());
            let email = trimmed(modal.amend_head_author_email.as_str());
            if same(name.as_str(), author.name.as_str()) && same(
                email.as_str(),
                author.email.as_str(),
            ) {
                Ok(None)
            } else {
                Ok(Some(author))
            }
        },
        Err(e) => {
            let mut message: String = "amend author: ".to_string();
            message.append(e.as_str());
            Err(message)
        },
    }
}

/// Which buttons of the dialog can be pressed.
#[derive(Debug, Clone, Copy, PartialEq, Eq, Structural)]
pub struct CommitButtons {
    pub commit: bool,
    pub stage_all_and_commit: bool,
    pub amend: bool,
}

/// Which buttons can be pressed: a message is needed for each, staged files to
/// commit them, and a last commit to amend it, with a full author if that one
/// is to be changed.
pub fn commit_buttons(modal: &CommitModal, staged_count: usize) -> (b: CommitButtons)
    ensures
        b.commit == (!is_blank(modal.message@) && staged_count > 0),
        b.stage_all_and_commit == !is_blank(modal.message@),
        b.amend == (!is_blank(modal.message@) && modal.amend_head_available && (
        !modal.amend_author_override || (!is_blank(modal.amend_author_name@) && !is_blank(
            modal.amend_author_email@,
        )))),
{
    let msg_ok: bool = !blank(modal.message.as_str());
    let author_ok: bool = !modal.amend_author_override || (!blank(modal.amend_author_name.as_str())
        && !blank(modal.amend_author_email.as_str()));
    CommitButtons {
        commit: msg_ok && staged_count > 0,
        stage_all_and_commit: msg_ok,
        amend: msg_ok && modal.amend_head_available && author_ok,
    }
}

/// The label of the commit button.
pub fn commit_label(staged_count: usize) -> (out: String)
    ensures
        out@ == (if staged_count > 0 {
            "▸ Commit "@ + digits(staged_count as nat) + " staged"@
        } else {
            "▸ Commit"@
        }),
{
    if staged_count > 0 {
        let mut out: String = "▸ Commit ".to_string();
        out.append(decimal(staged_count as u64).as_str());
        out.append(" staged");
        out
    } else {
        "▸ Commit".to_string()
    }
}

/// What the dialog asks for.
#[derive(Debug, Clone, PartialEq, Eq)]
pub enum CommitIntent {
    /// Commit what is staged.
    CommitStaged(String),
    /// Stage every change, and commit.
    StageAllAndCommit(String),
    Amend { message: String, author: Option<CommitAuthor> },
}

/// A commit for the journal.
#[derive(Debug, Clone, PartialEq, Eq)]
pub struct CommitOperation {
    pub message: String,
    pub amended: bool,
}

/// What an intent commits.
pub open spec fn intent_message(intent: CommitIntent) -> Seq<char> {
    match intent {
        CommitIntent::CommitStaged(m) => m@,
        CommitIntent::StageAllAndCommit(m) => m@,
        CommitIntent::Amend { message, .. } => message@,
    }
}

/// What Git answered to the dialog: the commit, or why there is none. A commit
/// is told and noted, and empties the dialog, which is then closed; an error is
/// shown in it.
pub fn handle_commit_intent(
    modal: &mut CommitModal,
    open: &mut bool,
    intent: CommitIntent,
    outcome: Result<Oid, String>,
) -> (out: Option<(String, CommitOperation)>)
    ensures
        out is Some == outcome is Ok,
        match outcome {
            Ok(oid) => {
                let (label, op) = out->0;
                &&& label@ == (if intent is Amend {
                    "Amended "@
                } else {
                    "Committed "@
                }) + oid.text().take(7)
                &&& op.message@ == intent_message(intent)
                &&& op.amended == intent is Amend
                &&& !*final(open)
                &&& final(modal).message@.len() == 0
                &&& final(modal).last_error is None
                &&& final(modal).ai_error is None
                &&& final(modal).selection.wf()
                &&& final(modal).selection@ == Set::<Seq<char>>::empty()
                &&& final(modal).selection_anchor is None
                &&& final(modal).amend_is_reset()
            },
            Err(e) => {
                &&& *final(open) == *old(open)
                &&& *final(modal) == (CommitModal { last_error: Some(e), ..*old(modal) })
            },
        },
{
    match outcome {
        Ok(oid) => {
            let (message, amended) = match intent {
                CommitIntent::CommitStaged(m) => (m, false),
                CommitIntent::StageAllAndCommit(m) => (m, false),
                CommitIntent::Amend { message, .. } => (message, true),
            };
            let mut label: String = if amended {
                "Amended ".to_string()
            } else {
                "Committed ".to_string()
            };
            label.append(oid.short().as_str());
            *open = false;
            modal.message = String::new();
            modal.last_error = None;
            modal.ai_error = None;
            modal.selection.clear();
            modal.selection_anchor = None;
            reset_amend_author_state(modal);
            Some((label, CommitOperation { message, amended }))
        },
        Err(e) => {
            modal.last_error = Some(e);
            None
        },
    }
}

/// The colour of a file, with its opacity: what is not staged is fainter.
pub fn style_for(kind: EntryKind, staged: bool) -> (rgba: (u8, u8, u8, u8))
    ensures
        ({
            let base = match kind {
                EntryKind::New | EntryKind::Untracked => (90u8, 180u8, 120u8),
                EntryKind::Modified => (220, 190, 90),
                EntryKind::Deleted => (220, 100, 100),
                EntryKind::Renamed => (150, 150, 220),
                EntryKind::Typechange => (200, 120, 200),
                EntryKind::Conflicted => (255, 80, 80),
            };
            rgba == (
                base.0,
                base.1,
                base.2,
                if staged {
                    255u8
                } else {
                    160
                },
            )
        }),
{
    let base = crate::ui::diff_view::working_tree_status_color(kind);
    (
        base.0,
        base.1,
        base.2,
        if staged {
            255
        } else {
            160
        },
    )
}

} // verus!
