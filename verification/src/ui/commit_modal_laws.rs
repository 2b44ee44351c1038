//! What the commit dialog does with the files of its panels: which are
//! listed, which are ticked, and what happens to them.

use vstd::prelude::*;

use crate::git::StatusEntry;
use crate::paths::plain;
use crate::text::trim;
use crate::ui::commit_modal::{
    discarded, marked, offered, panel, paths_of, position, range_selected, ticked, DiscardPath,
    PanelKind,
};

verus! {

/// A file is listed as staged just where it is staged, and as unstaged just
/// where something of it is not, where Git does not know it, or where it is
/// conflicted. A file that has changed is in one of the panels.
pub proof fn law_files_are_in_their_panels(entries: Seq<StatusEntry>, i: int)
    requires
        0 <= i < entries.len(),
    ensures
        panel(entries, PanelKind::Staged).contains(entries[i]) <==> entries[i].staged,
        panel(entries, PanelKind::Unstaged).contains(entries[i]) <==> entries[i].unstaged
            || entries[i].conflicted || entries[i].kind is Untracked,
{
    lemma_panel(entries, PanelKind::Staged, entries[i]);
    lemma_panel(entries, PanelKind::Unstaged, entries[i]);
    assert(entries.contains(entries[i]));
}

proof fn lemma_panel(entries: Seq<StatusEntry>, kind: PanelKind, e: StatusEntry)
    ensures
        panel(entries, kind).contains(e) <==> entries.contains(e)
            && crate::ui::commit_modal::belongs(kind, e),
    decreases entries.len(),
{
    reveal(Seq::filter);
    if entries.len() > 0 {
        let init = entries.drop_last();
        lemma_panel(init, kind, e);
        let before = panel(init, kind);
        let all = panel(entries, kind);
        if before.contains(e) {
            let k = choose|k: int| 0 <= k < before.len() && before[k] == e;
            assert(all[k] == e);
        }
        if init.contains(e) {
            let k = choose|k: int| 0 <= k < init.len() && init[k] == e;
            assert(entries[k] == e);
        }
        if entries.contains(e) {
            let k = choose|k: int| 0 <= k < entries.len() && entries[k] == e;
            if k < init.len() {
                assert(init[k] == e);
            } else if crate::ui::commit_modal::belongs(kind, e) {
                assert(all[all.len() - 1] == e);
            }
        }
        if all.contains(e) {
            let k = choose|k: int| 0 <= k < all.len() && all[k] == e;
            if k < before.len() {
                assert(before[k] == e);
            } else {
                assert(entries[entries.len() - 1] == e);
            }
        }
    }
}

/// The ticked files of a panel are those that are in the selection, in the
/// order of the panel.
pub proof fn law_ticked_files(files: Seq<StatusEntry>, selection: Set<Seq<char>>)
    ensures
        ticked(files, selection) == files.filter(
            |e: StatusEntry| selection.contains(plain(e.path@)),
        ).map_values(|e: StatusEntry| e.path@),
    decreases files.len(),
{
    reveal(Seq::filter);
    let f = |e: StatusEntry| selection.contains(plain(e.path@));
    let g = |e: StatusEntry| e.path@;
    if files.len() == 0 {
        assert(ticked(files, selection) =~= files.filter(f).map_values(g));
    } else {
        let init = files.drop_last();
        law_ticked_files(init, selection);
        if f(files.last()) {
            assert(init.filter(f).push(files.last()).map_values(g) =~= init.filter(f).map_values(
                g,
            ).push(files.last().path@));
        }
        assert(ticked(files, selection) =~= files.filter(f).map_values(g));
    }
}

/// Ticking all files of a panel ticks these and no others; taking the ticks
/// away takes those of these files away and no others.
pub proof fn law_ticking_all(
    selection: Set<Seq<char>>,
    files: Seq<StatusEntry>,
    tick: bool,
    path: Seq<char>,
)
    ensures
        ({
            let after = marked(selection, paths_of(files), tick);
            let listed = exists|i: int|
                0 <= i < files.len() && plain((#[trigger] files[i]).path@) == path;
            &&& listed ==> after.contains(path) == tick
            &&& !listed ==> after.contains(path) == selection.contains(path)
        }),
{
    let paths = paths_of(files);
    if exists|i: int| 0 <= i < files.len() && plain((#[trigger] files[i]).path@) == path {
        let i = choose|i: int| 0 <= i < files.len() && plain((#[trigger] files[i]).path@) == path;
        assert(paths[i] == path);
    } else if paths.contains(path) {
        let i = choose|i: int| 0 <= i < paths.len() && paths[i] == path;
        assert(plain(files[i].path@) == path);
    }
}

proof fn lemma_position(paths: Seq<Seq<char>>, path: Seq<char>)
    ensures
        -1 <= position(paths, path) < paths.len(),
        position(paths, path) >= 0 ==> paths[position(paths, path)] == path,
        position(paths, path) == -1 <==> !paths.contains(path),
    decreases paths.len(),
{
    if paths.len() > 0 {
        let init = paths.drop_last();
        lemma_position(init, path);
        if init.contains(path) {
            let k = choose|k: int| 0 <= k < init.len() && init[k] == path;
            assert(paths[k] == path);
        }
        if paths.contains(path) {
            let k = choose|k: int| 0 <= k < paths.len() && paths[k] == path;
            if k < init.len() {
                assert(init[k] == path);
            }
        }
        if paths.last() == path {
            assert(paths[paths.len() - 1] == path);
        }
    }
}

/// A click with Shift acts on the files from the one clicked last to the one
/// clicked now, both included and in whichever order they stand, and leaves
/// the ticks of all others. It acts on the one clicked now alone where the
/// other is not in the panel.
pub proof fn law_ranges_reach_from_file_to_file(
    selection: Set<Seq<char>>,
    files: Seq<StatusEntry>,
    anchor: Option<Seq<char>>,
    clicked: Seq<char>,
    tick: bool,
    from: int,
    to: int,
    path: Seq<char>,
)
    requires
        paths_of(files).no_duplicates(),
        0 <= to < files.len(),
        plain(files[to].path@) == plain(clicked),
        match anchor {
            Some(a) => if 0 <= from < files.len() {
                plain(files[from].path@) == plain(a)
            } else {
                from == -1 && !paths_of(files).contains(plain(a))
            },
            None => from == -1,
        },
    ensures
        ({
            let after = range_selected(selection, files, anchor, clicked, tick);
            let start = if from == -1 {
                to
            } else {
                from
            };
            let between = exists|i: int|
                0 <= i < files.len() && (start <= i <= to || to <= i <= start) && plain(
                    (#[trigger] files[i]).path@,
                ) == path;
            &&& between ==> after.contains(path) == tick
            &&& !between ==> after.contains(path) == selection.contains(path)
        }),
{
    let paths = paths_of(files);
    lemma_position(paths, plain(clicked));
    assert(paths[to] == plain(clicked));
    assert(paths.contains(plain(clicked)));
    let c = position(paths, plain(clicked));
    assert(c == to);
    if let Some(a) = anchor {
        lemma_position(paths, plain(a));
        if from != -1 {
            assert(paths[from] == plain(a));
            assert(paths.contains(plain(a)));
            assert(position(paths, plain(a)) == from);
        }
    }
    let start = if from == -1 {
        to
    } else {
        from
    };
    let (lo, hi) = if start <= to {
        (start, to)
    } else {
        (to, start)
    };
    let part = files.subrange(lo, hi + 1);
    law_ticking_all(selection, part, tick, path);
    let between = exists|i: int|
        0 <= i < files.len() && (start <= i <= to || to <= i <= start) && plain(
            (#[trigger] files[i]).path@,
        ) == path;
    if between {
        let i = choose|i: int|
            0 <= i < files.len() && (start <= i <= to || to <= i <= start) && plain(
                (#[trigger] files[i]).path@,
            ) == path;
        assert(part[i - lo] == files[i]);
    } else {
        assert forall|k: int| 0 <= k < part.len() implies plain((#[trigger] part[k]).path@)
            != path by {
            assert(part[k] == files[lo + k]);
        }
    }
}

/// A click on a file that is not in the panel ticks nothing.
pub proof fn law_ranges_end_in_the_panel(
    selection: Set<Seq<char>>,
    files: Seq<StatusEntry>,
    anchor: Option<Seq<char>>,
    clicked: Seq<char>,
    tick: bool,
)
    requires
        forall|i: int| 0 <= i < files.len() ==> plain((#[trigger] files[i]).path@) != plain(clicked),
    ensures
        range_selected(selection, files, anchor, clicked, tick) == selection,
{
    let paths = paths_of(files);
    lemma_position(paths, plain(clicked));
    if paths.contains(plain(clicked)) {
        let i = choose|i: int| 0 <= i < paths.len() && paths[i] == plain(clicked);
        assert(plain(files[i].path@) == plain(clicked));
    }
}

/// Files that Git knows are restored, and those that it does not know are
/// removed, each in order.
pub proof fn law_discarded_files(paths: Seq<DiscardPath>)
    ensures
        discarded(paths, false) == paths.filter(|p: DiscardPath| !p.untracked).map_values(
            |p: DiscardPath| p.path@,
        ),
        discarded(paths, true) == paths.filter(|p: DiscardPath| p.untracked).map_values(
            |p: DiscardPath| p.path@,
        ),
    decreases paths.len(),
{
    reveal(Seq::filter);
    let known = |p: DiscardPath| !p.untracked;
    let unknown = |p: DiscardPath| p.untracked;
    let g = |p: DiscardPath| p.path@;
    if paths.len() > 0 {
        let init = paths.drop_last();
        law_discarded_files(init);
        let last = paths.last();
        assert(init.filter(known).push(last).map_values(g) =~= init.filter(known).map_values(
            g,
        ).push(last.path@));
        assert(init.filter(unknown).push(last).map_values(g) =~= init.filter(unknown).map_values(
            g,
        ).push(last.path@));
    }
    assert(discarded(paths, false) =~= paths.filter(known).map_values(g));
    assert(discarded(paths, true) =~= paths.filter(unknown).map_values(g));
}

/// The messages that are offered again are trimmed messages of commits, none
/// of them empty, none twice, and eight at most. While there is room, every
/// message is among them, and those of newer commits stand first.
pub proof fn law_offered_messages(messages: Seq<Seq<char>>)
    ensures
        ({
            let out = offered(messages);
            &&& out.len() <= 8
            &&& out.no_duplicates()
            &&& forall|k: int| 0 <= k < out.len() ==> (#[trigger] out[k]).len() > 0
            &&& forall|k: int|
                0 <= k < out.len() ==> is_message(messages, #[trigger] out[k])
            &&& out.len() < 8 ==> forall|i: int|
                0 <= i < messages.len() && trim(#[trigger] messages[i]).len() > 0 ==> out.contains(
                    trim(messages[i]),
                )
        }),
        messages.len() > 0 ==> offered(messages.drop_last()).len() <= offered(messages).len()
            && offered(messages).take(offered(messages.drop_last()).len() as int) == offered(
            messages.drop_last(),
        ),
    decreases messages.len(),
{
    if messages.len() > 0 {
        let init = messages.drop_last();
        law_offered_messages(init);
        let before = offered(init);
        let out = offered(messages);
        let m = trim(messages.last());
        assert(out.take(before.len() as int) =~= before);
        assert forall|k: int| 0 <= k < out.len() implies is_message(messages, #[trigger] out[k]) by {
            if k < before.len() {
                assert(is_message(init, before[k]));
                let i = choose|i: int| 0 <= i < init.len() && trim(#[trigger] init[i]) == before[k];
                assert(trim(messages[i]) == out[k]);
            } else {
                assert(trim(messages[messages.len() - 1]) == out[k]);
            }
        }
        if out.len() < 8 {
            assert forall|i: int|
                0 <= i < messages.len() && trim(#[trigger] messages[i]).len() > 0 implies out.contains(
                trim(messages[i]),
            ) by {
                if i < init.len() {
                    assert(init[i] == messages[i]);
                    assert(before.contains(trim(init[i])));
                    let k = choose|k: int| 0 <= k < before.len() && before[k] == trim(init[i]);
                    assert(out[k] == before[k]);
                } else if before.contains(m) {
                    let k = choose|k: int| 0 <= k < before.len() && before[k] == m;
                    assert(out[k] == m);
                } else {
                    assert(out[out.len() - 1] == m);
                }
            }
        }
    }
}

/// Whether a text is one of the messages, trimmed.
pub open spec fn is_message(messages: Seq<Seq<char>>, text: Seq<char>) -> bool {
    exists|i: int| 0 <= i < messages.len() && trim(#[trigger] messages[i]) == text
}

} // verus!
