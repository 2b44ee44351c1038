//! What the conflict window does as a whole: how it names the sides, which
//! text it opens, how it colours lines, and what its buttons ask for.

use vstd::prelude::*;

use crate::git::{ConflictChoice, ConflictEntry, RepoState};
use crate::paths::plain;
use crate::text::{lines, opt_view, trim};
use crate::ui::conflict_window::{
    asks_for, badge_of, works, ConflictButton, ConflictIntent, FileBadge,
};
use crate::ui::conflicts::{
    blob_text, entry_text, glimpse, is_conflicted, last_style, operation, selection, side_behind,
    side_text, LineStyle,
};
use crate::ui::marker_laws::law_hunks_are_regions;
use crate::ui::markers::{is_marker, scan_lines, EditorResolution};
use crate::ui::three_way::parsed;
use crate::ui::three_way_laws::{hunks_before, lemma_hunks_counted};

verus! {

/// Whether commits are being replayed onto another branch.
pub open spec fn replays(state: RepoState) -> bool {
    state is Rebase || state is RebaseInteractive || state is RebaseMerge || state is ApplyMailbox
        || state is ApplyMailboxOrRebase
}

/// While commits are replayed the sides are reversed: theirs is one's own
/// change, and ours is what it is put on. In every other operation ours is
/// the current branch, which is named where it has a name.
pub proof fn law_sides_are_named(state: RepoState, branch: Seq<char>)
    ensures
        replays(state) <==> operation(state) == "Rebase"@,
        replays(state) <==> side_text(state, Some(branch)).theirs_short == "Your change"@,
        replays(state) <==> side_text(state, Some(branch)).ours_short == "Base"@,
        replays(state) ==> side_text(state, Some(branch)) == side_text(state, None),
        !replays(state) ==> side_text(state, Some(branch)).ours_short == "Ours"@ && side_text(
            state,
            Some(branch),
        ).theirs_short == "Theirs"@,
        !replays(state) ==> side_text(state, Some(branch)).ours_long == side_text(
            state,
            None,
        ).ours_long + (" ("@ + branch + ")"@),
        side_text(state, Some(branch)).theirs_long == side_text(state, None).theirs_long,
        side_text(state, Some(branch)).op_hint is None <==> state is Clean || state is Bisect,
{
    reveal_strlit("Rebase");
    reveal_strlit("Merge");
    reveal_strlit("Revert");
    reveal_strlit("Cherry-pick");
    reveal_strlit("Git operation");
    reveal_strlit("Your change");
    reveal_strlit("Theirs");
    reveal_strlit("Base");
    reveal_strlit("Ours");
    assert("Rebase"@[2] == 'b' && "Revert"@[2] == 'v');
    assert("Base"@[0] == 'B' && "Ours"@[0] == 'O');
    assert("Your change"@.len() == 11 && "Theirs"@.len() == 6);
    let with = side_text(state, Some(branch));
    let without = side_text(state, None);
    let suffix = " ("@ + branch + ")"@;
    assert(without.ours_long + Seq::<char>::empty() =~= without.ours_long);
    if !replays(state) {
        assert(with.ours_long =~= without.ours_long + suffix);
    }
}

/// The editor opens a file with its merged text. Without one it takes that of
/// a side, ours before theirs, and it starts empty only where there is none.
pub proof fn law_editor_prefers_the_merged_text(entry: ConflictEntry)
    ensures
        entry.merged_text matches Some(t) ==> entry_text(entry) == t@,
        entry.merged_text is None && blob_text(entry.ours) is Some ==> Some(entry_text(entry))
            == blob_text(entry.ours),
        entry.merged_text is None && blob_text(entry.ours) is None && blob_text(entry.theirs)
            is Some ==> Some(entry_text(entry)) == blob_text(entry.theirs),
        entry.merged_text is None && blob_text(entry.ours) is None && blob_text(entry.theirs)
            is None ==> entry_text(entry).len() == 0,
        entry.ours is None ==> blob_text(entry.ours) is None,
        entry.ours matches Some(b) ==> blob_text(entry.ours) == opt_view(b.text),
{
}

/// There is a selected file just where there are conflicts, and it is one of
/// the conflicted ones: the one that was selected, as long as that is
/// possible.
pub proof fn law_selected_file_is_conflicted(
    selected: Option<Seq<char>>,
    conflicts: Seq<ConflictEntry>,
)
    ensures
        selection(selected, conflicts) is Some <==> conflicts.len() > 0,
        selection(selected, conflicts) matches Some(path) ==> exists|i: int|
            0 <= i < conflicts.len() && plain((#[trigger] conflicts[i]).path@) == plain(path),
        selected is Some && (exists|i: int|
            0 <= i < conflicts.len() && plain((#[trigger] conflicts[i]).path@) == plain(
                selected->0,
            )) ==> selection(selected, conflicts) == selected,
        (selected is None || forall|i: int|
            0 <= i < conflicts.len() ==> plain((#[trigger] conflicts[i]).path@) != plain(
                selected->0,
            )) && conflicts.len() > 0 ==> selection(selected, conflicts) == Some(
            conflicts[0].path@,
        ),
{
    if selected is Some && is_conflicted(conflicts, selected->0) {
        let i = choose|i: int|
            0 <= i < conflicts.len() && plain((#[trigger] conflicts[i]).path@) == plain(selected->0);
        assert(0 <= i < conflicts.len());
    } else if conflicts.len() > 0 {
        assert(plain(conflicts[0].path@) == plain(conflicts[0].path@));
    }
}

/// Lines are coloured as the conflict blocks are read: a line of a block
/// belongs to the side that it would be kept with, markers have colours of
/// their own, and what stands in no block has none.
pub proof fn law_lines_are_coloured_by_side(ls: Seq<Seq<char>>)
    requires
        ls.len() > 0,
    ensures
        ({
            let before = scan_lines(ls.drop_last());
            let line = ls.last();
            let style = last_style(ls);
            &&& style == LineStyle::OursMarker <==> is_marker(line, '<')
            &&& style == LineStyle::Normal <==> !is_marker(line, '<') && before.open is None
            &&& style == LineStyle::Split <==> before.open is Some && is_marker(line, '=')
            &&& style == LineStyle::TheirsMarker <==> before.open is Some && is_marker(line, '>')
            &&& style == LineStyle::Ours <==> before.open is Some && !before.in_theirs && !is_marker(
                line,
                '<',
            ) && !is_marker(line, '=') && !is_marker(line, '>')
            &&& style == LineStyle::Theirs <==> before.open is Some && before.in_theirs
                && !is_marker(line, '<') && !is_marker(line, '=') && !is_marker(line, '>')
        }),
{
    lemma_style_side(ls.drop_last());
    let line = ls.last();
    if is_marker(line, '<') {
        assert(line[0] == '<');
    }
    if is_marker(line, '=') {
        assert(line[0] == '=');
    }
    if is_marker(line, '>') {
        assert(line[0] == '>');
    }
}

proof fn lemma_style_side(ls: Seq<Seq<char>>)
    ensures
        ({
            let s = scan_lines(ls);
            side_behind(last_style(ls)) == (if s.open is None {
                LineStyle::Normal
            } else if s.in_theirs {
                LineStyle::Theirs
            } else {
                LineStyle::Ours
            })
        }),
    decreases ls.len(),
{
    if ls.len() > 0 {
        lemma_style_side(ls.drop_last());
    }
}

/// The list counts the hunks of a file as the editors do.
pub proof fn law_badges_count_hunks(entry: ConflictEntry)
    ensures
        badge_of(entry) is Binary <==> entry.is_binary,
        !entry.is_binary && entry.merged_text is None ==> badge_of(entry) is Nothing,
        !entry.is_binary && entry.merged_text is Some ==> ({
            let segs = parsed(entry.merged_text->0@);
            let n = hunks_before(segs, segs.len() as int);
            &&& n == 0 ==> badge_of(entry) is Nothing
            &&& 0 < n <= usize::MAX ==> badge_of(entry) == FileBadge::Blocks(n as usize)
        }),
{
    if let Some(text) = entry.merged_text {
        law_hunks_are_regions(text@);
        lemma_hunks_counted(parsed(text@));
    }
}

/// Different buttons ask for different things, and what concerns a file
/// carries its path: a side for the whole file is the side of the button, and
/// saving takes the edited text.
pub proof fn law_buttons_do_what_they_say(
    intent: ConflictIntent,
    a: ConflictButton,
    b: ConflictButton,
    path: Seq<char>,
    edited: Seq<char>,
)
    requires
        asks_for(intent, a, path, edited),
    ensures
        asks_for(intent, b, path, edited) ==> a == b,
        a == ConflictButton::Use(ConflictChoice::Ours) ==> (intent matches ConflictIntent::UseFile(
            p,
            c,
        ) && p@ == path && c == ConflictChoice::Ours),
        a == ConflictButton::Use(ConflictChoice::Theirs) ==> (intent matches ConflictIntent::UseFile(
            p,
            c,
        ) && p@ == path && c == ConflictChoice::Theirs),
        a is Save ==> (intent matches ConflictIntent::SaveManual(p, t) && p@ == path && t@
            == edited),
        a is Continue <==> intent is Continue,
        a is Abort <==> intent is Abort,
        a is Mergetool <==> intent is LaunchMergetool,
{
}

/// A side can be taken where it has the file, an operation goes on where no
/// conflict is left and can be given up at any time, and hunks are resolved
/// where they are. The text editor is for text.
pub proof fn law_buttons_work_where_they_can(
    entry: ConflictEntry,
    edited: Seq<char>,
    remaining: nat,
    i: usize,
    choice: EditorResolution,
)
    ensures
        works(ConflictButton::Use(ConflictChoice::Ours), Some(entry), edited, remaining)
            <==> entry.ours is Some,
        works(ConflictButton::Use(ConflictChoice::Theirs), Some(entry), edited, remaining)
            <==> entry.theirs is Some,
        works(ConflictButton::Continue, Some(entry), edited, remaining) <==> remaining == 0,
        works(ConflictButton::Continue, None, edited, remaining) <==> remaining == 0,
        works(ConflictButton::Abort, Some(entry), edited, remaining),
        works(ConflictButton::Abort, None, edited, remaining),
        works(ConflictButton::Save, Some(entry), edited, remaining) <==> !entry.is_binary,
        works(ConflictButton::OneRegion(i, choice), Some(entry), edited, remaining) ==> works(
            ConflictButton::AllRegions(choice),
            Some(entry),
            edited,
            remaining,
        ),
        works(ConflictButton::OneRegion(i, choice), Some(entry), edited, remaining)
            <==> !entry.is_binary && i < hunks_before(parsed(edited), parsed(edited).len() as int),
        !works(ConflictButton::Use(ConflictChoice::Ours), None, edited, remaining),
        !works(ConflictButton::Use(ConflictChoice::Theirs), None, edited, remaining),
        !works(ConflictButton::Save, None, edited, remaining),
        !works(ConflictButton::Mergetool, None, edited, remaining),
        works(ConflictButton::Mergetool, Some(entry), edited, remaining),
{
    law_hunks_are_regions(edited);
    lemma_hunks_counted(parsed(edited));
}

/// A glimpse of a text shows the beginning of its first line, and all of it
/// where that is short.
pub proof fn law_glimpses(text: Seq<char>)
    requires
        lines(text).len() > 0,
        trim(lines(text)[0]).len() > 0,
    ensures
        ({
            let line = trim(lines(text)[0]);
            &&& line.len() <= 72 ==> glimpse(text) == line
            &&& line.len() > 72 ==> glimpse(text).len() == 75 && glimpse(text).take(72) == line.take(
                72,
            )
        }),
{
    reveal_strlit("...");
    let line = trim(lines(text)[0]);
    if line.len() > 72 {
        assert(glimpse(text).take(72) =~= line.take(72));
    }
}

/// The buttons of the editor act on the file that is shown, on the block and
/// with the side that they name.
pub proof fn law_editor_buttons(
    intent: ConflictIntent,
    button: ConflictButton,
    path: Seq<char>,
    edited: Seq<char>,
)
    requires
        asks_for(intent, button, path, edited),
    ensures
        button is Mergetool ==> (intent matches ConflictIntent::LaunchMergetool(p) && p@ == path),
        button matches ConflictButton::AllRegions(r) ==> (
        intent matches ConflictIntent::ResolveEditorAll(p, c) && p@ == path && c == r),
        button matches ConflictButton::OneRegion(i, r) ==> (
        intent matches ConflictIntent::ResolveEditorRegion(p, k, c) && p@ == path && k == i && c
            == r),
{
}

} // verus!
