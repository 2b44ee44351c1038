//! The window in which conflicts are resolved: what it shows, and what its
//! buttons ask for.

use vstd::prelude::*;

use crate::git::{ConflictChoice, ConflictEntry, RepoState};
use crate::paths::{is_path, opt_plain, plain};
use crate::text::{decimal, digits, lower_ascii, opt_view, to_lower_ascii};
use crate::ui::conflicts::{
    find_entry, is_conflicted, is_entry, operation, operation_name, plural, plural_ending,
    selection, sync_selected_conflict, ConflictPane,
};
use crate::ui::markers::{regions, ConflictMarkers, EditorResolution};

verus! {

/// What is asked for.
#[derive(Debug, Clone)]
pub enum ConflictIntent {
    UseFile(String, ConflictChoice),
    ResolveEditorRegion(String, usize, EditorResolution),
    ResolveEditorAll(String, EditorResolution),
    SaveManual(String, String),
    /// Open the file in another program.
    LaunchMergetool(String),
    Continue,
    Abort,
}

/// A button of the window.
#[derive(Debug, Clone, Copy, PartialEq, Eq, Structural)]
pub enum ConflictButton {
    /// The button or the card of a side.
    Use(ConflictChoice),
    Save,
    Mergetool,
    AllRegions(EditorResolution),
    OneRegion(usize, EditorResolution),
    Continue,
    Abort,
}

/// What stands behind a file in the list.
#[derive(Debug, Clone, Copy, PartialEq, Eq, Structural)]
pub enum FileBadge {
    Nothing,
    Binary,
    /// The number of its conflict blocks.
    Blocks(usize),
}

/// A file in the list.
#[derive(Debug, Clone)]
pub struct FileRow {
    pub path: String,
    pub selected: bool,
    pub badge: FileBadge,
}

/// What stands behind a file in the list: that it is no text, or how many
/// conflict blocks are in the working tree.
pub open spec fn badge_of(entry: ConflictEntry) -> FileBadge {
    let blocks = match entry.merged_text {
        Some(text) => regions(text@).len(),
        None => 0,
    };
    if entry.is_binary {
        FileBadge::Binary
    } else if blocks > 0 {
        FileBadge::Blocks(blocks as usize)
    } else {
        FileBadge::Nothing
    }
}

/// Whether a row shows an entry.
pub open spec fn is_row_of(
    row: FileRow,
    entry: ConflictEntry,
    selected: Option<Seq<char>>,
) -> bool {
    &&& row.path@ == entry.path@
    &&& row.selected == (opt_plain(selected) == Some(plain(entry.path@)))
    &&& row.badge == badge_of(entry)
}

/// The rows of the list, one for each conflicted file.
pub fn file_rows(conflicts: &[ConflictEntry], selected: &Option<String>) -> (rows: Vec<FileRow>)
    ensures
        rows@.len() == conflicts@.len(),
        forall|i: int|
            0 <= i < rows@.len() ==> is_row_of(
                #[trigger] rows@[i],
                conflicts@[i],
                opt_view(*selected),
            ),
{
    let mut rows: Vec<FileRow> = Vec::new();
    let mut i: usize = 0;
    while i < conflicts.len()
        invariant
            i <= conflicts@.len(),
            rows@.len() == i,
            forall|k: int|
                0 <= k < i ==> is_row_of(
                    #[trigger] rows@[k],
                    conflicts@[k],
                    opt_view(*selected),
                ),
        decreases conflicts.len() - i,
    {
        let entry = &conflicts[i];
        let is_selected = is_path(selected, entry.path.as_str());
        let blocks: usize = match &entry.merged_text {
            Some(text) => ConflictMarkers::scan(text.as_str()).count(),
            None => 0,
        };
        let badge = if entry.is_binary {
            FileBadge::Binary
        } else if blocks > 0 {
            FileBadge::Blocks(blocks)
        } else {
            FileBadge::Nothing
        };
        rows.push(FileRow { path: entry.path.clone(), selected: is_selected, badge });
        i += 1;
    }
    rows
}

/// The file that is shown beside the list. With it, the window adapts to the
/// conflicts of the repository. There is a file just where there are
/// conflicts.
pub fn open_detail(ws: &mut ConflictPane, conflicts: &[ConflictEntry]) -> (at: Option<usize>)
    ensures
        opt_view(final(ws).selected_conflict) == selection(
            opt_view(old(ws).selected_conflict),
            conflicts@,
        ),
        match opt_view(final(ws).selected_conflict) {
            Some(path) => {
                &&& opt_view(final(ws).conflict_editor_path) == Some(old(ws).path_for(path))
                &&& old(ws).text_for(conflicts@, path, final(ws).conflict_editor_text@)
            },
            None => {
                &&& final(ws).conflict_editor_path is None
                &&& final(ws).conflict_editor_text@.len() == 0
            },
        },
        at is Some <==> conflicts@.len() > 0,
        at matches Some(i) ==> (opt_view(final(ws).selected_conflict) matches Some(path)
            && is_entry(conflicts@, path, i as int)),
{
    sync_selected_conflict(ws, conflicts);
    match &ws.selected_conflict {
        Some(path) => {
            proof {
                if !is_conflicted(conflicts@, path@) {
                    assert(plain(conflicts@[0].path@) == plain(path@));
                }
            }
            find_entry(conflicts, path.as_str())
        },
        None => None,
    }
}

/// The shown file: which of its buttons work, and what is said about it.
#[derive(Debug, Clone, Copy)]
pub struct FileView {
    /// The number of conflict blocks in the edited text.
    pub blocks: usize,
    pub can_use_ours: bool,
    pub can_use_theirs: bool,
    pub can_save: bool,
    /// Whether the editor of the text is open from the start.
    pub editor_open: bool,
    /// Whether there is a conflict block to go to.
    pub can_navigate: bool,
    /// Whether the tools for conflict blocks are shown.
    pub shows_tools: bool,
}

/// The shown file.
pub fn file_view(entry: &ConflictEntry, edited: &str) -> (v: FileView)
    ensures
        v.blocks == regions(edited@).len(),
        v.can_use_ours == (entry.ours is Some),
        v.can_use_theirs == (entry.theirs is Some),
        v.can_save == !entry.is_binary,
        v.editor_open == (entry.is_binary || regions(edited@).len() == 0),
        v.can_navigate == (!entry.is_binary && regions(edited@).len() > 0),
        v.shows_tools == (!entry.is_binary && regions(edited@).len() > 0),
{
    let blocks: usize = ConflictMarkers::scan(edited).count();
    FileView {
        blocks,
        can_use_ours: entry.ours.is_some(),
        can_use_theirs: entry.theirs.is_some(),
        can_save: !entry.is_binary,
        editor_open: entry.is_binary || blocks == 0,
        can_navigate: !entry.is_binary && blocks > 0,
        shows_tools: !entry.is_binary && blocks > 0,
    }
}

/// The number of conflict blocks above the editor.
pub fn blocks_line(blocks: usize) -> (out: String)
    ensures
        out@ == digits(blocks as nat) + " region"@ + plural(blocks as nat),
{
    let mut out: String = decimal(blocks as u64);
    out.append(" region");
    out.append(plural_ending(blocks));
    out
}

/// What is said about saving.
pub fn save_tip(blocks: usize) -> (r: &'static str)
    ensures
        r@ == (if blocks > 0 {
            "Save the merged result as the resolution for this file.\nConflict markers are still present — git will flag this if they reach the working tree."@
        } else {
            "Save the merged result as the resolution for this file."@
        }),
{
    if blocks > 0 {
        "Save the merged result as the resolution for this file.\nConflict markers are still present — git will flag this if they reach the working tree."
    } else {
        "Save the merged result as the resolution for this file."
    }
}

/// What is said about a side for the whole file.
pub fn use_tip(side: &str, other: &str) -> (out: String)
    ensures
        out@ == "Resolve the whole file to the "@ + side@ + " version, discarding "@ + other@,
{
    let mut out: String = "Resolve the whole file to the ".to_string();
    out.append(side);
    out.append(" version, discarding ");
    out.append(other);
    out
}

/// What is said about giving up.
pub fn abort_tip(state: RepoState) -> (out: String)
    ensures
        out@ == "Cancel the "@ + lower_ascii(operation(state))
            + " and restore the pre-operation state."@,
{
    let mut out: String = "Cancel the ".to_string();
    out.append(to_lower_ascii(operation_name(state)).as_str());
    out.append(" and restore the pre-operation state.");
    out
}

/// What is said about going on.
pub fn continue_tip(remaining: usize) -> (r: &'static str)
    ensures
        r@ == (if remaining == 0 {
            "All files resolved — finish the operation."@
        } else {
            "Resolve every conflicted file first."@
        }),
{
    if remaining == 0 {
        "All files resolved — finish the operation."
    } else {
        "Resolve every conflicted file first."
    }
}

/// The heading of the list.
pub fn list_heading(remaining: usize) -> (out: String)
    ensures
        out@ == "Conflicted files · "@ + digits(remaining as nat),
{
    let mut out: String = "Conflicted files · ".to_string();
    out.append(decimal(remaining as u64).as_str());
    out
}

/// What stands on the card of a side: what it is called, and whether the side
/// has the file.
pub fn card_texts(heading: &str, side: &str, available: bool) -> (out: (
    String,
    &'static str,
    &'static str,
))
    ensures
        out.0@ == heading@ + " ("@ + side@ + ")"@,
        out.1@ == (if available {
            "modified"@
        } else {
            "absent"@
        }),
        out.2@ == (if available {
            "Resolve the whole file to this side"@
        } else {
            "This side is absent (file added or deleted elsewhere)"@
        }),
{
    let mut title: String = heading.to_string();
    title.append(" (");
    title.append(side);
    title.append(")");
    if available {
        (title, "modified", "Resolve the whole file to this side")
    } else {
        (title, "absent", "This side is absent (file added or deleted elsewhere)")
    }
}

/// Whether a button works for the shown file, with so many conflicts left.
pub open spec fn works(
    button: ConflictButton,
    entry: Option<ConflictEntry>,
    edited: Seq<char>,
    remaining: nat,
) -> bool {
    match button {
        ConflictButton::Continue => remaining == 0,
        ConflictButton::Abort => true,
        ConflictButton::Use(choice) => entry matches Some(e) && (match choice {
            ConflictChoice::Ours => e.ours is Some,
            ConflictChoice::Theirs => e.theirs is Some,
        }),
        ConflictButton::Save => entry matches Some(e) && !e.is_binary,
        ConflictButton::Mergetool => entry is Some,
        ConflictButton::AllRegions(_) => entry matches Some(e) && !e.is_binary && regions(
            edited,
        ).len() > 0,
        ConflictButton::OneRegion(i, _) => entry matches Some(e) && !e.is_binary && i < regions(
            edited,
        ).len(),
    }
}

/// Whether an intent is what a button asks for.
pub open spec fn asks_for(
    intent: ConflictIntent,
    button: ConflictButton,
    path: Seq<char>,
    edited: Seq<char>,
) -> bool {
    match button {
        ConflictButton::Use(choice) => intent matches ConflictIntent::UseFile(p, c) && p@ == path && c
            == choice,
        ConflictButton::Save => intent matches ConflictIntent::SaveManual(p, text) && p@ == path
            && text@ == edited,
        ConflictButton::Mergetool => intent matches ConflictIntent::LaunchMergetool(p) && p@ == path,
        ConflictButton::AllRegions(r) => intent matches ConflictIntent::ResolveEditorAll(p, c) && p@
            == path && c == r,
        ConflictButton::OneRegion(i, r) => intent matches ConflictIntent::ResolveEditorRegion(p, k, c)
            && p@ == path && k == i && c == r,
        ConflictButton::Continue => intent is Continue,
        ConflictButton::Abort => intent is Abort,
    }
}

fn enabled(
    button: ConflictButton,
    entry: Option<&ConflictEntry>,
    edited: &str,
    remaining: usize,
) -> (r: bool)
    ensures
        r == works(
            button,
            match entry {
                Some(e) => Some(*e),
                None => None,
            },
            edited@,
            remaining as nat,
        ),
{
    match button {
        ConflictButton::Continue => remaining == 0,
        ConflictButton::Abort => true,
        _ => match entry {
            None => false,
            Some(e) => match button {
                ConflictButton::Use(ConflictChoice::Ours) => e.ours.is_some(),
                ConflictButton::Use(ConflictChoice::Theirs) => e.theirs.is_some(),
                ConflictButton::Save => !e.is_binary,
                ConflictButton::Mergetool => true,
                ConflictButton::AllRegions(_) => !e.is_binary && ConflictMarkers::scan(
                    edited,
                ).count() > 0,
                ConflictButton::OneRegion(i, _) => !e.is_binary && i < ConflictMarkers::scan(
                    edited,
                ).count(),
                _ => false,
            },
        },
    }
}

/// What a click asks for, if the button works.
pub fn click(
    button: ConflictButton,
    entry: Option<&ConflictEntry>,
    edited: &str,
    remaining: usize,
) -> (out: Option<ConflictIntent>)
    ensures
        out is Some <==> works(
            button,
            match entry {
                Some(e) => Some(*e),
                None => None,
            },
            edited@,
            remaining as nat,
        ),
        out matches Some(intent) ==> asks_for(
            intent,
            button,
            match entry {
                Some(e) => e.path@,
                None => Seq::empty(),
            },
            edited@,
        ),
{
    if !enabled(button, entry, edited, remaining) {
        return None;
    }
    match button {
        ConflictButton::Continue => {
            return Some(ConflictIntent::Continue);
        },
        ConflictButton::Abort => {
            return Some(ConflictIntent::Abort);
        },
        _ => {},
    }
    match entry {
        None => None,
        Some(e) => {
            let path = e.path.clone();
            match button {
                ConflictButton::Use(choice) => Some(ConflictIntent::UseFile(path, choice)),
                ConflictButton::Save => Some(ConflictIntent::SaveManual(path, edited.to_string())),
                ConflictButton::Mergetool => Some(ConflictIntent::LaunchMergetool(path)),
                ConflictButton::AllRegions(r) => Some(ConflictIntent::ResolveEditorAll(path, r)),
                ConflictButton::OneRegion(i, r) => Some(
                    ConflictIntent::ResolveEditorRegion(path, i, r),
                ),
                ConflictButton::Continue => Some(ConflictIntent::Continue),
                ConflictButton::Abort => Some(ConflictIntent::Abort),
            }
        },
    }
}

} // verus!
