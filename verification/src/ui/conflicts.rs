//! The conflict resolver window: what it says about an operation, which file
//! it shows, and what its actions do to the text being edited.

use vstd::prelude::*;

use crate::git::{ConflictBlob, ConflictChoice, ConflictEntry, RepoState};
use crate::paths::{is_path, opt_plain, plain, same_path};
use crate::text::{
    chars_of, decimal, digits, lines, lines_of, opt_view, string_of, trim, trimmed, views,
};
use crate::ui::markers::{
    is_marker, regions, replaced, resolve_all_regions_in_editor, resolve_region_in_editor, resolved,
    side, starts_with_marker, EditorResolution,
};

verus! {

/// What an operation is called.
pub open spec fn operation(state: RepoState) -> Seq<char> {
    match state {
        RepoState::Merge => "Merge"@,
        RepoState::CherryPick | RepoState::CherryPickSequence => "Cherry-pick"@,
        RepoState::Revert | RepoState::RevertSequence => "Revert"@,
        RepoState::Rebase
        | RepoState::RebaseInteractive
        | RepoState::RebaseMerge
        | RepoState::ApplyMailbox
        | RepoState::ApplyMailboxOrRebase => "Rebase"@,
        RepoState::Clean | RepoState::Bisect => "Git operation"@,
    }
}

/// What an operation is called.
pub fn operation_name(state: RepoState) -> (out: &'static str)
    ensures
        out@ == operation(state),
{
    match state {
        RepoState::Merge => "Merge",
        RepoState::CherryPick | RepoState::CherryPickSequence => "Cherry-pick",
        RepoState::Revert | RepoState::RevertSequence => "Revert",
        RepoState::Rebase
        | RepoState::RebaseInteractive
        | RepoState::RebaseMerge
        | RepoState::ApplyMailbox
        | RepoState::ApplyMailboxOrRebase => "Rebase",
        RepoState::Clean | RepoState::Bisect => "Git operation",
    }
}

/// The window's title.
pub fn conflict_title(state: RepoState, rebase_summary: Option<&str>) -> (out: String)
    ensures
        out@ == (if rebase_summary is Some {
            "Conflict Resolver · Rebase"@
        } else {
            "Conflict Resolver · "@ + operation(state)
        }),
{
    if rebase_summary.is_some() {
        "Conflict Resolver · Rebase".to_string()
    } else {
        let mut out: String = "Conflict Resolver · ".to_string();
        out.append(operation_name(state));
        out
    }
}

/// The ending of a plural.
pub open spec fn plural(n: nat) -> Seq<char> {
    if n == 1 {
        ""@
    } else {
        "s"@
    }
}

/// The ending of a plural.
pub fn plural_ending(n: usize) -> (out: &'static str)
    ensures
        out@ == plural(n as nat),
{
    if n == 1 {
        ""
    } else {
        "s"
    }
}

/// How far an operation is.
pub fn operation_summary(state: RepoState, conflict_count: usize) -> (out: String)
    ensures
        out@ == (if conflict_count == 0 {
            operation(state)
                + " is ready to continue. Review the result, then continue or abort."@
        } else {
            operation(state) + " · "@ + digits(conflict_count as nat) + " conflicted file"@
                + plural(conflict_count as nat)
        }),
{
    let mut out: String = operation_name(state).to_string();
    if conflict_count == 0 {
        out.append(" is ready to continue. Review the result, then continue or abort.");
    } else {
        out.append(" · ");
        out.append(decimal(conflict_count as u64).as_str());
        out.append(" conflicted file");
        out.append(plural_ending(conflict_count));
    }
    out
}

/// How far an interactive rebase is: the step that comes next, of all steps.
pub fn rebase_summary(branch: &str, next_index: usize, steps: usize) -> (out: String)
    ensures
        out@ == "Interactive rebase on "@ + branch@ + " · step "@ + digits(
            if next_index < steps {
                (next_index + 1) as nat
            } else {
                steps as nat
            },
        ) + " of "@ + digits(steps as nat),
{
    let step: usize = if next_index < steps {
        next_index + 1
    } else {
        steps
    };
    let mut out: String = "Interactive rebase on ".to_string();
    out.append(branch);
    out.append(" · step ");
    out.append(decimal(step as u64).as_str());
    out.append(" of ");
    out.append(decimal(steps as u64).as_str());
    out
}

/// Whether the window has to look for conflicts at all: not in a clean
/// repository without a rebase session.
pub fn may_have_conflicts(state: RepoState, rebasing: bool) -> (r: bool)
    ensures
        r == (state != RepoState::Clean || rebasing),
{
    state != RepoState::Clean || rebasing
}

/// Whether the operation can be continued.
pub fn can_continue(conflicts: &[ConflictEntry]) -> (r: bool)
    ensures
        r == (conflicts@.len() == 0),
{
    conflicts.len() == 0
}

/// How the sides of a conflict are called during an operation.
pub struct SideText {
    pub ours_short: Seq<char>,
    pub theirs_short: Seq<char>,
    pub ours_long: Seq<char>,
    pub theirs_long: Seq<char>,
    pub op_hint: Option<Seq<char>>,
}

/// How the sides of a conflict are called during an operation. In a rebase
/// the usual sides are reversed.
pub open spec fn side_text(state: RepoState, head_branch: Option<Seq<char>>) -> SideText {
    let suffix = match head_branch {
        Some(b) => " ("@ + b + ")"@,
        None => Seq::empty(),
    };
    match state {
        RepoState::Merge => SideText {
            ours_short: "Ours"@,
            theirs_short: "Theirs"@,
            ours_long: "Ours — current branch"@ + suffix,
            theirs_long: "Theirs — being merged in"@,
            op_hint: Some("merge: keeping ours means keeping your branch"@),
        },
        RepoState::CherryPick | RepoState::CherryPickSequence => SideText {
            ours_short: "Ours"@,
            theirs_short: "Theirs"@,
            ours_long: "Ours — current tree"@ + suffix,
            theirs_long: "Theirs — the picked commit"@,
            op_hint: Some("cherry-pick: theirs = the change you're applying"@),
        },
        RepoState::Revert | RepoState::RevertSequence => SideText {
            ours_short: "Ours"@,
            theirs_short: "Theirs"@,
            ours_long: "Ours — current tree"@ + suffix,
            theirs_long: "Theirs — undo of the reverted commit"@,
            op_hint: Some("revert: theirs = the removal you're applying"@),
        },
        RepoState::Rebase
        | RepoState::RebaseInteractive
        | RepoState::RebaseMerge
        | RepoState::ApplyMailbox
        | RepoState::ApplyMailboxOrRebase => SideText {
            ours_short: "Base"@,
            theirs_short: "Your change"@,
            ours_long: "Ours — target branch + already-applied commits"@,
            theirs_long: "Theirs — YOUR commit being replayed"@,
            op_hint: Some("rebase reverses the usual sides: \"theirs\" is your own work"@),
        },
        RepoState::Clean | RepoState::Bisect => SideText {
            ours_short: "Ours"@,
            theirs_short: "Theirs"@,
            ours_long: "Ours — current tree"@ + suffix,
            theirs_long: "Theirs — incoming change"@,
            op_hint: None,
        },
    }
}

/// Context-specific labels of the sides, so that nobody has to remember
/// which is which per operation.
#[derive(Clone, Debug, PartialEq, Eq)]
pub struct SideLabels {
    pub ours_short: String,
    pub theirs_short: String,
    /// Long label with extra context, such as the branch.
    pub ours_long: String,
    pub theirs_long: String,
    /// Optional one-line hint about the operation.
    pub op_hint: Option<String>,
}

impl View for SideLabels {
    type V = SideText;

    open spec fn view(&self) -> SideText {
        SideText {
            ours_short: self.ours_short@,
            theirs_short: self.theirs_short@,
            ours_long: self.ours_long@,
            theirs_long: self.theirs_long@,
            op_hint: opt_view(self.op_hint),
        }
    }
}

fn with_suffix(label: &str, suffix: &str) -> (out: String)
    ensures
        out@ == label@ + suffix@,
{
    let mut out: String = label.to_string();
    out.append(suffix);
    out
}

impl SideLabels {
    /// The labels for an operation on a branch.
    pub fn resolve(state: RepoState, head_branch: Option<&str>) -> (out: Self)
        ensures
            out@ == side_text(
                state,
                match head_branch {
                    Some(b) => Some(b@),
                    None => None,
                },
            ),
    {
        let mut suffix: String = String::new();
        if let Some(b) = head_branch {
            suffix = " (".to_string();
            suffix.append(b);
            suffix.append(")");
        }
        match state {
            RepoState::Merge => SideLabels {
                ours_short: "Ours".to_string(),
                theirs_short: "Theirs".to_string(),
                ours_long: with_suffix("Ours — current branch", suffix.as_str()),
                theirs_long: "Theirs — being merged in".to_string(),
                op_hint: Some("merge: keeping ours means keeping your branch".to_string()),
            },
            RepoState::CherryPick | RepoState::CherryPickSequence => SideLabels {
                ours_short: "Ours".to_string(),
                theirs_short: "Theirs".to_string(),
                ours_long: with_suffix("Ours — current tree", suffix.as_str()),
                theirs_long: "Theirs — the picked commit".to_string(),
                op_hint: Some("cherry-pick: theirs = the change you're applying".to_string()),
            },
            RepoState::Revert | RepoState::RevertSequence => SideLabels {
                ours_short: "Ours".to_string(),
                theirs_short: "Theirs".to_string(),
                ours_long: with_suffix("Ours — current tree", suffix.as_str()),
                theirs_long: "Theirs — undo of the reverted commit".to_string(),
                op_hint: Some("revert: theirs = the removal you're applying".to_string()),
            },
            RepoState::Rebase
            | RepoState::RebaseInteractive
            | RepoState::RebaseMerge
            | RepoState::ApplyMailbox
            | RepoState::ApplyMailboxOrRebase => SideLabels {
                ours_short: "Base".to_string(),
                theirs_short: "Your change".to_string(),
                ours_long: "Ours — target branch + already-applied commits".to_string(),
                theirs_long: "Theirs — YOUR commit being replayed".to_string(),
                op_hint: Some(
                    "rebase reverses the usual sides: \"theirs\" is your own work".to_string(),
                ),
            },
            RepoState::Clean | RepoState::Bisect => SideLabels {
                ours_short: "Ours".to_string(),
                theirs_short: "Theirs".to_string(),
                ours_long: with_suffix("Ours — current tree", suffix.as_str()),
                theirs_long: "Theirs — incoming change".to_string(),
                op_hint: None,
            },
        }
    }
}

/// How many lines a text has.
pub fn line_count(text: &str) -> (n: usize)
    ensures
        n == lines(text@).len(),
{
    let all = lines_of(text);
    proof {
        assert(views(all@).len() == all@.len());
    }
    all.len()
}

/// The first line of a text, where it has one.
pub open spec fn first_line(s: Seq<char>) -> Seq<char> {
    if lines(s).len() > 0 {
        lines(s)[0]
    } else {
        Seq::empty()
    }
}

/// A glimpse of a text: its first line, cut after 72 characters.
pub open spec fn glimpse(s: Seq<char>) -> Seq<char> {
    let first = trim(first_line(s));
    if first.len() == 0 {
        "(empty)"@
    } else if first.len() > 72 {
        first.take(72) + "..."@
    } else {
        first
    }
}

/// A glimpse of a text: its first line, cut after 72 characters.
pub fn snippet(text: &str) -> (out: String)
    ensures
        out@ == glimpse(text@),
{
    let all = lines_of(text);
    proof {
        assert(views(all@).len() == all@.len());
    }
    let first: String = if all.len() > 0 {
        proof {
            assert(views(all@)[0] == all@[0]@);
        }
        trimmed(all[0].as_str())
    } else {
        trimmed("")
    };
    proof {
        reveal_strlit("");
        assert(all@.len() == 0 ==> ""@ == Seq::<char>::empty());
    }
    let chars = chars_of(first.as_str());
    if chars.len() == 0 {
        "(empty)".to_string()
    } else if chars.len() > 72 {
        let mut out = string_of(&chars, 0, 72);
        out.append("...");
        proof {
            assert(chars@.subrange(0, 72) == chars@.take(72));
        }
        out
    } else {
        first
    }
}

/// How the sizes of a block's sides are told.
pub fn region_heading(ours: &str, theirs: &str) -> (out: String)
    ensures
        out@ == digits(lines(ours@).len()) + " line"@ + plural(lines(ours@).len()) + " vs "@
            + digits(lines(theirs@).len()) + " line"@ + plural(lines(theirs@).len()),
{
    let a: usize = line_count(ours);
    let b: usize = line_count(theirs);
    let mut out: String = decimal(a as u64);
    out.append(" line");
    out.append(plural_ending(a));
    out.append(" vs ");
    out.append(decimal(b as u64).as_str());
    out.append(" line");
    out.append(plural_ending(b));
    out
}

/// Whether a file is ready to save, by the number of its conflict blocks.
pub fn region_badge(count: usize) -> (out: String)
    ensures
        out@ == (if count == 0 {
            "✓ Ready to save"@
        } else if count == 1 {
            "⚠ 1 conflict region"@
        } else {
            "⚠ "@ + digits(count as nat) + " conflict regions"@
        }),
{
    if count == 0 {
        "✓ Ready to save".to_string()
    } else if count == 1 {
        "⚠ 1 conflict region".to_string()
    } else {
        let mut out: String = "⚠ ".to_string();
        out.append(decimal(count as u64).as_str());
        out.append(" conflict regions");
        out
    }
}

pub open spec fn choice_text(choice: ConflictChoice) -> Seq<char> {
    match choice {
        ConflictChoice::Ours => "ours"@,
        ConflictChoice::Theirs => "theirs"@,
    }
}

pub fn choice_label(choice: ConflictChoice) -> (out: &'static str)
    ensures
        out@ == choice_text(choice),
{
    match choice {
        ConflictChoice::Ours => "ours",
        ConflictChoice::Theirs => "theirs",
    }
}

/// Whether the entry `i` is the first one of a path.
pub open spec fn is_entry(conflicts: Seq<ConflictEntry>, path: Seq<char>, i: int) -> bool {
    &&& 0 <= i < conflicts.len()
    &&& plain(conflicts[i].path@) == plain(path)
    &&& forall|j: int| 0 <= j < i ==> plain((#[trigger] conflicts[j]).path@) != plain(path)
}

/// Whether a path is conflicted.
pub open spec fn is_conflicted(conflicts: Seq<ConflictEntry>, path: Seq<char>) -> bool {
    exists|i: int| 0 <= i < conflicts.len() && plain((#[trigger] conflicts[i]).path@) == plain(path)
}

/// The text of a side, where it has one.
pub open spec fn blob_text(blob: Option<ConflictBlob>) -> Option<Seq<char>> {
    match blob {
        Some(b) => opt_view(b.text),
        None => None,
    }
}

/// The text that is edited for an entry: the merged text, or else that of a
/// side, ours first.
pub open spec fn entry_text(entry: ConflictEntry) -> Seq<char> {
    match opt_view(entry.merged_text) {
        Some(t) => t,
        None => match blob_text(entry.ours) {
            Some(t) => t,
            None => match blob_text(entry.theirs) {
                Some(t) => t,
                None => Seq::empty(),
            },
        },
    }
}

/// The entry of a path, where there is one.
pub fn find_entry(conflicts: &[ConflictEntry], path: &str) -> (out: Option<usize>)
    ensures
        out matches Some(i) ==> is_entry(conflicts@, path@, i as int),
        out is Some == is_conflicted(conflicts@, path@),
{
    let mut i: usize = 0;
    while i < conflicts.len()
        invariant
            i <= conflicts@.len(),
            forall|j: int| 0 <= j < i ==> plain((#[trigger] conflicts@[j]).path@) != plain(path@),
        decreases conflicts.len() - i,
    {
        if same_path(conflicts[i].path.as_str(), path) {
            return Some(i);
        }
        i += 1;
    }
    None
}

fn blob_string(blob: &Option<ConflictBlob>) -> (out: Option<String>)
    ensures
        opt_view(out) == blob_text(*blob),
{
    match blob {
        Some(b) => match &b.text {
            Some(t) => Some(t.clone()),
            None => None,
        },
        None => None,
    }
}

/// The text that is edited for an entry.
pub fn editor_text(entry: &ConflictEntry) -> (out: String)
    ensures
        out@ == entry_text(*entry),
{
    if let Some(t) = &entry.merged_text {
        return t.clone();
    }
    if let Some(t) = blob_string(&entry.ours) {
        return t;
    }
    if let Some(t) = blob_string(&entry.theirs) {
        return t;
    }
    String::new()
}

/// What the window shows of a workspace's conflicts.
#[derive(Clone, Debug, PartialEq, Eq)]
pub struct ConflictPane {
    pub selected_conflict: Option<String>,
    /// The file whose text is edited.
    pub conflict_editor_path: Option<String>,
    pub conflict_editor_text: String,
}

impl ConflictPane {
    /// Whether a file is open in the editor.
    pub open spec fn is_open(&self, path: Seq<char>) -> bool {
        opt_plain(opt_view(self.conflict_editor_path)) == Some(plain(path))
    }

    /// The path of the editor once `path` is opened. One that is open already
    /// stays as it is written.
    pub open spec fn path_for(&self, path: Seq<char>) -> Seq<char> {
        if self.is_open(path) {
            opt_view(self.conflict_editor_path)->0
        } else {
            path
        }
    }

    /// The text that is edited once `path` is opened.
    pub open spec fn text_for(
        &self,
        conflicts: Seq<ConflictEntry>,
        path: Seq<char>,
        text: Seq<char>,
    ) -> bool {
        if self.is_open(path) {
            text == self.conflict_editor_text@
        } else if is_conflicted(conflicts, path) {
            forall|i: int| #[trigger] is_entry(conflicts, path, i) ==> text == entry_text(conflicts[i])
        } else {
            text == Seq::<char>::empty()
        }
    }
}

/// Opens a file in the editor. One that is open already keeps its edits.
pub fn ensure_conflict_editor(ws: &mut ConflictPane, conflicts: &[ConflictEntry], path: &str)
    ensures
        final(ws).selected_conflict == old(ws).selected_conflict,
        opt_view(final(ws).conflict_editor_path) == Some(old(ws).path_for(path@)),
        old(ws).text_for(conflicts@, path@, final(ws).conflict_editor_text@),
{
    if is_path(&ws.conflict_editor_path, path) {
        return;
    }
    let text: String = match find_entry(conflicts, path) {
        Some(i) => {
            proof {
                assert forall|j: int| #[trigger] is_entry(conflicts@, path@, j) implies j == i by {}
            }
            editor_text(&conflicts[i])
        },
        None => String::new(),
    };
    ws.conflict_editor_path = Some(path.to_owned());
    ws.conflict_editor_text = text;
}

/// The file that is selected once the conflicts are known: the one that was,
/// if it is still conflicted, or else the first.
pub open spec fn selection(
    selected: Option<Seq<char>>,
    conflicts: Seq<ConflictEntry>,
) -> Option<Seq<char>> {
    if selected is Some && is_conflicted(conflicts, selected->0) {
        selected
    } else if conflicts.len() > 0 {
        Some(conflicts[0].path@)
    } else {
        None
    }
}

/// Adapts the window to the conflicts of the repository.
pub fn sync_selected_conflict(ws: &mut ConflictPane, conflicts: &[ConflictEntry])
    ensures
        opt_view(final(ws).selected_conflict) == selection(
            opt_view(old(ws).selected_conflict),
            conflicts@,
        ),
        match opt_view(final(ws).selected_conflict) {
            Some(path) => {
                &&& opt_view(final(ws).conflict_editor_path) == Some(old(ws).path_for(path))
                &&& old(ws).text_for(conflicts@, path, final(ws).conflict_editor_text@)
            },
            None => {
                &&& final(ws).conflict_editor_path is None
                &&& final(ws).conflict_editor_text@.len() == 0
            },
        },
{
    let valid: bool = match &ws.selected_conflict {
        Some(path) => find_entry(conflicts, path.as_str()).is_some(),
        None => false,
    };
    if !valid {
        ws.selected_conflict = if conflicts.len() > 0 {
            Some(conflicts[0].path.clone())
        } else {
            None
        };
    }
    match ws.selected_conflict.clone() {
        Some(path) => {
            ensure_conflict_editor(ws, conflicts, path.as_str());
        },
        None => {
            ws.conflict_editor_path = None;
            ws.conflict_editor_text = String::new();
        },
    }
}

/// What was done to the editor's text, in words.
pub open spec fn resolution_action(one: bool, choice: EditorResolution) -> Seq<char> {
    match (one, choice) {
        (true, EditorResolution::Ours) => "Applied ours to one region"@,
        (true, EditorResolution::Theirs) => "Applied theirs to one region"@,
        (true, EditorResolution::Both) => "Applied both sides to one region"@,
        (false, EditorResolution::Ours) => "Applied ours to all regions"@,
        (false, EditorResolution::Theirs) => "Applied theirs to all regions"@,
        (false, EditorResolution::Both) => "Applied both sides to all regions"@,
    }
}

fn resolution_message(one: bool, choice: EditorResolution) -> (out: &'static str)
    ensures
        out@ == resolution_action(one, choice),
{
    match (one, choice) {
        (true, EditorResolution::Ours) => "Applied ours to one region",
        (true, EditorResolution::Theirs) => "Applied theirs to one region",
        (true, EditorResolution::Both) => "Applied both sides to one region",
        (false, EditorResolution::Ours) => "Applied ours to all regions",
        (false, EditorResolution::Theirs) => "Applied theirs to all regions",
        (false, EditorResolution::Both) => "Applied both sides to all regions",
    }
}

/// Resolves one block of the text being edited, or all of them. Says what was
/// done, or that there is no such block; the text then stays as it was.
pub fn apply_editor_resolution(
    ws: &mut ConflictPane,
    path: &str,
    region_index: Option<usize>,
    choice: EditorResolution,
) -> (out: Result<String, String>)
    ensures
        final(ws).selected_conflict == old(ws).selected_conflict,
        final(ws).conflict_editor_path == old(ws).conflict_editor_path,
        ({
            let text = old(ws).conflict_editor_text@;
            match region_index {
                Some(i) => if i < regions(text).len() {
                    let r = regions(text)[i as int];
                    &&& final(ws).conflict_editor_text@ == replaced(text, r, side(r, choice))
                    &&& out is Ok
                } else {
                    &&& final(ws).conflict_editor_text@ == text
                    &&& out is Err
                },
                None => {
                    &&& final(ws).conflict_editor_text@ == resolved(text, choice)
                    &&& out is Ok
                },
            }
        }),
        match out {
            Ok(message) => message@ == resolution_action(region_index is Some, choice) + " in "@
                + path@,
            Err(message) => message@
                == "editor conflict tool: conflict region no longer exists in the editor"@,
        },
{
    let updated: Option<String> = match region_index {
        Some(index) => resolve_region_in_editor(ws.conflict_editor_text.as_str(), index, choice),
        None => Some(resolve_all_regions_in_editor(ws.conflict_editor_text.as_str(), choice)),
    };
    match updated {
        Some(text) => {
            ws.conflict_editor_text = text;
            let mut message: String = resolution_message(
                region_index.is_some(),
                choice,
            ).to_string();
            message.append(" in ");
            message.append(path);
            Ok(message)
        },
        None => Err(
            "editor conflict tool: conflict region no longer exists in the editor".to_string(),
        ),
    }
}

/// What is told once the repository took a side of a file, or why it did not.
/// The editor is closed in either case.
pub fn finish_choice(
    ws: &mut ConflictPane,
    path: &str,
    choice: ConflictChoice,
    outcome: Result<(), String>,
) -> (out: Result<String, String>)
    ensures
        final(ws).selected_conflict == old(ws).selected_conflict,
        final(ws).conflict_editor_path is None,
        final(ws).conflict_editor_text == old(ws).conflict_editor_text,
        out is Ok == outcome is Ok,
        match out {
            Ok(message) => message@ == "Resolved "@ + path@ + " with "@ + choice_text(choice),
            Err(message) => message@ == "resolve conflict: "@ + outcome->Err_0@,
        },
{
    ws.conflict_editor_path = None;
    match outcome {
        Ok(_) => {
            let mut message: String = "Resolved ".to_string();
            message.append(path);
            message.append(" with ");
            message.append(choice_label(choice));
            Ok(message)
        },
        Err(reason) => Err(with_suffix("resolve conflict: ", reason.as_str())),
    }
}

/// What is told once the repository took an edited text, or why it did not.
/// The editor is closed in either case.
pub fn finish_manual(ws: &mut ConflictPane, path: &str, outcome: Result<(), String>) -> (out:
    Result<String, String>)
    ensures
        final(ws).selected_conflict == old(ws).selected_conflict,
        final(ws).conflict_editor_path is None,
        final(ws).conflict_editor_text == old(ws).conflict_editor_text,
        out is Ok == outcome is Ok,
        match out {
            Ok(message) => message@ == "Saved manual resolution for "@ + path@,
            Err(message) => message@ == "manual resolution: "@ + outcome->Err_0@,
        },
{
    ws.conflict_editor_path = None;
    match outcome {
        Ok(_) => Ok(with_suffix("Saved manual resolution for ", path)),
        Err(reason) => Err(with_suffix("manual resolution: ", reason.as_str())),
    }
}

/// How a line of the merged text is coloured.
#[derive(Clone, Copy, Debug, PartialEq, Eq, Structural)]
pub enum LineStyle {
    Normal,
    OursMarker,
    Ours,
    Split,
    Theirs,
    TheirsMarker,
}

/// Whether the line behind one of the given style stands in a block, and on
/// which side.
pub open spec fn side_behind(style: LineStyle) -> LineStyle {
    match style {
        LineStyle::OursMarker | LineStyle::Ours => LineStyle::Ours,
        LineStyle::Split | LineStyle::Theirs => LineStyle::Theirs,
        LineStyle::TheirsMarker | LineStyle::Normal => LineStyle::Normal,
    }
}

/// The style of a line that follows one of style `before`.
pub open spec fn style_after(before: LineStyle, line: Seq<char>) -> LineStyle {
    let side = side_behind(before);
    if is_marker(line, '<') {
        LineStyle::OursMarker
    } else if side == LineStyle::Normal {
        LineStyle::Normal
    } else if is_marker(line, '=') {
        LineStyle::Split
    } else if is_marker(line, '>') {
        LineStyle::TheirsMarker
    } else {
        side
    }
}

/// The style of the last of some lines.
pub open spec fn last_style(ls: Seq<Seq<char>>) -> LineStyle
    decreases ls.len(),
{
    if ls.len() == 0 {
        LineStyle::Normal
    } else {
        style_after(last_style(ls.drop_last()), ls.last())
    }
}

/// Cuts a merged text into its lines and says how each is coloured.
pub fn highlighted_lines(text: &str) -> (out: Vec<(String, LineStyle)>)
    ensures
        out@.len() == crate::text::split_inclusive(text@).len(),
        forall|i: int|
            0 <= i < out@.len() ==> {
                &&& (#[trigger] out@[i]).0@ == crate::text::split_inclusive(text@)[i]
                &&& out@[i].1 == last_style(crate::text::split_inclusive(text@).take(i + 1))
            },
{
    let all = crate::text::split_lines(text);
    let ghost parts = crate::text::split_inclusive(text@);
    let mut out: Vec<(String, LineStyle)> = Vec::new();
    let mut style = LineStyle::Normal;
    let mut i: usize = 0;
    while i < all.len()
        invariant
            i <= all@.len(),
            views(all@) == parts,
            out@.len() == i,
            style == last_style(parts.take(i as int)),
            forall|k: int|
                0 <= k < i ==> {
                    &&& (#[trigger] out@[k]).0@ == parts[k]
                    &&& out@[k].1 == last_style(parts.take(k + 1))
                },
        decreases all.len() - i,
    {
        let line = chars_of(all[i].as_str());
        proof {
            assert(parts.take(i + 1).drop_last() == parts.take(i as int));
            assert(views(all@)[i as int] == all@[i as int]@);
        }
        let side = match style {
            LineStyle::OursMarker | LineStyle::Ours => LineStyle::Ours,
            LineStyle::Split | LineStyle::Theirs => LineStyle::Theirs,
            LineStyle::TheirsMarker | LineStyle::Normal => LineStyle::Normal,
        };
        style =
        if starts_with_marker(&line, '<') {
            LineStyle::OursMarker
        } else if side == LineStyle::Normal {
            LineStyle::Normal
        } else if starts_with_marker(&line, '=') {
            LineStyle::Split
        } else if starts_with_marker(&line, '>') {
            LineStyle::TheirsMarker
        } else {
            side
        };
        out.push((all[i].clone(), style));
        i += 1;
    }
    out
}

} // verus!
