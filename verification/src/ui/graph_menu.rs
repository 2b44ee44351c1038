//! The menu of a commit in the graph, and that of the working tree.

use vstd::prelude::*;

use crate::actions::{CommitAction, ResetMode};
use crate::git::Oid;
use crate::ui::graph::{RefKind, RefLabel};

verus! {

/// An entry of a commit's menu. A number is the position of a branch among the
/// names of the commit.
#[derive(Debug, Clone, Copy, PartialEq, Eq, Structural)]
pub enum MenuEntry {
    Separator,
    Pull(usize),
    Push(usize),
    SetUpstream(usize),
    Checkout,
    CreateWorktree,
    CreateBranch,
    CherryPick,
    /// A submenu of the three resets of a branch.
    ResetMenu(usize),
    Revert,
    Amend,
    Drop,
    MoveUp,
    MoveDown,
    Rename(usize),
    Delete(usize),
    DeleteRemote(usize),
    CopySha,
    CopyShortSha,
    CreateTag,
    CreateAnnotatedTag,
}

/// The entries of the local branches at the head of the menu.
pub open spec fn sync_entries(refs: Seq<RefLabel>) -> Seq<MenuEntry>
    decreases refs.len(),
{
    if refs.len() == 0 {
        Seq::empty()
    } else if refs.last().kind == RefKind::LocalBranch {
        let i = (refs.len() - 1) as usize;
        sync_entries(refs.drop_last()) + seq![
            MenuEntry::Pull(i),
            MenuEntry::Push(i),
            MenuEntry::SetUpstream(i),
        ]
    } else {
        sync_entries(refs.drop_last())
    }
}

/// The submenus that reset a local branch.
pub open spec fn reset_entries(refs: Seq<RefLabel>) -> Seq<MenuEntry>
    decreases refs.len(),
{
    if refs.len() == 0 {
        Seq::empty()
    } else if refs.last().kind == RefKind::LocalBranch {
        reset_entries(refs.drop_last()).push(MenuEntry::ResetMenu((refs.len() - 1) as usize))
    } else {
        reset_entries(refs.drop_last())
    }
}

/// The entries that rename or delete a local branch.
pub open spec fn edit_entries(refs: Seq<RefLabel>) -> Seq<MenuEntry>
    decreases refs.len(),
{
    if refs.len() == 0 {
        Seq::empty()
    } else if refs.last().kind == RefKind::LocalBranch {
        let i = (refs.len() - 1) as usize;
        edit_entries(refs.drop_last()) + seq![MenuEntry::Rename(i), MenuEntry::Delete(i)]
    } else {
        edit_entries(refs.drop_last())
    }
}

/// The entries that delete a remote branch.
pub open spec fn remote_entries(refs: Seq<RefLabel>) -> Seq<MenuEntry>
    decreases refs.len(),
{
    if refs.len() == 0 {
        Seq::empty()
    } else if refs.last().kind == RefKind::RemoteBranch {
        remote_entries(refs.drop_last()).push(MenuEntry::DeleteRemote((refs.len() - 1) as usize))
    } else {
        remote_entries(refs.drop_last())
    }
}

/// Whether a local branch points to the commit.
pub open spec fn is_branch_tip(refs: Seq<RefLabel>) -> bool {
    exists|i: int| 0 <= i < refs.len() && (#[trigger] refs[i]).kind == RefKind::LocalBranch
}

/// The entries that every commit has.
pub open spec fn base_entries() -> Seq<MenuEntry> {
    seq![
        MenuEntry::Checkout,
        MenuEntry::CreateWorktree,
        MenuEntry::CreateBranch,
        MenuEntry::CherryPick,
    ]
}

/// The entries of the commit that is checked out.
pub open spec fn head_entries(is_head: bool) -> Seq<MenuEntry> {
    if is_head {
        seq![
            MenuEntry::Separator,
            MenuEntry::Amend,
            MenuEntry::Drop,
            MenuEntry::MoveUp,
            MenuEntry::MoveDown,
        ]
    } else {
        Seq::empty()
    }
}

/// The last entries of every menu.
pub open spec fn copy_entries() -> Seq<MenuEntry> {
    seq![
        MenuEntry::Separator,
        MenuEntry::CopySha,
        MenuEntry::CopyShortSha,
        MenuEntry::CreateTag,
        MenuEntry::CreateAnnotatedTag,
    ]
}

/// A separator where a local branch points to the commit.
pub open spec fn tip_separator(refs: Seq<RefLabel>) -> Seq<MenuEntry> {
    if is_branch_tip(refs) {
        seq![MenuEntry::Separator]
    } else {
        Seq::empty()
    }
}

/// The menu of a commit.
pub open spec fn menu_of(refs: Seq<RefLabel>, is_head: bool) -> Seq<MenuEntry> {
    sync_entries(refs) + tip_separator(refs) + base_entries() + reset_entries(refs)
        + seq![MenuEntry::Revert] + head_entries(is_head) + tip_separator(refs) + edit_entries(refs)
        + remote_entries(refs) + copy_entries()
}

fn has_local(refs: &[RefLabel]) -> (r: bool)
    ensures
        r == is_branch_tip(refs@),
{
    let mut i: usize = 0;
    while i < refs.len()
        invariant
            i <= refs@.len(),
            forall|k: int| 0 <= k < i ==> (#[trigger] refs@[k]).kind != RefKind::LocalBranch,
        decreases refs.len() - i,
    {
        if refs[i].kind == RefKind::LocalBranch {
            return true;
        }
        i += 1;
    }
    false
}

fn add_sync(refs: &[RefLabel], out: &mut Vec<MenuEntry>)
    ensures
        final(out)@ == old(out)@ + sync_entries(refs@),
{
    let ghost start = out@;
    let mut i: usize = 0;
    proof {
        assert(start + sync_entries(refs@.take(0)) =~= start);
    }
    while i < refs.len()
        invariant
            i <= refs@.len(),
            out@ == start + sync_entries(refs@.take(i as int)),
        decreases refs.len() - i,
    {
        let ghost before = out@;
        proof {
            assert(refs@.take(i + 1).drop_last() == refs@.take(i as int));
        }
        if refs[i].kind == RefKind::LocalBranch {
            out.push(MenuEntry::Pull(i));
            out.push(MenuEntry::Push(i));
            out.push(MenuEntry::SetUpstream(i));
            proof {
                assert(out@ =~= start + (sync_entries(refs@.take(i as int)) + seq![
                    MenuEntry::Pull(i),
                    MenuEntry::Push(i),
                    MenuEntry::SetUpstream(i),
                ]));
            }
        }
        i += 1;
    }
    proof {
        assert(refs@.take(refs@.len() as int) == refs@);
    }
}

fn add_resets(refs: &[RefLabel], out: &mut Vec<MenuEntry>)
    ensures
        final(out)@ == old(out)@ + reset_entries(refs@),
{
    let ghost start = out@;
    let mut i: usize = 0;
    proof {
        assert(start + reset_entries(refs@.take(0)) =~= start);
    }
    while i < refs.len()
        invariant
            i <= refs@.len(),
            out@ == start + reset_entries(refs@.take(i as int)),
        decreases refs.len() - i,
    {
        proof {
            assert(refs@.take(i + 1).drop_last() == refs@.take(i as int));
        }
        if refs[i].kind == RefKind::LocalBranch {
            out.push(MenuEntry::ResetMenu(i));
            proof {
                assert(out@ =~= start + reset_entries(refs@.take(i as int)).push(
                    MenuEntry::ResetMenu(i),
                ));
            }
        }
        i += 1;
    }
    proof {
        assert(refs@.take(refs@.len() as int) == refs@);
    }
}

fn add_edits(refs: &[RefLabel], out: &mut Vec<MenuEntry>)
    ensures
        final(out)@ == old(out)@ + edit_entries(refs@),
{
    let ghost start = out@;
    let mut i: usize = 0;
    proof {
        assert(start + edit_entries(refs@.take(0)) =~= start);
    }
    while i < refs.len()
        invariant
            i <= refs@.len(),
            out@ == start + edit_entries(refs@.take(i as int)),
        decreases refs.len() - i,
    {
        proof {
            assert(refs@.take(i + 1).drop_last() == refs@.take(i as int));
        }
        if refs[i].kind == RefKind::LocalBranch {
            out.push(MenuEntry::Rename(i));
            out.push(MenuEntry::Delete(i));
            proof {
                assert(out@ =~= start + (edit_entries(refs@.take(i as int)) + seq![
                    MenuEntry::Rename(i),
                    MenuEntry::Delete(i),
                ]));
            }
        }
        i += 1;
    }
    proof {
        assert(refs@.take(refs@.len() as int) == refs@);
    }
}

fn add_remotes(refs: &[RefLabel], out: &mut Vec<MenuEntry>)
    ensures
        final(out)@ == old(out)@ + remote_entries(refs@),
{
    let ghost start = out@;
    let mut i: usize = 0;
    proof {
        assert(start + remote_entries(refs@.take(0)) =~= start);
    }
    while i < refs.len()
        invariant
            i <= refs@.len(),
            out@ == start + remote_entries(refs@.take(i as int)),
        decreases refs.len() - i,
    {
        proof {
            assert(refs@.take(i + 1).drop_last() == refs@.take(i as int));
        }
        if refs[i].kind == RefKind::RemoteBranch {
            out.push(MenuEntry::DeleteRemote(i));
            proof {
                assert(out@ =~= start + remote_entries(refs@.take(i as int)).push(
                    MenuEntry::DeleteRemote(i),
                ));
            }
        }
        i += 1;
    }
    proof {
        assert(refs@.take(refs@.len() as int) == refs@);
    }
}

/// The menu of a commit: what concerns the branches that point to it, what
/// every commit has, what only the checked-out commit has, and what deletes
/// branches.
pub fn commit_menu(refs: &[RefLabel], is_head: bool) -> (out: Vec<MenuEntry>)
    ensures
        out@ == menu_of(refs@, is_head),
        forall|e: MenuEntry| #[trigger] out@.contains(e) <==> belongs(e, refs@, is_head),
{
    let tip = has_local(refs);
    let n: usize = refs.len();
    let mut out: Vec<MenuEntry> = Vec::new();
    add_sync(refs, &mut out);
    if tip {
        out.push(MenuEntry::Separator);
    }
    proof {
        assert(out@ =~= sync_entries(refs@) + tip_separator(refs@));
    }
    out.push(MenuEntry::Checkout);
    out.push(MenuEntry::CreateWorktree);
    out.push(MenuEntry::CreateBranch);
    out.push(MenuEntry::CherryPick);
    proof {
        assert(out@ =~= sync_entries(refs@) + tip_separator(refs@) + base_entries());
    }
    add_resets(refs, &mut out);
    let ghost middle = out@;
    out.push(MenuEntry::Revert);
    proof {
        assert(out@ =~= middle + seq![MenuEntry::Revert]);
    }
    let ghost below = out@;
    if is_head {
        out.push(MenuEntry::Separator);
        out.push(MenuEntry::Amend);
        out.push(MenuEntry::Drop);
        out.push(MenuEntry::MoveUp);
        out.push(MenuEntry::MoveDown);
    }
    proof {
        assert(out@ =~= below + head_entries(is_head));
    }
    let ghost heads = out@;
    if tip {
        out.push(MenuEntry::Separator);
    }
    proof {
        assert(out@ =~= heads + tip_separator(refs@));
    }
    add_edits(refs, &mut out);
    add_remotes(refs, &mut out);
    let ghost rest = out@;
    out.push(MenuEntry::Separator);
    out.push(MenuEntry::CopySha);
    out.push(MenuEntry::CopyShortSha);
    out.push(MenuEntry::CreateTag);
    out.push(MenuEntry::CreateAnnotatedTag);
    proof {
        assert(out@ =~= rest + copy_entries());
        assert(out@ =~= menu_of(refs@, is_head));
        assert(refs@.len() == n);
        assert forall|e: MenuEntry| #[trigger] out@.contains(e) <==> belongs(e, refs@, is_head) by {
            law_menu_is_complete(refs@, is_head, e);
        }
    }
    out
}

/// The branch that an entry is about.
pub open spec fn branch_of(entry: MenuEntry) -> Option<usize> {
    match entry {
        MenuEntry::Pull(i) => Some(i),
        MenuEntry::Push(i) => Some(i),
        MenuEntry::SetUpstream(i) => Some(i),
        MenuEntry::ResetMenu(i) => Some(i),
        MenuEntry::Rename(i) => Some(i),
        MenuEntry::Delete(i) => Some(i),
        MenuEntry::DeleteRemote(i) => Some(i),
        _ => None,
    }
}

/// Whether an entry is about a branch of the commit, if it is about one.
pub open spec fn fits(entry: MenuEntry, refs: Seq<RefLabel>) -> bool {
    branch_of(entry) matches Some(i) ==> i < refs.len()
}

/// What an entry says, with the name of its branch. A separator says nothing.
pub open spec fn entry_text(entry: MenuEntry, branch: Seq<char>) -> Seq<char> {
    match entry {
        MenuEntry::Separator => Seq::empty(),
        MenuEntry::Pull(_) => "Pull '"@ + branch + "' (ff if possible)"@,
        MenuEntry::Push(_) => "Push '"@ + branch + "'"@,
        MenuEntry::SetUpstream(_) => "Set upstream for '"@ + branch + "'…"@,
        MenuEntry::Checkout => "Checkout this commit"@,
        MenuEntry::CreateWorktree => "Create worktree from commit…"@,
        MenuEntry::CreateBranch => "Create branch here…"@,
        MenuEntry::CherryPick => "Cherry-pick commit"@,
        MenuEntry::ResetMenu(_) => "Reset '"@ + branch + "' to this commit"@,
        MenuEntry::Revert => "Revert commit"@,
        MenuEntry::Amend => "Edit commit message (amend)"@,
        MenuEntry::Drop => "Drop commit"@,
        MenuEntry::MoveUp => "Move commit up"@,
        MenuEntry::MoveDown => "Move commit down"@,
        MenuEntry::Rename(_) => "Rename '"@ + branch + "'…"@,
        MenuEntry::Delete(_) => "Delete '"@ + branch + "'"@,
        MenuEntry::DeleteRemote(_) => "Delete remote '"@ + branch + "'"@,
        MenuEntry::CopySha => "Copy SHA"@,
        MenuEntry::CopyShortSha => "Copy short SHA"@,
        MenuEntry::CreateTag => "Create tag here…"@,
        MenuEntry::CreateAnnotatedTag => "Create annotated tag here…"@,
    }
}

fn around(before: &str, name: &str, after: &str) -> (out: String)
    ensures
        out@ == before@ + name@ + after@,
{
    let mut out: String = before.to_string();
    out.append(name);
    out.append(after);
    out
}

/// The name of the branch that an entry is about, or nothing.
pub open spec fn branch_name(entry: MenuEntry, refs: Seq<RefLabel>) -> Seq<char> {
    match branch_of(entry) {
        Some(i) => refs[i as int].short@,
        None => Seq::empty(),
    }
}

/// What an entry says.
pub fn entry_label(entry: MenuEntry, refs: &[RefLabel]) -> (out: String)
    requires
        fits(entry, refs@),
    ensures
        out@ == entry_text(entry, branch_name(entry, refs@)),
{
    match entry {
        MenuEntry::Separator => String::new(),
        MenuEntry::Pull(i) => around("Pull '", refs[i].short.as_str(), "' (ff if possible)"),
        MenuEntry::Push(i) => around("Push '", refs[i].short.as_str(), "'"),
        MenuEntry::SetUpstream(i) => around("Set upstream for '", refs[i].short.as_str(), "'…"),
        MenuEntry::Checkout => "Checkout this commit".to_string(),
        MenuEntry::CreateWorktree => "Create worktree from commit…".to_string(),
        MenuEntry::CreateBranch => "Create branch here…".to_string(),
        MenuEntry::CherryPick => "Cherry-pick commit".to_string(),
        MenuEntry::ResetMenu(i) => around("Reset '", refs[i].short.as_str(), "' to this commit"),
        MenuEntry::Revert => "Revert commit".to_string(),
        MenuEntry::Amend => "Edit commit message (amend)".to_string(),
        MenuEntry::Drop => "Drop commit".to_string(),
        MenuEntry::MoveUp => "Move commit up".to_string(),
        MenuEntry::MoveDown => "Move commit down".to_string(),
        MenuEntry::Rename(i) => around("Rename '", refs[i].short.as_str(), "'…"),
        MenuEntry::Delete(i) => around("Delete '", refs[i].short.as_str(), "'"),
        MenuEntry::DeleteRemote(i) => around("Delete remote '", refs[i].short.as_str(), "'"),
        MenuEntry::CopySha => "Copy SHA".to_string(),
        MenuEntry::CopyShortSha => "Copy short SHA".to_string(),
        MenuEntry::CreateTag => "Create tag here…".to_string(),
        MenuEntry::CreateAnnotatedTag => "Create annotated tag here…".to_string(),
    }
}

/// Whether an entry stands in the colour of a warning.
pub fn is_danger(entry: MenuEntry) -> (r: bool)
    ensures
        r == (entry is Delete || entry is DeleteRemote),
{
    match entry {
        MenuEntry::Delete(_) | MenuEntry::DeleteRemote(_) => true,
        _ => false,
    }
}

/// What a reset of the submenu says, and whether it is a danger.
pub fn reset_label(mode: ResetMode) -> (r: (&'static str, bool))
    ensures
        r.0@ == (match mode {
            ResetMode::Soft => "Soft  — keep working copy and index"@,
            ResetMode::Mixed => "Mixed — keep working copy, reset index"@,
            ResetMode::Hard => "Hard  — discard all changes"@,
        }),
        r.1 == (mode == ResetMode::Hard),
{
    match mode {
        ResetMode::Soft => ("Soft  — keep working copy and index", false),
        ResetMode::Mixed => ("Mixed — keep working copy, reset index", false),
        ResetMode::Hard => ("Hard  — discard all changes", true),
    }
}

/// Whether an action is what an entry asks for, on a commit and a branch.
pub open spec fn does(
    action: Option<CommitAction>,
    entry: MenuEntry,
    branch: Seq<char>,
    oid: Oid,
) -> bool {
    match entry {
        MenuEntry::Separator | MenuEntry::ResetMenu(_) => action is None,
        MenuEntry::Pull(_) => action matches Some(CommitAction::Pull { branch: b }) && b@ == branch,
        MenuEntry::Push(_) => action matches Some(CommitAction::Push { branch: b, force }) && b@
            == branch && !force,
        MenuEntry::SetUpstream(_) => action matches Some(CommitAction::SetUpstreamPrompt { branch: b })
            && b@ == branch,
        MenuEntry::Checkout => action == Some(CommitAction::Checkout(oid)),
        MenuEntry::CreateWorktree => action == Some(CommitAction::CreateWorktreePrompt(oid)),
        MenuEntry::CreateBranch => action == Some(CommitAction::CreateBranchPrompt(oid)),
        MenuEntry::CherryPick => action == Some(CommitAction::CherryPick(oid)),
        MenuEntry::Revert => action == Some(CommitAction::Revert(oid)),
        MenuEntry::Amend => action == Some(CommitAction::AmendMessagePrompt),
        MenuEntry::Drop => action == Some(CommitAction::DropCommitPrompt(oid)),
        MenuEntry::MoveUp => action == Some(CommitAction::MoveCommitUp(oid)),
        MenuEntry::MoveDown => action == Some(CommitAction::MoveCommitDown(oid)),
        MenuEntry::Rename(_) => action matches Some(CommitAction::RenameBranchPrompt { from }) && from@
            == branch,
        MenuEntry::Delete(_) => action matches Some(
            CommitAction::DeleteBranchPrompt { name, is_remote },
        ) && name@ == branch && !is_remote,
        MenuEntry::DeleteRemote(_) => action matches Some(
            CommitAction::DeleteBranchPrompt { name, is_remote },
        ) && name@ == branch && is_remote,
        MenuEntry::CopySha => action == Some(CommitAction::CopySha(oid)),
        MenuEntry::CopyShortSha => action == Some(CommitAction::CopyShortSha(oid)),
        MenuEntry::CreateTag => action == Some(
            CommitAction::CreateTagPrompt { at: oid, annotated: false },
        ),
        MenuEntry::CreateAnnotatedTag => action == Some(
            CommitAction::CreateTagPrompt { at: oid, annotated: true },
        ),
    }
}

/// What an entry asks for. A separator and a submenu ask for nothing.
pub fn entry_action(entry: MenuEntry, refs: &[RefLabel], oid: Oid) -> (action: Option<CommitAction>)
    requires
        fits(entry, refs@),
    ensures
        does(action, entry, branch_name(entry, refs@), oid),
        action is None <==> entry is Separator || entry is ResetMenu,
        entry is Checkout <==> action == Some(CommitAction::Checkout(oid)),
        entry is CreateWorktree <==> action == Some(CommitAction::CreateWorktreePrompt(oid)),
        entry is CreateBranch <==> action == Some(CommitAction::CreateBranchPrompt(oid)),
        entry is CherryPick <==> action == Some(CommitAction::CherryPick(oid)),
        entry is Revert <==> action == Some(CommitAction::Revert(oid)),
        entry is Amend <==> action == Some(CommitAction::AmendMessagePrompt),
        entry is Drop <==> action == Some(CommitAction::DropCommitPrompt(oid)),
        entry is MoveUp <==> action == Some(CommitAction::MoveCommitUp(oid)),
        entry is MoveDown <==> action == Some(CommitAction::MoveCommitDown(oid)),
        entry is CopySha <==> action == Some(CommitAction::CopySha(oid)),
        entry is CopyShortSha <==> action == Some(CommitAction::CopyShortSha(oid)),
        entry is CreateTag <==> action == Some(
            CommitAction::CreateTagPrompt { at: oid, annotated: false },
        ),
        entry is CreateAnnotatedTag <==> action == Some(
            CommitAction::CreateTagPrompt { at: oid, annotated: true },
        ),
        entry is Pull <==> action matches Some(CommitAction::Pull { .. }),
        entry is Push <==> action matches Some(CommitAction::Push { .. }),
        entry is SetUpstream <==> action matches Some(CommitAction::SetUpstreamPrompt { .. }),
        entry is Rename <==> action matches Some(CommitAction::RenameBranchPrompt { .. }),
        entry is Delete || entry is DeleteRemote <==> action matches Some(
            CommitAction::DeleteBranchPrompt { .. },
        ),
        entry matches MenuEntry::Pull(i) ==> (action matches Some(CommitAction::Pull { branch })
            && branch@ == refs@[i as int].short@),
        entry matches MenuEntry::Push(i) ==> (action matches Some(
            CommitAction::Push { branch, force },
        ) && branch@ == refs@[i as int].short@ && !force),
        entry matches MenuEntry::SetUpstream(i) ==> (action matches Some(
            CommitAction::SetUpstreamPrompt { branch },
        ) && branch@ == refs@[i as int].short@),
        entry matches MenuEntry::Rename(i) ==> (action matches Some(
            CommitAction::RenameBranchPrompt { from },
        ) && from@ == refs@[i as int].short@),
        entry matches MenuEntry::Delete(i) ==> (action matches Some(
            CommitAction::DeleteBranchPrompt { name, is_remote },
        ) && name@ == refs@[i as int].short@ && !is_remote),
        entry matches MenuEntry::DeleteRemote(i) ==> (action matches Some(
            CommitAction::DeleteBranchPrompt { name, is_remote },
        ) && name@ == refs@[i as int].short@ && is_remote),
{
    match entry {
        MenuEntry::Separator => None,
        MenuEntry::ResetMenu(_) => None,
        MenuEntry::Pull(i) => Some(CommitAction::Pull { branch: refs[i].short.clone() }),
        MenuEntry::Push(i) => Some(
            CommitAction::Push { branch: refs[i].short.clone(), force: false },
        ),
        MenuEntry::SetUpstream(i) => Some(
            CommitAction::SetUpstreamPrompt { branch: refs[i].short.clone() },
        ),
        MenuEntry::Checkout => Some(CommitAction::Checkout(oid)),
        MenuEntry::CreateWorktree => Some(CommitAction::CreateWorktreePrompt(oid)),
        MenuEntry::CreateBranch => Some(CommitAction::CreateBranchPrompt(oid)),
        MenuEntry::CherryPick => Some(CommitAction::CherryPick(oid)),
        MenuEntry::Revert => Some(CommitAction::Revert(oid)),
        MenuEntry::Amend => Some(CommitAction::AmendMessagePrompt),
        MenuEntry::Drop => Some(CommitAction::DropCommitPrompt(oid)),
        MenuEntry::MoveUp => Some(CommitAction::MoveCommitUp(oid)),
        MenuEntry::MoveDown => Some(CommitAction::MoveCommitDown(oid)),
        MenuEntry::Rename(i) => Some(
            CommitAction::RenameBranchPrompt { from: refs[i].short.clone() },
        ),
        MenuEntry::Delete(i) => Some(
            CommitAction::DeleteBranchPrompt { name: refs[i].short.clone(), is_remote: false },
        ),
        MenuEntry::DeleteRemote(i) => Some(
            CommitAction::DeleteBranchPrompt { name: refs[i].short.clone(), is_remote: true },
        ),
        MenuEntry::CopySha => Some(CommitAction::CopySha(oid)),
        MenuEntry::CopyShortSha => Some(CommitAction::CopyShortSha(oid)),
        MenuEntry::CreateTag => Some(CommitAction::CreateTagPrompt { at: oid, annotated: false }),
        MenuEntry::CreateAnnotatedTag => Some(
            CommitAction::CreateTagPrompt { at: oid, annotated: true },
        ),
    }
}

/// What a reset of the submenu asks for.
pub fn reset_action(branch: &str, mode: ResetMode, oid: Oid) -> (action: CommitAction)
    ensures
        action matches CommitAction::Reset { branch: b, mode: m, target } && b@ == branch@ && m
            == mode && target == oid,
{
    CommitAction::Reset { branch: branch.to_string(), mode, target: oid }
}

proof fn lemma_parts_fit(refs: Seq<RefLabel>, all: Seq<RefLabel>)
    requires
        refs.len() <= all.len() <= usize::MAX,
        forall|i: int| 0 <= i < refs.len() ==> refs[i] == #[trigger] all[i],
    ensures
        forall|k: int|
            0 <= k < sync_entries(refs).len() ==> is_offered(
                #[trigger] sync_entries(refs)[k],
                all,
            ),
        forall|k: int|
            0 <= k < reset_entries(refs).len() ==> is_offered(
                #[trigger] reset_entries(refs)[k],
                all,
            ),
        forall|k: int|
            0 <= k < edit_entries(refs).len() ==> is_offered(
                #[trigger] edit_entries(refs)[k],
                all,
            ),
        forall|k: int|
            0 <= k < remote_entries(refs).len() ==> is_offered(
                #[trigger] remote_entries(refs)[k],
                all,
            ),
    decreases refs.len(),
{
    if refs.len() > 0 {
        lemma_parts_fit(refs.drop_last(), all);
        let before = refs.drop_last();
        assert(refs.last() == all[refs.len() - 1]);
        assert forall|k: int| 0 <= k < sync_entries(refs).len() implies is_offered(
            #[trigger] sync_entries(refs)[k],
            all,
        ) by {
            if k < sync_entries(before).len() {
                assert(sync_entries(refs)[k] == sync_entries(before)[k]);
            }
        }
        assert forall|k: int| 0 <= k < reset_entries(refs).len() implies is_offered(
            #[trigger] reset_entries(refs)[k],
            all,
        ) by {
            if k < reset_entries(before).len() {
                assert(reset_entries(refs)[k] == reset_entries(before)[k]);
            }
        }
        assert forall|k: int| 0 <= k < edit_entries(refs).len() implies is_offered(
            #[trigger] edit_entries(refs)[k],
            all,
        ) by {
            if k < edit_entries(before).len() {
                assert(edit_entries(refs)[k] == edit_entries(before)[k]);
            }
        }
        assert forall|k: int| 0 <= k < remote_entries(refs).len() implies is_offered(
            #[trigger] remote_entries(refs)[k],
            all,
        ) by {
            if k < remote_entries(before).len() {
                assert(remote_entries(refs)[k] == remote_entries(before)[k]);
            }
        }
    }
}

/// Whether an entry is about a branch of the right kind, if it is about one.
pub open spec fn is_offered(entry: MenuEntry, refs: Seq<RefLabel>) -> bool {
    branch_of(entry) matches Some(i) ==> i < refs.len() && refs[i as int].kind == (if entry
        is DeleteRemote {
        RefKind::RemoteBranch
    } else {
        RefKind::LocalBranch
    })
}

/// Every entry of a menu is about nothing but a branch of its commit: a
/// remote branch where it deletes a remote branch, else a local one.
pub proof fn law_menu_names_branches(refs: Seq<RefLabel>, is_head: bool, k: int)
    requires
        refs.len() <= usize::MAX,
        0 <= k < menu_of(refs, is_head).len(),
    ensures
        is_offered(menu_of(refs, is_head)[k], refs),
{
    lemma_parts_fit(refs, refs);
}

/// The labels are told apart by a few of their characters.
proof fn lemma_labels()
    ensures
        "Checkout this commit"@.len() == 20 && "Checkout this commit"@[0] == 'C' && "Checkout this commit"@[1] == 'h' && "Checkout this commit"@[2] == 'e' && "Checkout this commit"@[3] == 'c' && "Checkout this commit"@[5] == 'o' && "Checkout this commit"@[7] == 't' && "Checkout this commit"@[12] == 's',
        "Create worktree from commit…"@.len() == 28 && "Create worktree from commit…"@[0] == 'C' && "Create worktree from commit…"@[1] == 'r' && "Create worktree from commit…"@[2] == 'e' && "Create worktree from commit…"@[3] == 'a' && "Create worktree from commit…"@[5] == 'e' && "Create worktree from commit…"@[7] == 'w' && "Create worktree from commit…"@[12] == 'r',
        "Create branch here…"@.len() == 19 && "Create branch here…"@[0] == 'C' && "Create branch here…"@[1] == 'r' && "Create branch here…"@[2] == 'e' && "Create branch here…"@[3] == 'a' && "Create branch here…"@[5] == 'e' && "Create branch here…"@[7] == 'b' && "Create branch here…"@[12] == 'h',
        "Cherry-pick commit"@.len() == 18 && "Cherry-pick commit"@[0] == 'C' && "Cherry-pick commit"@[1] == 'h' && "Cherry-pick commit"@[2] == 'e' && "Cherry-pick commit"@[3] == 'r' && "Cherry-pick commit"@[5] == 'y' && "Cherry-pick commit"@[7] == 'p' && "Cherry-pick commit"@[12] == 'c',
        "Revert commit"@.len() == 13 && "Revert commit"@[0] == 'R' && "Revert commit"@[1] == 'e' && "Revert commit"@[2] == 'v' && "Revert commit"@[3] == 'e' && "Revert commit"@[5] == 't' && "Revert commit"@[7] == 'c' && "Revert commit"@[12] == 't',
        "Edit commit message (amend)"@.len() == 27 && "Edit commit message (amend)"@[0] == 'E' && "Edit commit message (amend)"@[1] == 'd' && "Edit commit message (amend)"@[2] == 'i' && "Edit commit message (amend)"@[3] == 't' && "Edit commit message (amend)"@[5] == 'c' && "Edit commit message (amend)"@[7] == 'm' && "Edit commit message (amend)"@[12] == 'm',
        "Drop commit"@.len() == 11 && "Drop commit"@[0] == 'D' && "Drop commit"@[1] == 'r' && "Drop commit"@[2] == 'o' && "Drop commit"@[3] == 'p' && "Drop commit"@[5] == 'c' && "Drop commit"@[7] == 'm',
        "Move commit up"@.len() == 14 && "Move commit up"@[0] == 'M' && "Move commit up"@[1] == 'o' && "Move commit up"@[2] == 'v' && "Move commit up"@[3] == 'e' && "Move commit up"@[5] == 'c' && "Move commit up"@[7] == 'm' && "Move commit up"@[12] == 'u',
        "Move commit down"@.len() == 16 && "Move commit down"@[0] == 'M' && "Move commit down"@[1] == 'o' && "Move commit down"@[2] == 'v' && "Move commit down"@[3] == 'e' && "Move commit down"@[5] == 'c' && "Move commit down"@[7] == 'm' && "Move commit down"@[12] == 'd',
        "Copy SHA"@.len() == 8 && "Copy SHA"@[0] == 'C' && "Copy SHA"@[1] == 'o' && "Copy SHA"@[2] == 'p' && "Copy SHA"@[3] == 'y' && "Copy SHA"@[5] == 'S' && "Copy SHA"@[7] == 'A',
        "Copy short SHA"@.len() == 14 && "Copy short SHA"@[0] == 'C' && "Copy short SHA"@[1] == 'o' && "Copy short SHA"@[2] == 'p' && "Copy short SHA"@[3] == 'y' && "Copy short SHA"@[5] == 's' && "Copy short SHA"@[7] == 'o' && "Copy short SHA"@[12] == 'H',
        "Create tag here…"@.len() == 16 && "Create tag here…"@[0] == 'C' && "Create tag here…"@[1] == 'r' && "Create tag here…"@[2] == 'e' && "Create tag here…"@[3] == 'a' && "Create tag here…"@[5] == 'e' && "Create tag here…"@[7] == 't' && "Create tag here…"@[12] == 'e',
        "Create annotated tag here…"@.len() == 26 && "Create annotated tag here…"@[0] == 'C' && "Create annotated tag here…"@[1] == 'r' && "Create annotated tag here…"@[2] == 'e' && "Create annotated tag here…"@[3] == 'a' && "Create annotated tag here…"@[5] == 'e' && "Create annotated tag here…"@[7] == 'a' && "Create annotated tag here…"@[12] == 'a',
        "Pull '"@.len() == 6 && "Pull '"@[0] == 'P' && "Pull '"@[1] == 'u' && "Pull '"@[2] == 'l' && "Pull '"@[3] == 'l' && "Pull '"@[5] == '\'',
        "Push '"@.len() == 6 && "Push '"@[0] == 'P' && "Push '"@[1] == 'u' && "Push '"@[2] == 's' && "Push '"@[3] == 'h' && "Push '"@[5] == '\'',
        "Set upstream for '"@.len() == 18 && "Set upstream for '"@[0] == 'S' && "Set upstream for '"@[1] == 'e' && "Set upstream for '"@[2] == 't' && "Set upstream for '"@[3] == ' ' && "Set upstream for '"@[5] == 'p' && "Set upstream for '"@[7] == 't' && "Set upstream for '"@[12] == ' ',
        "Rename '"@.len() == 8 && "Rename '"@[0] == 'R' && "Rename '"@[1] == 'e' && "Rename '"@[2] == 'n' && "Rename '"@[3] == 'a' && "Rename '"@[5] == 'e' && "Rename '"@[7] == '\'',
        "Delete '"@.len() == 8 && "Delete '"@[0] == 'D' && "Delete '"@[1] == 'e' && "Delete '"@[2] == 'l' && "Delete '"@[3] == 'e' && "Delete '"@[5] == 'e' && "Delete '"@[7] == '\'',
        "Delete remote '"@.len() == 15 && "Delete remote '"@[0] == 'D' && "Delete remote '"@[1] == 'e' && "Delete remote '"@[2] == 'l' && "Delete remote '"@[3] == 'e' && "Delete remote '"@[5] == 'e' && "Delete remote '"@[7] == 'r' && "Delete remote '"@[12] == 'e',
        "Reset '"@.len() == 7 && "Reset '"@[0] == 'R' && "Reset '"@[1] == 'e' && "Reset '"@[2] == 's' && "Reset '"@[3] == 'e' && "Reset '"@[5] == ' ',
{
    reveal_strlit("Checkout this commit");
    reveal_strlit("Create worktree from commit…");
    reveal_strlit("Create branch here…");
    reveal_strlit("Cherry-pick commit");
    reveal_strlit("Revert commit");
    reveal_strlit("Edit commit message (amend)");
    reveal_strlit("Drop commit");
    reveal_strlit("Move commit up");
    reveal_strlit("Move commit down");
    reveal_strlit("Copy SHA");
    reveal_strlit("Copy short SHA");
    reveal_strlit("Create tag here…");
    reveal_strlit("Create annotated tag here…");
    reveal_strlit("Pull '");
    reveal_strlit("Push '");
    reveal_strlit("Set upstream for '");
    reveal_strlit("Rename '");
    reveal_strlit("Delete '");
    reveal_strlit("Delete remote '");
    reveal_strlit("Reset '");
}

/// What an entry says is what it does: the label alone tells which action the
/// entry asks for, on the commit of the row or on the branch that the label
/// names.
pub proof fn law_labels_tell_actions(
    entry: MenuEntry,
    branch: Seq<char>,
    action: Option<CommitAction>,
    oid: Oid,
    label: Seq<char>,
)
    requires
        does(action, entry, branch, oid),
        label == entry_text(entry, branch),
    ensures
        label == "Checkout this commit"@ ==> action == Some(CommitAction::Checkout(oid)),
        label == "Create worktree from commit…"@ ==> action == Some(CommitAction::CreateWorktreePrompt(oid)),
        label == "Create branch here…"@ ==> action == Some(CommitAction::CreateBranchPrompt(oid)),
        label == "Cherry-pick commit"@ ==> action == Some(CommitAction::CherryPick(oid)),
        label == "Revert commit"@ ==> action == Some(CommitAction::Revert(oid)),
        label == "Edit commit message (amend)"@ ==> action == Some(CommitAction::AmendMessagePrompt),
        label == "Drop commit"@ ==> action == Some(CommitAction::DropCommitPrompt(oid)),
        label == "Move commit up"@ ==> action == Some(CommitAction::MoveCommitUp(oid)),
        label == "Move commit down"@ ==> action == Some(CommitAction::MoveCommitDown(oid)),
        label == "Copy SHA"@ ==> action == Some(CommitAction::CopySha(oid)),
        label == "Copy short SHA"@ ==> action == Some(CommitAction::CopyShortSha(oid)),
        label == "Create tag here…"@ ==> action == Some(CommitAction::CreateTagPrompt { at: oid, annotated: false }),
        label == "Create annotated tag here…"@ ==> action == Some(CommitAction::CreateTagPrompt { at: oid, annotated: true }),
        label == "Pull '"@ + branch + "' (ff if possible)"@ ==> (action matches Some(
            CommitAction::Pull { branch: b },
        ) && b@ == branch),
        label == "Push '"@ + branch + "'"@ ==> (action matches Some(
            CommitAction::Push { branch: b, force },
        ) && b@ == branch && !force),
        label == "Set upstream for '"@ + branch + "'…"@ ==> (action matches Some(
            CommitAction::SetUpstreamPrompt { branch: b },
        ) && b@ == branch),
        label == "Rename '"@ + branch + "'…"@ ==> (action matches Some(
            CommitAction::RenameBranchPrompt { from },
        ) && from@ == branch),
        label == "Delete '"@ + branch + "'"@ ==> (action matches Some(
            CommitAction::DeleteBranchPrompt { name, is_remote },
        ) && name@ == branch && !is_remote),
        label == "Delete remote '"@ + branch + "'"@ ==> (action matches Some(
            CommitAction::DeleteBranchPrompt { name, is_remote },
        ) && name@ == branch && is_remote),
        label == "Reset '"@ + branch + "' to this commit"@ ==> action is None,
{
    lemma_labels();
    let pull = "Pull '"@ + branch + "' (ff if possible)"@;
    let push = "Push '"@ + branch + "'"@;
    let upstream = "Set upstream for '"@ + branch + "'…"@;
    let rename = "Rename '"@ + branch + "'…"@;
    let delete = "Delete '"@ + branch + "'"@;
    let remote = "Delete remote '"@ + branch + "'"@;
    let reset = "Reset '"@ + branch + "' to this commit"@;
    assert(pull.len() >= 6 && push.len() >= 6 && upstream.len() >= 18 && rename.len() >= 8);
    assert(delete.len() >= 8 && remote.len() >= 15 && reset.len() >= 7);
    assert(pull[0] == 'P' && pull[1] == 'u' && pull[2] == 'l');
    assert(push[0] == 'P' && push[1] == 'u' && push[2] == 's');
    assert(upstream[0] == 'S');
    assert(rename[0] == 'R' && rename[1] == 'e' && rename[2] == 'n');
    assert(delete[0] == 'D' && delete[1] == 'e' && delete[7] == '\'');
    assert(remote[0] == 'D' && remote[1] == 'e' && remote[7] == 'r');
    assert(reset[0] == 'R' && reset[1] == 'e' && reset[2] == 's');
}

/// Whether no two branches of a commit of one kind have the same name.
pub open spec fn have_own_names(refs: Seq<RefLabel>) -> bool {
    forall|i: int, j: int|
        0 <= i < j < refs.len() && (#[trigger] refs[i]).kind == (#[trigger] refs[j]).kind
            ==> refs[i].short@ != refs[j].short@
}

/// Different entries of a menu ask for different things.
pub proof fn law_entries_ask_for_different_things(
    refs: Seq<RefLabel>,
    a: MenuEntry,
    b: MenuEntry,
    action: Option<CommitAction>,
    oid: Oid,
)
    requires
        have_own_names(refs),
        is_offered(a, refs),
        is_offered(b, refs),
        action is Some,
        does(action, a, branch_name(a, refs), oid),
        does(action, b, branch_name(b, refs), oid),
    ensures
        a == b,
{
    if let (Some(i), Some(j)) = (branch_of(a), branch_of(b)) {
        if i < j {
            assert(refs[i as int].kind == refs[j as int].kind ==> refs[i as int].short@ != refs[j as int].short@);
        } else if j < i {
            assert(refs[j as int].kind == refs[i as int].kind ==> refs[j as int].short@ != refs[i as int].short@);
        }
    }
}

/// Whether a commit with these names has an entry in its menu: those of a
/// branch where it is there and of the right kind, those that rewrite the
/// last commit where it is checked out, and the others always.
pub open spec fn belongs(entry: MenuEntry, refs: Seq<RefLabel>, is_head: bool) -> bool {
    match entry {
        MenuEntry::Pull(i)
        | MenuEntry::Push(i)
        | MenuEntry::SetUpstream(i)
        | MenuEntry::ResetMenu(i)
        | MenuEntry::Rename(i)
        | MenuEntry::Delete(i) => i < refs.len() && refs[i as int].kind is LocalBranch,
        MenuEntry::DeleteRemote(i) => i < refs.len() && refs[i as int].kind is RemoteBranch,
        MenuEntry::Amend | MenuEntry::Drop | MenuEntry::MoveUp | MenuEntry::MoveDown => is_head,
        _ => true,
    }
}

proof fn lemma_add_contains(a: Seq<MenuEntry>, b: Seq<MenuEntry>, e: MenuEntry)
    ensures
        (a + b).contains(e) <==> a.contains(e) || b.contains(e),
{
    let both = a + b;
    if a.contains(e) {
        let i = choose|i: int| 0 <= i < a.len() && a[i] == e;
        assert(both[i] == e);
    }
    if b.contains(e) {
        let i = choose|i: int| 0 <= i < b.len() && b[i] == e;
        assert(both[a.len() + i] == e);
    }
    if both.contains(e) {
        let i = choose|i: int| 0 <= i < both.len() && both[i] == e;
        if i < a.len() {
            assert(a[i] == e);
        } else {
            assert(b[i - a.len()] == e);
        }
    }
}

proof fn lemma_branch_entries(refs: Seq<RefLabel>, e: MenuEntry)
    requires
        refs.len() <= usize::MAX,
    ensures
        sync_entries(refs).contains(e) <==> (e is Pull || e is Push || e is SetUpstream)
            && belongs(e, refs, false),
        reset_entries(refs).contains(e) <==> e is ResetMenu && belongs(e, refs, false),
        edit_entries(refs).contains(e) <==> (e is Rename || e is Delete) && belongs(e, refs, false),
        remote_entries(refs).contains(e) <==> e is DeleteRemote && belongs(e, refs, false),
    decreases refs.len(),
{
    if refs.len() > 0 {
        let init = refs.drop_last();
        lemma_branch_entries(init, e);
        let i = (refs.len() - 1) as usize;
        let sync = seq![MenuEntry::Pull(i), MenuEntry::Push(i), MenuEntry::SetUpstream(i)];
        let edit = seq![MenuEntry::Rename(i), MenuEntry::Delete(i)];
        let reset = seq![MenuEntry::ResetMenu(i)];
        let remote = seq![MenuEntry::DeleteRemote(i)];
        lemma_add_contains(sync_entries(init), sync, e);
        lemma_add_contains(edit_entries(init), edit, e);
        lemma_add_contains(reset_entries(init), reset, e);
        lemma_add_contains(remote_entries(init), remote, e);
        assert(reset_entries(init).push(MenuEntry::ResetMenu(i)) =~= reset_entries(init) + reset);
        assert(remote_entries(init).push(MenuEntry::DeleteRemote(i)) =~= remote_entries(init)
            + remote);
        assert(sync[0] == MenuEntry::Pull(i) && sync[1] == MenuEntry::Push(i) && sync[2]
            == MenuEntry::SetUpstream(i));
        assert(edit[0] == MenuEntry::Rename(i) && edit[1] == MenuEntry::Delete(i));
        assert(reset[0] == MenuEntry::ResetMenu(i));
        assert(remote[0] == MenuEntry::DeleteRemote(i));
    }
}

/// The menu of a commit has every entry that belongs to it, and no other.
pub proof fn law_menu_is_complete(refs: Seq<RefLabel>, is_head: bool, e: MenuEntry)
    requires
        refs.len() <= usize::MAX,
    ensures
        menu_of(refs, is_head).contains(e) <==> belongs(e, refs, is_head),
{
    lemma_branch_entries(refs, e);
    let m1 = sync_entries(refs) + tip_separator(refs);
    let m2 = m1 + base_entries();
    let m3 = m2 + reset_entries(refs);
    let m4 = m3 + seq![MenuEntry::Revert];
    let m5 = m4 + head_entries(is_head);
    let m6 = m5 + tip_separator(refs);
    let m7 = m6 + edit_entries(refs);
    let m8 = m7 + remote_entries(refs);
    lemma_add_contains(sync_entries(refs), tip_separator(refs), e);
    lemma_add_contains(m1, base_entries(), e);
    lemma_add_contains(m2, reset_entries(refs), e);
    lemma_add_contains(m3, seq![MenuEntry::Revert], e);
    lemma_add_contains(m4, head_entries(is_head), e);
    lemma_add_contains(m5, tip_separator(refs), e);
    lemma_add_contains(m6, edit_entries(refs), e);
    lemma_add_contains(m7, remote_entries(refs), e);
    lemma_add_contains(m8, copy_entries(), e);
    let base = base_entries();
    assert(base[0] == MenuEntry::Checkout && base[1] == MenuEntry::CreateWorktree && base[2]
        == MenuEntry::CreateBranch && base[3] == MenuEntry::CherryPick);
    assert(seq![MenuEntry::Revert][0] == MenuEntry::Revert);
    let copy = copy_entries();
    assert(copy[0] == MenuEntry::Separator && copy[1] == MenuEntry::CopySha && copy[2]
        == MenuEntry::CopyShortSha && copy[3] == MenuEntry::CreateTag && copy[4]
        == MenuEntry::CreateAnnotatedTag);
    if is_head {
        let head = head_entries(is_head);
        assert(head[1] == MenuEntry::Amend && head[2] == MenuEntry::Drop && head[3]
            == MenuEntry::MoveUp && head[4] == MenuEntry::MoveDown);
    }
}

/// The menu of the working tree.
#[derive(Debug, Clone, Copy, PartialEq, Eq, Structural)]
pub enum WorkingTreeEntry {
    Commit,
    CreateStash,
}

/// What an entry of the working tree's menu says.
pub fn working_tree_label(entry: WorkingTreeEntry) -> (r: &'static str)
    ensures
        r@ == (match entry {
            WorkingTreeEntry::Commit => "Commit…"@,
            WorkingTreeEntry::CreateStash => "Create stash…"@,
        }),
{
    match entry {
        WorkingTreeEntry::Commit => "Commit…",
        WorkingTreeEntry::CreateStash => "Create stash…",
    }
}

} // verus!
