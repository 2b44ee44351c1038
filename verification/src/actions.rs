//! What can be asked of a repository from the commit graph.

use vstd::prelude::*;

use crate::git::Oid;

verus! {

/// How far a reset reaches.
#[derive(Debug, Clone, Copy, PartialEq, Eq, Structural)]
pub enum ResetMode {
    Soft,
    Mixed,
    Hard,
}

/// Something to do with a commit, a branch or the working tree.
#[derive(Debug, Clone, PartialEq, Eq)]
pub enum CommitAction {
    Checkout(Oid),
    CreateWorktreePrompt(Oid),
    CreateBranchPrompt(Oid),
    CherryPick(Oid),
    Revert(Oid),
    Reset { branch: String, mode: ResetMode, target: Oid },
    Pull { branch: String },
    Push { branch: String, force: bool },
    SetUpstreamPrompt { branch: String },
    AmendMessagePrompt,
    DropCommitPrompt(Oid),
    MoveCommitUp(Oid),
    MoveCommitDown(Oid),
    RenameBranchPrompt { from: String },
    DeleteBranchPrompt { name: String, is_remote: bool },
    CopySha(Oid),
    CopyShortSha(Oid),
    CreateTagPrompt { at: Oid, annotated: bool },
    StashPushPrompt,
}

} // verus!
