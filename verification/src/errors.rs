//! Why a command refuses to run.

use vstd::prelude::*;
use crate::snapshot::VcsSnapshotDiff;

verus! {

/// The refusals of the repository's commands.
#[derive(Debug)]
pub enum ErrorType {
    /// A commit was asked for while the working directory is not at the
    /// newest commit of its branch.
    InvalidCommit,
    /// A commit was asked for with nothing changed.
    EmptyCommit { branch_name: String },
    /// The working directory holds changes that a jump would lose.
    UnsavedChanges { diff: VcsSnapshotDiff },
    /// The commit jumped to does not exist or belongs to a merged branch.
    NonExistentCommit,
    /// The branch jumped to does not exist or has been merged.
    NonExistentBranch,
    /// A merge was asked for outside the newest commit of master.
    InvalidMerge,
    /// Both master and the merged branch changed these paths.
    MergeConflict { conflict: Vec<String> },
    /// A branch can only be created from master.
    InvalidNewBranch,
    /// A branch of that name exists already.
    BranchExists,
}

} // verus!
