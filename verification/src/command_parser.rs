//! The commands a user can give.

use vstd::prelude::*;

verus! {

/// A parsed command line.
#[derive(Debug)]
pub struct CommandParser {
    pub command: Command,
}

/// One command of the tool.
#[derive(Debug)]
#[allow(inconsistent_fields)]
pub enum Command {
    /// Prints the current repository status.
    Status,
    /// Prints the list of commits.
    Log,
    /// Initializes a repository in a directory.
    Init { path: String },
    /// Commits the current changes.
    Commit { message: String },
    /// Jumps to a branch or to a commit.
    Jump { branch: Option<String>, commit: Option<String> },
    /// Creates a new branch.
    NewBranch { name: String },
    /// Merges a branch into master.
    Merge { branch: String },
}

} // verus!
