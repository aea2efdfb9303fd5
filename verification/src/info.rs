//! The repository's metadata records, as they are stored between commands.

use vstd::prelude::*;
use crate::name_map::NameMap;

verus! {

/// Where the working directory stands: its branch, its commit, and how many
/// commits the repository has made.
#[derive(Debug)]
pub struct RepoInfo {
    pub branch: String,
    pub commit: String,
    pub amount_of_commits: u32,
}

/// One commit: its parent, its message, when it was made and on which branch.
#[derive(Debug)]
pub struct CommitInfo {
    pub last_commit: String,
    pub message: String,
    pub time: String,
    pub branch: String,
}

/// Every commit, by name.
#[derive(Debug)]
pub struct CommitsInfo {
    pub commits: NameMap<CommitInfo>,
}

/// One branch: its newest commit, the master commit it started from, and
/// whether it has been merged into master.
#[derive(Debug)]
pub struct BranchInfo {
    pub last_commit: String,
    pub last_in_master: String,
    pub merged: bool,
}

/// Every branch, by name.
#[derive(Debug)]
pub struct BranchesInfo {
    pub branches: NameMap<BranchInfo>,
}

/// The names of all commits, oldest first.
#[derive(Debug)]
pub struct CommitsList {
    pub commits: Vec<String>,
}

/// The mathematical value of a [`RepoInfo`].
pub struct RepoInfoView {
    pub branch: Seq<char>,
    pub commit: Seq<char>,
    pub amount_of_commits: nat,
}

/// The mathematical value of a [`CommitInfo`].
pub struct CommitInfoView {
    pub last_commit: Seq<char>,
    pub message: Seq<char>,
    pub time: Seq<char>,
    pub branch: Seq<char>,
}

/// The mathematical value of a [`BranchInfo`].
pub struct BranchInfoView {
    pub last_commit: Seq<char>,
    pub last_in_master: Seq<char>,
    pub merged: bool,
}

impl View for RepoInfo {
    type V = RepoInfoView;

    open spec fn view(&self) -> RepoInfoView {
        RepoInfoView {
            branch: self.branch@,
            commit: self.commit@,
            amount_of_commits: self.amount_of_commits as nat,
        }
    }
}

impl View for CommitInfo {
    type V = CommitInfoView;

    open spec fn view(&self) -> CommitInfoView {
        CommitInfoView {
            last_commit: self.last_commit@,
            message: self.message@,
            time: self.time@,
            branch: self.branch@,
        }
    }
}

impl View for BranchInfo {
    type V = BranchInfoView;

    open spec fn view(&self) -> BranchInfoView {
        BranchInfoView {
            last_commit: self.last_commit@,
            last_in_master: self.last_in_master@,
            merged: self.merged,
        }
    }
}

impl View for CommitsInfo {
    type V = Map<Seq<char>, CommitInfoView>;

    open spec fn view(&self) -> Map<Seq<char>, CommitInfoView> {
        self.commits@
    }
}

impl View for BranchesInfo {
    type V = Map<Seq<char>, BranchInfoView>;

    open spec fn view(&self) -> Map<Seq<char>, BranchInfoView> {
        self.branches@
    }
}

impl View for CommitsList {
    type V = Seq<Seq<char>>;

    open spec fn view(&self) -> Seq<Seq<char>> {
        self.commits.deep_view()
    }
}

} // verus!
