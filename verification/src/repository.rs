//! The repository's metadata as one value, and what each command makes of it.

use vstd::prelude::*;
use crate::info::{BranchInfoView, BranchesInfo, CommitInfoView, CommitsInfo, CommitsList, RepoInfo, RepoInfoView};
use crate::text::commit_name;

verus! {

/// All metadata of a repository.
#[derive(Debug)]
pub struct Repository {
    pub repo_info: RepoInfo,
    pub commits_info: CommitsInfo,
    pub branches_info: BranchesInfo,
    pub commits_list: CommitsList,
}

/// The mathematical value of a [`Repository`]: the position, the commits by
/// name, the branches by name, and the commit names oldest first.
pub struct RepositoryView {
    pub info: RepoInfoView,
    pub commits: Map<Seq<char>, CommitInfoView>,
    pub branches: Map<Seq<char>, BranchInfoView>,
    pub list: Seq<Seq<char>>,
}

impl View for Repository {
    type V = RepositoryView;

    open spec fn view(&self) -> RepositoryView {
        RepositoryView {
            info: self.repo_info@,
            commits: self.commits_info@,
            branches: self.branches_info@,
            list: self.commits_list@,
        }
    }
}

/// The name of the main branch.
pub open spec fn master() -> Seq<char> {
    "master"@
}

/// The message of the first commit.
pub open spec fn initial_message() -> Seq<char> {
    "Initial commit"@
}

/// The message of the commit that merges `branch` into master.
pub open spec fn merge_message(branch: Seq<char>) -> Seq<char> {
    "Merged branch "@ + branch + "."@
}

/// A fresh repository: one commit on master, made at `time`, whose parent is
/// itself.
pub open spec fn initial_repository(time: Seq<char>) -> RepositoryView {
    let first = commit_name(1);
    RepositoryView {
        info: RepoInfoView { branch: master(), commit: first, amount_of_commits: 1 },
        commits: Map::empty().insert(
            first,
            CommitInfoView { last_commit: first, message: initial_message(), time, branch: master() },
        ),
        branches: Map::empty().insert(
            master(),
            BranchInfoView { last_commit: first, last_in_master: first, merged: false },
        ),
        list: seq![first],
    }
}

impl RepositoryView {
    /// The working directory stands at the newest commit of its branch.
    pub open spec fn at_branch_head(self) -> bool {
        &&& self.branches.contains_key(self.info.branch)
        &&& self.branches[self.info.branch].last_commit == self.info.commit
    }

    /// The name the next commit gets.
    pub open spec fn next_commit(self) -> Seq<char> {
        commit_name(self.info.amount_of_commits + 1)
    }

    /// The repository after a commit on the current branch with `message`,
    /// made at `time`: the new commit's parent is the current commit, and it
    /// becomes both the current commit and the newest of the branch.
    pub open spec fn with_commit(self, message: Seq<char>, time: Seq<char>) -> RepositoryView {
        let name = self.next_commit();
        let head = self.branches[self.info.branch];
        RepositoryView {
            info: RepoInfoView {
                branch: self.info.branch,
                commit: name,
                amount_of_commits: self.info.amount_of_commits + 1,
            },
            commits: self.commits.insert(
                name,
                CommitInfoView { last_commit: self.info.commit, message, time, branch: self.info.branch },
            ),
            branches: self.branches.insert(
                self.info.branch,
                BranchInfoView { last_commit: name, last_in_master: head.last_in_master, merged: head.merged },
            ),
            list: self.list.push(name),
        }
    }

    /// The repository after the commit that merges `branch` into the current
    /// branch, made at `time`: a commit, after which `branch` is marked merged.
    pub open spec fn with_merge_commit(self, branch: Seq<char>, time: Seq<char>) -> RepositoryView {
        let r = self.with_commit(merge_message(branch), time);
        let b = r.branches[branch];
        RepositoryView {
            branches: r.branches.insert(
                branch,
                BranchInfoView { last_commit: b.last_commit, last_in_master: b.last_in_master, merged: true },
            ),
            ..r
        }
    }

    /// The repository after creating branch `name` at the current commit and
    /// moving onto it.
    pub open spec fn with_new_branch(self, name: Seq<char>) -> RepositoryView {
        RepositoryView {
            info: RepoInfoView { branch: name, ..self.info },
            branches: self.branches.insert(
                name,
                BranchInfoView { last_commit: self.info.commit, last_in_master: self.info.commit, merged: false },
            ),
            ..self
        }
    }

    /// The repository with the working directory moved to `commit` on `branch`.
    pub open spec fn with_position(self, branch: Seq<char>, commit: Seq<char>) -> RepositoryView {
        RepositoryView { info: RepoInfoView { branch, commit, ..self.info }, ..self }
    }

    /// A merge is allowed: the working directory is at the newest commit of
    /// master.
    pub open spec fn can_merge(self) -> bool {
        self.info.branch == master() && self.at_branch_head()
    }

    /// Whether commit `c` belongs to a merged branch.
    pub open spec fn in_merged_branch(self, c: Seq<char>) -> bool {
        self.branches[self.commits[c].branch].merged
    }

    /// The commits a log shows: those not on a merged branch, oldest first.
    pub open spec fn log_commits(self) -> Seq<Seq<char>> {
        self.list.filter(|c: Seq<char>| !self.in_merged_branch(c))
    }

    /// The consistency of a repository that only the commands have changed:
    /// the commits are `commit-1` to `commit-n` in order, the position, every
    /// branch head and start, and every commit's parent and branch exist.
    pub open spec fn well_formed(self) -> bool {
        &&& self.list.len() == self.info.amount_of_commits
        &&& forall|i: int| 0 <= i < self.list.len() ==> #[trigger] self.list[i] == commit_name((i + 1) as nat)
        &&& forall|c: Seq<char>| #[trigger] self.commits.contains_key(c) <==> self.list.contains(c)
        &&& self.commits.contains_key(self.info.commit)
        &&& self.branches.contains_key(self.info.branch)
        &&& self.branches.contains_key(master())
        &&& forall|b: Seq<char>| #[trigger] self.branches.contains_key(b) ==> {
            &&& self.commits.contains_key(self.branches[b].last_commit)
            &&& self.commits.contains_key(self.branches[b].last_in_master)
        }
        &&& forall|c: Seq<char>| #[trigger] self.commits.contains_key(c) ==> {
            &&& self.branches.contains_key(self.commits[c].branch)
            &&& self.commits.contains_key(self.commits[c].last_commit)
        }
    }
}

} // verus!
