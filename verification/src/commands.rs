//! The commands of the tool, on the repository's metadata. The caller reads
//! the metadata and the snapshots of the directories, hands them in, and
//! writes back and copies what the command decided.

use vstd::prelude::*;
use crate::clock::local_time_text;
use crate::errors::ErrorType;
use crate::info::{BranchInfo, BranchesInfo, CommitInfo, CommitsInfo, CommitsList, RepoInfo};
use crate::name_map::NameMap;
use crate::repository::{initial_message, initial_repository, master, merge_message, Repository, RepositoryView};
use crate::snapshot::{conflicts, merge_conflicts, VcsSnapshotDiff};
use crate::text::commit_name_string;

verus! {

fn master_name() -> (r: String)
    ensures
        r@ == master(),
{
    String::from_str("master")
}

/// What a merge that goes ahead leaves to the caller: the files to copy from
/// the merged branch's newest commit, and the name of the merge commit.
#[derive(Debug)]
pub struct MergePlan {
    pub files_to_copy: Vec<String>,
    pub commit: String,
}

impl Repository {
    /// Whether the working directory is at the newest commit of its branch.
    pub fn at_branch_head(&self) -> (r: bool)
        ensures
            r == self@.at_branch_head(),
    {
        match self.branches_info.branches.get(&self.repo_info.branch) {
            Some(b) => b.last_commit == self.repo_info.commit,
            None => false,
        }
    }

    /// Whether a merge is allowed: the working directory is at the newest
    /// commit of master.
    pub fn can_merge(&self) -> (r: bool)
        ensures
            r == self@.can_merge(),
    {
        let m = master_name();
        self.repo_info.branch == m && self.at_branch_head()
    }

    fn record_commit(&mut self, message: String, time: String) -> (name: String)
        requires
            old(self)@.branches.contains_key(old(self)@.info.branch),
            old(self).repo_info.amount_of_commits < u32::MAX,
        ensures
            name@ == old(self)@.next_commit(),
            final(self)@ == old(self)@.with_commit(message@, time@),
    {
        let ghost before = self@;
        let amount = self.repo_info.amount_of_commits + 1;
        let name = commit_name_string(amount);
        let cur_commit = self.repo_info.commit.clone();
        let branch = self.repo_info.branch.clone();
        let head = self.branches_info.branches.get(&branch).unwrap();
        let updated = BranchInfo {
            last_commit: name.clone(),
            last_in_master: head.last_in_master.clone(),
            merged: head.merged,
        };
        self.branches_info.branches.insert(branch.clone(), updated);
        self.commits_info.commits.insert(
            name.clone(),
            CommitInfo { last_commit: cur_commit, message, time, branch },
        );
        let ghost list_before = self.commits_list@;
        self.commits_list.commits.push(name.clone());
        assert(self.commits_list@ =~= list_before.push(name@));
        self.repo_info.commit = name.clone();
        self.repo_info.amount_of_commits = amount;
        assert(self@.info == before.with_commit(message@, time@).info);
        name
    }
}

/// Commits the changes `diff` of the working directory, with `message`, at
/// `time`. Refused unless the working directory is at the newest commit of
/// its branch, and refused if nothing changed; the repository is then left
/// as it was.
pub fn commit_at(repo: &mut Repository, message: &str, diff: &VcsSnapshotDiff, time: String) -> (r: Result<String, ErrorType>)
    requires
        old(repo)@.branches.contains_key(old(repo)@.info.branch),
        old(repo)@.at_branch_head() && !diff@.is_empty() ==> old(repo)@.info.amount_of_commits < u32::MAX,
    ensures
        !old(repo)@.at_branch_head() ==> (r matches Err(ErrorType::InvalidCommit) && final(repo)@ == old(repo)@),
        old(repo)@.at_branch_head() && diff@.is_empty() ==> (r matches Err(ErrorType::EmptyCommit { branch_name })
            && branch_name@ == old(repo)@.info.branch && final(repo)@ == old(repo)@),
        old(repo)@.at_branch_head() && !diff@.is_empty() ==> (r matches Ok(name)
            && name@ == old(repo)@.next_commit()
            && final(repo)@ == old(repo)@.with_commit(message@, time@)),
{
    if !repo.at_branch_head() {
        return Err(ErrorType::InvalidCommit);
    }
    if diff.is_empty() {
        return Err(ErrorType::EmptyCommit { branch_name: repo.repo_info.branch.clone() });
    }
    let name = repo.record_commit(String::from_str(message), time);
    Ok(name)
}

/// Commits the changes `diff` of the working directory with `message`, at the
/// current local time (see [`commit_at`]).
pub fn commit(repo: &mut Repository, message: &str, diff: &VcsSnapshotDiff) -> (r: Result<String, ErrorType>)
    requires
        old(repo)@.branches.contains_key(old(repo)@.info.branch),
        old(repo)@.at_branch_head() && !diff@.is_empty() ==> old(repo)@.info.amount_of_commits < u32::MAX,
    ensures
        !old(repo)@.at_branch_head() ==> (r matches Err(ErrorType::InvalidCommit) && final(repo)@ == old(repo)@),
        old(repo)@.at_branch_head() && diff@.is_empty() ==> (r matches Err(ErrorType::EmptyCommit { branch_name })
            && branch_name@ == old(repo)@.info.branch && final(repo)@ == old(repo)@),
        old(repo)@.at_branch_head() && !diff@.is_empty() ==> (r matches Ok(name)
            && name@ == old(repo)@.next_commit()
            && exists|t: Seq<char>| t.len() > 0 && final(repo)@ == #[trigger] old(repo)@.with_commit(message@, t)),
{
    if repo.at_branch_head() && !diff.is_empty() {
        let time = local_time_text();
        let ghost t = time@;
        let r = commit_at(repo, message, diff, time);
        assert(final(repo)@ == old(repo)@.with_commit(message@, t));
        r
    } else {
        commit_at(repo, message, diff, String::new())
    }
}

/// Makes the commit that merges `branch` into the current branch, at `time`,
/// and marks `branch` merged.
pub fn merge_commit_at(repo: &mut Repository, branch: &String, time: String) -> (name: String)
    requires
        old(repo)@.branches.contains_key(old(repo)@.info.branch),
        old(repo)@.branches.contains_key(branch@),
        old(repo)@.info.amount_of_commits < u32::MAX,
    ensures
        name@ == old(repo)@.next_commit(),
        final(repo)@ == old(repo)@.with_merge_commit(branch@, time@),
{
    let mut message = String::from_str("Merged branch ");
    message.append(branch.as_str());
    message.append(".");
    assert(message@ =~= merge_message(branch@));
    let name = repo.record_commit(message, time);
    let b = repo.branches_info.branches.get(branch).unwrap();
    let marked = BranchInfo { last_commit: b.last_commit.clone(), last_in_master: b.last_in_master.clone(), merged: true };
    repo.branches_info.branches.insert(branch.clone(), marked);
    name
}

/// Makes the commit that merges `branch` into the current branch, at the
/// current local time (see [`merge_commit_at`]).
pub fn merge_commit(repo: &mut Repository, branch: &String) -> (name: String)
    requires
        old(repo)@.branches.contains_key(old(repo)@.info.branch),
        old(repo)@.branches.contains_key(branch@),
        old(repo)@.info.amount_of_commits < u32::MAX,
    ensures
        name@ == old(repo)@.next_commit(),
        exists|t: Seq<char>| t.len() > 0 && final(repo)@ == #[trigger] old(repo)@.with_merge_commit(branch@, t),
{
    let time = local_time_text();
    let ghost t = time@;
    let name = merge_commit_at(repo, branch, time);
    assert(final(repo)@ == old(repo)@.with_merge_commit(branch@, t));
    name
}

impl Repository {
    /// The commits a merge of `branch` compares: the branch's newest commit
    /// and the master commit it started from. Refused unless the working
    /// directory is at the newest commit of master.
    pub fn merge_sources(&self, branch: &String) -> (r: Result<(String, String), ErrorType>)
        requires
            self@.info.branch == master() ==> self@.branches.contains_key(master()),
            self@.can_merge() ==> self@.branches.contains_key(branch@),
        ensures
            !self@.can_merge() ==> (r matches Err(ErrorType::InvalidMerge)),
            self@.can_merge() ==> (r matches Ok((newest, start))
                && newest@ == self@.branches[branch@].last_commit
                && start@ == self@.branches[branch@].last_in_master),
    {
        if !self.can_merge() {
            return Err(ErrorType::InvalidMerge);
        }
        let b = self.branches_info.branches.get(branch).unwrap();
        Ok((b.last_commit.clone(), b.last_in_master.clone()))
    }
}

/// Merges `branch` into master at `time`. `current` is the difference from
/// the branch's start to the working directory, `branch_diff` the one from
/// the branch's start to its newest commit (see [`Repository::merge_sources`]).
/// Refused unless at the newest commit of master, and refused, with the
/// paths both sides changed, if there are such paths; the repository is then
/// left as it was. Otherwise the caller copies the files of the plan from the
/// branch's newest commit into the working directory.
pub fn merge_at(
    repo: &mut Repository,
    branch: &String,
    current: &VcsSnapshotDiff,
    branch_diff: &VcsSnapshotDiff,
    time: String,
) -> (r: Result<MergePlan, ErrorType>)
    requires
        old(repo)@.info.branch == master() ==> old(repo)@.branches.contains_key(master()),
        old(repo)@.can_merge() ==> old(repo)@.branches.contains_key(branch@),
        old(repo)@.can_merge() && conflicts(branch_diff@.all_paths(), current@.all_paths()).len() == 0
            ==> old(repo)@.info.amount_of_commits < u32::MAX,
    ensures
        !old(repo)@.can_merge() ==> (r matches Err(ErrorType::InvalidMerge) && final(repo)@ == old(repo)@),
        old(repo)@.can_merge() && conflicts(branch_diff@.all_paths(), current@.all_paths()).len() != 0
            ==> (r matches Err(ErrorType::MergeConflict { conflict })
            && conflict.deep_view() == conflicts(branch_diff@.all_paths(), current@.all_paths())
            && final(repo)@ == old(repo)@),
        old(repo)@.can_merge() && conflicts(branch_diff@.all_paths(), current@.all_paths()).len() == 0
            ==> (r matches Ok(plan)
            && plan.files_to_copy.deep_view() == branch_diff@.all_paths()
            && plan.commit@ == old(repo)@.next_commit()
            && final(repo)@ == old(repo)@.with_merge_commit(branch@, time@)),
{
    if !repo.can_merge() {
        return Err(ErrorType::InvalidMerge);
    }
    let conflict = merge_conflicts(current, branch_diff);
    if conflict.len() != 0 {
        return Err(ErrorType::MergeConflict { conflict });
    }
    let files_to_copy = branch_diff.all_paths();
    let commit = merge_commit_at(repo, branch, time);
    Ok(MergePlan { files_to_copy, commit })
}

/// Merges `branch` into master at the current local time (see [`merge_at`]).
pub fn merge(
    repo: &mut Repository,
    branch: &String,
    current: &VcsSnapshotDiff,
    branch_diff: &VcsSnapshotDiff,
) -> (r: Result<MergePlan, ErrorType>)
    requires
        old(repo)@.info.branch == master() ==> old(repo)@.branches.contains_key(master()),
        old(repo)@.can_merge() ==> old(repo)@.branches.contains_key(branch@),
        old(repo)@.can_merge() && conflicts(branch_diff@.all_paths(), current@.all_paths()).len() == 0
            ==> old(repo)@.info.amount_of_commits < u32::MAX,
    ensures
        !old(repo)@.can_merge() ==> (r matches Err(ErrorType::InvalidMerge) && final(repo)@ == old(repo)@),
        old(repo)@.can_merge() && conflicts(branch_diff@.all_paths(), current@.all_paths()).len() != 0
            ==> (r matches Err(ErrorType::MergeConflict { conflict })
            && conflict.deep_view() == conflicts(branch_diff@.all_paths(), current@.all_paths())
            && final(repo)@ == old(repo)@),
        old(repo)@.can_merge() && conflicts(branch_diff@.all_paths(), current@.all_paths()).len() == 0
            ==> (r matches Ok(plan)
            && plan.files_to_copy.deep_view() == branch_diff@.all_paths()
            && plan.commit@ == old(repo)@.next_commit()
            && exists|t: Seq<char>| t.len() > 0 && final(repo)@ == #[trigger] old(repo)@.with_merge_commit(branch@, t)),
{
    let time = if repo.can_merge() { local_time_text() } else { String::new() };
    let ghost t = time@;
    let r = merge_at(repo, branch, current, branch_diff, time);
    proof {
        if old(repo)@.can_merge() && conflicts(branch_diff@.all_paths(), current@.all_paths()).len() == 0 {
            assert(final(repo)@ == old(repo)@.with_merge_commit(branch@, t));
        }
    }
    r
}

/// Creates branch `name` at the current commit and moves onto it. Refused
/// outside master, and refused if the branch exists; the repository is then
/// left as it was.
pub fn new_branch(repo: &mut Repository, name: &String) -> (r: Result<(), ErrorType>)
    ensures
        old(repo)@.info.branch != master() ==> (r matches Err(ErrorType::InvalidNewBranch) && final(repo)@ == old(repo)@),
        old(repo)@.info.branch == master() && old(repo)@.branches.contains_key(name@)
            ==> (r matches Err(ErrorType::BranchExists) && final(repo)@ == old(repo)@),
        old(repo)@.info.branch == master() && !old(repo)@.branches.contains_key(name@)
            ==> r is Ok && final(repo)@ == old(repo)@.with_new_branch(name@),
{
    let m = master_name();
    if repo.repo_info.branch != m {
        return Err(ErrorType::InvalidNewBranch);
    }
    if repo.branches_info.branches.contains_key(name) {
        return Err(ErrorType::BranchExists);
    }
    let cur_commit = repo.repo_info.commit.clone();
    let info = BranchInfo { last_commit: cur_commit.clone(), last_in_master: cur_commit, merged: false };
    repo.branches_info.branches.insert(name.clone(), info);
    repo.repo_info.branch = name.clone();
    Ok(())
}

/// Moves the working directory to commit `hash`. `diff` is the difference
/// from the current commit to the working directory, and `commit_saved`
/// whether the commit's files are stored. Refused if the working directory
/// has changes, and refused if the commit is not stored or belongs to a
/// merged branch; the repository is then left as it was. Otherwise the
/// caller replaces the working directory by the commit's files.
pub fn jump_to_commit(repo: &mut Repository, hash: &String, diff: &VcsSnapshotDiff, commit_saved: bool) -> (r: Result<(), ErrorType>)
    requires
        diff@.is_empty() && commit_saved ==> old(repo)@.commits.contains_key(hash@)
            && old(repo)@.branches.contains_key(old(repo)@.commits[hash@].branch),
    ensures
        !diff@.is_empty() ==> (r matches Err(ErrorType::UnsavedChanges { diff: d }) && d@ == diff@
            && final(repo)@ == old(repo)@),
        diff@.is_empty() && (!commit_saved || old(repo)@.in_merged_branch(hash@))
            ==> (r matches Err(ErrorType::NonExistentCommit) && final(repo)@ == old(repo)@),
        diff@.is_empty() && commit_saved && !old(repo)@.in_merged_branch(hash@)
            ==> r is Ok && final(repo)@ == old(repo)@.with_position(old(repo)@.commits[hash@].branch, hash@),
{
    if !diff.is_empty() {
        return Err(ErrorType::UnsavedChanges { diff: diff.duplicate() });
    }
    if !commit_saved {
        return Err(ErrorType::NonExistentCommit);
    }
    let branch = repo.commits_info.commits.get(hash).unwrap().branch.clone();
    if repo.branches_info.branches.get(&branch).unwrap().merged {
        return Err(ErrorType::NonExistentCommit);
    }
    repo.repo_info.branch = branch;
    repo.repo_info.commit = hash.clone();
    Ok(())
}

/// Moves the working directory to the newest commit of branch `name`.
/// Refused if the branch does not exist or is merged, and refused if the
/// working directory has changes (`diff`, from the current commit); the
/// repository is then left as it was. Otherwise the caller replaces the
/// working directory by the files of the branch's newest commit.
pub fn jump_to_branch(repo: &mut Repository, name: &String, diff: &VcsSnapshotDiff) -> (r: Result<(), ErrorType>)
    ensures
        !old(repo)@.branches.contains_key(name@) || old(repo)@.branches[name@].merged
            ==> (r matches Err(ErrorType::NonExistentBranch) && final(repo)@ == old(repo)@),
        old(repo)@.branches.contains_key(name@) && !old(repo)@.branches[name@].merged && !diff@.is_empty()
            ==> (r matches Err(ErrorType::UnsavedChanges { diff: d }) && d@ == diff@ && final(repo)@ == old(repo)@),
        old(repo)@.branches.contains_key(name@) && !old(repo)@.branches[name@].merged && diff@.is_empty()
            ==> r is Ok && final(repo)@ == old(repo)@.with_position(name@, old(repo)@.branches[name@].last_commit),
{
    let newest = match repo.branches_info.branches.get(name) {
        Some(b) => {
            if b.merged {
                return Err(ErrorType::NonExistentBranch);
            }
            b.last_commit.clone()
        },
        None => return Err(ErrorType::NonExistentBranch),
    };
    if !diff.is_empty() {
        return Err(ErrorType::UnsavedChanges { diff: diff.duplicate() });
    }
    repo.repo_info.branch = name.clone();
    repo.repo_info.commit = newest;
    Ok(())
}

/// The metadata of a fresh repository whose first commit was made at `time`.
pub fn init_at(time: String) -> (r: Repository)
    ensures
        r@ == initial_repository(time@),
{
    let first = commit_name_string(1);
    let mut commits: NameMap<CommitInfo> = NameMap::new();
    commits.insert(
        first.clone(),
        CommitInfo {
            last_commit: first.clone(),
            message: String::from_str("Initial commit"),
            time,
            branch: master_name(),
        },
    );
    let mut branches: NameMap<BranchInfo> = NameMap::new();
    branches.insert(
        master_name(),
        BranchInfo { last_commit: first.clone(), last_in_master: first.clone(), merged: false },
    );
    let mut list: Vec<String> = Vec::new();
    list.push(first.clone());
    let r = Repository {
        repo_info: RepoInfo { branch: master_name(), commit: first, amount_of_commits: 1 },
        commits_info: CommitsInfo { commits },
        branches_info: BranchesInfo { branches },
        commits_list: CommitsList { commits: list },
    };
    assert(r@.list =~= initial_repository(time@).list);
    r
}

/// The metadata of a fresh repository whose first commit is made now.
pub fn init() -> (r: Repository)
    ensures
        exists|t: Seq<char>| t.len() > 0 && r@ == #[trigger] initial_repository(t),
{
    let time = local_time_text();
    let ghost t = time@;
    let r = init_at(time);
    assert(r@ == initial_repository(t));
    r
}

/// One commit as a log shows it.
#[derive(Debug)]
pub struct LogEntry {
    pub commit: String,
    pub parent: String,
    pub time: String,
    pub message: String,
    /// Whether a list of changes follows (all but the first commit).
    pub shows_changes: bool,
}

/// The mathematical value of a [`LogEntry`].
pub struct LogEntryView {
    pub commit: Seq<char>,
    pub parent: Seq<char>,
    pub time: Seq<char>,
    pub message: Seq<char>,
    pub shows_changes: bool,
}

impl View for LogEntry {
    type V = LogEntryView;

    open spec fn view(&self) -> LogEntryView {
        LogEntryView {
            commit: self.commit@,
            parent: self.parent@,
            time: self.time@,
            message: self.message@,
            shows_changes: self.shows_changes,
        }
    }
}

/// How the log shows commit `c` of repository `r`.
pub open spec fn log_entry(r: RepositoryView, c: Seq<char>) -> LogEntryView {
    LogEntryView {
        commit: c,
        parent: r.commits[c].last_commit,
        time: r.commits[c].time,
        message: r.commits[c].message,
        shows_changes: r.commits[c].message != initial_message(),
    }
}

/// Every listed commit is recorded, and so is its branch.
pub open spec fn history_recorded(r: RepositoryView) -> bool {
    forall|i: int| 0 <= i < r.list.len() ==> {
        &&& r.commits.contains_key(#[trigger] r.list[i])
        &&& r.branches.contains_key(r.commits[r.list[i]].branch)
    }
}

/// The log: every commit that is not on a merged branch, oldest first.
pub fn log(repo: &Repository) -> (r: Vec<LogEntry>)
    requires
        history_recorded(repo@),
    ensures
        r@.len() == repo@.log_commits().len(),
        forall|i: int| 0 <= i < r@.len() ==> #[trigger] r@[i]@ == log_entry(repo@, repo@.log_commits()[i]),
{
    let ghost rv = repo@;
    let ghost list = rv.list;
    let ghost keep = |c: Seq<char>| !rv.in_merged_branch(c);
    let initial = String::from_str("Initial commit");
    let mut r: Vec<LogEntry> = Vec::new();
    let mut i: usize = 0;
    let n = repo.commits_list.commits.len();
    while i < n
        invariant
            rv == repo@,
            list == rv.list,
            keep == (|c: Seq<char>| !rv.in_merged_branch(c)),
            n == list.len(),
            history_recorded(rv),
            initial@ == initial_message(),
            i <= n,
            r@.len() == list.take(i as int).filter(keep).len(),
            forall|j: int| 0 <= j < r@.len() ==> #[trigger] r@[j]@ == log_entry(rv, list.take(i as int).filter(keep)[j]),
        decreases n - i,
    {
        let ghost before = list.take(i as int).filter(keep);
        proof {
            assert(list.take(i + 1).drop_last() =~= list.take(i as int));
            reveal_with_fuel(Seq::filter, 1);
        }
        let name = &repo.commits_list.commits[i];
        assert(name@ == list[i as int]);
        let info = repo.commits_info.commits.get(name).unwrap();
        if !repo.branches_info.branches.get(&info.branch).unwrap().merged {
            let shows_changes = info.message != initial;
            r.push(LogEntry {
                commit: name.clone(),
                parent: info.last_commit.clone(),
                time: info.time.clone(),
                message: info.message.clone(),
                shows_changes,
            });
            assert(list.take(i + 1).filter(keep) == before.push(list[i as int]));
        } else {
            assert(list.take(i + 1).filter(keep) == before);
        }
        i = i + 1;
    }
    assert(list.take(n as int) =~= list);
    r
}

} // verus!

