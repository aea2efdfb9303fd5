use vcs::commands::{
    commit, commit_at, init, init_at, jump_to_branch, jump_to_commit, log, merge_at, merge_commit_at,
    new_branch,
};
use vcs::errors::ErrorType;
use vcs::repository::Repository;
use vcs::snapshot::VcsSnapshotDiff;

fn s(text: &str) -> String {
    text.to_string()
}

fn paths(items: &[&str]) -> Vec<String> {
    items.iter().map(|p| p.to_string()).collect()
}

fn diff(modified: &[&str], added: &[&str], deleted: &[&str]) -> VcsSnapshotDiff {
    VcsSnapshotDiff { added: paths(added), deleted: paths(deleted), modified: paths(modified) }
}

fn empty_diff() -> VcsSnapshotDiff {
    diff(&[], &[], &[])
}

fn branch_head(repo: &Repository, name: &str) -> String {
    repo.branches_info.branches.get(&s(name)).unwrap().last_commit.clone()
}

fn is_merged(repo: &Repository, name: &str) -> bool {
    repo.branches_info.branches.get(&s(name)).unwrap().merged
}

#[test]
fn init_creates_first_commit_on_master() {
    let repo = init_at(s("t0"));
    assert_eq!(repo.repo_info.branch, "master");
    assert_eq!(repo.repo_info.commit, "commit-1");
    assert_eq!(repo.repo_info.amount_of_commits, 1);
    assert_eq!(repo.commits_list.commits, paths(&["commit-1"]));
    let first = repo.commits_info.commits.get(&s("commit-1")).unwrap();
    assert_eq!(first.last_commit, "commit-1");
    assert_eq!(first.message, "Initial commit");
    assert_eq!(first.time, "t0");
    assert_eq!(first.branch, "master");
    let master = repo.branches_info.branches.get(&s("master")).unwrap();
    assert_eq!(master.last_commit, "commit-1");
    assert_eq!(master.last_in_master, "commit-1");
    assert!(!master.merged);
}

#[test]
fn init_records_a_time() {
    let repo = init();
    let first = repo.commits_info.commits.get(&s("commit-1")).unwrap();
    assert!(!first.time.is_empty());
    assert_eq!(repo.repo_info.commit, "commit-1");
}

#[test]
fn commit_appends_a_commit_at_the_branch_head() {
    let mut repo = init_at(s("t0"));
    let name = commit_at(&mut repo, "first change", &diff(&["a.txt"], &[], &[]), s("t1")).unwrap();
    assert_eq!(name, "commit-2");
    assert_eq!(repo.repo_info.commit, "commit-2");
    assert_eq!(repo.repo_info.amount_of_commits, 2);
    assert_eq!(repo.commits_list.commits, paths(&["commit-1", "commit-2"]));
    assert_eq!(branch_head(&repo, "master"), "commit-2");
    let info = repo.commits_info.commits.get(&s("commit-2")).unwrap();
    assert_eq!(info.last_commit, "commit-1");
    assert_eq!(info.message, "first change");
    assert_eq!(info.time, "t1");
    assert_eq!(info.branch, "master");
    // The commit leaves the repository at the head, so a second commit goes ahead.
    let second = commit_at(&mut repo, "second", &diff(&[], &["b.txt"], &[]), s("t2")).unwrap();
    assert_eq!(second, "commit-3");
    assert_eq!(repo.commits_info.commits.get(&s("commit-3")).unwrap().last_commit, "commit-2");
}

#[test]
fn commit_uses_the_clock() {
    let mut repo = init_at(s("t0"));
    let name = commit(&mut repo, "m", &diff(&[], &["x"], &[])).unwrap();
    assert_eq!(name, "commit-2");
    assert!(!repo.commits_info.commits.get(&s("commit-2")).unwrap().time.is_empty());
}

#[test]
fn empty_commit_is_refused() {
    let mut repo = init_at(s("t0"));
    match commit_at(&mut repo, "nothing", &empty_diff(), s("t1")) {
        Err(ErrorType::EmptyCommit { branch_name }) => assert_eq!(branch_name, "master"),
        _ => panic!("expected an empty commit"),
    }
    assert_eq!(repo.repo_info.amount_of_commits, 1);
    assert_eq!(repo.commits_list.commits.len(), 1);
}

#[test]
fn commit_away_from_the_head_is_refused() {
    let mut repo = init_at(s("t0"));
    commit_at(&mut repo, "c2", &diff(&["a"], &[], &[]), s("t1")).unwrap();
    jump_to_commit(&mut repo, &s("commit-1"), &empty_diff(), true).unwrap();
    assert!(matches!(
        commit_at(&mut repo, "c3", &diff(&["a"], &[], &[]), s("t2")),
        Err(ErrorType::InvalidCommit)
    ));
    assert_eq!(repo.repo_info.commit, "commit-1");
    assert_eq!(repo.repo_info.amount_of_commits, 2);
}

#[test]
fn new_branch_starts_at_the_current_commit() {
    let mut repo = init_at(s("t0"));
    new_branch(&mut repo, &s("feature")).unwrap();
    assert_eq!(repo.repo_info.branch, "feature");
    assert_eq!(repo.repo_info.commit, "commit-1");
    let b = repo.branches_info.branches.get(&s("feature")).unwrap();
    assert_eq!(b.last_commit, "commit-1");
    assert_eq!(b.last_in_master, "commit-1");
    assert!(!b.merged);
}

#[test]
fn new_branch_outside_master_is_refused() {
    let mut repo = init_at(s("t0"));
    new_branch(&mut repo, &s("feature")).unwrap();
    assert!(matches!(new_branch(&mut repo, &s("other")), Err(ErrorType::InvalidNewBranch)));
    assert!(repo.branches_info.branches.get(&s("other")).is_none());
}

#[test]
fn existing_branch_is_refused() {
    let mut repo = init_at(s("t0"));
    assert!(matches!(new_branch(&mut repo, &s("master")), Err(ErrorType::BranchExists)));
    assert_eq!(repo.repo_info.branch, "master");
}

#[test]
fn jump_to_branch_lands_at_its_newest_commit() {
    let mut repo = init_at(s("t0"));
    new_branch(&mut repo, &s("feature")).unwrap();
    commit_at(&mut repo, "f", &diff(&[], &["f.txt"], &[]), s("t1")).unwrap();
    jump_to_branch(&mut repo, &s("master"), &empty_diff()).unwrap();
    assert_eq!(repo.repo_info.branch, "master");
    assert_eq!(repo.repo_info.commit, "commit-1");
    jump_to_branch(&mut repo, &s("feature"), &empty_diff()).unwrap();
    assert_eq!(repo.repo_info.commit, "commit-2");
}

#[test]
fn jump_to_unknown_branch_is_refused() {
    let mut repo = init_at(s("t0"));
    assert!(matches!(
        jump_to_branch(&mut repo, &s("nowhere"), &diff(&["a"], &[], &[])),
        Err(ErrorType::NonExistentBranch)
    ));
}

#[test]
fn jump_with_unsaved_changes_is_refused() {
    let mut repo = init_at(s("t0"));
    let changes = diff(&["a"], &["b"], &["c"]);
    match jump_to_branch(&mut repo, &s("master"), &changes) {
        Err(ErrorType::UnsavedChanges { diff }) => {
            assert_eq!(diff.modified, paths(&["a"]));
            assert_eq!(diff.added, paths(&["b"]));
            assert_eq!(diff.deleted, paths(&["c"]));
        },
        _ => panic!("expected unsaved changes"),
    }
    assert!(matches!(
        jump_to_commit(&mut repo, &s("commit-1"), &changes, true),
        Err(ErrorType::UnsavedChanges { .. })
    ));
}

#[test]
fn jump_to_commit_takes_the_commits_branch() {
    let mut repo = init_at(s("t0"));
    new_branch(&mut repo, &s("feature")).unwrap();
    commit_at(&mut repo, "f", &diff(&[], &["f.txt"], &[]), s("t1")).unwrap();
    jump_to_commit(&mut repo, &s("commit-1"), &empty_diff(), true).unwrap();
    assert_eq!(repo.repo_info.branch, "master");
    jump_to_commit(&mut repo, &s("commit-2"), &empty_diff(), true).unwrap();
    assert_eq!(repo.repo_info.branch, "feature");
    assert_eq!(repo.repo_info.commit, "commit-2");
}

#[test]
fn jump_to_missing_commit_is_refused() {
    let mut repo = init_at(s("t0"));
    assert!(matches!(
        jump_to_commit(&mut repo, &s("commit-9"), &empty_diff(), false),
        Err(ErrorType::NonExistentCommit)
    ));
}

fn repo_with_merged_feature() -> Repository {
    let mut repo = init_at(s("t0"));
    new_branch(&mut repo, &s("feature")).unwrap();
    commit_at(&mut repo, "f", &diff(&[], &["f.txt"], &[]), s("t1")).unwrap();
    jump_to_branch(&mut repo, &s("master"), &empty_diff()).unwrap();
    let plan = merge_at(&mut repo, &s("feature"), &empty_diff(), &diff(&[], &["f.txt"], &[]), s("t2")).unwrap();
    assert_eq!(plan.commit, "commit-3");
    assert_eq!(plan.files_to_copy, paths(&["f.txt"]));
    repo
}

#[test]
fn merge_makes_a_merge_commit_and_marks_the_branch() {
    let repo = repo_with_merged_feature();
    assert!(is_merged(&repo, "feature"));
    assert!(!is_merged(&repo, "master"));
    assert_eq!(repo.repo_info.commit, "commit-3");
    assert_eq!(branch_head(&repo, "master"), "commit-3");
    let info = repo.commits_info.commits.get(&s("commit-3")).unwrap();
    assert_eq!(info.message, "Merged branch feature.");
    assert_eq!(info.last_commit, "commit-1");
    assert_eq!(info.branch, "master");
}

#[test]
fn merged_branch_cannot_be_jumped_to() {
    let mut repo = repo_with_merged_feature();
    assert!(matches!(
        jump_to_branch(&mut repo, &s("feature"), &empty_diff()),
        Err(ErrorType::NonExistentBranch)
    ));
    assert!(matches!(
        jump_to_commit(&mut repo, &s("commit-2"), &empty_diff(), true),
        Err(ErrorType::NonExistentCommit)
    ));
    assert!(matches!(new_branch(&mut repo, &s("feature")), Err(ErrorType::BranchExists)));
    assert!(is_merged(&repo, "feature"));
}

#[test]
fn log_hides_merged_branches() {
    let repo = repo_with_merged_feature();
    let entries = log(&repo);
    let names: Vec<String> = entries.iter().map(|e| e.commit.clone()).collect();
    assert_eq!(names, paths(&["commit-1", "commit-3"]));
    assert!(!entries[0].shows_changes);
    assert!(entries[1].shows_changes);
    assert_eq!(entries[1].parent, "commit-1");
    assert_eq!(entries[1].time, "t2");
    assert_eq!(entries[1].message, "Merged branch feature.");
}

#[test]
fn merge_outside_master_is_refused() {
    let mut repo = init_at(s("t0"));
    new_branch(&mut repo, &s("feature")).unwrap();
    assert!(matches!(
        merge_at(&mut repo, &s("feature"), &empty_diff(), &empty_diff(), s("t1")),
        Err(ErrorType::InvalidMerge)
    ));
    assert!(matches!(repo.merge_sources(&s("feature")), Err(ErrorType::InvalidMerge)));
}

#[test]
fn merge_with_conflicts_is_refused() {
    let mut repo = init_at(s("t0"));
    new_branch(&mut repo, &s("feature")).unwrap();
    jump_to_branch(&mut repo, &s("master"), &empty_diff()).unwrap();
    let current = diff(&["a", "b"], &[], &["c"]);
    let branch = diff(&["b"], &["x"], &["c", "a"]);
    match merge_at(&mut repo, &s("feature"), &current, &branch, s("t1")) {
        Err(ErrorType::MergeConflict { conflict }) => assert_eq!(conflict, paths(&["b", "c", "a"])),
        _ => panic!("expected a conflict"),
    }
    assert_eq!(repo.repo_info.amount_of_commits, 1);
    assert!(!is_merged(&repo, "feature"));
}

#[test]
fn merge_sources_names_the_branch_ends() {
    let mut repo = init_at(s("t0"));
    new_branch(&mut repo, &s("feature")).unwrap();
    commit_at(&mut repo, "f", &diff(&[], &["f"], &[]), s("t1")).unwrap();
    jump_to_branch(&mut repo, &s("master"), &empty_diff()).unwrap();
    let (newest, start) = repo.merge_sources(&s("feature")).unwrap();
    assert_eq!(newest, "commit-2");
    assert_eq!(start, "commit-1");
}

#[test]
fn merge_commit_marks_the_branch() {
    let mut repo = init_at(s("t0"));
    new_branch(&mut repo, &s("feature")).unwrap();
    jump_to_branch(&mut repo, &s("master"), &empty_diff()).unwrap();
    let name = merge_commit_at(&mut repo, &s("feature"), s("t5"));
    assert_eq!(name, "commit-2");
    assert!(is_merged(&repo, "feature"));
    assert_eq!(repo.commits_info.commits.get(&s("commit-2")).unwrap().time, "t5");
}

#[test]
fn at_branch_head_and_can_merge() {
    let mut repo = init_at(s("t0"));
    assert!(repo.at_branch_head());
    assert!(repo.can_merge());
    new_branch(&mut repo, &s("feature")).unwrap();
    assert!(repo.at_branch_head());
    assert!(!repo.can_merge());
}
