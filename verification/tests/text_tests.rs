use vcs::command_parser::Command;
use vcs::errors::ErrorType;
use vcs::info::RepoInfo;
use vcs::name_map::NameMap;
use vcs::report::{change_summary, commit_header, describe_diff, failure_report, status};
use vcs::snapshot::{contains_path, get_snapshot_diff, merge_conflicts, shared_paths, VcsSnapshotDiff};
use vcs::text::{commit_name_string, decimal_string};

fn paths(items: &[&str]) -> Vec<String> {
    items.iter().map(|p| p.to_string()).collect()
}

fn diff(modified: &[&str], added: &[&str], deleted: &[&str]) -> VcsSnapshotDiff {
    VcsSnapshotDiff { added: paths(added), deleted: paths(deleted), modified: paths(modified) }
}

#[test]
fn decimal_numbers() {
    assert_eq!(decimal_string(0), "0");
    assert_eq!(decimal_string(7), "7");
    assert_eq!(decimal_string(10), "10");
    assert_eq!(decimal_string(1234567890), "1234567890");
    assert_eq!(decimal_string(u64::MAX), "18446744073709551615");
}

#[test]
fn commit_names() {
    assert_eq!(commit_name_string(1), "commit-1");
    assert_eq!(commit_name_string(42), "commit-42");
    assert_ne!(commit_name_string(1), commit_name_string(10));
}

#[test]
fn name_map_insert_and_get() {
    let mut m: NameMap<u32> = NameMap::new();
    assert_eq!(m.len(), 0);
    m.insert("a".to_string(), 1);
    m.insert("b".to_string(), 2);
    m.insert("a".to_string(), 3);
    assert_eq!(m.len(), 2);
    assert_eq!(m.get(&"a".to_string()), Some(&3));
    assert_eq!(m.get(&"b".to_string()), Some(&2));
    assert_eq!(m.get(&"c".to_string()), None);
    assert!(m.contains_key(&"b".to_string()));
    assert!(!m.contains_key(&"c".to_string()));
    assert_eq!(m.keys(), vec!["a".to_string(), "b".to_string()]);
}

#[test]
fn snapshot_diff_sorts_paths() {
    let old = paths(&["a", "b", "c"]);
    let new = paths(&["b", "c", "d"]);
    assert_eq!(shared_paths(&old, &new), paths(&["b", "c"]));
    let d = get_snapshot_diff(&old, &new, &paths(&["b1", "c"]), &paths(&["b2", "c"]));
    assert_eq!(d.modified, paths(&["b"]));
    assert_eq!(d.deleted, paths(&["a"]));
    assert_eq!(d.added, paths(&["d"]));
    assert!(!d.is_empty());
}

#[test]
fn unchanged_snapshot_has_no_diff() {
    let s = paths(&["x", "y/z"]);
    let contents = paths(&["one", "two"]);
    let d = get_snapshot_diff(&s, &s, &contents, &contents);
    assert!(d.is_empty());
    assert_eq!(describe_diff(&d), paths(&["No changes"]));
}

#[test]
fn conflicts_are_shared_paths_once() {
    let current = diff(&["a"], &["b"], &["c"]);
    let branch = diff(&["c", "z"], &["a"], &["c"]);
    assert_eq!(merge_conflicts(&current, &branch), paths(&["c", "a"]));
    assert!(merge_conflicts(&diff(&["p"], &[], &[]), &diff(&["q"], &[], &[])).is_empty());
}

#[test]
fn contains_path_finds_paths() {
    let v = paths(&["a", "b"]);
    assert!(contains_path(&v, &"b".to_string()));
    assert!(!contains_path(&v, &"c".to_string()));
}

#[test]
fn all_paths_in_order() {
    let d = diff(&["m"], &["a1", "a2"], &["d"]);
    assert_eq!(d.all_paths(), paths(&["m", "a1", "a2", "d"]));
    let copy = d.duplicate();
    assert_eq!(copy.added, d.added);
}

#[test]
fn change_summaries() {
    assert_eq!(change_summary(&diff(&["a"], &[], &[])), "1 file changed");
    assert_eq!(change_summary(&diff(&["a", "b"], &["c"], &["d", "e"])), "2 files changed, 1 added, 2 deleted");
    assert_eq!(change_summary(&diff(&[], &["c"], &[])), "1 file added");
    assert_eq!(change_summary(&diff(&[], &["c", "d"], &["e"])), "2 files added, 1 deleted");
    assert_eq!(change_summary(&diff(&[], &[], &["e"])), "1 file deleted");
    assert_eq!(change_summary(&diff(&[], &[], &["e", "f", "g"])), "3 files deleted");
    assert_eq!(change_summary(&diff(&[], &[], &[])), "");
}

#[test]
fn diff_descriptions() {
    let d = diff(&["m"], &["a"], &["d"]);
    assert_eq!(describe_diff(&d), paths(&["modified: m", "added: a", "deleted: d"]));
}

#[test]
fn status_lines() {
    let info = RepoInfo { branch: "master".to_string(), commit: "commit-1".to_string(), amount_of_commits: 1 };
    assert_eq!(status(&info, &diff(&[], &[], &[])), paths(&["On branch master", "No changes to be committed"]));
    assert_eq!(status(&info, &diff(&["x"], &[], &[])), paths(&["On branch master", "Changes to be committed:"]));
}

#[test]
fn commit_headers() {
    assert_eq!(commit_header(&"master".to_string(), &"commit-2".to_string(), "fix"), "[master, commit-2] fix");
}

#[test]
fn failure_reports() {
    let commit = Command::Commit { message: "m".to_string() };
    assert_eq!(
        failure_report(&commit, &Some(ErrorType::InvalidCommit)),
        paths(&["You can create a new commit only from last one.", "Aborting..."])
    );
    assert_eq!(
        failure_report(&commit, &Some(ErrorType::EmptyCommit { branch_name: "dev".to_string() })),
        paths(&["On branch dev", "No changes to be committed"])
    );
    assert_eq!(failure_report(&commit, &None), paths(&["Unable to commit"]));
    let nb = Command::NewBranch { name: "dev".to_string() };
    assert_eq!(
        failure_report(&nb, &Some(ErrorType::BranchExists)),
        paths(&["Branch dev already exists.", "Aborting..."])
    );
    assert_eq!(
        failure_report(&nb, &Some(ErrorType::InvalidNewBranch)),
        paths(&["Creating a new branch is possible only when you are in the master branch.", "Aborting..."])
    );
    let merge = Command::Merge { branch: "dev".to_string() };
    assert_eq!(
        failure_report(&merge, &Some(ErrorType::MergeConflict { conflict: paths(&["a", "b"]) })),
        paths(&["Merge conflict: file has been changed both in master and branch", "a", "b"])
    );
    assert_eq!(
        failure_report(&merge, &Some(ErrorType::InvalidMerge)),
        paths(&["The merge is possible only when you are in the last commit in master.", "Aborting..."])
    );
    let jc = Command::Jump { branch: None, commit: Some("commit-7".to_string()) };
    assert_eq!(
        failure_report(&jc, &Some(ErrorType::NonExistentCommit)),
        paths(&["No commit with hash commit-7 exists.", "Aborting..."])
    );
    assert_eq!(
        failure_report(&jc, &Some(ErrorType::UnsavedChanges { diff: diff(&["/r/m"], &["/r/a"], &[]) })),
        paths(&[
            "error: Your local changes to the following files should be committed or dropped:",
            "/r/m",
            "/r/a",
            "Please commit your changes or drop them before you jump.",
            "Aborting...",
        ])
    );
    let jb = Command::Jump { branch: Some("dev".to_string()), commit: None };
    assert_eq!(
        failure_report(&jb, &Some(ErrorType::NonExistentBranch)),
        paths(&["No branch dev exists.", "Aborting..."])
    );
    assert_eq!(failure_report(&jb, &None), paths(&["Unable to jump to branch"]));
    assert_eq!(failure_report(&Command::Status, &None), paths(&["Unable to print status"]));
}

#[test]
fn reversed_diff_swaps_added_and_deleted() {
    let x = paths(&["a", "b", "c"]);
    let y = paths(&["c", "d", "b"]);
    let forth = get_snapshot_diff(&x, &y, &paths(&["b-x", "c-x"]), &paths(&["b-y", "c-x"]));
    let back = get_snapshot_diff(&y, &x, &paths(&["c-x", "b-y"]), &paths(&["c-x", "b-x"]));
    assert_eq!(back.added, forth.deleted);
    assert_eq!(back.deleted, forth.added);
    assert_eq!(forth.modified, paths(&["b"]));
    assert_eq!(back.modified, paths(&["b"]));
}
