//! The lines the commands print.

use vstd::prelude::*;
use crate::command_parser::Command;
use crate::errors::ErrorType;
use crate::info::RepoInfo;
use crate::snapshot::{DiffView, VcsSnapshotDiff};
use crate::text::{decimal, decimal_string};

verus! {

/// `n` followed by `one` if `n` is one, else by `many`.
pub open spec fn count_text(n: nat, one: Seq<char>, many: Seq<char>) -> Seq<char> {
    decimal(n) + if n == 1 { one } else { many }
}

/// The one-line summary of a commit's changes, from the numbers of modified,
/// added and deleted files, e.g. `2 files changed, 1 added` or `1 file added`.
/// Empty when nothing changed.
pub open spec fn change_summary_text(m: nat, a: nat, d: nat) -> Seq<char> {
    let first = if m > 0 { count_text(m, " file changed"@, " files changed"@) } else { Seq::<char>::empty() };
    let second = if a > 0 {
        if m > 0 { ", "@ + decimal(a) + " added"@ } else { count_text(a, " file added"@, " files added"@) }
    } else {
        Seq::<char>::empty()
    };
    let third = if d > 0 {
        if m > 0 || a > 0 { ", "@ + decimal(d) + " deleted"@ } else { count_text(d, " file deleted"@, " files deleted"@) }
    } else {
        Seq::<char>::empty()
    };
    first + second + third
}

/// The paths, each behind `label`.
pub open spec fn labelled(label: Seq<char>, paths: Seq<Seq<char>>) -> Seq<Seq<char>> {
    paths.map_values(|p: Seq<char>| label + p)
}

/// The lines that list a difference: `No changes`, or one line per modified,
/// added and deleted path, in that order.
pub open spec fn diff_lines(d: DiffView) -> Seq<Seq<char>> {
    if d.is_empty() {
        seq!["No changes"@]
    } else {
        labelled("modified: "@, d.modified) + labelled("added: "@, d.added) + labelled("deleted: "@, d.deleted)
    }
}

/// The lines of a status report before the list of changes.
pub open spec fn status_text(branch: Seq<char>, d: DiffView) -> Seq<Seq<char>> {
    seq![
        "On branch "@ + branch,
        if d.is_empty() { "No changes to be committed"@ } else { "Changes to be committed:"@ },
    ]
}

/// The line that announces a commit: `[branch, commit] message`.
pub open spec fn commit_header_text(branch: Seq<char>, commit: Seq<char>, message: Seq<char>) -> Seq<char> {
    "["@ + branch + ", "@ + commit + "] "@ + message
}

fn count_string(n: usize, one: &str, many: &str) -> (r: String)
    ensures
        r@ == count_text(n as nat, one@, many@),
{
    let mut s = decimal_string(n as u64);
    if n == 1 {
        s.append(one);
    } else {
        s.append(many);
    }
    s
}

fn tail_string(n: usize, word: &str) -> (r: String)
    ensures
        r@ == ", "@ + decimal(n as nat) + word@,
{
    let mut s = String::from_str(", ");
    let d = decimal_string(n as u64);
    s.append(d.as_str());
    s.append(word);
    assert(s@ =~= ", "@ + decimal(n as nat) + word@);
    s
}

/// The one-line summary of the changes `diff` (see [`change_summary_text`]).
pub fn change_summary(diff: &VcsSnapshotDiff) -> (r: String)
    ensures
        r@ == change_summary_text(diff@.modified.len(), diff@.added.len(), diff@.deleted.len()),
{
    let m = diff.modified.len();
    let a = diff.added.len();
    let d = diff.deleted.len();
    let mut s = String::new();
    if m > 0 {
        let part = count_string(m, " file changed", " files changed");
        s.append(part.as_str());
    }
    if a > 0 {
        let part = if m > 0 { tail_string(a, " added") } else { count_string(a, " file added", " files added") };
        s.append(part.as_str());
    }
    if d > 0 {
        let part = if m > 0 || a > 0 {
            tail_string(d, " deleted")
        } else {
            count_string(d, " file deleted", " files deleted")
        };
        s.append(part.as_str());
    }
    assert(s@ =~= change_summary_text(m as nat, a as nat, d as nat));
    s
}

fn push_labelled(out: &mut Vec<String>, label: &str, paths: &Vec<String>)
    ensures
        final(out).deep_view() == old(out).deep_view() + labelled(label@, paths.deep_view()),
{
    let ghost start = out.deep_view();
    let mut i: usize = 0;
    while i < paths.len()
        invariant
            i <= paths.len(),
            out.deep_view() == start + labelled(label@, paths.deep_view().take(i as int)),
        decreases paths.len() - i,
    {
        let ghost before = out.deep_view();
        let mut line = String::from_str(label);
        line.append(paths[i].as_str());
        out.push(line);
        assert(out.deep_view() =~= before.push(label@ + paths.deep_view()[i as int]));
        assert(labelled(label@, paths.deep_view().take(i + 1)) =~= labelled(label@, paths.deep_view().take(i as int)).push(
            label@ + paths.deep_view()[i as int],
        ));
        i = i + 1;
    }
    assert(paths.deep_view().take(paths.len() as int) =~= paths.deep_view());
}

/// The lines that list the difference `diff` (see [`diff_lines`]).
pub fn describe_diff(diff: &VcsSnapshotDiff) -> (r: Vec<String>)
    ensures
        r.deep_view() == diff_lines(diff@),
{
    let mut out: Vec<String> = Vec::new();
    if diff.is_empty() {
        out.push(String::from_str("No changes"));
        assert(out.deep_view() =~= seq!["No changes"@]);
        return out;
    }
    push_labelled(&mut out, "modified: ", &diff.modified);
    push_labelled(&mut out, "added: ", &diff.added);
    push_labelled(&mut out, "deleted: ", &diff.deleted);
    assert(out.deep_view() =~= diff_lines(diff@));
    out
}

/// The lines of a status report: the branch, then whether there is anything
/// to commit. A list of the changes (see [`describe_diff`]) follows when
/// there is.
pub fn status(repo_info: &RepoInfo, diff: &VcsSnapshotDiff) -> (r: Vec<String>)
    ensures
        r.deep_view() == status_text(repo_info.branch@, diff@),
{
    let mut first = String::from_str("On branch ");
    first.append(repo_info.branch.as_str());
    let second = if diff.is_empty() {
        String::from_str("No changes to be committed")
    } else {
        String::from_str("Changes to be committed:")
    };
    let mut out: Vec<String> = Vec::new();
    out.push(first);
    out.push(second);
    assert(out.deep_view() =~= status_text(repo_info.branch@, diff@));
    out
}

/// The line that announces a commit (see [`commit_header_text`]).
pub fn commit_header(branch: &String, commit: &String, message: &str) -> (r: String)
    ensures
        r@ == commit_header_text(branch@, commit@, message@),
{
    let mut s = String::from_str("[");
    s.append(branch.as_str());
    s.append(", ");
    s.append(commit.as_str());
    s.append("] ");
    s.append(message);
    assert(s@ =~= commit_header_text(branch@, commit@, message@));
    s
}

/// A refusal line followed by `Aborting...`.
pub open spec fn aborting(line: Seq<char>) -> Seq<Seq<char>> {
    seq![line, "Aborting..."@]
}

/// The lines that explain that a jump would lose the changes `d`: the
/// changed paths, modified, added and deleted, between a header and advice.
pub open spec fn unsaved_lines(d: DiffView) -> Seq<Seq<char>> {
    seq!["error: Your local changes to the following files should be committed or dropped:"@] + d.modified
        + d.added + d.deleted + seq![
        "Please commit your changes or drop them before you jump."@,
        "Aborting..."@,
    ]
}

/// What the tool prints when `command` fails with `error`, or, with no
/// error, when it fails on the file system. For `init`, `status` and `log`
/// this is the message the tool stops with.
pub open spec fn failure_lines(command: Command, error: Option<ErrorType>) -> Seq<Seq<char>> {
    match command {
        Command::Init { .. } => seq!["Unable to init"@],
        Command::Status => seq!["Unable to print status"@],
        Command::Log => seq!["Unable to print log"@],
        Command::Commit { .. } => match error {
            Some(ErrorType::InvalidCommit) => aborting("You can create a new commit only from last one."@),
            Some(ErrorType::EmptyCommit { branch_name }) => seq![
                "On branch "@ + branch_name@,
                "No changes to be committed"@,
            ],
            _ => seq!["Unable to commit"@],
        },
        Command::NewBranch { name } => match error {
            Some(ErrorType::InvalidNewBranch) => aborting(
                "Creating a new branch is possible only when you are in the master branch."@,
            ),
            Some(ErrorType::BranchExists) => aborting("Branch "@ + name@ + " already exists."@),
            _ => seq!["Unable to create new branch"@],
        },
        Command::Merge { .. } => match error {
            Some(ErrorType::InvalidMerge) => aborting(
                "The merge is possible only when you are in the last commit in master."@,
            ),
            Some(ErrorType::MergeConflict { conflict }) => seq![
                "Merge conflict: file has been changed both in master and branch"@,
            ] + conflict.deep_view(),
            _ => seq!["Unable to merge"@],
        },
        Command::Jump { branch, commit } => match branch {
            None => match error {
                Some(ErrorType::UnsavedChanges { diff }) => unsaved_lines(diff@),
                Some(ErrorType::NonExistentCommit) => aborting(
                    "No commit with hash "@ + commit->0@ + " exists."@,
                ),
                _ => seq!["Unable to jump to commit"@],
            },
            Some(b) => match error {
                Some(ErrorType::NonExistentBranch) => aborting("No branch "@ + b@ + " exists."@),
                Some(ErrorType::UnsavedChanges { diff }) => unsaved_lines(diff@),
                _ => seq!["Unable to jump to branch"@],
            },
        },
    }
}

fn one_line(text: &str) -> (r: Vec<String>)
    ensures
        r.deep_view() == seq![text@],
{
    let mut out: Vec<String> = Vec::new();
    out.push(String::from_str(text));
    assert(out.deep_view() =~= seq![text@]);
    out
}

fn aborting_lines(line: String) -> (r: Vec<String>)
    ensures
        r.deep_view() == aborting(line@),
{
    let mut out: Vec<String> = Vec::new();
    let ghost l = line@;
    out.push(line);
    out.push(String::from_str("Aborting..."));
    assert(out.deep_view() =~= aborting(l));
    out
}

fn append_paths(out: &mut Vec<String>, paths: &Vec<String>)
    ensures
        final(out).deep_view() == old(out).deep_view() + paths.deep_view(),
{
    let ghost start = out.deep_view();
    let mut i: usize = 0;
    while i < paths.len()
        invariant
            i <= paths.len(),
            out.deep_view() == start + paths.deep_view().take(i as int),
        decreases paths.len() - i,
    {
        let ghost before = out.deep_view();
        out.push(paths[i].clone());
        assert(out.deep_view() =~= before.push(paths.deep_view()[i as int]));
        assert(start + paths.deep_view().take(i + 1) =~= (start + paths.deep_view().take(i as int)).push(
            paths.deep_view()[i as int],
        ));
        i = i + 1;
    }
    assert(paths.deep_view().take(paths.len() as int) =~= paths.deep_view());
}

fn unsaved_report(diff: &VcsSnapshotDiff) -> (r: Vec<String>)
    ensures
        r.deep_view() == unsaved_lines(diff@),
{
    let mut out = one_line("error: Your local changes to the following files should be committed or dropped:");
    append_paths(&mut out, &diff.modified);
    append_paths(&mut out, &diff.added);
    append_paths(&mut out, &diff.deleted);
    out.push(String::from_str("Please commit your changes or drop them before you jump."));
    out.push(String::from_str("Aborting..."));
    assert(out.deep_view() =~= unsaved_lines(diff@));
    out
}

fn wrapped(head: &str, middle: &String, tail: &str) -> (r: String)
    ensures
        r@ == head@ + middle@ + tail@,
{
    let mut s = String::from_str(head);
    s.append(middle.as_str());
    s.append(tail);
    s
}

/// What the tool prints when `command` fails with `error`, or, with no
/// error, when it fails on the file system (see [`failure_lines`]).
pub fn failure_report(command: &Command, error: &Option<ErrorType>) -> (r: Vec<String>)
    requires
        command matches Command::Jump { branch, commit } ==> branch is Some || commit is Some,
    ensures
        r.deep_view() == failure_lines(*command, *error),
{
    match command {
        Command::Init { .. } => one_line("Unable to init"),
        Command::Status => one_line("Unable to print status"),
        Command::Log => one_line("Unable to print log"),
        Command::Commit { .. } => match error {
            Some(ErrorType::InvalidCommit) => aborting_lines(
                String::from_str("You can create a new commit only from last one."),
            ),
            Some(ErrorType::EmptyCommit { branch_name }) => {
                let mut out: Vec<String> = Vec::new();
                out.push(wrapped("On branch ", branch_name, ""));
                out.push(String::from_str("No changes to be committed"));
                proof {
                    reveal_strlit("");
                }
                assert(out.deep_view() =~= failure_lines(*command, *error));
                out
            },
            _ => one_line("Unable to commit"),
        },
        Command::NewBranch { name } => match error {
            Some(ErrorType::InvalidNewBranch) => aborting_lines(
                String::from_str("Creating a new branch is possible only when you are in the master branch."),
            ),
            Some(ErrorType::BranchExists) => aborting_lines(wrapped("Branch ", name, " already exists.")),
            _ => one_line("Unable to create new branch"),
        },
        Command::Merge { .. } => match error {
            Some(ErrorType::InvalidMerge) => aborting_lines(
                String::from_str("The merge is possible only when you are in the last commit in master."),
            ),
            Some(ErrorType::MergeConflict { conflict }) => {
                let mut out = one_line("Merge conflict: file has been changed both in master and branch");
                append_paths(&mut out, conflict);
                out
            },
            _ => one_line("Unable to merge"),
        },
        Command::Jump { branch, commit } => match branch {
            None => match error {
                Some(ErrorType::UnsavedChanges { diff }) => unsaved_report(diff),
                Some(ErrorType::NonExistentCommit) => {
                    let hash = match commit {
                        Some(h) => h,
                        None => {
                            return one_line("Unable to jump to commit");
                        },
                    };
                    aborting_lines(wrapped("No commit with hash ", hash, " exists."))
                },
                _ => one_line("Unable to jump to commit"),
            },
            Some(b) => match error {
                Some(ErrorType::NonExistentBranch) => aborting_lines(wrapped("No branch ", b, " exists.")),
                Some(ErrorType::UnsavedChanges { diff }) => unsaved_report(diff),
                _ => one_line("Unable to jump to branch"),
            },
        },
    }
}

} // verus!

