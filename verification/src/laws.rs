//! What the commands keep: the consistency of the repository, the merged
//! marks, the history, and where a command leaves the working directory.

use vstd::prelude::*;
use crate::commands::{history_recorded, log_entry};
use crate::diff_laws::lemma_filter_contains_iff;
use crate::repository::{initial_repository, master, RepositoryView};
use crate::text::{commit_name, lemma_commit_name_injective};

verus! {

/// A fresh repository is consistent.
pub proof fn lemma_initial_well_formed(time: Seq<char>)
    ensures
        initial_repository(time).well_formed(),
{
    let r = initial_repository(time);
    assert forall|c: Seq<char>| #[trigger] r.commits.contains_key(c) <==> r.list.contains(c) by {
        if c == commit_name(1) {
            assert(r.list[0] == c);
        }
    }
}

/// In a consistent repository the next commit's name is not recorded yet,
/// so a commit overwrites no commit of the history.
pub proof fn lemma_next_commit_is_fresh(r: RepositoryView)
    requires
        r.well_formed(),
    ensures
        !r.commits.contains_key(r.next_commit()),
        !r.list.contains(r.next_commit()),
{
    let next = r.next_commit();
    if r.list.contains(next) {
        let i = choose|i: int| 0 <= i < r.list.len() && r.list[i] == next;
        assert(r.list[i] == commit_name((i + 1) as nat));
        lemma_commit_name_injective((i + 1) as nat, r.info.amount_of_commits + 1);
    }
}

/// A commit keeps a consistent repository consistent, and records its commit
/// under a name no commit had before.
pub proof fn lemma_commit_keeps_well_formed(r: RepositoryView, message: Seq<char>, time: Seq<char>)
    requires
        r.well_formed(),
    ensures
        r.with_commit(message, time).well_formed(),
        !r.commits.contains_key(r.next_commit()),
{
    lemma_next_commit_is_fresh(r);
    let s = r.with_commit(message, time);
    let name = r.next_commit();
    assert(s.list.len() == s.info.amount_of_commits);
    assert forall|i: int| 0 <= i < s.list.len() implies #[trigger] s.list[i] == commit_name((i + 1) as nat) by {
        if i < r.list.len() {
            assert(s.list[i] == r.list[i]);
        }
    }
    assert forall|c: Seq<char>| #[trigger] s.commits.contains_key(c) <==> s.list.contains(c) by {
        if c == name {
            assert(s.list[r.list.len() as int] == c);
        } else {
            if r.list.contains(c) {
                let i = choose|i: int| 0 <= i < r.list.len() && r.list[i] == c;
                assert(s.list[i] == c);
            }
            if s.list.contains(c) {
                let i = choose|i: int| 0 <= i < s.list.len() && s.list[i] == c;
                assert(r.list[i] == c);
            }
        }
    }
}

/// The commit that merges a branch keeps a consistent repository consistent.
pub proof fn lemma_merge_commit_keeps_well_formed(r: RepositoryView, branch: Seq<char>, time: Seq<char>)
    requires
        r.well_formed(),
        r.branches.contains_key(branch),
    ensures
        r.with_merge_commit(branch, time).well_formed(),
{
    let m = r.with_commit(crate::repository::merge_message(branch), time);
    lemma_commit_keeps_well_formed(r, crate::repository::merge_message(branch), time);
    let s = r.with_merge_commit(branch, time);
    assert(s.commits == m.commits);
    assert forall|c: Seq<char>| #[trigger] s.commits.contains_key(c) <==> s.list.contains(c) by {
        assert(m.commits.contains_key(c) <==> m.list.contains(c));
    }
}

/// Creating a branch keeps a consistent repository consistent.
pub proof fn lemma_new_branch_keeps_well_formed(r: RepositoryView, name: Seq<char>)
    requires
        r.well_formed(),
    ensures
        r.with_new_branch(name).well_formed(),
{
    let s = r.with_new_branch(name);
    assert(s.commits == r.commits);
    assert(s.list == r.list);
    assert(s.info.commit == r.info.commit);
    assert forall|b: Seq<char>| #[trigger] s.branches.contains_key(b) implies {
        &&& s.commits.contains_key(s.branches[b].last_commit)
        &&& s.commits.contains_key(s.branches[b].last_in_master)
    } by {
        if b != name {
            assert(r.branches.contains_key(b));
        }
    }
    assert forall|c: Seq<char>| #[trigger] s.commits.contains_key(c) implies {
        &&& s.branches.contains_key(s.commits[c].branch)
        &&& s.commits.contains_key(s.commits[c].last_commit)
    } by {
        assert(r.branches.contains_key(r.commits[c].branch));
    }
}

/// Jumping to a recorded commit, on its own branch, keeps a consistent
/// repository consistent.
pub proof fn lemma_jump_to_commit_keeps_well_formed(r: RepositoryView, hash: Seq<char>)
    requires
        r.well_formed(),
        r.commits.contains_key(hash),
    ensures
        r.with_position(r.commits[hash].branch, hash).well_formed(),
{
    let s = r.with_position(r.commits[hash].branch, hash);
    assert forall|c: Seq<char>| #[trigger] s.commits.contains_key(c) <==> s.list.contains(c) by {
        assert(r.commits.contains_key(c) <==> r.list.contains(c));
    }
}

/// Jumping to the newest commit of a branch keeps a consistent repository
/// consistent.
pub proof fn lemma_jump_to_branch_keeps_well_formed(r: RepositoryView, name: Seq<char>)
    requires
        r.well_formed(),
        r.branches.contains_key(name),
    ensures
        r.with_position(name, r.branches[name].last_commit).well_formed(),
{
    let s = r.with_position(name, r.branches[name].last_commit);
    assert forall|c: Seq<char>| #[trigger] s.commits.contains_key(c) <==> s.list.contains(c) by {
        assert(r.commits.contains_key(c) <==> r.list.contains(c));
    }
}

/// Every listed commit of a consistent repository is recorded with its
/// branch, as the log needs.
pub proof fn lemma_well_formed_history_recorded(r: RepositoryView)
    requires
        r.well_formed(),
    ensures
        history_recorded(r),
{
    assert forall|i: int| 0 <= i < r.list.len() implies {
        &&& r.commits.contains_key(#[trigger] r.list[i])
        &&& r.branches.contains_key(r.commits[r.list[i]].branch)
    } by {
        assert(r.list.contains(r.list[i]));
    }
}

/// Every branch merged before is still there, and still merged, after.
pub open spec fn keeps_merged(before: RepositoryView, after: RepositoryView) -> bool {
    forall|b: Seq<char>| #[trigger] before.branches.contains_key(b) && before.branches[b].merged
        ==> after.branches.contains_key(b) && after.branches[b].merged
}

/// The history before is the start of the history after, and every commit
/// recorded before is recorded after, unchanged.
pub open spec fn extends_history(before: RepositoryView, after: RepositoryView) -> bool {
    &&& before.list.is_prefix_of(after.list)
    &&& forall|c: Seq<char>| #[trigger] before.commits.contains_key(c)
        ==> after.commits.contains_key(c) && after.commits[c] == before.commits[c]
}

/// No command undoes a merge: the commands that go ahead (a commit, a merge
/// commit, a new branch of a fresh name, a jump) keep every merged branch
/// merged.
pub proof fn lemma_merged_stays_merged(
    r: RepositoryView,
    message: Seq<char>,
    time: Seq<char>,
    merged: Seq<char>,
    name: Seq<char>,
    branch: Seq<char>,
    commit: Seq<char>,
)
    ensures
        keeps_merged(r, r.with_commit(message, time)),
        keeps_merged(r, r.with_merge_commit(merged, time)),
        !r.branches.contains_key(name) ==> keeps_merged(r, r.with_new_branch(name)),
        keeps_merged(r, r.with_position(branch, commit)),
{
    let m = r.with_commit(crate::repository::merge_message(merged), time);
    assert(keeps_merged(r, m));
}

/// A consistent repository's history only grows: a commit or a merge commit
/// appends one commit and changes none of the others; the other commands
/// keep the history as it is.
pub proof fn lemma_history_only_grows(
    r: RepositoryView,
    message: Seq<char>,
    time: Seq<char>,
    merged: Seq<char>,
    name: Seq<char>,
    branch: Seq<char>,
    commit: Seq<char>,
)
    requires
        r.well_formed(),
    ensures
        extends_history(r, r.with_commit(message, time)),
        r.with_commit(message, time).list.len() == r.list.len() + 1,
        extends_history(r, r.with_merge_commit(merged, time)),
        r.with_merge_commit(merged, time).list.len() == r.list.len() + 1,
        extends_history(r, r.with_new_branch(name)),
        extends_history(r, r.with_position(branch, commit)),
{
    lemma_next_commit_is_fresh(r);
    let s = r.with_commit(message, time);
    assert(r.list.is_prefix_of(s.list)) by {
        assert(s.list.subrange(0, r.list.len() as int) =~= r.list);
    }
    let m = r.with_commit(crate::repository::merge_message(merged), time);
    assert(r.list.is_prefix_of(m.list)) by {
        assert(m.list.subrange(0, r.list.len() as int) =~= r.list);
    }
    assert(r.list.is_prefix_of(r.list)) by {
        assert(r.list.subrange(0, r.list.len() as int) =~= r.list);
    }
}

/// A commit leaves the working directory at the newest commit of its branch,
/// so that a next commit is allowed, and the new commit's parent is the
/// commit the working directory stood at.
pub proof fn lemma_commit_lands_at_head(r: RepositoryView, message: Seq<char>, time: Seq<char>)
    ensures
        r.with_commit(message, time).at_branch_head(),
        r.with_commit(message, time).info.branch == r.info.branch,
        r.with_commit(message, time).info.commit == r.next_commit(),
        r.with_commit(message, time).commits[r.next_commit()].last_commit == r.info.commit,
        r.with_commit(message, time).commits[r.next_commit()].message == message,
        r.with_commit(message, time).list.last() == r.next_commit(),
{
}

/// Creating a branch moves onto it, at its newest commit, which is the
/// commit the working directory stood at.
pub proof fn lemma_new_branch_lands_at_head(r: RepositoryView, name: Seq<char>)
    ensures
        r.with_new_branch(name).at_branch_head(),
        r.with_new_branch(name).info.branch == name,
        r.with_new_branch(name).info.commit == r.info.commit,
        r.with_new_branch(name).branches[name].last_commit == r.info.commit,
        r.with_new_branch(name).branches[name].last_in_master == r.info.commit,
        !r.with_new_branch(name).branches[name].merged,
        r.with_new_branch(name).branches.dom() == r.branches.dom().insert(name),
        forall|b: Seq<char>| #[trigger] r.branches.contains_key(b) && b != name
            ==> r.with_new_branch(name).branches[b] == r.branches[b],
        r.with_new_branch(name).commits == r.commits,
        r.with_new_branch(name).list == r.list,
        r.with_new_branch(name).info.amount_of_commits == r.info.amount_of_commits,
{
    assert(r.with_new_branch(name).branches.dom() =~= r.branches.dom().insert(name));
}

/// Jumping to a branch lands at its newest commit.
pub proof fn lemma_jump_to_branch_lands_at_head(r: RepositoryView, name: Seq<char>)
    requires
        r.branches.contains_key(name),
    ensures
        r.with_position(name, r.branches[name].last_commit).at_branch_head(),
{
}

/// After a branch is merged, the log no longer shows any of its commits.
pub proof fn lemma_merged_commits_leave_the_log(r: RepositoryView, merged: Seq<char>, time: Seq<char>)
    requires
        r.branches.contains_key(merged),
    ensures
        r.with_merge_commit(merged, time).branches[merged].merged,
        forall|c: Seq<char>|
            #![trigger r.with_merge_commit(merged, time).log_commits().contains(c)]
            r.with_merge_commit(merged, time).commits.contains_key(c)
                && r.with_merge_commit(merged, time).commits[c].branch == merged
                ==> !r.with_merge_commit(merged, time).log_commits().contains(c),
{
    let s = r.with_merge_commit(merged, time);
    assert forall|c: Seq<char>|
        s.commits.contains_key(c) && s.commits[c].branch == merged implies !#[trigger] s.log_commits().contains(c) by {
        if s.log_commits().contains(c) {
            let i = choose|i: int| 0 <= i < s.log_commits().len() && s.log_commits()[i] == c;
            s.list.lemma_filter_pred(|x: Seq<char>| !s.in_merged_branch(x), i);
        }
    }
}

/// A commit moves only the current branch's newest commit: the branch keeps
/// the master commit it started from and its merged mark, every other branch
/// is left as it was, and the position stays on the same branch.
pub proof fn lemma_commit_moves_only_the_branch_head(r: RepositoryView, message: Seq<char>, time: Seq<char>)
    requires
        r.branches.contains_key(r.info.branch),
    ensures
        r.with_commit(message, time).branches.contains_key(r.info.branch),
        r.with_commit(message, time).branches[r.info.branch].last_commit == r.next_commit(),
        r.with_commit(message, time).branches[r.info.branch].last_in_master == r.branches[r.info.branch].last_in_master,
        r.with_commit(message, time).branches[r.info.branch].merged == r.branches[r.info.branch].merged,
        r.with_commit(message, time).branches.dom() == r.branches.dom(),
        forall|b: Seq<char>| #[trigger] r.branches.contains_key(b) && b != r.info.branch
            ==> r.with_commit(message, time).branches[b] == r.branches[b],
        r.with_commit(message, time).info.branch == r.info.branch,
        r.with_commit(message, time).info.amount_of_commits == r.info.amount_of_commits + 1,
        r.with_commit(message, time).commits[r.next_commit()].branch == r.info.branch,
        r.with_commit(message, time).commits[r.next_commit()].time == time,
{
    assert(r.with_commit(message, time).branches.dom() =~= r.branches.dom());
}

/// The merge commit moves master's newest commit and marks the merged branch,
/// and changes no branch's start: for every branch, the master commit it
/// started from stays the same.
pub proof fn lemma_merge_commit_keeps_branch_starts(r: RepositoryView, merged: Seq<char>, time: Seq<char>)
    requires
        r.branches.contains_key(r.info.branch),
        r.branches.contains_key(merged),
    ensures
        r.with_merge_commit(merged, time).branches.dom() == r.branches.dom(),
        forall|b: Seq<char>| #[trigger] r.branches.contains_key(b)
            ==> r.with_merge_commit(merged, time).branches[b].last_in_master == r.branches[b].last_in_master,
        r.with_merge_commit(merged, time).branches[merged].merged,
        merged != r.info.branch ==> r.with_merge_commit(merged, time).branches[r.info.branch].merged
            == r.branches[r.info.branch].merged,
        r.with_merge_commit(merged, time).branches[r.info.branch].last_commit == r.next_commit(),
        forall|b: Seq<char>| #[trigger] r.branches.contains_key(b) && b != merged && b != r.info.branch
            ==> r.with_merge_commit(merged, time).branches[b] == r.branches[b],
{
    assert(r.with_merge_commit(merged, time).branches.dom() =~= r.branches.dom());
}

/// A merge is allowed exactly when the working directory is on master, at
/// master's newest commit.
pub proof fn lemma_can_merge_exactly_at_master_head(r: RepositoryView)
    ensures
        r.can_merge() <==> (r.info.branch == master() && r.branches.contains_key(master())
            && r.branches[master()].last_commit == r.info.commit),
        r.at_branch_head() <==> (r.branches.contains_key(r.info.branch)
            && r.branches[r.info.branch].last_commit == r.info.commit),
{
}

/// The log shows a commit exactly when it is in the history and its branch
/// is not merged, and it is never longer than the history.
pub proof fn lemma_log_shows_unmerged_commits(r: RepositoryView)
    ensures
        forall|c: Seq<char>| #[trigger] r.log_commits().contains(c)
            <==> (r.list.contains(c) && !r.branches[r.commits[c].branch].merged),
        r.log_commits().len() <= r.list.len(),
{
    let keep = |c: Seq<char>| !r.in_merged_branch(c);
    assert forall|c: Seq<char>| #[trigger] r.log_commits().contains(c)
        <==> (r.list.contains(c) && !r.branches[r.commits[c].branch].merged) by {
        lemma_filter_contains_iff(r.list, keep, c);
    }
    r.list.lemma_filter_len(keep);
}

/// Moving the working directory sets exactly its branch and its commit, and
/// changes nothing else; in particular a jump to a branch lands on that
/// branch, at its newest commit.
pub proof fn lemma_position_is_what_was_asked(r: RepositoryView, branch: Seq<char>, commit: Seq<char>, name: Seq<char>)
    ensures
        r.with_position(branch, commit).info.branch == branch,
        r.with_position(branch, commit).info.commit == commit,
        r.with_position(branch, commit).info.amount_of_commits == r.info.amount_of_commits,
        r.with_position(branch, commit).commits == r.commits,
        r.with_position(branch, commit).branches == r.branches,
        r.with_position(branch, commit).list == r.list,
        r.with_position(name, r.branches[name].last_commit).info.branch == name,
        r.with_position(name, r.branches[name].last_commit).info.commit == r.branches[name].last_commit,
{
}

/// What a commit records: a new commit whose parent is the commit the
/// working directory stood at, with the given message and time, on the
/// current branch, appended to the history; every commit recorded before,
/// other than one of the new name, stays as it was.
pub proof fn lemma_commit_records_its_commit(r: RepositoryView, message: Seq<char>, time: Seq<char>)
    ensures
        r.with_commit(message, time).commits.contains_key(r.next_commit()),
        r.with_commit(message, time).commits[r.next_commit()].last_commit == r.info.commit,
        r.with_commit(message, time).commits[r.next_commit()].message == message,
        r.with_commit(message, time).commits[r.next_commit()].time == time,
        r.with_commit(message, time).commits[r.next_commit()].branch == r.info.branch,
        r.with_commit(message, time).commits.dom() == r.commits.dom().insert(r.next_commit()),
        forall|c: Seq<char>| #[trigger] r.commits.contains_key(c) && c != r.next_commit()
            ==> r.with_commit(message, time).commits[c] == r.commits[c],
        r.with_commit(message, time).list == r.list.push(r.next_commit()),
        r.next_commit() == commit_name(r.info.amount_of_commits + 1),
{
    assert(r.with_commit(message, time).commits.dom() =~= r.commits.dom().insert(r.next_commit()));
}

/// The commit that merges a branch records `Merged branch <name>.` as its
/// message, on the current branch, with the current commit as parent.
pub proof fn lemma_merge_commit_message(r: RepositoryView, merged: Seq<char>, time: Seq<char>)
    ensures
        r.with_merge_commit(merged, time).commits[r.next_commit()].message == "Merged branch "@ + merged + "."@,
        r.with_merge_commit(merged, time).commits[r.next_commit()].last_commit == r.info.commit,
        r.with_merge_commit(merged, time).commits[r.next_commit()].branch == r.info.branch,
        r.with_merge_commit(merged, time).commits[r.next_commit()].time == time,
        r.with_merge_commit(merged, time).info.commit == r.next_commit(),
        r.with_merge_commit(merged, time).info.branch == r.info.branch,
        r.with_merge_commit(merged, time).list == r.list.push(r.next_commit()),
{
}

/// A fresh repository: on master at `commit-1`, whose parent is itself, with
/// the message `Initial commit`, and master starting and ending there.
pub proof fn lemma_initial_repository(time: Seq<char>)
    ensures
        initial_repository(time).info.branch == "master"@,
        initial_repository(time).info.commit == commit_name(1),
        initial_repository(time).info.amount_of_commits == 1,
        initial_repository(time).list == seq![commit_name(1)],
        initial_repository(time).commits.dom() == set![commit_name(1)],
        initial_repository(time).commits[commit_name(1)].last_commit == commit_name(1),
        initial_repository(time).commits[commit_name(1)].message == "Initial commit"@,
        initial_repository(time).commits[commit_name(1)].time == time,
        initial_repository(time).commits[commit_name(1)].branch == "master"@,
        initial_repository(time).branches.dom() == set!["master"@],
        initial_repository(time).branches["master"@].last_commit == commit_name(1),
        initial_repository(time).branches["master"@].last_in_master == commit_name(1),
        !initial_repository(time).branches["master"@].merged,
{
    assert(initial_repository(time).commits.dom() =~= set![commit_name(1)]);
    assert(initial_repository(time).branches.dom() =~= set!["master"@]);
}

/// The log shows each commit with its own parent, time and message, and
/// lists its changes unless it is the initial commit.
pub proof fn lemma_log_entry_fields(r: RepositoryView, c: Seq<char>)
    ensures
        log_entry(r, c).commit == c,
        log_entry(r, c).parent == r.commits[c].last_commit,
        log_entry(r, c).time == r.commits[c].time,
        log_entry(r, c).message == r.commits[c].message,
        log_entry(r, c).shows_changes <==> r.commits[c].message != "Initial commit"@,
{
}

} // verus!




