//! Differences between two snapshots of a directory tree, and the conflicts
//! between two such differences.

use vstd::prelude::*;

verus! {

/// The files that differ between an old and a new snapshot, by path relative
/// to the snapshot's root.
#[derive(Debug)]
pub struct VcsSnapshotDiff {
    pub added: Vec<String>,
    pub deleted: Vec<String>,
    pub modified: Vec<String>,
}

/// The mathematical value of a [`VcsSnapshotDiff`].
pub struct DiffView {
    pub added: Seq<Seq<char>>,
    pub deleted: Seq<Seq<char>>,
    pub modified: Seq<Seq<char>>,
}

impl DiffView {
    /// Nothing was added, deleted or modified.
    pub open spec fn is_empty(self) -> bool {
        self.modified.len() == 0 && self.added.len() == 0 && self.deleted.len() == 0
    }

    /// Every path of the difference: the modified, then the added, then the
    /// deleted ones.
    pub open spec fn all_paths(self) -> Seq<Seq<char>> {
        self.modified + self.added + self.deleted
    }
}

impl View for VcsSnapshotDiff {
    type V = DiffView;

    open spec fn view(&self) -> DiffView {
        DiffView {
            added: self.added.deep_view(),
            deleted: self.deleted.deep_view(),
            modified: self.modified.deep_view(),
        }
    }
}

/// The paths of `old` that `new` holds too, in the order of `old`.
pub open spec fn shared(old: Seq<Seq<char>>, new: Seq<Seq<char>>) -> Seq<Seq<char>> {
    old.filter(|p: Seq<char>| new.contains(p))
}

/// The paths of `old` that `new` does not hold, in the order of `old`.
pub open spec fn missing(old: Seq<Seq<char>>, new: Seq<Seq<char>>) -> Seq<Seq<char>> {
    old.filter(|p: Seq<char>| !new.contains(p))
}

/// The elements `s[i]` for which `flags[i]` holds, in order.
pub open spec fn select(s: Seq<Seq<char>>, flags: Seq<bool>) -> Seq<Seq<char>>
    decreases s.len(),
{
    if s.len() == 0 {
        seq![]
    } else if flags[s.len() - 1] {
        select(s.drop_last(), flags).push(s.last())
    } else {
        select(s.drop_last(), flags)
    }
}

/// Whether each pair of contents differs: `old_contents[i]` against
/// `new_contents[i]`.
pub open spec fn differing(old_contents: Seq<Seq<char>>, new_contents: Seq<Seq<char>>) -> Seq<bool> {
    Seq::new(old_contents.len(), |i: int| old_contents[i] != new_contents[i])
}

/// The difference from snapshot `old` to snapshot `new`, where
/// `old_contents[i]` and `new_contents[i]` are the contents, in the old and
/// in the new snapshot, of the `i`-th path that both hold.
pub open spec fn snapshot_diff(
    old: Seq<Seq<char>>,
    new: Seq<Seq<char>>,
    old_contents: Seq<Seq<char>>,
    new_contents: Seq<Seq<char>>,
) -> DiffView {
    DiffView {
        added: missing(new, old),
        deleted: missing(old, new),
        modified: select(shared(old, new), differing(old_contents, new_contents)),
    }
}

/// The paths of `branch` that `current` holds too, each the first time it
/// occurs in `branch`.
pub open spec fn conflicts(branch: Seq<Seq<char>>, current: Seq<Seq<char>>) -> Seq<Seq<char>>
    decreases branch.len(),
{
    if branch.len() == 0 {
        seq![]
    } else {
        let earlier = branch.drop_last();
        let p = branch.last();
        if current.contains(p) && !earlier.contains(p) {
            conflicts(earlier, current).push(p)
        } else {
            conflicts(earlier, current)
        }
    }
}

/// Whether `p` is among the first `n` paths of `v`.
fn contains_before(v: &Vec<String>, n: usize, p: &String) -> (r: bool)
    requires
        n <= v.len(),
    ensures
        r == v.deep_view().take(n as int).contains(p@),
{
    let mut i: usize = 0;
    while i < n
        invariant
            n <= v.len(),
            i <= n,
            forall|j: int| 0 <= j < i ==> v.deep_view()[j] != p@,
        decreases n - i,
    {
        if v[i] == *p {
            assert(v.deep_view().take(n as int)[i as int] == p@);
            return true;
        }
        i = i + 1;
    }
    assert forall|j: int| 0 <= j < n implies v.deep_view().take(n as int)[j] != p@ by {}
    false
}

/// Whether `v` holds the path `p`.
pub fn contains_path(v: &Vec<String>, p: &String) -> (r: bool)
    ensures
        r == v.deep_view().contains(p@),
{
    let r = contains_before(v, v.len(), p);
    assert(v.deep_view().take(v.len() as int) =~= v.deep_view());
    r
}

/// The paths of `old` that `new` holds too, in the order of `old`: those
/// whose contents a caller compares to complete a diff.
pub fn shared_paths(old: &Vec<String>, new: &Vec<String>) -> (r: Vec<String>)
    ensures
        r.deep_view() == shared(old.deep_view(), new.deep_view()),
{
    let ghost o = old.deep_view();
    let ghost nw = new.deep_view();
    let mut r: Vec<String> = Vec::new();
    let mut i: usize = 0;
    while i < old.len()
        invariant
            o == old.deep_view(),
            nw == new.deep_view(),
            i <= old.len(),
            r.deep_view() == shared(o.take(i as int), nw),
        decreases old.len() - i,
    {
        let ghost before = r.deep_view();
        proof {
            assert(o.take(i + 1).drop_last() =~= o.take(i as int));
            reveal_with_fuel(Seq::filter, 1);
        }
        if contains_path(new, &old[i]) {
            r.push(old[i].clone());
            assert(r.deep_view() =~= before.push(o[i as int]));
        }
        i = i + 1;
    }
    assert(o.take(old.len() as int) =~= o);
    r
}

fn copy_paths(v: &Vec<String>) -> (r: Vec<String>)
    ensures
        r.deep_view() == v.deep_view(),
{
    let mut r: Vec<String> = Vec::new();
    let mut i: usize = 0;
    while i < v.len()
        invariant
            i <= v.len(),
            r.deep_view() == v.deep_view().take(i as int),
        decreases v.len() - i,
    {
        let ghost before = r.deep_view();
        r.push(v[i].clone());
        assert(r.deep_view() =~= before.push(v.deep_view()[i as int]));
        assert(v.deep_view().take(i + 1) =~= v.deep_view().take(i as int).push(v.deep_view()[i as int]));
        i = i + 1;
    }
    assert(v.deep_view().take(v.len() as int) =~= v.deep_view());
    r
}

impl VcsSnapshotDiff {
    /// Whether nothing was added, deleted or modified.
    pub fn is_empty(&self) -> (r: bool)
        ensures
            r == self@.is_empty(),
    {
        self.modified.len() == 0 && self.added.len() == 0 && self.deleted.len() == 0
    }

    /// A copy of this difference.
    pub fn duplicate(&self) -> (r: VcsSnapshotDiff)
        ensures
            r@ == self@,
    {
        VcsSnapshotDiff {
            added: copy_paths(&self.added),
            deleted: copy_paths(&self.deleted),
            modified: copy_paths(&self.modified),
        }
    }

    /// Every path of the difference: the modified, then the added, then the
    /// deleted ones.
    pub fn all_paths(&self) -> (r: Vec<String>)
        ensures
            r.deep_view() == self@.all_paths(),
    {
        let mut r = copy_paths(&self.modified);
        let mut i: usize = 0;
        while i < self.added.len()
            invariant
                i <= self.added.len(),
                r.deep_view() == self@.modified + self@.added.take(i as int),
            decreases self.added.len() - i,
        {
            let ghost before = r.deep_view();
            r.push(self.added[i].clone());
            assert(r.deep_view() =~= before.push(self@.added[i as int]));
            assert(self@.modified + self@.added.take(i + 1) =~= (self@.modified + self@.added.take(i as int)).push(self@.added[i as int]));
            i = i + 1;
        }
        assert(self@.added.take(self.added.len() as int) =~= self@.added);
        let mut j: usize = 0;
        while j < self.deleted.len()
            invariant
                j <= self.deleted.len(),
                r.deep_view() == self@.modified + self@.added + self@.deleted.take(j as int),
            decreases self.deleted.len() - j,
        {
            let ghost before = r.deep_view();
            r.push(self.deleted[j].clone());
            assert(r.deep_view() =~= before.push(self@.deleted[j as int]));
            assert(self@.modified + self@.added + self@.deleted.take(j + 1) =~= (self@.modified + self@.added + self@.deleted.take(j as int)).push(self@.deleted[j as int]));
            j = j + 1;
        }
        assert(self@.deleted.take(self.deleted.len() as int) =~= self@.deleted);
        r
    }
}

/// The paths of `old` that `new` does not hold, in the order of `old`.
fn missing_paths(old: &Vec<String>, new: &Vec<String>) -> (r: Vec<String>)
    ensures
        r.deep_view() == missing(old.deep_view(), new.deep_view()),
{
    let ghost o = old.deep_view();
    let ghost nw = new.deep_view();
    let mut r: Vec<String> = Vec::new();
    let mut i: usize = 0;
    while i < old.len()
        invariant
            o == old.deep_view(),
            nw == new.deep_view(),
            i <= old.len(),
            r.deep_view() == missing(o.take(i as int), nw),
        decreases old.len() - i,
    {
        let ghost before = r.deep_view();
        proof {
            assert(o.take(i + 1).drop_last() =~= o.take(i as int));
            reveal_with_fuel(Seq::filter, 1);
        }
        if !contains_path(new, &old[i]) {
            r.push(old[i].clone());
            assert(r.deep_view() =~= before.push(o[i as int]));
        }
        i = i + 1;
    }
    assert(o.take(old.len() as int) =~= o);
    r
}

/// The difference from snapshot `old` to snapshot `new`: the shared paths
/// whose content changed, the paths only `old` holds and those only `new`
/// holds. `old_contents[i]` and `new_contents[i]` are the contents, in the
/// old and in the new snapshot, of the `i`-th path of [`shared_paths`].
pub fn get_snapshot_diff(
    old: &Vec<String>,
    new: &Vec<String>,
    old_contents: &Vec<String>,
    new_contents: &Vec<String>,
) -> (r: VcsSnapshotDiff)
    requires
        old_contents.len() == shared(old.deep_view(), new.deep_view()).len(),
        new_contents.len() == old_contents.len(),
    ensures
        r@ == snapshot_diff(old.deep_view(), new.deep_view(), old_contents.deep_view(), new_contents.deep_view()),
{
    let ghost changed = differing(old_contents.deep_view(), new_contents.deep_view());
    let ghost o = old.deep_view();
    let ghost nw = new.deep_view();
    let mut modified: Vec<String> = Vec::new();
    let mut k: usize = 0;
    let mut i: usize = 0;
    while i < old.len()
        invariant
            o == old.deep_view(),
            nw == new.deep_view(),
            changed == differing(old_contents.deep_view(), new_contents.deep_view()),
            old_contents.len() == shared(o, nw).len(),
            new_contents.len() == old_contents.len(),
            i <= old.len(),
            k == shared(o.take(i as int), nw).len(),
            modified.deep_view() == select(shared(o.take(i as int), nw), changed),
        decreases old.len() - i,
    {
        let ghost before = modified.deep_view();
        let ghost s_before = shared(o.take(i as int), nw);
        proof {
            assert(o.take(i + 1).drop_last() =~= o.take(i as int));
            reveal_with_fuel(Seq::filter, 1);
            lemma_shared_prefix_len(o, nw, i + 1);
        }
        if contains_path(new, &old[i]) {
            let ghost s_after = shared(o.take(i + 1), nw);
            assert(s_after == s_before.push(o[i as int]));
            assert(s_after.drop_last() =~= s_before);
            assert(changed[k as int] == (old_contents.deep_view()[k as int] != new_contents.deep_view()[k as int]));
            if !(old_contents[k] == new_contents[k]) {
                modified.push(old[i].clone());
                assert(modified.deep_view() =~= before.push(o[i as int]));
            }
            k = k + 1;
        }
        i = i + 1;
    }
    assert(o.take(old.len() as int) =~= o);
    VcsSnapshotDiff {
        added: missing_paths(new, old),
        deleted: missing_paths(old, new),
        modified,
    }
}

proof fn lemma_shared_prefix_len(o: Seq<Seq<char>>, nw: Seq<Seq<char>>, n: int)
    requires
        0 <= n <= o.len(),
    ensures
        shared(o.take(n), nw).len() <= shared(o, nw).len(),
    decreases o.len() - n,
{
    reveal_with_fuel(Seq::filter, 1);
    if n < o.len() {
        lemma_shared_prefix_len(o, nw, n + 1);
        assert(o.take(n + 1).drop_last() =~= o.take(n));
    } else {
        assert(o.take(n) =~= o);
    }
}

/// The paths that both differences touch: those of `branch` (in the order of
/// its modified, added and deleted paths) that `current` touches too, each
/// named once.
pub fn merge_conflicts(current: &VcsSnapshotDiff, branch: &VcsSnapshotDiff) -> (r: Vec<String>)
    ensures
        r.deep_view() == conflicts(branch@.all_paths(), current@.all_paths()),
{
    let cur = current.all_paths();
    let br = branch.all_paths();
    let ghost b = br.deep_view();
    let ghost c = cur.deep_view();
    let mut r: Vec<String> = Vec::new();
    let mut i: usize = 0;
    while i < br.len()
        invariant
            b == br.deep_view(),
            c == cur.deep_view(),
            i <= br.len(),
            r.deep_view() == conflicts(b.take(i as int), c),
        decreases br.len() - i,
    {
        let ghost before = r.deep_view();
        proof {
            assert(b.take(i + 1).drop_last() =~= b.take(i as int));
        }
        if contains_path(&cur, &br[i]) && !contains_before(&br, i, &br[i]) {
            r.push(br[i].clone());
            assert(r.deep_view() =~= before.push(b[i as int]));
        }
        i = i + 1;
    }
    assert(b.take(br.len() as int) =~= b);
    r
}

} // verus!
