//! What comparing snapshots and finding merge conflicts keep: an unchanged
//! snapshot shows no difference, the comparison the other way round swaps
//! added and deleted paths, and conflicts are the paths both sides touch.

use vstd::prelude::*;
use crate::snapshot::{conflicts, differing, select, shared, snapshot_diff};

verus! {

proof fn lemma_filter_none(s: Seq<Seq<char>>, pred: spec_fn(Seq<char>) -> bool)
    requires
        forall|i: int| 0 <= i < s.len() ==> !pred(#[trigger] s[i]),
    ensures
        s.filter(pred).len() == 0,
    decreases s.len(),
{
    reveal_with_fuel(Seq::filter, 1);
    if s.len() > 0 {
        lemma_filter_none(s.drop_last(), pred);
        assert(!pred(s[s.len() - 1]));
    }
}

proof fn lemma_select_none(s: Seq<Seq<char>>, flags: Seq<bool>)
    requires
        forall|i: int| 0 <= i < s.len() ==> !#[trigger] flags[i],
    ensures
        select(s, flags).len() == 0,
    decreases s.len(),
{
    if s.len() > 0 {
        lemma_select_none(s.drop_last(), flags);
    }
}

/// A snapshot compared with itself, each shared file read the same in both,
/// shows no difference.
pub proof fn lemma_unchanged_snapshot_has_no_diff(s: Seq<Seq<char>>, contents: Seq<Seq<char>>)
    requires
        contents.len() == shared(s, s).len(),
    ensures
        snapshot_diff(s, s, contents, contents).is_empty(),
{
    let not_in = |p: Seq<char>| !s.contains(p);
    assert forall|i: int| 0 <= i < s.len() implies !not_in(#[trigger] s[i]) by {
        assert(s.contains(s[i]));
    }
    lemma_filter_none(s, not_in);
    let shared_paths = shared(s, s);
    let flags = differing(contents, contents);
    assert forall|i: int| 0 <= i < shared_paths.len() implies !#[trigger] flags[i] by {
        assert(flags[i] == (contents[i] != contents[i]));
    }
    lemma_select_none(shared_paths, flags);
}

proof fn lemma_select_filters(s: Seq<Seq<char>>, flags: Seq<bool>, pred: spec_fn(Seq<char>) -> bool)
    requires
        forall|i: int| 0 <= i < s.len() ==> #[trigger] flags[i] == pred(s[i]),
    ensures
        select(s, flags) == s.filter(pred),
    decreases s.len(),
{
    reveal_with_fuel(Seq::filter, 1);
    if s.len() > 0 {
        lemma_select_filters(s.drop_last(), flags, pred);
        assert(flags[s.len() - 1] == pred(s[s.len() - 1]));
    }
}

/// A path is kept by a filter exactly when the sequence holds it and the
/// filter accepts it.
pub proof fn lemma_filter_contains_iff(s: Seq<Seq<char>>, pred: spec_fn(Seq<char>) -> bool, p: Seq<char>)
    ensures
        s.filter(pred).contains(p) <==> s.contains(p) && pred(p),
    decreases s.len(),
{
    reveal_with_fuel(Seq::filter, 1);
    if s.len() > 0 {
        let earlier = s.drop_last();
        lemma_filter_contains_iff(earlier, pred, p);
        let f = earlier.filter(pred);
        if s.contains(p) && p != s.last() {
            let i = choose|i: int| 0 <= i < s.len() && s[i] == p;
            assert(earlier[i] == p);
        }
        if earlier.contains(p) {
            let i = choose|i: int| 0 <= i < earlier.len() && earlier[i] == p;
            assert(s[i] == p);
        }
        if p == s.last() {
            assert(s[s.len() - 1] == p);
        }
        if pred(s.last()) {
            let g = f.push(s.last());
            if g.contains(p) && p != s.last() {
                let i = choose|i: int| 0 <= i < g.len() && g[i] == p;
                assert(f[i] == p);
            }
            if f.contains(p) {
                let i = choose|i: int| 0 <= i < f.len() && f[i] == p;
                assert(g[i] == p);
            }
            assert(g[f.len() as int] == s.last());
        }
    } else {
        assert(!s.contains(p));
        assert(!s.filter(pred).contains(p));
    }
}

/// Comparing two snapshots the other way round swaps the added and the
/// deleted paths, and modifies the same paths, provided each file is read the
/// same in both comparisons (`content_of_old`, `content_of_new` give the
/// contents of a path in each snapshot).
pub proof fn lemma_reversed_diff(
    old: Seq<Seq<char>>,
    new: Seq<Seq<char>>,
    old_contents: Seq<Seq<char>>,
    new_contents: Seq<Seq<char>>,
    back_old_contents: Seq<Seq<char>>,
    back_new_contents: Seq<Seq<char>>,
    content_of_old: spec_fn(Seq<char>) -> Seq<char>,
    content_of_new: spec_fn(Seq<char>) -> Seq<char>,
)
    requires
        old_contents.len() == shared(old, new).len(),
        new_contents.len() == old_contents.len(),
        forall|i: int| 0 <= i < old_contents.len() ==> #[trigger] old_contents[i] == content_of_old(shared(old, new)[i]),
        forall|i: int| 0 <= i < new_contents.len() ==> #[trigger] new_contents[i] == content_of_new(shared(old, new)[i]),
        back_old_contents.len() == shared(new, old).len(),
        back_new_contents.len() == back_old_contents.len(),
        forall|i: int| 0 <= i < back_old_contents.len() ==> #[trigger] back_old_contents[i] == content_of_new(shared(new, old)[i]),
        forall|i: int| 0 <= i < back_new_contents.len() ==> #[trigger] back_new_contents[i] == content_of_old(shared(new, old)[i]),
    ensures
        snapshot_diff(new, old, back_old_contents, back_new_contents).added == snapshot_diff(old, new, old_contents, new_contents).deleted,
        snapshot_diff(new, old, back_old_contents, back_new_contents).deleted == snapshot_diff(old, new, old_contents, new_contents).added,
        snapshot_diff(new, old, back_old_contents, back_new_contents).modified.to_set()
            == snapshot_diff(old, new, old_contents, new_contents).modified.to_set(),
{
    let forth = shared(old, new);
    let back = shared(new, old);
    let differs = |p: Seq<char>| content_of_old(p) != content_of_new(p);
    let flags = differing(old_contents, new_contents);
    assert forall|i: int| 0 <= i < forth.len() implies #[trigger] flags[i] == differs(forth[i]) by {
        assert(old_contents[i] == content_of_old(forth[i]));
        assert(new_contents[i] == content_of_new(forth[i]));
    }
    lemma_select_filters(forth, flags, differs);
    let back_flags = differing(back_old_contents, back_new_contents);
    assert forall|i: int| 0 <= i < back.len() implies #[trigger] back_flags[i] == differs(back[i]) by {
        assert(back_old_contents[i] == content_of_new(back[i]));
        assert(back_new_contents[i] == content_of_old(back[i]));
    }
    lemma_select_filters(back, back_flags, differs);
    assert forall|p: Seq<char>| #[trigger] back.filter(differs).to_set().contains(p)
        <==> forth.filter(differs).to_set().contains(p) by {
        lemma_filter_contains_iff(back, differs, p);
        lemma_filter_contains_iff(forth, differs, p);
        lemma_filter_contains_iff(new, |q: Seq<char>| old.contains(q), p);
        lemma_filter_contains_iff(old, |q: Seq<char>| new.contains(q), p);
    }
    assert(back.filter(differs).to_set() =~= forth.filter(differs).to_set());
}

/// The conflicts of a merge are exactly the paths that both differences
/// touch, each named once.
pub proof fn lemma_conflicts_are_the_shared_paths(branch: Seq<Seq<char>>, current: Seq<Seq<char>>)
    ensures
        forall|p: Seq<char>| #[trigger] conflicts(branch, current).contains(p)
            <==> branch.contains(p) && current.contains(p),
        conflicts(branch, current).no_duplicates(),
    decreases branch.len(),
{
    if branch.len() > 0 {
        let earlier = branch.drop_last();
        let last = branch.last();
        lemma_conflicts_are_the_shared_paths(earlier, current);
        assert forall|p: Seq<char>| #[trigger] conflicts(branch, current).contains(p)
            <==> branch.contains(p) && current.contains(p) by {
            if branch.contains(p) && p != last {
                let i = choose|i: int| 0 <= i < branch.len() && branch[i] == p;
                assert(earlier[i] == p);
            }
            if earlier.contains(p) {
                let i = choose|i: int| 0 <= i < earlier.len() && earlier[i] == p;
                assert(branch[i] == p);
            }
            if p == last {
                assert(branch[branch.len() - 1] == p);
            }
            let prev = conflicts(earlier, current);
            if current.contains(last) && !earlier.contains(last) {
                assert(conflicts(branch, current) == prev.push(last));
                if prev.push(last).contains(p) && p != last {
                    let i = choose|i: int| 0 <= i < prev.push(last).len() && prev.push(last)[i] == p;
                    assert(prev[i] == p);
                }
                if prev.contains(p) {
                    let i = choose|i: int| 0 <= i < prev.len() && prev[i] == p;
                    assert(prev.push(last)[i] == p);
                }
                assert(prev.push(last)[prev.len() as int] == last);
            }
        }
        let prev = conflicts(earlier, current);
        if current.contains(last) && !earlier.contains(last) {
            assert(!prev.contains(last));
            let q = prev.push(last);
            assert forall|i: int, j: int| 0 <= i < q.len() && 0 <= j < q.len() && i != j implies q[i] != q[j] by {
                if i < prev.len() && j == prev.len() {
                    assert(prev.contains(q[i]));
                }
                if j < prev.len() && i == prev.len() {
                    assert(prev.contains(q[j]));
                }
            }
        }
    }
}

proof fn lemma_select_contains(s: Seq<Seq<char>>, flags: Seq<bool>, p: Seq<char>)
    ensures
        select(s, flags).contains(p) <==> exists|i: int| 0 <= i < s.len() && s[i] == p && #[trigger] flags[i],
    decreases s.len(),
{
    if s.len() > 0 {
        let earlier = s.drop_last();
        let n = s.len() - 1;
        lemma_select_contains(earlier, flags, p);
        let prev = select(earlier, flags);
        if exists|i: int| 0 <= i < s.len() && s[i] == p && #[trigger] flags[i] {
            let i = choose|i: int| 0 <= i < s.len() && s[i] == p && #[trigger] flags[i];
            if i < n {
                assert(earlier[i] == p && flags[i]);
                let j = choose|j: int| 0 <= j < prev.len() && prev[j] == p;
                if flags[n] {
                    assert(prev.push(s.last())[j] == p);
                }
            } else {
                assert(prev.push(s.last())[prev.len() as int] == p);
            }
        }
        if select(s, flags).contains(p) {
            let j = choose|j: int| 0 <= j < select(s, flags).len() && select(s, flags)[j] == p;
            if flags[n] && j == prev.len() {
                assert(s[n] == p && flags[n]);
            } else {
                assert(prev[j] == p);
                let i = choose|i: int| 0 <= i < earlier.len() && earlier[i] == p && #[trigger] flags[i];
                assert(s[i] == p && flags[i]);
            }
        }
    }
}

/// How a comparison sorts the paths: a path is added exactly when only the
/// new snapshot holds it, deleted exactly when only the old one does, and
/// modified exactly when it is a path both hold whose two contents differ.
pub proof fn lemma_diff_sorts_every_path(
    old: Seq<Seq<char>>,
    new: Seq<Seq<char>>,
    old_contents: Seq<Seq<char>>,
    new_contents: Seq<Seq<char>>,
)
    requires
        old_contents.len() == shared(old, new).len(),
        new_contents.len() == old_contents.len(),
    ensures
        forall|p: Seq<char>| #[trigger] snapshot_diff(old, new, old_contents, new_contents).added.contains(p)
            <==> (new.contains(p) && !old.contains(p)),
        forall|p: Seq<char>| #[trigger] snapshot_diff(old, new, old_contents, new_contents).deleted.contains(p)
            <==> (old.contains(p) && !new.contains(p)),
        forall|p: Seq<char>| #[trigger] snapshot_diff(old, new, old_contents, new_contents).modified.contains(p)
            <==> exists|i: int| 0 <= i < old_contents.len() && shared(old, new)[i] == p
                && #[trigger] old_contents[i] != new_contents[i],
        forall|p: Seq<char>| #[trigger] shared(old, new).contains(p) <==> (old.contains(p) && new.contains(p)),
        forall|p: Seq<char>| snapshot_diff(old, new, old_contents, new_contents).modified.contains(p)
            ==> old.contains(p) && new.contains(p),
{
    let d = snapshot_diff(old, new, old_contents, new_contents);
    let sh = shared(old, new);
    let flags = differing(old_contents, new_contents);
    assert forall|p: Seq<char>| #[trigger] d.added.contains(p) <==> (new.contains(p) && !old.contains(p)) by {
        lemma_filter_contains_iff(new, |q: Seq<char>| !old.contains(q), p);
    }
    assert forall|p: Seq<char>| #[trigger] d.deleted.contains(p) <==> (old.contains(p) && !new.contains(p)) by {
        lemma_filter_contains_iff(old, |q: Seq<char>| !new.contains(q), p);
    }
    assert forall|p: Seq<char>| #[trigger] sh.contains(p) <==> (old.contains(p) && new.contains(p)) by {
        lemma_filter_contains_iff(old, |q: Seq<char>| new.contains(q), p);
    }
    assert forall|p: Seq<char>| #[trigger] d.modified.contains(p)
        <==> exists|i: int| 0 <= i < old_contents.len() && sh[i] == p && #[trigger] old_contents[i] != new_contents[i] by {
        lemma_select_contains(sh, flags, p);
        if exists|i: int| 0 <= i < sh.len() && sh[i] == p && #[trigger] flags[i] {
            let i = choose|i: int| 0 <= i < sh.len() && sh[i] == p && #[trigger] flags[i];
            assert(old_contents[i] != new_contents[i]);
        }
        if exists|i: int| 0 <= i < old_contents.len() && sh[i] == p && #[trigger] old_contents[i] != new_contents[i] {
            let i = choose|i: int| 0 <= i < old_contents.len() && sh[i] == p && #[trigger] old_contents[i] != new_contents[i];
            assert(flags[i]);
        }
    }
    assert forall|p: Seq<char>| d.modified.contains(p) implies old.contains(p) && new.contains(p) by {
        let i = choose|i: int| 0 <= i < old_contents.len() && sh[i] == p && #[trigger] old_contents[i] != new_contents[i];
        assert(sh.contains(p));
    }
}

} // verus!

