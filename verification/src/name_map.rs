//! A map from names (commit or branch names) to values, in which every name
//! occurs once.

use vstd::prelude::*;

verus! {

/// Values keyed by name. The names are kept in the order in which they were
/// first inserted; no name occurs twice.
#[derive(Debug)]
pub struct NameMap<V> {
    entries: Vec<(String, V)>,
}

impl<V> NameMap<V> {
    /// The name of the `i`-th entry.
    pub closed spec fn key_at(&self, i: int) -> Seq<char> {
        self.entries@[i].0@
    }

    /// Whether `k` is the name of some entry.
    pub closed spec fn has_key(&self, k: Seq<char>) -> bool {
        exists|i: int| 0 <= i < self.entries@.len() && #[trigger] self.key_at(i) == k
    }

    /// The position of the entry named `k`.
    closed spec fn index_of_key(&self, k: Seq<char>) -> int {
        choose|i: int| 0 <= i < self.entries@.len() && #[trigger] self.key_at(i) == k
    }

    #[verifier::type_invariant]
    closed spec fn names_unique(&self) -> bool {
        forall|i: int, j: int|
            0 <= i < self.entries@.len() && 0 <= j < self.entries@.len() && i != j
                ==> #[trigger] self.key_at(i) != #[trigger] self.key_at(j)
    }
}

impl<V: View> View for NameMap<V> {
    type V = Map<Seq<char>, V::V>;

    closed spec fn view(&self) -> Map<Seq<char>, V::V> {
        Map::new(|k: Seq<char>| self.has_key(k), |k: Seq<char>| self.entries@[self.index_of_key(k)].1@)
    }
}

impl<V: View> NameMap<V> {
    /// An empty map.
    pub fn new() -> (r: Self)
        ensures
            r@ == Map::<Seq<char>, V::V>::empty(),
    {
        let r = NameMap { entries: Vec::new() };
        assert(r@ =~= Map::<Seq<char>, V::V>::empty());
        r
    }

    proof fn lemma_index(&self, i: int)
        requires
            self.names_unique(),
            0 <= i < self.entries@.len(),
        ensures
            self.has_key(self.key_at(i)),
            self.index_of_key(self.key_at(i)) == i,
            self@.contains_key(self.key_at(i)),
            self@[self.key_at(i)] == self.entries@[i].1@,
    {
        let k = self.key_at(i);
        assert(self.has_key(k));
        let j = self.index_of_key(k);
        assert(self.key_at(j) == k);
    }

    fn find(&self, key: &String) -> (r: Option<usize>)
        ensures
            match r {
                Some(i) => i < self.entries@.len() && self.key_at(i as int) == key@,
                None => !self.has_key(key@),
            },
    {
        let n = self.entries.len();
        let mut i: usize = 0;
        while i < n
            invariant
                n == self.entries@.len(),
                i <= n,
                forall|j: int| 0 <= j < i ==> self.key_at(j) != key@,
            decreases n - i,
        {
            if self.entries[i].0 == *key {
                return Some(i);
            }
            i = i + 1;
        }
        None
    }

    /// Whether an entry is named `key`.
    pub fn contains_key(&self, key: &String) -> (r: bool)
        ensures
            r == self@.contains_key(key@),
    {
        match self.find(key) {
            Some(i) => {
                proof {
                    use_type_invariant(self);
                    self.lemma_index(i as int);
                }
                true
            },
            None => false,
        }
    }

    /// The value named `key`, if there is one.
    pub fn get(&self, key: &String) -> (r: Option<&V>)
        ensures
            match r {
                Some(v) => self@.contains_key(key@) && v@ == self@[key@],
                None => !self@.contains_key(key@),
            },
    {
        match self.find(key) {
            Some(i) => {
                proof {
                    use_type_invariant(self);
                    self.lemma_index(i as int);
                }
                Some(&self.entries[i].1)
            },
            None => None,
        }
    }

    /// Names `value` by `key`, in place of the value that `key` named before.
    pub fn insert(&mut self, key: String, value: V)
        ensures
            final(self)@ == old(self)@.insert(key@, value@),
    {
        proof {
            use_type_invariant(&*self);
        }
        let ghost k = key@;
        let ghost v = value@;
        let ghost before = self.entries@;
        let found = self.find(&key);
        let mut entries: Vec<(String, V)> = Vec::new();
        std::mem::swap(&mut entries, &mut self.entries);
        match found {
            Some(i) => {
                entries.set(i, (key, value));
            },
            None => {
                entries.push((key, value));
            },
        }
        proof {
            assert forall|a: int, b: int|
                0 <= a < entries@.len() && 0 <= b < entries@.len() && a != b
                    implies #[trigger] entries@[a].0@ != #[trigger] entries@[b].0@ by {
                if a < before.len() && b < before.len() {
                    assert(old(self).key_at(a) == before[a].0@);
                    assert(old(self).key_at(b) == before[b].0@);
                }
                if a >= before.len() {
                    assert(old(self).key_at(b) == before[b].0@);
                }
                if b >= before.len() {
                    assert(old(self).key_at(a) == before[a].0@);
                }
            }
        }
        self.entries = entries;
        proof {
            use_type_invariant(&*self);
            assert forall|q: Seq<char>| #[trigger] self@.contains_key(q) <==> old(self)@.insert(k, v).contains_key(q) by {
                if old(self).has_key(q) {
                    let j = old(self).index_of_key(q);
                    assert(old(self).key_at(j) == q);
                    if q != k {
                        assert(self.key_at(j) == q);
                    }
                }
                if q == k {
                    match found {
                        Some(i) => { assert(self.key_at(i as int) == k); },
                        None => { assert(self.key_at(before.len() as int) == k); },
                    }
                }
                if self.has_key(q) {
                    let j = self.index_of_key(q);
                    assert(self.key_at(j) == q);
                    if q != k {
                        assert(j < before.len());
                        assert(old(self).key_at(j) == q);
                    }
                }
            }
            assert forall|q: Seq<char>| #[trigger] self@.contains_key(q) implies self@[q] == old(self)@.insert(k, v)[q] by {
                let j = self.index_of_key(q);
                assert(self.key_at(j) == q);
                self.lemma_index(j);
                if q == k {
                    match found {
                        Some(i) => {
                            assert(self.key_at(i as int) == k);
                            self.lemma_index(i as int);
                        },
                        None => {
                            assert(self.key_at(before.len() as int) == k);
                            self.lemma_index(before.len() as int);
                        },
                    }
                } else {
                    assert(j < before.len());
                    assert(old(self).key_at(j) == q);
                    old(self).lemma_index(j);
                }
            }
            assert(self@ =~= old(self)@.insert(k, v));
        }
    }

    /// The names, in the order of their first insertion.
    closed spec fn key_seq(&self) -> Seq<Seq<char>> {
        Seq::new(self.entries@.len(), |i: int| self.key_at(i))
    }

    proof fn lemma_key_seq(&self)
        requires
            self.names_unique(),
        ensures
            self.key_seq().no_duplicates(),
            self.key_seq().to_set() == self@.dom(),
            self.key_seq().len() == self@.len(),
    {
        let ks = self.key_seq();
        assert(ks.no_duplicates());
        assert forall|k: Seq<char>| #[trigger] ks.to_set().contains(k) <==> self@.dom().contains(k) by {
            if ks.to_set().contains(k) {
                assert(ks.contains(k));
                let i = choose|i: int| 0 <= i < ks.len() && ks[i] == k;
                assert(self.key_at(i) == k);
            }
            if self@.dom().contains(k) {
                let i = self.index_of_key(k);
                assert(ks[i] == k);
                assert(ks.contains(k));
            }
        }
        assert(ks.to_set() =~= self@.dom());
        ks.unique_seq_to_set();
    }

    /// The number of names.
    pub fn len(&self) -> (r: usize)
        ensures
            r == self@.len(),
    {
        proof {
            use_type_invariant(self);
            self.lemma_key_seq();
        }
        self.entries.len()
    }

    /// Every name, each once.
    pub fn keys(&self) -> (r: Vec<String>)
        ensures
            r.deep_view().no_duplicates(),
            r.deep_view().to_set() == self@.dom(),
    {
        proof {
            use_type_invariant(self);
            self.lemma_key_seq();
        }
        let mut r: Vec<String> = Vec::new();
        let mut i: usize = 0;
        while i < self.entries.len()
            invariant
                i <= self.entries@.len(),
                r.deep_view() == self.key_seq().take(i as int),
            decreases self.entries@.len() - i,
        {
            let ghost before = r.deep_view();
            r.push(self.entries[i].0.clone());
            assert(r.deep_view() =~= before.push(self.key_seq()[i as int]));
            assert(self.key_seq().take(i + 1) =~= self.key_seq().take(i as int).push(self.key_seq()[i as int]));
            i = i + 1;
        }
        assert(self.key_seq().take(self.entries@.len() as int) =~= self.key_seq());
        r
    }
}

} // verus!
