//! An insertion-ordered mapping from strings to strings. Keys keep the
//! order in which they were first inserted, so that diffs over two
//! snapshots of the same mapping compare like with like.

use vstd::prelude::*;

use crate::strings::str_eq;

verus! {

/// Index of the first key equal to `k` at or after `from`, or -1.
pub open spec fn key_index_from(keys: Seq<Seq<char>>, k: Seq<char>, from: int) -> int
    decreases keys.len() + 1 - from,
        when 0 <= from
{
    if from >= keys.len() {
        -1
    } else if keys[from] == k {
        from
    } else {
        key_index_from(keys, k, from + 1)
    }
}

/// Index of the first key equal to `k`, or -1 when there is none.
pub open spec fn key_index(keys: Seq<Seq<char>>, k: Seq<char>) -> int {
    key_index_from(keys, k, 0)
}

pub proof fn lemma_key_index_from(keys: Seq<Seq<char>>, k: Seq<char>, from: int)
    requires
        0 <= from,
    ensures
        ({
            let r = key_index_from(keys, k, from);
            &&& r == -1 || from <= r < keys.len()
            &&& r == -1 ==> forall|j: int| from <= j < keys.len() ==> keys[j] != k
            &&& r >= 0 ==> keys[r] == k && forall|j: int| from <= j < r ==> keys[j] != k
        }),
    decreases keys.len() + 1 - from,
{
    if from >= keys.len() {
    } else if keys[from] == k {
    } else {
        lemma_key_index_from(keys, k, from + 1);
    }
}

pub proof fn lemma_key_index(keys: Seq<Seq<char>>, k: Seq<char>)
    ensures
        ({
            let r = key_index(keys, k);
            &&& r == -1 || 0 <= r < keys.len()
            &&& r == -1 ==> forall|j: int| 0 <= j < keys.len() ==> keys[j] != k
            &&& r >= 0 ==> keys[r] == k && forall|j: int| 0 <= j < r ==> keys[j] != k
        }),
{
    lemma_key_index_from(keys, k, 0);
}

/// The distinct entries of `names`, each at its first occurrence.
pub open spec fn spec_distinct(names: Seq<Seq<char>>) -> Seq<Seq<char>>
    decreases names.len(),
{
    if names.len() == 0 {
        Seq::empty()
    } else {
        let prev = spec_distinct(names.drop_last());
        if key_index(prev, names.last()) == -1 {
            prev.push(names.last())
        } else {
            prev
        }
    }
}

/// The distinct entries are pairwise different.
pub proof fn lemma_distinct_unique(names: Seq<Seq<char>>)
    ensures
        forall|i: int, j: int|
            0 <= i < j < spec_distinct(names).len() ==> spec_distinct(names)[i]
                != spec_distinct(names)[j],
    decreases names.len(),
{
    if names.len() > 0 {
        lemma_distinct_unique(names.drop_last());
        let prev = spec_distinct(names.drop_last());
        let whole = spec_distinct(names);
        if key_index(prev, names.last()) == -1 {
            lemma_key_index(prev, names.last());
            assert forall|i: int, j: int| 0 <= i < j < whole.len() implies whole[i]
                != whole[j] by {
                if j == whole.len() - 1 {
                    assert(prev[i] != names.last());
                }
            }
        }
    }
}

/// Law: every distinct entry occurs among the original names — so every
/// place generated from the scenes' place references is referenced by at
/// least one scene.
pub proof fn lemma_distinct_entries_occur(names: Seq<Seq<char>>)
    ensures
        forall|i: int|
            #![trigger spec_distinct(names)[i]]
            0 <= i < spec_distinct(names).len() ==> exists|j: int|
                #![trigger names[j]]
                0 <= j < names.len() && names[j] == spec_distinct(names)[i],
    decreases names.len(),
{
    if names.len() > 0 {
        lemma_distinct_entries_occur(names.drop_last());
        let prev = spec_distinct(names.drop_last());
        let whole = spec_distinct(names);
        assert forall|i: int| #![trigger whole[i]] 0 <= i < whole.len() implies exists|j: int|
            #![trigger names[j]]
            0 <= j < names.len() && names[j] == whole[i] by {
            if i < prev.len() {
                let w = choose|w: int|
                    #![trigger names.drop_last()[w]]
                    0 <= w < names.drop_last().len() && names.drop_last()[w] == prev[i];
                assert(names[w] == whole[i]);
            } else {
                assert(whole[i] == names.last());
                assert(names[names.len() - 1] == whole[i]);
            }
        }
    }
}

/// A key that no entry holds has index -1.
pub proof fn lemma_key_index_absent(keys: Seq<Seq<char>>, k: Seq<char>)
    requires
        forall|j: int| 0 <= j < keys.len() ==> keys[j] != k,
    ensures
        key_index(keys, k) == -1,
{
    lemma_key_index(keys, k);
    let r = key_index(keys, k);
    if r >= 0 {
        assert(keys[r] != k);
        assert(false);
    }
}

/// A key known to be first at `o` has index `o`.
pub proof fn lemma_key_index_is(keys: Seq<Seq<char>>, k: Seq<char>, o: int)
    requires
        0 <= o < keys.len(),
        keys[o] == k,
        forall|j: int| 0 <= j < o ==> keys[j] != k,
    ensures
        key_index(keys, k) == o,
{
    lemma_key_index(keys, k);
    let r = key_index(keys, k);
    if r == -1 {
        assert(keys[o] != k);
        assert(false);
    } else if r < o {
        assert(keys[r] != k);
        assert(false);
    } else if r > o {
        assert(keys[o] != k);
        assert(false);
    }
}

/// An insertion-ordered string-to-string mapping with unique keys.
#[derive(Debug)]
pub struct Dict {
    keys: Vec<String>,
    vals: Vec<String>,
}

impl Dict {
    /// The keys, in first-insertion order.
    pub closed spec fn keys_view(&self) -> Seq<Seq<char>> {
        self.keys.deep_view()
    }

    /// The values, parallel to the keys.
    pub closed spec fn vals_view(&self) -> Seq<Seq<char>> {
        self.vals.deep_view()
    }

    /// The mapping's invariant: parallel sequences, keys unique.
    pub open spec fn wf(&self) -> bool {
        &&& self.keys_view().len() == self.vals_view().len()
        &&& forall|i: int, j: int|
            0 <= i < j < self.keys_view().len() ==> self.keys_view()[i] != self.keys_view()[j]
    }

    /// The value at `k`, when `k` is a key.
    pub open spec fn spec_get(&self, k: Seq<char>) -> Option<Seq<char>> {
        let i = key_index(self.keys_view(), k);
        if i == -1 {
            None
        } else {
            Some(self.vals_view()[i])
        }
    }

    /// Whether `k` is a key.
    pub open spec fn spec_contains_key(&self, k: Seq<char>) -> bool {
        key_index(self.keys_view(), k) >= 0
    }

    /// An empty mapping.
    pub fn new() -> (r: Self)
        ensures
            r.wf(),
            r.keys_view() == Seq::<Seq<char>>::empty(),
            r.vals_view() == Seq::<Seq<char>>::empty(),
    {
        let r = Dict { keys: Vec::new(), vals: Vec::new() };
        proof {
            assert(r.keys_view() =~= Seq::<Seq<char>>::empty());
            assert(r.vals_view() =~= Seq::<Seq<char>>::empty());
        }
        r
    }

    /// How many entries the mapping holds.
    pub fn len(&self) -> (r: usize)
        ensures
            r == self.keys_view().len(),
    {
        self.keys.len()
    }

    /// Whether the mapping holds no entry.
    pub fn is_empty(&self) -> (r: bool)
        ensures
            r == (self.keys_view().len() == 0),
    {
        self.keys.is_empty()
    }

    /// Index of `key` among the keys, scanning in insertion order.
    fn index_of(&self, key: &str) -> (r: Option<usize>)
        ensures
            r matches Some(i) ==> i as int == key_index(self.keys_view(), key@),
            r is None ==> key_index(self.keys_view(), key@) == -1,
    {
        let n = self.keys.len();
        let ghost keys = self.keys_view();
        let mut i: usize = 0;
        while i < n
            invariant
                n == keys.len(),
                keys == self.keys_view(),
                i <= n,
                forall|j: int| 0 <= j < i ==> keys[j] != key@,
            decreases n - i,
        {
            if str_eq(self.keys[i].as_str(), key) {
                proof {
                    assert(keys[i as int] == self.keys@[i as int]@);
                    lemma_key_index_from(keys, key@, 0);
                    let r = key_index(keys, key@);
                    if r == -1 || r < i as int || r > i as int {
                        assert(false);
                    }
                }
                return Some(i);
            }
            proof {
                assert(keys[i as int] == self.keys@[i as int]@);
            }
            i += 1;
        }
        proof {
            lemma_key_index_from(keys, key@, 0);
            let r = key_index(keys, key@);
            if r >= 0 {
                assert(keys[r] != key@);
                assert(false);
            }
        }
        None
    }

    /// The value stored under `key`, when there is one.
    pub fn get(&self, key: &str) -> (r: Option<&String>)
        requires
            self.wf(),
        ensures
            r matches Some(v) ==> self.spec_get(key@) == Some(v@),
            r is None ==> self.spec_get(key@) is None,
    {
        proof {
            lemma_key_index(self.keys_view(), key@);
        }
        match self.index_of(key) {
            Some(i) => {
                let v = &self.vals[i];
                proof {
                    assert(self.vals_view()[i as int] == self.vals@[i as int]@);
                }
                Some(v)
            },
            None => None,
        }
    }

    /// Whether `key` is present.
    pub fn contains_key(&self, key: &str) -> (r: bool)
        ensures
            r == self.spec_contains_key(key@),
    {
        proof {
            lemma_key_index(self.keys_view(), key@);
        }
        match self.index_of(key) {
            Some(_) => true,
            None => false,
        }
    }

    /// Store `value` under `key`: a fresh key is appended after all
    /// existing keys; an existing key keeps its position and only the
    /// value changes.
    pub fn insert(&mut self, key: String, value: String)
        requires
            old(self).wf(),
        ensures
            final(self).wf(),
            ({
                let i = key_index(old(self).keys_view(), key@);
                if i == -1 {
                    &&& final(self).keys_view() == old(self).keys_view().push(key@)
                    &&& final(self).vals_view() == old(self).vals_view().push(value@)
                } else {
                    &&& final(self).keys_view() == old(self).keys_view()
                    &&& final(self).vals_view() == old(self).vals_view().update(i, value@)
                }
            }),
    {
        proof {
            lemma_key_index(self.keys_view(), key@);
        }
        match self.index_of(&key) {
            Some(i) => {
                self.vals[i] = value;
                proof {
                    assert(self.vals_view() =~= old(self).vals_view().update(
                        key_index(old(self).keys_view(), key@),
                        value@,
                    ));
                    assert(self.keys_view() =~= old(self).keys_view());
                }
            },
            None => {
                let ghost k = key@;
                self.keys.push(key);
                self.vals.push(value);
                proof {
                    assert(self.keys_view() =~= old(self).keys_view().push(k));
                    assert(self.vals_view() =~= old(self).vals_view().push(value@));
                }
            },
        }
    }

    /// The keys in insertion order, for ordered iteration.
    pub fn keys(&self) -> (r: &Vec<String>)
        ensures
            r.deep_view() == self.keys_view(),
    {
        &self.keys
    }

    /// The values in key order, for ordered iteration.
    pub fn values(&self) -> (r: &Vec<String>)
        ensures
            r.deep_view() == self.vals_view(),
    {
        &self.vals
    }

    /// The key at position `i`.
    pub fn key_at(&self, i: usize) -> (r: &String)
        requires
            i < self.keys_view().len(),
        ensures
            r@ == self.keys_view()[i as int],
    {
        proof {
            assert(self.keys_view()[i as int] == self.keys@[i as int]@);
        }
        &self.keys[i]
    }

    /// The value at position `i`.
    pub fn value_at(&self, i: usize) -> (r: &String)
        requires
            self.wf(),
            i < self.keys_view().len(),
        ensures
            r@ == self.vals_view()[i as int],
    {
        proof {
            assert(self.vals_view()[i as int] == self.vals@[i as int]@);
        }
        &self.vals[i]
    }
}

impl Clone for Dict {
    /// An entry-for-entry copy of the mapping.
    fn clone(&self) -> (r: Self)
        ensures
            r.keys_view() == self.keys_view(),
            r.vals_view() == self.vals_view(),
            self.wf() ==> r.wf(),
    {
        let mut keys: Vec<String> = Vec::new();
        let mut vals: Vec<String> = Vec::new();
        let n = self.keys.len();
        let mut i: usize = 0;
        while i < n
            invariant
                n == self.keys_view().len(),
                n == self.keys.len(),
                i <= n,
                keys.deep_view() =~= self.keys_view().subrange(0, i as int),
                keys.len() == i,
            decreases n - i,
        {
            let ghost before = keys.deep_view();
            keys.push(self.keys[i].clone());
            proof {
                assert(keys.deep_view() =~= before.push(self.keys_view()[i as int]));
                assert(keys.deep_view() =~= self.keys_view().subrange(0, i + 1));
            }
            i += 1;
        }
        let m = self.vals.len();
        let mut j: usize = 0;
        while j < m
            invariant
                m == self.vals_view().len(),
                m == self.vals.len(),
                j <= m,
                vals.deep_view() =~= self.vals_view().subrange(0, j as int),
                vals.len() == j,
            decreases m - j,
        {
            let ghost before = vals.deep_view();
            vals.push(self.vals[j].clone());
            proof {
                assert(vals.deep_view() =~= before.push(self.vals_view()[j as int]));
                assert(vals.deep_view() =~= self.vals_view().subrange(0, j + 1));
            }
            j += 1;
        }
        let r = Dict { keys, vals };
        proof {
            assert(r.keys_view() =~= self.keys_view());
            assert(r.vals_view() =~= self.vals_view());
        }
        r
    }
}

} // verus!
