//! An association map from integer keys to values, kept sorted in
//! ascending key order.
//!
//! The x buckets of a sparse point set (keyed by iteration count) and
//! the per-series analyses (keyed by series index) live in these maps;
//! the ascending order fixes the iteration order of emitted points.
use vstd::prelude::*;

verus! {

pub struct IntMap<V> {
    pub entries: Vec<(u64, V)>,
}

impl<V> IntMap<V> {
    pub open spec fn key(self, i: int) -> u64 {
        self.entries@[i].0
    }

    pub open spec fn spec_len(self) -> int {
        self.entries@.len() as int
    }

    /// The entries are strictly ascending in key order; in particular
    /// every key occurs at most once.
    pub open spec fn wf(self) -> bool {
        forall|i: int, j: int|
            0 <= i < j < self.spec_len() ==> #[trigger] self.key(i) < #[trigger] self.key(j)
    }

    pub open spec fn contains_key(self, k: u64) -> bool {
        exists|i: int| 0 <= i < self.spec_len() && self.key(i) == k
    }

    pub open spec fn index_of(self, k: u64) -> int {
        choose|i: int| 0 <= i < self.spec_len() && self.key(i) == k
    }

    /// In a well-formed map the position of a key is unique.
    pub proof fn lemma_index_unique(self, i: int)
        requires
            self.wf(),
            0 <= i < self.spec_len(),
        ensures
            self.index_of(self.key(i)) == i,
    {
        let k = self.key(i);
        assert(self.contains_key(k));
    }

    pub fn new() -> (r: IntMap<V>)
        ensures
            r.entries@ =~= Seq::<(u64, V)>::empty(),
            r.wf(),
    {
        IntMap { entries: Vec::new() }
    }

    pub fn len(&self) -> (r: usize)
        ensures
            r == self.spec_len(),
    {
        self.entries.len()
    }

    /// Find a key's entry: `(position, true)` when present, else
    /// `(insertion point, false)`.
    pub fn locate(&self, key: u64) -> (r: (usize, bool))
        requires
            self.wf(),
        ensures
            r.1 == self.contains_key(key),
            r.1 ==> r.0 < self.spec_len() && self.key(r.0 as int) == key,
            !r.1 ==> r.0 <= self.spec_len(),
            !r.1 ==> forall|j: int| 0 <= j < r.0 ==> #[trigger] self.key(j) < key,
            !r.1 ==> forall|j: int| r.0 <= j < self.spec_len() ==> key < #[trigger] self.key(j),
    {
        let n = self.entries.len();
        let mut i: usize = 0;
        while i < n
            invariant
                i <= n,
                n == self.spec_len(),
                self.wf(),
                forall|j: int| 0 <= j < i ==> #[trigger] self.key(j) < key,
            decreases n - i,
        {
            let k = self.entries[i].0;
            if k < key {
                i = i + 1;
            } else if k == key {
                proof {
                    assert(self.key(i as int) == key);
                    assert(self.contains_key(key));
                }
                return (i, true);
            } else {
                proof {
                    assert forall|j: int| i <= j < self.spec_len() implies key < #[trigger] self.key(
                        j,
                    ) by {
                        if i < j {
                            assert(self.key(i as int) < self.key(j));
                        }
                    }
                    assert forall|j: int| 0 <= j < self.spec_len() implies self.key(j) != key by {
                        if j < i {
                            assert(self.key(j) < key);
                        } else {
                            assert(key < self.key(j));
                        }
                    }
                }
                return (i, false);
            }
        }
        proof {
            assert forall|j: int| 0 <= j < self.spec_len() implies self.key(j) != key by {
                assert(self.key(j) < key);
            }
        }
        (i, false)
    }

    /// Insert an entry at the position that keeps the order; the two
    /// preconditions are what `locate` reports for an absent key.
    pub fn insert_kv_at(&mut self, pos: usize, key: u64, v: V)
        requires
            old(self).wf(),
            pos <= old(self).spec_len(),
            forall|j: int| 0 <= j < pos ==> #[trigger] old(self).key(j) < key,
            forall|j: int| pos <= j < old(self).spec_len() ==> key < #[trigger] old(self).key(j),
        ensures
            final(self).entries@ == old(self).entries@.insert(pos as int, (key, v)),
            final(self).wf(),
    {
        let ghost pre = *self;
        self.entries.insert(pos, (key, v));
        proof {
            assert forall|i: int, j: int|
                0 <= i < j < self.spec_len() implies #[trigger] self.key(i) < #[trigger] self.key(
                j,
            ) by {
                if i != pos {
                    assert(self.key(i) == if i < pos {
                        pre.key(i)
                    } else {
                        pre.key(i - 1)
                    });
                }
                if j != pos {
                    assert(self.key(j) == if j < pos {
                        pre.key(j)
                    } else {
                        pre.key(j - 1)
                    });
                }
            }
        }
    }

    /// Take the entry at a position out of the map.
    pub fn remove_at(&mut self, pos: usize) -> (r: (u64, V))
        requires
            old(self).wf(),
            pos < old(self).spec_len(),
        ensures
            r == old(self).entries@[pos as int],
            final(self).entries@ == old(self).entries@.remove(pos as int),
            final(self).wf(),
    {
        let ghost pre = *self;
        let r = self.entries.remove(pos);
        proof {
            assert forall|i: int, j: int|
                0 <= i < j < self.spec_len() implies #[trigger] self.key(i) < #[trigger] self.key(
                j,
            ) by {
                assert(self.key(i) == if i < pos {
                    pre.key(i)
                } else {
                    pre.key(i + 1)
                });
                assert(self.key(j) == if j < pos {
                    pre.key(j)
                } else {
                    pre.key(j + 1)
                });
            }
        }
        r
    }

    /// After `remove_at(pos)` the gap the entry left still separates
    /// the keys before it from the keys after it.
    pub proof fn lemma_remove_keeps_gap(pre: IntMap<V>, post: IntMap<V>, pos: int)
        requires
            pre.wf(),
            0 <= pos < pre.spec_len(),
            post.entries@ == pre.entries@.remove(pos),
        ensures
            forall|j: int| 0 <= j < pos ==> #[trigger] post.key(j) < pre.key(pos),
            forall|j: int| pos <= j < post.spec_len() ==> pre.key(pos) < #[trigger] post.key(j),
    {
        assert forall|j: int| 0 <= j < pos implies #[trigger] post.key(j) < pre.key(pos) by {
            assert(post.key(j) == pre.key(j));
        }
        assert forall|j: int|
            pos <= j < post.spec_len() implies pre.key(pos) < #[trigger] post.key(j) by {
            assert(post.key(j) == pre.key(j + 1));
        }
    }
}

} // verus!
