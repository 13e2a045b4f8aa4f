//! An association map from names to values, kept sorted by the
//! case-insensitively folded key.
//!
//! Entries keep the casing of the name they were first inserted under;
//! lookup and ordering use the folded key of `textkey`. The ascending
//! key order is the map's invariant: it makes iteration order, and with
//! it series-index assignment, deterministic.
use vstd::prelude::*;

verus! {

use crate::textkey::KeyOrd;
use crate::textkey::key_cmp;
use crate::textkey::lemma_lex_total;
use crate::textkey::lemma_lex_trans;
use crate::textkey::lex_lt;
use crate::textkey::lower_seq;

pub struct StrMap<V> {
    pub entries: Vec<(String, V)>,
}

impl<V> StrMap<V> {
    /// The folded key of the entry at position `i`.
    pub open spec fn lkey(self, i: int) -> Seq<u32> {
        lower_seq(self.entries@[i].0@)
    }

    pub open spec fn spec_len(self) -> int {
        self.entries@.len() as int
    }

    /// The entries are strictly ascending in folded-key order; in
    /// particular every folded key occurs at most once.
    pub open spec fn wf(self) -> bool {
        forall|i: int, j: int|
            0 <= i < j < self.spec_len() ==> lex_lt(#[trigger] self.lkey(i), #[trigger] self.lkey(j))
    }

    /// Whether some entry has this folded key.
    pub open spec fn contains_key(self, k: Seq<u32>) -> bool {
        exists|i: int| 0 <= i < self.spec_len() && self.lkey(i) == k
    }

    /// The position of the entry with this folded key.
    pub open spec fn index_of(self, k: Seq<u32>) -> int {
        choose|i: int| 0 <= i < self.spec_len() && self.lkey(i) == k
    }

    /// In a well-formed map the position of a folded key is unique.
    pub proof fn lemma_index_unique(self, i: int)
        requires
            self.wf(),
            0 <= i < self.spec_len(),
        ensures
            self.index_of(self.lkey(i)) == i,
    {
        let k = self.lkey(i);
        assert(self.contains_key(k));
        let j = self.index_of(k);
        if i < j {
            assert(lex_lt(self.lkey(i), self.lkey(j)));
            lemma_lex_total(self.lkey(i), self.lkey(j));
        } else if j < i {
            assert(lex_lt(self.lkey(j), self.lkey(i)));
            lemma_lex_total(self.lkey(j), self.lkey(i));
        }
    }

    pub fn new() -> (r: StrMap<V>)
        ensures
            r.entries@ =~= Seq::<(String, V)>::empty(),
            r.wf(),
    {
        StrMap { entries: Vec::new() }
    }

    pub fn len(&self) -> (r: usize)
        ensures
            r == self.spec_len(),
    {
        self.entries.len()
    }

    /// Find a name's entry: `(position, true)` when the folded key is
    /// present, else `(insertion point, false)`.
    pub fn locate(&self, key: &str) -> (r: (usize, bool))
        requires
            self.wf(),
        ensures
            r.1 == self.contains_key(lower_seq(key@)),
            r.1 ==> r.0 < self.spec_len() && self.lkey(r.0 as int) == lower_seq(key@),
            !r.1 ==> r.0 <= self.spec_len(),
            !r.1 ==> forall|j: int| 0 <= j < r.0 ==> lex_lt(#[trigger] self.lkey(j), lower_seq(key@)),
            !r.1 ==> forall|j: int|
                r.0 <= j < self.spec_len() ==> lex_lt(lower_seq(key@), #[trigger] self.lkey(j)),
    {
        let ghost k = lower_seq(key@);
        let n = self.entries.len();
        let mut i: usize = 0;
        while i < n
            invariant
                i <= n,
                n == self.spec_len(),
                self.wf(),
                k == lower_seq(key@),
                forall|j: int| 0 <= j < i ==> lex_lt(#[trigger] self.lkey(j), k),
            decreases n - i,
        {
            match key_cmp(self.entries[i].0.as_str(), key) {
                KeyOrd::Less => {
                    i = i + 1;
                },
                KeyOrd::Equal => {
                    proof {
                        assert(self.lkey(i as int) == k);
                        assert(self.contains_key(k));
                    }
                    return (i, true);
                },
                KeyOrd::Greater => {
                    proof {
                        assert forall|j: int| i <= j < self.spec_len() implies lex_lt(
                            k,
                            #[trigger] self.lkey(j),
                        ) by {
                            if i < j {
                                lemma_lex_trans(k, self.lkey(i as int), self.lkey(j));
                            }
                        }
                        assert forall|j: int|
                            0 <= j < self.spec_len() implies self.lkey(j) != k by {
                            if j < i {
                                lemma_lex_total(self.lkey(j), k);
                            } else {
                                lemma_lex_total(k, self.lkey(j));
                            }
                        }
                    }
                    return (i, false);
                },
            }
        }
        proof {
            assert forall|j: int| 0 <= j < self.spec_len() implies self.lkey(j) != k by {
                lemma_lex_total(self.lkey(j), k);
            }
        }
        (i, false)
    }

    /// Insert an entry at the position that keeps the order; the two
    /// preconditions are what `locate` reports for an absent key.
    pub fn insert_kv_at(&mut self, pos: usize, key: String, v: V)
        requires
            old(self).wf(),
            pos <= old(self).spec_len(),
            forall|j: int| 0 <= j < pos ==> lex_lt(#[trigger] old(self).lkey(j), lower_seq(key@)),
            forall|j: int|
                pos <= j < old(self).spec_len() ==> lex_lt(
                    lower_seq(key@),
                    #[trigger] old(self).lkey(j),
                ),
        ensures
            final(self).entries@ == old(self).entries@.insert(pos as int, (key, v)),
            final(self).wf(),
    {
        let ghost pre = *self;
        self.entries.insert(pos, (key, v));
        proof {
            assert forall|i: int, j: int|
                0 <= i < j < self.spec_len() implies lex_lt(
                #[trigger] self.lkey(i),
                #[trigger] self.lkey(j),
            ) by {
                if j < pos {
                    assert(self.lkey(i) == pre.lkey(i));
                    assert(self.lkey(j) == pre.lkey(j));
                } else if j == pos {
                    assert(self.lkey(i) == pre.lkey(i));
                } else if i < pos {
                    assert(self.lkey(i) == pre.lkey(i));
                    assert(self.lkey(j) == pre.lkey(j - 1));
                    if pos <= j - 1 {
                        lemma_lex_trans(pre.lkey(i), lower_seq(key@), pre.lkey(j - 1));
                    }
                } else if i == pos {
                    assert(self.lkey(j) == pre.lkey(j - 1));
                } else {
                    assert(self.lkey(i) == pre.lkey(i - 1));
                    assert(self.lkey(j) == pre.lkey(j - 1));
                }
            }
        }
    }

    /// Take the entry at a position out of the map.
    pub fn remove_at(&mut self, pos: usize) -> (r: (String, V))
        requires
            old(self).wf(),
            pos < old(self).spec_len(),
        ensures
            r == old(self).entries@[pos as int],
            final(self).entries@ == old(self).entries@.remove(pos as int),
            final(self).wf(),
    {
        let ghost pre = *self;
        let r = self.entries.remove(pos);
        proof {
            assert forall|i: int, j: int|
                0 <= i < j < self.spec_len() implies lex_lt(
                #[trigger] self.lkey(i),
                #[trigger] self.lkey(j),
            ) by {
                if i < pos {
                    assert(self.lkey(i) == pre.lkey(i));
                } else {
                    assert(self.lkey(i) == pre.lkey(i + 1));
                }
                if j < pos {
                    assert(self.lkey(j) == pre.lkey(j));
                } else {
                    assert(self.lkey(j) == pre.lkey(j + 1));
                }
            }
        }
        r
    }

    /// After `remove_at(pos)` the gap the entry left still separates
    /// the keys before it from the keys after it, so putting an entry
    /// with the same folded key back at `pos` keeps the order.
    pub proof fn lemma_remove_keeps_gap(pre: StrMap<V>, post: StrMap<V>, pos: int)
        requires
            pre.wf(),
            0 <= pos < pre.spec_len(),
            post.entries@ == pre.entries@.remove(pos),
        ensures
            forall|j: int| 0 <= j < pos ==> lex_lt(#[trigger] post.lkey(j), pre.lkey(pos)),
            forall|j: int|
                pos <= j < post.spec_len() ==> lex_lt(pre.lkey(pos), #[trigger] post.lkey(j)),
    {
        assert forall|j: int| 0 <= j < pos implies lex_lt(#[trigger] post.lkey(j), pre.lkey(pos)) by {
            assert(post.lkey(j) == pre.lkey(j));
        }
        assert forall|j: int|
            pos <= j < post.spec_len() implies lex_lt(pre.lkey(pos), #[trigger] post.lkey(j)) by {
            assert(post.lkey(j) == pre.lkey(j + 1));
        }
    }

    /// An entry inserted above every present key can only have gone
    /// to the end.
    pub proof fn lemma_insert_position_is_end(pre: StrMap<V>, post: StrMap<V>, pos: int, k: Seq<
        u32,
    >)
        requires
            post.wf(),
            0 <= pos <= pre.spec_len(),
            post.entries@ == pre.entries@.insert(pos, post.entries@[pos]),
            lower_seq(post.entries@[pos].0@) == k,
            forall|j: int| 0 <= j < pre.spec_len() ==> lex_lt(#[trigger] pre.lkey(j), k),
        ensures
            pos == pre.spec_len(),
    {
        if pos < pre.spec_len() {
            assert(post.entries@[pos + 1] == pre.entries@[pos]);
            assert(lex_lt(post.lkey(pos), post.lkey(pos + 1)));
            assert(post.lkey(pos + 1) == pre.lkey(pos));
            assert(lex_lt(pre.lkey(pos), k));
            lemma_lex_trans(k, pre.lkey(pos), k);
            lemma_lex_total(k, k);
        }
    }

    /// The names of the entries, in map order, with their stored
    /// casing.
    pub fn keys(&self) -> (r: Vec<String>)
        ensures
            r@.len() == self.spec_len(),
            forall|i: int| 0 <= i < r@.len() ==> r@[i]@ == #[trigger] self.entries@[i].0@,
    {
        let mut r: Vec<String> = Vec::new();
        let n = self.entries.len();
        let mut i: usize = 0;
        while i < n
            invariant
                i <= n,
                n == self.spec_len(),
                r@.len() == i,
                forall|j: int| 0 <= j < i ==> r@[j]@ == #[trigger] self.entries@[j].0@,
            decreases n - i,
        {
            r.push(self.entries[i].0.clone());
            i = i + 1;
        }
        r
    }
}

} // verus!
