//! A small table keyed by map positions, holding one value per position.
use vstd::prelude::*;

use crate::api::position::Position;

verus! {

/// A table from positions to values, with at most one entry per position.
pub struct PositionTable<V> {
    entries: Vec<(Position, V)>,
}

impl<V: Copy> PositionTable<V> {
    /// No position has two entries.
    pub closed spec fn wf(self) -> bool {
        forall|i: int, j: int|
            0 <= i < j < self.entries@.len() ==> #[trigger] self.entries@[i].0
                != #[trigger] self.entries@[j].0
    }

    pub closed spec fn has(self, p: Position) -> bool {
        exists|i: int| 0 <= i < self.entries@.len() && #[trigger] self.entries@[i].0 == p
    }

    /// The table as a mathematical map.
    pub closed spec fn as_map(self) -> Map<Position, V> {
        Map::new(
            |p: Position| self.has(p),
            |p: Position|
                self.entries@[choose|i: int|
                    0 <= i < self.entries@.len() && #[trigger] self.entries@[i].0 == p].1,
        )
    }

    /// The number of entries.
    pub closed spec fn size(self) -> nat {
        self.entries@.len()
    }

    pub fn new() -> (r: Self)
        ensures
            r.wf(),
            r.as_map() == Map::<Position, V>::empty(),
    {
        let r = PositionTable { entries: Vec::new() };
        assert(r.as_map() =~= Map::<Position, V>::empty());
        r
    }

    fn find(&self, p: &Position) -> (r: Option<usize>)
        requires
            self.wf(),
        ensures
            r matches Some(i) ==> i < self.entries@.len() && self.entries@[i as int].0 == *p,
            r is None ==> !self.has(*p),
    {
        let mut i: usize = 0;
        while i < self.entries.len()
            invariant
                i <= self.entries@.len(),
                forall|j: int| 0 <= j < i ==> self.entries@[j].0 != *p,
            decreases self.entries@.len() - i,
        {
            if self.entries[i].0 == *p {
                return Some(i);
            }
            i = i + 1;
        }
        None
    }

    pub fn get(&self, p: &Position) -> (r: Option<V>)
        requires
            self.wf(),
        ensures
            r == (if self.as_map().contains_key(*p) {
                Some(self.as_map()[*p])
            } else {
                None
            }),
    {
        match self.find(p) {
            Some(i) => {
                proof {
                    self.lemma_value_at(i as int);
                }
                Some(self.entries[i].1)
            },
            None => None,
        }
    }

    pub fn contains(&self, p: &Position) -> (r: bool)
        requires
            self.wf(),
        ensures
            r == self.as_map().contains_key(*p),
    {
        self.find(p).is_some()
    }

    /// The index that holds a position, when the table has it.
    proof fn lemma_unique_index(self, k1: int, k2: int)
        requires
            self.wf(),
            0 <= k1 < self.entries@.len(),
            0 <= k2 < self.entries@.len(),
            self.entries@[k1].0 == self.entries@[k2].0,
        ensures
            k1 == k2,
    {
        if k1 < k2 {
            assert(self.entries@[k1].0 != self.entries@[k2].0);
        } else if k2 < k1 {
            assert(self.entries@[k2].0 != self.entries@[k1].0);
        }
    }

    /// The value stored for a position is the one at any index that holds it.
    proof fn lemma_value_at(self, k: int)
        requires
            self.wf(),
            0 <= k < self.entries@.len(),
        ensures
            self.as_map().contains_key(self.entries@[k].0),
            self.as_map()[self.entries@[k].0] == self.entries@[k].1,
    {
        let p = self.entries@[k].0;
        assert(self.has(p));
        let c = choose|i: int| 0 <= i < self.entries@.len() && #[trigger] self.entries@[i].0 == p;
        self.lemma_unique_index(c, k);
    }

    pub fn insert(&mut self, p: Position, v: V)
        requires
            old(self).wf(),
        ensures
            final(self).wf(),
            final(self).as_map() == old(self).as_map().insert(p, v),
            final(self).size() <= old(self).size() + 1,
    {
        let ghost before = *self;
        match self.find(&p) {
            Some(i) => {
                self.entries.set(i, (p, v));
            },
            None => {
                self.entries.push((p, v));
            },
        }
        let ghost after = *self;
        assert(forall|k: int|
            0 <= k < before.entries@.len() && #[trigger] before.entries@[k].0 != p
                ==> after.entries@[k] == before.entries@[k]);
        assert forall|a: int, b: int|
            0 <= a < b < after.entries@.len() implies #[trigger] after.entries@[a].0
            != #[trigger] after.entries@[b].0 by {
            if b == before.entries@.len() {
                assert(before.entries@[a].0 == after.entries@[a].0);
                assert(!before.has(p));
            } else if after.entries@[a].0 == p || after.entries@[b].0 == p {
                if after.entries@[a].0 == after.entries@[b].0 {
                    assert(before.entries@[a].0 == p);
                    assert(before.entries@[b].0 == p);
                    before.lemma_unique_index(a, b);
                }
            } else {
                assert(before.entries@[a].0 != before.entries@[b].0);
            }
        }
        assert(after.wf());
        assert forall|q: Position|
            #[trigger] after.as_map().contains_key(q) == before.as_map().insert(
                p,
                v,
            ).contains_key(q) && (after.as_map().contains_key(q) ==> after.as_map()[q]
                == before.as_map().insert(p, v)[q]) by {
            if q == p {
                let k = choose|k: int|
                    0 <= k < after.entries@.len() && #[trigger] after.entries@[k].0 == p;
                assert(after.has(p)) by {
                    let j = if before.has(p) {
                        choose|j: int|
                            0 <= j < before.entries@.len() && #[trigger] before.entries@[j].0 == p
                    } else {
                        before.entries@.len() as int
                    };
                    assert(after.entries@[j].0 == p);
                }
                after.lemma_value_at(k);
                assert(after.entries@[k].1 == v);
            } else {
                if before.has(q) {
                    let k = choose|k: int|
                        0 <= k < before.entries@.len() && #[trigger] before.entries@[k].0 == q;
                    assert(after.entries@[k] == before.entries@[k]);
                    before.lemma_value_at(k);
                    after.lemma_value_at(k);
                }
                if after.has(q) {
                    let k = choose|k: int|
                        0 <= k < after.entries@.len() && #[trigger] after.entries@[k].0 == q;
                    assert(k < before.entries@.len());
                    assert(before.entries@[k].0 == q);
                }
            }
        }
        assert(after.as_map() =~= before.as_map().insert(p, v));
    }
}

} // verus!
