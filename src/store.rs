use crate::types::{Coin, CoinId};
use vstd::prelude::*;

verus! {

/// Persistent mapping from coin identifiers to coins, with point lookup,
/// insertion of a fresh key and deletion.
pub struct CoinStore {
    entries: Vec<(CoinId, Coin)>,
    contents: Ghost<Map<CoinId, Coin>>,
}

impl View for CoinStore {
    type V = Map<CoinId, Coin>;

    closed spec fn view(&self) -> Map<CoinId, Coin> {
        self.contents@
    }
}

impl CoinStore {
    /// The entries hold each key once, and hold exactly the mapping of the view.
    pub closed spec fn wf(&self) -> bool {
        &&& forall|i: int, j: int|
            0 <= i < j < self.entries@.len() ==> #[trigger] self.entries@[i].0 != #[trigger] self.entries@[j].0
        &&& forall|i: int|
            0 <= i < self.entries@.len() ==> {
                &&& #[trigger] self.contents@.contains_key(self.entries@[i].0)
                &&& self.contents@[self.entries@[i].0] == self.entries@[i].1
            }
        &&& forall|k: CoinId|
            #[trigger] self.contents@.contains_key(k) ==> exists|i: int|
                0 <= i < self.entries@.len() && #[trigger] self.entries@[i].0 == k
    }

    pub fn new() -> (r: Self)
        ensures
            r.wf(),
            r@ == Map::<CoinId, Coin>::empty(),
    {
        CoinStore { entries: Vec::new(), contents: Ghost(Map::empty()) }
    }

    fn find(&self, id: &CoinId) -> (r: Option<usize>)
        requires
            self.wf(),
        ensures
            match r {
                Some(i) => i < self.entries@.len() && self.entries@[i as int].0 == *id,
                None => !self@.contains_key(*id),
            },
    {
        let mut i: usize = 0;
        while i < self.entries.len()
            invariant
                self.wf(),
                i <= self.entries@.len(),
                forall|j: int| 0 <= j < i ==> self.entries@[j].0 != *id,
            decreases self.entries@.len() - i,
        {
            if self.entries[i].0 == *id {
                return Some(i);
            }
            i = i + 1;
        }
        None
    }

    /// The coin stored under `id`, if any.
    pub fn get(&self, id: &CoinId) -> (r: Option<Coin>)
        requires
            self.wf(),
        ensures
            r == (if self@.contains_key(*id) { Some(self@[*id]) } else { None::<Coin> }),
    {
        match self.find(id) {
            Some(i) => Some(self.entries[i].1),
            None => None,
        }
    }

    /// Stores `coin` under `id`. A key that is already present is refused and
    /// leaves the store unchanged.
    pub fn insert(&mut self, id: CoinId, coin: Coin) -> (r: bool)
        requires
            old(self).wf(),
        ensures
            final(self).wf(),
            r == !old(self)@.contains_key(id),
            r ==> final(self)@ == old(self)@.insert(id, coin),
            !r ==> final(self)@ == old(self)@,
    {
        if self.find(&id).is_some() {
            return false;
        }
        let ghost old_entries = self.entries@;
        self.entries.push((id, coin));
        self.contents = Ghost(self.contents@.insert(id, coin));
        assert forall|k: CoinId| #[trigger] self.contents@.contains_key(k) implies exists|i: int|
            0 <= i < self.entries@.len() && #[trigger] self.entries@[i].0 == k by {
            if k == id {
                assert(self.entries@[old_entries.len() as int].0 == k);
            } else {
                let i = choose|i: int| 0 <= i < old_entries.len() && #[trigger] old_entries[i].0 == k;
                assert(self.entries@[i].0 == k);
            }
        }
        true
    }

    /// Deletes the coin stored under `id` and returns it; `None`, with the
    /// store unchanged, where there is none.
    pub fn remove(&mut self, id: &CoinId) -> (r: Option<Coin>)
        requires
            old(self).wf(),
        ensures
            final(self).wf(),
            r == (if old(self)@.contains_key(*id) { Some(old(self)@[*id]) } else { None::<Coin> }),
            final(self)@ == old(self)@.remove(*id),
    {
        match self.find(id) {
            None => {
                assert(self.contents@.remove(*id) =~= self.contents@);
                None
            },
            Some(i) => {
                let ghost old_entries = self.entries@;
                let ghost old_contents = self.contents@;
                let entry = self.entries.remove(i);
                self.contents = Ghost(self.contents@.remove(*id));
                assert forall|j: int| 0 <= j < self.entries@.len() implies
                    self.entries@[j] == old_entries[if j < i { j } else { j + 1 }] by {}
                assert forall|k: CoinId| #[trigger] self.contents@.contains_key(k) implies exists|j: int|
                    0 <= j < self.entries@.len() && #[trigger] self.entries@[j].0 == k by {
                    let j = choose|j: int| 0 <= j < old_entries.len() && #[trigger] old_entries[j].0 == k;
                    if j < i {
                        assert(self.entries@[j].0 == k);
                    } else {
                        assert(j != i);
                        assert(self.entries@[j - 1].0 == k);
                    }
                }
                assert forall|a: int, b: int|
                    0 <= a < b < self.entries@.len() implies #[trigger] self.entries@[a].0 != #[trigger] self.entries@[b].0 by {
                    let a2 = if a < i { a } else { a + 1 };
                    let b2 = if b < i { b } else { b + 1 };
                    assert(old_entries[a2].0 != old_entries[b2].0);
                }
                assert forall|j: int| 0 <= j < self.entries@.len() implies {
                    &&& #[trigger] self.contents@.contains_key(self.entries@[j].0)
                    &&& self.contents@[self.entries@[j].0] == self.entries@[j].1
                } by {
                    let j2 = if j < i { j } else { j + 1 };
                    assert(old_entries[j2].0 != old_entries[i as int].0);
                    assert(old_contents.contains_key(old_entries[j2].0));
                    assert(self.entries@[j] == old_entries[j2]);
                }
                Some(entry.1)
            },
        }
    }
}

} // verus!
