use vstd::prelude::*;

use crate::keyed::{
    has_key, keys_unique, lemma_to_map_absent, lemma_to_map_index, lemma_to_map_push,
    lemma_to_map_update, to_map,
};

verus! {

/// The isolated record store of one lapp: records keyed by a 64-bit id.
pub struct LappStorage {
    records: Vec<(u64, Vec<u8>)>,
}

pub open spec fn record_view(r: (u64, Vec<u8>)) -> (u64, Seq<u8>) {
    (r.0, r.1@)
}

impl LappStorage {
    pub closed spec fn pairs(&self) -> Seq<(u64, Seq<u8>)> {
        self.records@.map_values(|r: (u64, Vec<u8>)| record_view(r))
    }

    pub closed spec fn wf(&self) -> bool {
        keys_unique(self.pairs())
    }

    /// An empty store.
    pub fn new() -> (r: LappStorage)
        ensures
            r.wf(),
            r@ == Map::<u64, Seq<u8>>::empty(),
    {
        let r = LappStorage { records: Vec::new() };
        proof {
            assert(r.pairs() =~= Seq::<(u64, Seq<u8>)>::empty());
            assert(to_map(r.pairs()) =~= Map::<u64, Seq<u8>>::empty());
        }
        r
    }

    fn find(&self, key: u64) -> (r: Option<usize>)
        ensures
            match r {
                Some(i) => i < self.records@.len() && self.records@[i as int].0 == key,
                None => forall|i: int| 0 <= i < self.records@.len() ==> self.records@[i].0 != key,
            },
    {
        let mut i: usize = 0;
        while i < self.records.len()
            invariant
                i <= self.records@.len(),
                forall|j: int| 0 <= j < i ==> self.records@[j].0 != key,
            decreases self.records@.len() - i,
        {
            if self.records[i].0 == key {
                return Some(i);
            }
            i = i + 1;
        }
        None
    }

    /// The record stored under `key`, if any.
    pub fn get(&self, key: u64) -> (r: Option<Vec<u8>>)
        requires
            self.wf(),
        ensures
            match r {
                Some(v) => self@.contains_key(key) && v@ == self@[key],
                None => !self@.contains_key(key),
            },
    {
        match self.find(key) {
            Some(i) => {
                proof {
                    lemma_to_map_index(self.pairs(), i as int);
                }
                Some(self.records[i].1.clone())
            },
            None => {
                proof {
                    assert forall|j: int| 0 <= j < self.pairs().len() implies self.pairs()[j].0
                        != key by {
                        assert(self.pairs()[j] == record_view(self.records@[j]));
                    }
                    lemma_to_map_absent(self.pairs(), key);
                }
                None
            },
        }
    }

    /// Stores `value` under `key`, replacing what was there.
    pub fn put(&mut self, key: u64, value: Vec<u8>)
        requires
            old(self).wf(),
        ensures
            final(self).wf(),
            final(self)@ == old(self)@.insert(key, value@),
    {
        let ghost v = value@;
        match self.find(key) {
            Some(i) => {
                proof {
                    lemma_to_map_update(self.pairs(), i as int, v);
                }
                let ghost before = self.pairs();
                self.records.set(i, (key, value));
                proof {
                    assert(self.pairs() =~= before.update(i as int, (key, v)));
                }
            },
            None => {
                let ghost before = self.pairs();
                proof {
                    if has_key(before, key) {
                        let j = choose|j: int| 0 <= j < before.len() && before[j].0 == key;
                        assert(before[j] == record_view(old(self).records@[j]));
                    }
                    lemma_to_map_push(before, key, v);
                }
                self.records.push((key, value));
                proof {
                    assert(self.pairs() =~= before.push((key, v)));
                }
            },
        }
    }
}

impl View for LappStorage {
    type V = Map<u64, Seq<u8>>;

    closed spec fn view(&self) -> Map<u64, Seq<u8>> {
        to_map(self.pairs())
    }
}

} // verus!
