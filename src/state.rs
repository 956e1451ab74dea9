//! The committed value of each key, with change detection on write.
use vstd::prelude::*;
use crate::model::{current, is_change};
use crate::value::ValueRef;

verus! {

pub struct Entry {
    pub key: String,
    pub value: ValueRef,
}

/// Latest committed value per key. Keys are unique; an entry is created by the
/// first write that changes its key and is never removed.
pub struct StateMap {
    entries: Vec<Entry>,
    values: Ghost<Map<Seq<char>, ValueRef>>,
}

impl StateMap {
    pub closed spec fn values(&self) -> Map<Seq<char>, ValueRef> {
        self.values@
    }

    pub closed spec fn wf(&self) -> bool {
        &&& forall|i: int|
            0 <= i < self.entries.len() ==> self.values@.contains_key(#[trigger] self.entries@[i].key@)
                && self.values@[self.entries@[i].key@] == self.entries@[i].value
        &&& forall|k: Seq<char>|
            #[trigger] self.values@.contains_key(k) ==> exists|i: int|
                0 <= i < self.entries.len() && self.entries@[i].key@ == k
        &&& forall|i: int, j: int|
            0 <= i < j < self.entries.len() ==> self.entries@[i].key@ != self.entries@[j].key@
    }

    pub fn new() -> (r: StateMap)
        ensures
            r.wf(),
            r.values() == Map::<Seq<char>, ValueRef>::empty(),
    {
        StateMap { entries: Vec::new(), values: Ghost(Map::empty()) }
    }

    fn find(&self, key: &String) -> (r: Option<usize>)
        requires
            self.wf(),
        ensures
            match r {
                Some(i) => i < self.entries.len() && self.entries@[i as int].key@ == key@,
                None => !self.values().contains_key(key@),
            },
    {
        let mut i: usize = 0;
        while i < self.entries.len()
            invariant
                i <= self.entries.len(),
                forall|j: int| 0 <= j < i ==> self.entries@[j].key@ != key@,
            decreases self.entries.len() - i,
        {
            if self.entries[i].key == *key {
                return Some(i);
            }
            i = i + 1;
        }
        None
    }

    /// The value committed under `key`, or `None` if the key was never written.
    pub fn get(&self, key: &str) -> (r: Option<ValueRef>)
        requires
            self.wf(),
        ensures
            r == current(self.values(), key@),
    {
        let k = key.to_string();
        match self.find(&k) {
            Some(i) => Some(self.entries[i].value),
            None => None,
        }
    }

    /// Commits `next` under `key` unless it is the value already there;
    /// returns whether the state changed.
    pub fn commit(&mut self, key: &str, next: ValueRef) -> (changed: bool)
        requires
            old(self).wf(),
        ensures
            final(self).wf(),
            changed == is_change(old(self).values(), key@, next),
            final(self).values() == old(self).values().insert(key@, next),
    {
        let k = key.to_string();
        match self.find(&k) {
            Some(i) => {
                if self.entries[i].value == next {
                    proof {
                        assert(self.values@.insert(key@, next) =~= self.values@);
                    }
                    false
                } else {
                    let ghost prior = self.entries@;
                    self.entries.set(i, Entry { key: k, value: next });
                    proof {
                        self.values@ = self.values@.insert(key@, next);
                        assert forall|q: Seq<char>| #[trigger] self.values@.contains_key(q) implies exists|j: int|
                            0 <= j < self.entries.len() && self.entries@[j].key@ == q by {
                            if q != key@ {
                                let j = choose|j: int| 0 <= j < prior.len() && prior[j].key@ == q;
                                assert(self.entries@[j].key@ == q);
                            } else {
                                assert(self.entries@[i as int].key@ == q);
                            }
                        }
                    }
                    true
                }
            }
            None => {
                let ghost prior = self.entries@;
                self.entries.push(Entry { key: k, value: next });
                proof {
                    self.values@ = self.values@.insert(key@, next);
                    let n = prior.len() as int;
                    assert(self.entries@[n].key@ == key@);
                    assert forall|j: int| 0 <= j < n implies prior[j].key@ != key@ by {
                        assert(old(self).values@.contains_key(prior[j].key@));
                    }
                    assert forall|q: Seq<char>| #[trigger] self.values@.contains_key(q) implies exists|j: int|
                        0 <= j < self.entries.len() && self.entries@[j].key@ == q by {
                        if q != key@ {
                            let j = choose|j: int| 0 <= j < prior.len() && prior[j].key@ == q;
                            assert(self.entries@[j].key@ == q);
                        }
                    }
                }
                true
            }
        }
    }
}

} // verus!
