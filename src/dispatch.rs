//! The affected-key set that one logical write accumulates.
use vstd::prelude::*;

verus! {

/// Keys whose committed value changed during one write or batch write.
pub struct Batch {
    keys: Vec<String>,
}

impl Batch {
    pub closed spec fn keys(&self) -> Set<Seq<char>> {
        Set::new(|k: Seq<char>| exists|j: int| 0 <= j < self.keys.len() && self.keys@[j]@ == k)
    }

    pub fn new() -> (r: Batch)
        ensures
            r.keys() == Set::<Seq<char>>::empty(),
    {
        let r = Batch { keys: Vec::new() };
        assert(r.keys() =~= Set::<Seq<char>>::empty());
        r
    }

    pub(crate) fn add(&mut self, key: &str)
        ensures
            final(self).keys() == old(self).keys().insert(key@),
    {
        let k = key.to_string();
        self.keys.push(k);
        proof {
            let n = old(self).keys.len() as int;
            assert(self.keys@[n]@ == key@);
            assert forall|q: Seq<char>| #[trigger] old(self).keys().insert(key@).contains(q) implies self.keys().contains(q) by {
                if q != key@ {
                    let j = choose|j: int| 0 <= j < old(self).keys.len() && old(self).keys@[j]@ == q;
                    assert(self.keys@[j]@ == q);
                }
            }
            assert forall|q: Seq<char>| #[trigger] self.keys().contains(q) implies old(self).keys().insert(key@).contains(q) by {
                let j = choose|j: int| 0 <= j < self.keys.len() && self.keys@[j]@ == q;
                if j < n {
                    assert(old(self).keys@[j]@ == q);
                }
            }
            assert(self.keys() =~= old(self).keys().insert(key@));
        }
    }

    pub fn contains(&self, key: &String) -> (r: bool)
        ensures
            r == self.keys().contains(key@),
    {
        let mut i: usize = 0;
        while i < self.keys.len()
            invariant
                i <= self.keys.len(),
                forall|j: int| 0 <= j < i ==> self.keys@[j]@ != key@,
            decreases self.keys.len() - i,
        {
            if self.keys[i] == *key {
                return true;
            }
            i = i + 1;
        }
        false
    }

    /// No key changed.
    pub fn is_empty(&self) -> (r: bool)
        ensures
            r == (self.keys() == Set::<Seq<char>>::empty()),
    {
        let r = self.keys.len() == 0;
        if !r {
            assert(self.keys().contains(self.keys@[0]@));
        } else {
            assert(self.keys() =~= Set::<Seq<char>>::empty());
        }
        r
    }
}

} // verus!
