//! Subscriptions: the id -> callback table and the key each id watches.
use vstd::prelude::*;
use crate::dispatch::Batch;
use crate::model::{is_due, notifies};
use crate::state::StateMap;
use crate::value::Notification;

verus! {

pub struct Subscription<C> {
    pub id: usize,
    pub key: String,
    pub callback: C,
}

/// Active subscriptions in increasing id order. Each id belongs to exactly one
/// key; ids come from a counter that only grows, so none is ever reused.
pub struct Registry<C> {
    subs: Vec<Subscription<C>>,
    next_id: usize,
    watchers: Ghost<Map<usize, Seq<char>>>,
    callbacks: Ghost<Map<usize, C>>,
}

impl<C> Registry<C> {
    /// The key that each active subscription watches.
    pub closed spec fn watchers(&self) -> Map<usize, Seq<char>> {
        self.watchers@
    }

    /// The callback of each active subscription.
    pub closed spec fn callbacks(&self) -> Map<usize, C> {
        self.callbacks@
    }

    /// The id that the next subscription will get.
    pub closed spec fn next_id(&self) -> nat {
        self.next_id as nat
    }

    pub closed spec fn wf(&self) -> bool {
        &&& forall|i: int|
            0 <= i < self.subs.len() ==> {
                let s = #[trigger] self.subs@[i];
                &&& self.watchers@.contains_key(s.id)
                &&& self.watchers@[s.id] == s.key@
                &&& self.callbacks@[s.id] == s.callback
                &&& s.id < self.next_id
            }
        &&& forall|id: usize|
            #[trigger] self.watchers@.contains_key(id) ==> exists|i: int|
                0 <= i < self.subs.len() && self.subs@[i].id == id
        &&& self.callbacks@.dom() == self.watchers@.dom()
        &&& forall|i: int, j: int| 0 <= i < j < self.subs.len() ==> self.subs@[i].id < self.subs@[j].id
    }

    /// Every active id was issued before the counter's current value.
    pub proof fn lemma_ids_issued(&self)
        requires
            self.wf(),
        ensures
            forall|id: usize| #[trigger] self.watchers().contains_key(id) ==> id < self.next_id(),
            self.callbacks().dom() == self.watchers().dom(),
    {
        assert forall|id: usize| #[trigger] self.watchers().contains_key(id) implies id < self.next_id() by {
            let i = choose|i: int| 0 <= i < self.subs.len() && self.subs@[i].id == id;
            assert(self.subs@[i].id < self.next_id);
        }
    }

    pub fn upcoming_id(&self) -> (r: usize)
        ensures
            r == self.next_id(),
    {
        self.next_id
    }

    pub fn new() -> (r: Registry<C>)
        ensures
            r.wf(),
            r.watchers() == Map::<usize, Seq<char>>::empty(),
            r.callbacks() == Map::<usize, C>::empty(),
            r.next_id() == 0,
    {
        Registry { subs: Vec::new(), next_id: 0, watchers: Ghost(Map::empty()), callbacks: Ghost(Map::empty()) }
    }

    pub fn subscribe(&mut self, key: &str, callback: C) -> (id: usize)
        requires
            old(self).wf(),
            old(self).next_id() < usize::MAX,
        ensures
            final(self).wf(),
            id == old(self).next_id(),
            !old(self).watchers().contains_key(id),
            final(self).next_id() == old(self).next_id() + 1,
            final(self).watchers() == old(self).watchers().insert(id, key@),
            final(self).callbacks() == old(self).callbacks().insert(id, callback),
    {
        proof {
            self.lemma_ids_issued();
        }
        let id = self.next_id;
        self.next_id = id + 1;
        let ghost prior = self.subs@;
        let ghost cb = callback;
        self.subs.push(Subscription { id, key: key.to_string(), callback });
        proof {
            self.watchers@ = self.watchers@.insert(id, key@);
            self.callbacks@ = self.callbacks@.insert(id, cb);
            let n = prior.len() as int;
            assert(self.subs@[n].id == id);
            assert forall|q: usize| #[trigger] self.watchers@.contains_key(q) implies exists|i: int|
                0 <= i < self.subs.len() && self.subs@[i].id == q by {
                if q != id {
                    let i = choose|i: int| 0 <= i < prior.len() && prior[i].id == q;
                    assert(self.subs@[i].id == q);
                }
            }
            assert forall|i: int| 0 <= i < n implies #[trigger] prior[i].id != id by {
                assert(prior[i] == old(self).subs@[i]);
            }
            assert(self.callbacks@.dom() =~= self.watchers@.dom());
        }
        id
    }

    fn position(&self, id: usize) -> (r: Option<usize>)
        requires
            self.wf(),
        ensures
            match r {
                Some(i) => i < self.subs.len() && self.subs@[i as int].id == id,
                None => !self.watchers().contains_key(id),
            },
    {
        let mut i: usize = 0;
        while i < self.subs.len()
            invariant
                i <= self.subs.len(),
                forall|j: int| 0 <= j < i ==> self.subs@[j].id != id,
            decreases self.subs.len() - i,
        {
            if self.subs[i].id == id {
                return Some(i);
            }
            i = i + 1;
        }
        None
    }

    pub fn unsubscribe(&mut self, id: usize) -> (existed: bool)
        requires
            old(self).wf(),
        ensures
            final(self).wf(),
            existed == old(self).watchers().contains_key(id),
            final(self).watchers() == old(self).watchers().remove(id),
            final(self).callbacks() == old(self).callbacks().remove(id),
            final(self).next_id() == old(self).next_id(),
    {
        match self.position(id) {
            None => {
                proof {
                    assert(self.watchers@.remove(id) =~= self.watchers@);
                    assert(self.callbacks@.remove(id) =~= self.callbacks@);
                }
                false
            }
            Some(i) => {
                let ghost prior = self.subs@;
                self.subs.remove(i);
                proof {
                    self.watchers@ = self.watchers@.remove(id);
                    self.callbacks@ = self.callbacks@.remove(id);
                    assert forall|k: int| 0 <= k < self.subs.len() implies #[trigger] self.subs@[k]
                        == prior[if k < i { k } else { k + 1 }] by {}
                    assert forall|k: int| 0 <= k < self.subs.len() implies #[trigger] self.subs@[k].id
                        != id by {
                        let src = if k < i { k } else { k + 1 };
                        assert(self.subs@[k] == prior[src]);
                        assert(src != i);
                        if src < i {
                            assert(prior[src].id < prior[i as int].id);
                        } else {
                            assert(prior[i as int].id < prior[src].id);
                        }
                    }
                    assert forall|q: usize| #[trigger] self.watchers@.contains_key(q) implies exists|k: int|
                        0 <= k < self.subs.len() && self.subs@[k].id == q by {
                        let j = choose|j: int| 0 <= j < prior.len() && prior[j].id == q;
                        assert(j != i);
                        if j < i {
                            assert(self.subs@[j] == prior[j]);
                        } else {
                            assert(self.subs@[j - 1] == prior[j]);
                        }
                    }
                    assert forall|a: int, b: int| 0 <= a < b < self.subs.len() implies self.subs@[a].id
                        < self.subs@[b].id by {
                        let sa = if a < i { a } else { a + 1 };
                        let sb = if b < i { b } else { b + 1 };
                        assert(self.subs@[a] == prior[sa]);
                        assert(self.subs@[b] == prior[sb]);
                    }
                    assert(self.callbacks@.dom() =~= self.watchers@.dom());
                }
                true
            }
        }
    }

    /// The callback of subscription `id`, if it is active.
    pub fn callback(&self, id: usize) -> (r: Option<&C>)
        requires
            self.wf(),
        ensures
            r.is_some() == self.watchers().contains_key(id),
            r matches Some(c) ==> *c == self.callbacks()[id],
    {
        match self.position(id) {
            Some(i) => Some(&self.subs[i].callback),
            None => None,
        }
    }

    /// The notifications owed for a write that affected `batch`'s keys: every
    /// active subscription on one of them, once, in increasing id order, with
    /// the value now committed under its key.
    pub fn plan(&self, state: &StateMap, batch: &Batch) -> (r: Vec<Notification>)
        requires
            self.wf(),
            state.wf(),
            batch.keys().subset_of(state.values().dom()),
        ensures
            notifies(state.values(), self.watchers(), batch.keys(), r@),
    {
        let ghost values = state.values();
        let ghost affected = batch.keys();
        let mut plan: Vec<Notification> = Vec::new();
        let mut i: usize = 0;
        while i < self.subs.len()
            invariant
                self.wf(),
                state.wf(),
                values == state.values(),
                affected == batch.keys(),
                affected.subset_of(values.dom()),
                i <= self.subs.len(),
                forall|j: int|
                    0 <= j < plan.len() ==> #[trigger] is_due(self.watchers@, affected, plan@[j].id)
                        && plan@[j].value == values[self.watchers@[plan@[j].id]],
                forall|j: int|
                    0 <= j < plan.len() ==> exists|k: int| 0 <= k < i && #[trigger] self.subs@[k].id == #[trigger] plan@[j].id,
                forall|k: int|
                    0 <= k < i && #[trigger] is_due(self.watchers@, affected, self.subs@[k].id) ==> exists|j: int|
                        0 <= j < plan.len() && plan@[j].id == self.subs@[k].id,
                forall|a: int, b: int| 0 <= a < b < plan.len() ==> plan@[a].id < plan@[b].id,
            decreases self.subs.len() - i,
        {
            let s = &self.subs[i];
            if batch.contains(&s.key) {
                let found = state.get(s.key.as_str());
                assert(values.contains_key(s.key@));
                match found {
                    Some(v) => {
                        let ghost before = plan@;
                        proof {
                            assert forall|j: int| 0 <= j < before.len() implies before[j].id < s.id by {
                                let k = choose|k: int| 0 <= k < i && #[trigger] self.subs@[k].id == before[j].id;
                                assert(self.subs@[k].id < self.subs@[i as int].id);
                            }
                        }
                        plan.push(Notification { id: s.id, value: v });
                        proof {
                            let n = before.len() as int;
                            assert(plan@[n].id == s.id);
                            assert(is_due(self.watchers@, affected, plan@[n].id));
                            assert forall|j: int| 0 <= j < plan.len() implies exists|k: int|
                                0 <= k < i + 1 && #[trigger] self.subs@[k].id == #[trigger] plan@[j].id by {
                                if j < n {
                                    assert(plan@[j] == before[j]);
                                    let k = choose|k: int| 0 <= k < i && #[trigger] self.subs@[k].id == before[j].id;
                                    assert(self.subs@[k].id == plan@[j].id);
                                } else {
                                    assert(self.subs@[i as int].id == plan@[j].id);
                                }
                            }
                            assert forall|k: int|
                                0 <= k < i + 1 && #[trigger] is_due(self.watchers@, affected, self.subs@[k].id)
                                implies exists|j: int| 0 <= j < plan.len() && plan@[j].id == self.subs@[k].id by {
                                if k < i {
                                    let j = choose|j: int| 0 <= j < before.len() && before[j].id == self.subs@[k].id;
                                    assert(plan@[j] == before[j]);
                                } else {
                                    assert(plan@[n].id == self.subs@[k].id);
                                }
                            }
                        }
                    }
                    None => {}
                }
            } else {
                proof {
                    assert(!is_due(self.watchers@, affected, self.subs@[i as int].id));
                }
            }
            i = i + 1;
        }
        proof {
            assert forall|id: usize| #[trigger] is_due(self.watchers@, affected, id) implies exists|j: int|
                0 <= j < plan.len() && plan@[j].id == id by {
                let k = choose|k: int| 0 <= k < self.subs.len() && self.subs@[k].id == id;
                assert(is_due(self.watchers@, affected, self.subs@[k].id));
            }
        }
        plan
    }
}

} // verus!
