//! The observable store: committed state plus subscriptions. A write commits,
//! then hands back the callbacks it owes as a plan; the store holds no borrow
//! of itself while the caller runs them, so a callback may write again.
use vstd::prelude::*;
use crate::dispatch::Batch;
use crate::model::{affected_by, current, is_change, is_due, notifies, touched, written};
use crate::registry::Registry;
use crate::state::StateMap;
use crate::value::{Notification, ValueRef};

verus! {

/// What a write did: whether any key changed, and the callbacks to run.
pub struct WriteOutcome {
    pub changed: bool,
    pub notifications: Vec<Notification>,
}

/// The key/value view of a batch's entries.
pub open spec fn entries_view(entries: Seq<(String, ValueRef)>) -> Seq<(Seq<char>, ValueRef)> {
    entries.map_values(|e: (String, ValueRef)| (e.0@, e.1))
}

pub struct Store<C> {
    state: StateMap,
    registry: Registry<C>,
}

impl<C> Store<C> {
    /// The committed value of each key ever changed by a write.
    pub closed spec fn values(&self) -> Map<Seq<char>, ValueRef> {
        self.state.values()
    }

    /// The key watched by each active subscription.
    pub closed spec fn watchers(&self) -> Map<usize, Seq<char>> {
        self.registry.watchers()
    }

    /// The callback of each active subscription.
    pub closed spec fn callbacks(&self) -> Map<usize, C> {
        self.registry.callbacks()
    }

    /// The id that the next subscription will get.
    pub closed spec fn next_id(&self) -> nat {
        self.registry.next_id()
    }

    pub closed spec fn wf(&self) -> bool {
        self.state.wf() && self.registry.wf()
    }

    /// A well-formed store has issued every active id, and every id it will
    /// issue from now on is larger than all of them.
    pub proof fn lemma_ids_issued(&self)
        requires
            self.wf(),
        ensures
            forall|id: usize| #[trigger] self.watchers().contains_key(id) ==> id < self.next_id(),
            self.callbacks().dom() == self.watchers().dom(),
    {
        self.registry.lemma_ids_issued();
    }

    pub fn new() -> (r: Store<C>)
        ensures
            r.wf(),
            r.values() == Map::<Seq<char>, ValueRef>::empty(),
            r.watchers() == Map::<usize, Seq<char>>::empty(),
            r.callbacks() == Map::<usize, C>::empty(),
            r.next_id() == 0,
    {
        Store { state: StateMap::new(), registry: Registry::new() }
    }

    /// The value committed under `key`; `None` if it was never written.
    pub fn get(&self, key: &str) -> (r: Option<ValueRef>)
        requires
            self.wf(),
        ensures
            r == current(self.values(), key@),
    {
        self.state.get(key)
    }

    /// The id that the next `subscribe` will return.
    pub fn upcoming_id(&self) -> (r: usize)
        ensures
            r == self.next_id(),
    {
        self.registry.upcoming_id()
    }

    /// Registers `callback` on `key` under a fresh id, larger than every id
    /// issued before.
    pub fn subscribe(&mut self, key: &str, callback: C) -> (id: usize)
        requires
            old(self).wf(),
            old(self).next_id() < usize::MAX,
        ensures
            final(self).wf(),
            id == old(self).next_id(),
            final(self).next_id() == old(self).next_id() + 1,
            final(self).watchers() == old(self).watchers().insert(id, key@),
            final(self).callbacks() == old(self).callbacks().insert(id, callback),
            final(self).values() == old(self).values(),
    {
        self.registry.subscribe(key, callback)
    }

    /// Removes subscription `id`; returns whether it was active.
    pub fn unsubscribe(&mut self, id: usize) -> (existed: bool)
        requires
            old(self).wf(),
        ensures
            final(self).wf(),
            existed == old(self).watchers().contains_key(id),
            final(self).watchers() == old(self).watchers().remove(id),
            final(self).callbacks() == old(self).callbacks().remove(id),
            final(self).next_id() == old(self).next_id(),
            final(self).values() == old(self).values(),
    {
        self.registry.unsubscribe(id)
    }

    /// The callback of subscription `id`, if it is active.
    pub fn callback(&self, id: usize) -> (r: Option<&C>)
        requires
            self.wf(),
        ensures
            r.is_some() == self.watchers().contains_key(id),
            r matches Some(c) ==> *c == self.callbacks()[id],
    {
        self.registry.callback(id)
    }

    /// One step of a write: commits `next` under `key` and records the key in
    /// `batch` if its value changed. `None` stands for an updater that failed:
    /// the key keeps its current value and nothing is recorded.
    pub fn write(&mut self, key: &str, next: Option<ValueRef>, batch: &mut Batch) -> (changed: bool)
        requires
            old(self).wf(),
            old(batch).keys().subset_of(old(self).values().dom()),
        ensures
            final(self).wf(),
            final(batch).keys().subset_of(final(self).values().dom()),
            final(self).watchers() == old(self).watchers(),
            final(self).callbacks() == old(self).callbacks(),
            final(self).next_id() == old(self).next_id(),
            match next {
                Some(v) => {
                    &&& changed == is_change(old(self).values(), key@, v)
                    &&& final(self).values() == old(self).values().insert(key@, v)
                    &&& final(batch).keys() == old(batch).keys().union(affected_by(old(self).values(), key@, v))
                },
                None => {
                    &&& !changed
                    &&& final(self).values() == old(self).values()
                    &&& final(batch).keys() == old(batch).keys()
                },
            },
    {
        match next {
            Some(v) => {
                let changed = self.state.commit(key, v);
                if changed {
                    batch.add(key);
                    assert(final(batch).keys() =~= old(batch).keys().union(set![key@]));
                } else {
                    assert(old(batch).keys().union(Set::empty()) =~= old(batch).keys());
                }
                changed
            }
            None => false,
        }
    }

    /// The callbacks owed for the keys in `batch`, with the values committed now.
    pub fn dispatch(&self, batch: &Batch) -> (r: Vec<Notification>)
        requires
            self.wf(),
            batch.keys().subset_of(self.values().dom()),
        ensures
            notifies(self.values(), self.watchers(), batch.keys(), r@),
    {
        self.registry.plan(&self.state, batch)
    }

    /// Writes `value` under `key`. A value identical to the current one changes
    /// nothing and notifies nobody.
    pub fn set(&mut self, key: &str, value: ValueRef) -> (r: WriteOutcome)
        requires
            old(self).wf(),
        ensures
            final(self).wf(),
            r.changed == is_change(old(self).values(), key@, value),
            final(self).values() == old(self).values().insert(key@, value),
            final(self).watchers() == old(self).watchers(),
            final(self).callbacks() == old(self).callbacks(),
            final(self).next_id() == old(self).next_id(),
            notifies(
                final(self).values(),
                final(self).watchers(),
                affected_by(old(self).values(), key@, value),
                r.notifications@,
            ),
    {
        self.update(key, Some(value))
    }

    /// Writes what an updater returned under `key`: `Some(v)` as `set` does,
    /// `None` (the updater failed) leaves the store as it is.
    pub fn update(&mut self, key: &str, next: Option<ValueRef>) -> (r: WriteOutcome)
        requires
            old(self).wf(),
        ensures
            final(self).wf(),
            final(self).watchers() == old(self).watchers(),
            final(self).callbacks() == old(self).callbacks(),
            final(self).next_id() == old(self).next_id(),
            match next {
                Some(v) => {
                    &&& r.changed == is_change(old(self).values(), key@, v)
                    &&& final(self).values() == old(self).values().insert(key@, v)
                    &&& notifies(
                        final(self).values(),
                        final(self).watchers(),
                        affected_by(old(self).values(), key@, v),
                        r.notifications@,
                    )
                },
                None => {
                    &&& !r.changed
                    &&& final(self).values() == old(self).values()
                    &&& r.notifications@.len() == 0
                },
            },
    {
        let mut batch = Batch::new();
        let changed = self.write(key, next, &mut batch);
        if let Some(v) = next {
            assert(Set::<Seq<char>>::empty().union(affected_by(old(self).values(), key@, v)) =~= affected_by(
                old(self).values(),
                key@,
                v,
            ));
        }
        let notifications = self.dispatch(&batch);
        if next.is_none() {
            if notifications.len() > 0 {
                assert(notifies(self.values(), self.watchers(), Set::empty(), notifications@));
                assert(is_due(self.watchers(), Set::empty(), notifications@[0].id));
            }
        }
        WriteOutcome { changed, notifications }
    }

    /// Applies `entries` in order within one write: a key written twice ends
    /// with the later value. Every key that changed at least once is notified,
    /// once per subscription, with its final value.
    pub fn batch_set(&mut self, entries: &Vec<(String, ValueRef)>) -> (r: WriteOutcome)
        requires
            old(self).wf(),
        ensures
            final(self).wf(),
            final(self).values() == written(old(self).values(), entries_view(entries@)),
            r.changed == !touched(old(self).values(), entries_view(entries@)).is_empty(),
            final(self).watchers() == old(self).watchers(),
            final(self).callbacks() == old(self).callbacks(),
            final(self).next_id() == old(self).next_id(),
            notifies(
                final(self).values(),
                final(self).watchers(),
                touched(old(self).values(), entries_view(entries@)),
                r.notifications@,
            ),
    {
        let ghost start = self.values();
        let ghost view = entries_view(entries@);
        let mut batch = Batch::new();
        let mut i: usize = 0;
        while i < entries.len()
            invariant
                self.wf(),
                i <= entries.len(),
                view == entries_view(entries@),
                self.values() == written(start, view.subrange(0, i as int)),
                batch.keys() == touched(start, view.subrange(0, i as int)),
                batch.keys().subset_of(self.values().dom()),
                self.watchers() == old(self).watchers(),
                self.callbacks() == old(self).callbacks(),
                self.next_id() == old(self).next_id(),
            decreases entries.len() - i,
        {
            let entry = &entries[i];
            let ghost prefix = view.subrange(0, i as int);
            let ghost next_prefix = view.subrange(0, i + 1);
            proof {
                assert(next_prefix.drop_last() =~= prefix);
                assert(next_prefix.last() == (entry.0@, entry.1));
            }
            let ghost before = self.values();
            self.write(entry.0.as_str(), Some(entry.1), &mut batch);
            proof {
                if is_change(before, entry.0@, entry.1) {
                    assert(batch.keys() =~= touched(start, prefix).insert(entry.0@));
                } else {
                    assert(batch.keys() =~= touched(start, prefix));
                }
            }
            i = i + 1;
        }
        proof {
            assert(view.subrange(0, entries.len() as int) =~= view);
        }
        let changed = !batch.is_empty();
        let notifications = self.dispatch(&batch);
        WriteOutcome { changed, notifications }
    }
}

} // verus!
