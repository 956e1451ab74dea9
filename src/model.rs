//! The mathematical model of the store. Keys are character sequences, the
//! committed state is a map from key to value handle, and the registry is a
//! map from subscription id to the key it watches.
use vstd::prelude::*;
use crate::value::{Notification, ValueRef};

verus! {

/// The value committed under `key`, if any.
pub open spec fn current(values: Map<Seq<char>, ValueRef>, key: Seq<char>) -> Option<ValueRef> {
    if values.contains_key(key) {
        Some(values[key])
    } else {
        None
    }
}

/// Writing `next` under `key` changes the state: the key was absent, or holds
/// a different value (identity comparison).
pub open spec fn is_change(values: Map<Seq<char>, ValueRef>, key: Seq<char>, next: ValueRef) -> bool {
    current(values, key) != Some(next)
}

/// The state after applying `entries` in order; a later entry for a key sees
/// and overwrites what an earlier one committed.
pub open spec fn written(values: Map<Seq<char>, ValueRef>, entries: Seq<(Seq<char>, ValueRef)>) -> Map<
    Seq<char>,
    ValueRef,
>
    decreases entries.len(),
{
    if entries.len() == 0 {
        values
    } else {
        let last = entries.last();
        written(values, entries.drop_last()).insert(last.0, last.1)
    }
}

/// The keys whose value changed at least once while applying `entries`.
pub open spec fn touched(values: Map<Seq<char>, ValueRef>, entries: Seq<(Seq<char>, ValueRef)>) -> Set<
    Seq<char>,
>
    decreases entries.len(),
{
    if entries.len() == 0 {
        Set::empty()
    } else {
        let prior = entries.drop_last();
        let last = entries.last();
        if is_change(written(values, prior), last.0, last.1) {
            touched(values, prior).insert(last.0)
        } else {
            touched(values, prior)
        }
    }
}

/// The keys affected by a single write.
pub open spec fn affected_by(values: Map<Seq<char>, ValueRef>, key: Seq<char>, next: ValueRef) -> Set<
    Seq<char>,
> {
    if is_change(values, key, next) {
        set![key]
    } else {
        Set::empty()
    }
}

/// Subscription `id` is active and watches one of the `affected` keys.
pub open spec fn is_due(watchers: Map<usize, Seq<char>>, affected: Set<Seq<char>>, id: usize) -> bool {
    watchers.contains_key(id) && affected.contains(watchers[id])
}

/// `plan` is the dispatch for a write that affected `affected`: every due
/// subscription exactly once, in increasing id order, each with the value now
/// committed under its key, and nothing else.
pub open spec fn notifies(
    values: Map<Seq<char>, ValueRef>,
    watchers: Map<usize, Seq<char>>,
    affected: Set<Seq<char>>,
    plan: Seq<Notification>,
) -> bool {
    &&& forall|j: int|
        0 <= j < plan.len() ==> #[trigger] is_due(watchers, affected, plan[j].id) && plan[j].value
            == values[watchers[plan[j].id]]
    &&& forall|id: usize|
        #[trigger] is_due(watchers, affected, id) ==> exists|j: int|
            0 <= j < plan.len() && plan[j].id == id
    &&& forall|a: int, b: int| 0 <= a < b < plan.len() ==> plan[a].id < plan[b].id
}

} // verus!
