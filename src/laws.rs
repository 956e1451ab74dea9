//! Properties that hold across calls, stated over the model that the store's
//! contracts use.
use vstd::prelude::*;
use crate::model::{affected_by, current, is_change, is_due, notifies, touched, written};
use crate::store::Store;
use crate::value::{Notification, ValueRef};

verus! {

/// A key that no entry of a sequence of writes names is absent from the state
/// those writes build from an empty store.
pub proof fn law_unwritten_key_absent(entries: Seq<(Seq<char>, ValueRef)>, key: Seq<char>)
    requires
        forall|j: int| 0 <= j < entries.len() ==> (#[trigger] entries[j]).0 != key,
    ensures
        current(written(Map::empty(), entries), key) == None::<ValueRef>,
    decreases entries.len(),
{
    if entries.len() > 0 {
        let prior = entries.drop_last();
        assert forall|j: int| 0 <= j < prior.len() implies (#[trigger] prior[j]).0 != key by {
            assert(prior[j] == entries[j]);
        }
        law_unwritten_key_absent(prior, key);
        assert(entries[entries.len() - 1].0 != key);
    }
}

/// Writing a value that is not the one held under `key` is a change, and
/// reading the key afterwards gives that value.
pub proof fn law_set_then_get(values: Map<Seq<char>, ValueRef>, key: Seq<char>, v: ValueRef)
    requires
        current(values, key) != Some(v),
    ensures
        is_change(values, key, v),
        current(values.insert(key, v), key) == Some(v),
{
}

/// Writing the same value a second time changes nothing and owes no callback.
pub proof fn law_repeated_set_is_silent(
    values: Map<Seq<char>, ValueRef>,
    watchers: Map<usize, Seq<char>>,
    key: Seq<char>,
    v: ValueRef,
    plan: Seq<Notification>,
)
    requires
        notifies(values.insert(key, v), watchers, affected_by(values.insert(key, v), key, v), plan),
    ensures
        !is_change(values.insert(key, v), key, v),
        values.insert(key, v).insert(key, v) == values.insert(key, v),
        plan.len() == 0,
{
    let after = values.insert(key, v);
    assert(after.insert(key, v) =~= after);
    if plan.len() > 0 {
        assert(is_due(watchers, affected_by(after, key, v), plan[0].id));
    }
}

/// Two successive subscriptions get increasing ids: the first takes the
/// counter, which then only grows until the second takes it. The second id is
/// also held by no active subscription.
pub proof fn law_successive_ids_increase<C>(
    first: Store<C>,
    after_first: Store<C>,
    before_second: Store<C>,
    id1: usize,
    id2: usize,
)
    requires
        before_second.wf(),
        id1 == first.next_id(),
        after_first.next_id() == first.next_id() + 1,
        after_first.next_id() <= before_second.next_id(),
        id2 == before_second.next_id(),
    ensures
        id1 < id2,
        !before_second.watchers().contains_key(id2),
{
    before_second.lemma_ids_issued();
}

/// A dispatch plan notifies each due subscription exactly once and no other:
/// a subscriber is only ever notified for a key it watches that changed.
pub proof fn law_dispatch_once_each(
    values: Map<Seq<char>, ValueRef>,
    watchers: Map<usize, Seq<char>>,
    affected: Set<Seq<char>>,
    plan: Seq<Notification>,
)
    requires
        notifies(values, watchers, affected, plan),
    ensures
        forall|id: usize|
            #[trigger] is_due(watchers, affected, id) ==> exists|j: int|
                0 <= j < plan.len() && plan[j].id == id,
        forall|a: int, b: int| 0 <= a < plan.len() && 0 <= b < plan.len() && plan[a].id == plan[b].id ==> a == b,
        forall|j: int|
            0 <= j < plan.len() ==> watchers.contains_key(#[trigger] plan[j].id) && affected.contains(
                watchers[plan[j].id],
            ),
{
    assert forall|a: int, b: int|
        0 <= a < plan.len() && 0 <= b < plan.len() && plan[a].id == plan[b].id implies a == b by {
        if a < b {
            assert(plan[a].id < plan[b].id);
        } else if b < a {
            assert(plan[b].id < plan[a].id);
        }
    }
    assert forall|j: int| 0 <= j < plan.len() implies watchers.contains_key(#[trigger] plan[j].id)
        && affected.contains(watchers[plan[j].id]) by {
        assert(is_due(watchers, affected, plan[j].id));
    }
}

/// After a single write, only subscribers of the written key are notified.
pub proof fn law_set_notifies_only_its_key(
    values: Map<Seq<char>, ValueRef>,
    watchers: Map<usize, Seq<char>>,
    key: Seq<char>,
    v: ValueRef,
    plan: Seq<Notification>,
)
    requires
        notifies(values.insert(key, v), watchers, affected_by(values, key, v), plan),
    ensures
        forall|j: int| 0 <= j < plan.len() ==> watchers[#[trigger] plan[j].id] == key,
{
    assert forall|j: int| 0 <= j < plan.len() implies watchers[#[trigger] plan[j].id] == key by {
        assert(is_due(watchers, affected_by(values, key, v), plan[j].id));
    }
}

/// Unsubscribing an active id succeeds once: a second call finds it gone and
/// changes nothing, no later plan names it, and no later subscription can
/// bring it back, since new ids come from a counter past it.
pub proof fn law_unsubscribe_once<C>(s: Store<C>, id: usize, key: Seq<char>, n: nat)
    requires
        s.wf(),
        s.watchers().contains_key(id),
        s.next_id() <= n < usize::MAX,
    ensures
        !s.watchers().remove(id).contains_key(id),
        s.watchers().remove(id).remove(id) == s.watchers().remove(id),
        !s.watchers().remove(id).insert(n as usize, key).contains_key(id),
        forall|values: Map<Seq<char>, ValueRef>, affected: Set<Seq<char>>, plan: Seq<Notification>|
            #[trigger] notifies(values, s.watchers().remove(id), affected, plan) ==> forall|j: int|
                0 <= j < plan.len() ==> plan[j].id != id,
{
    s.lemma_ids_issued();
    let rest = s.watchers().remove(id);
    assert(rest.remove(id) =~= rest);
    assert forall|values: Map<Seq<char>, ValueRef>, affected: Set<Seq<char>>, plan: Seq<Notification>|
        #[trigger] notifies(values, rest, affected, plan) implies forall|j: int|
            0 <= j < plan.len() ==> plan[j].id != id by {
        assert forall|j: int| 0 <= j < plan.len() implies plan[j].id != id by {
            assert(is_due(rest, affected, plan[j].id));
        }
    }
}

/// A batch of two writes that both change their keys affects exactly those
/// keys, so each of their subscribers is notified once and nobody else is.
pub proof fn law_batch_of_two(
    values: Map<Seq<char>, ValueRef>,
    watchers: Map<usize, Seq<char>>,
    k1: Seq<char>,
    v1: ValueRef,
    k2: Seq<char>,
    v2: ValueRef,
    plan: Seq<Notification>,
)
    requires
        is_change(values, k1, v1),
        is_change(values, k2, v2),
        notifies(
            written(values, seq![(k1, v1), (k2, v2)]),
            watchers,
            touched(values, seq![(k1, v1), (k2, v2)]),
            plan,
        ),
    ensures
        touched(values, seq![(k1, v1), (k2, v2)]) == set![k1, k2],
        forall|id: usize|
            watchers.contains_key(id) && (watchers[id] == k1 || watchers[id] == k2) ==> exists|j: int|
                0 <= j < plan.len() && #[trigger] plan[j].id == id,
        forall|a: int, b: int| 0 <= a < plan.len() && 0 <= b < plan.len() && plan[a].id == plan[b].id ==> a == b,
        forall|j: int|
            0 <= j < plan.len() ==> watchers.contains_key(#[trigger] plan[j].id) && (watchers[plan[j].id]
                == k1 || watchers[plan[j].id] == k2),
{
    let entries = seq![(k1, v1), (k2, v2)];
    let first = entries.drop_last();
    assert(first =~= seq![(k1, v1)]);
    assert(first.drop_last() =~= Seq::<(Seq<char>, ValueRef)>::empty());
    assert(written(values, first.drop_last()) == values);
    assert(touched(values, first.drop_last()) == Set::<Seq<char>>::empty());
    assert(first.last() == (k1, v1));
    assert(entries.last() == (k2, v2));
    assert(touched(values, first) == Set::<Seq<char>>::empty().insert(k1));
    let t = touched(values, entries);
    if is_change(written(values, first), k2, v2) {
        assert(t =~= set![k1, k2]);
    } else {
        assert(written(values, first) == values.insert(k1, v1));
        assert(k2 == k1);
        assert(t =~= set![k1, k2]);
    }
    law_dispatch_once_each(written(values, entries), watchers, t, plan);
    assert forall|id: usize|
        watchers.contains_key(id) && (watchers[id] == k1 || watchers[id] == k2) implies exists|j: int|
        0 <= j < plan.len() && #[trigger] plan[j].id == id by {
        assert(is_due(watchers, t, id));
    }
}

} // verus!
