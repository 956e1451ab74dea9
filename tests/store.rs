use observable_store::dispatch::Batch;
use observable_store::store::Store;
use observable_store::value::{Notification, ValueRef};

fn v(id: u64) -> ValueRef {
    ValueRef::new(id)
}

fn ids(plan: &[Notification]) -> Vec<usize> {
    plan.iter().map(|n| n.id).collect()
}

#[test]
fn unwritten_keys_are_absent() {
    let mut s: Store<u32> = Store::new();
    assert_eq!(s.get("a"), None);
    assert_eq!(s.get(""), None);
    s.set("b", v(1));
    s.batch_set(&vec![("c".to_string(), v(2))]);
    assert_eq!(s.get("a"), None);
    assert_eq!(s.get("b"), Some(v(1)));
}

#[test]
fn set_of_new_value_changes_and_reads_back() {
    let mut s: Store<u32> = Store::new();
    let first = s.set("k", v(10));
    assert!(first.changed);
    assert_eq!(s.get("k"), Some(v(10)));
    let second = s.set("k", v(11));
    assert!(second.changed);
    assert_eq!(s.get("k"), Some(v(11)));
}

#[test]
fn repeated_set_is_silent() {
    let mut s: Store<u32> = Store::new();
    let id = s.subscribe("k", 1);
    let first = s.set("k", v(5));
    assert!(first.changed);
    assert_eq!(ids(&first.notifications), vec![id]);
    let again = s.set("k", v(5));
    assert!(!again.changed);
    assert!(again.notifications.is_empty());
    assert_eq!(s.get("k"), Some(v(5)));
}

#[test]
fn distinct_handles_count_as_change() {
    // Two handles stand for two distinct values, even if their contents agree.
    let mut s: Store<u32> = Store::new();
    s.subscribe("k", 1);
    s.set("k", v(1));
    let out = s.set("k", v(2));
    assert!(out.changed);
    assert_eq!(out.notifications.len(), 1);
}

#[test]
fn subscription_ids_increase() {
    let mut s: Store<u32> = Store::new();
    assert_eq!(s.upcoming_id(), 0);
    let a = s.subscribe("x", 1);
    let b = s.subscribe("y", 2);
    let c = s.subscribe("x", 3);
    assert_eq!((a, b, c), (0, 1, 2));
    assert!(s.unsubscribe(c));
    let d = s.subscribe("x", 4);
    assert_eq!(d, 3);
    assert_eq!(s.upcoming_id(), 4);
}

#[test]
fn each_watcher_notified_once_and_only_for_its_key() {
    let mut s: Store<&'static str> = Store::new();
    let first = s.subscribe("a", "first");
    let second = s.subscribe("a", "second");
    let other = s.subscribe("b", "other");
    let out = s.set("a", v(1));
    assert!(out.changed);
    assert_eq!(ids(&out.notifications), vec![first, second]);
    assert!(out.notifications.iter().all(|n| n.value == v(1)));
    assert!(!ids(&out.notifications).contains(&other));
    assert_eq!(s.callback(first), Some(&"first"));
    assert_eq!(s.callback(other), Some(&"other"));
}

#[test]
fn unsubscribe_succeeds_once() {
    let mut s: Store<u32> = Store::new();
    let id = s.subscribe("k", 9);
    let keep = s.subscribe("k", 8);
    assert!(s.unsubscribe(id));
    assert!(!s.unsubscribe(id));
    assert!(!s.unsubscribe(id));
    assert!(!s.unsubscribe(77));
    assert_eq!(s.callback(id), None);
    let out = s.set("k", v(1));
    assert!(out.changed);
    assert_eq!(ids(&out.notifications), vec![keep]);
}

#[test]
fn unsubscribing_last_watcher_leaves_state() {
    let mut s: Store<u32> = Store::new();
    s.set("k", v(3));
    let id = s.subscribe("k", 1);
    assert!(s.unsubscribe(id));
    assert_eq!(s.get("k"), Some(v(3)));
    let out = s.set("k", v(4));
    assert!(out.changed);
    assert!(out.notifications.is_empty());
}

#[test]
fn batch_of_two_notifies_each_key_once() {
    let mut s: Store<u32> = Store::new();
    s.set("k1", v(1));
    s.set("k2", v(2));
    let w1 = s.subscribe("k1", 1);
    let w2 = s.subscribe("k2", 2);
    let w3 = s.subscribe("k3", 3);
    let out = s.batch_set(&vec![("k1".to_string(), v(10)), ("k2".to_string(), v(20))]);
    assert!(out.changed);
    assert_eq!(ids(&out.notifications), vec![w1, w2]);
    assert_eq!(out.notifications[0].value, v(10));
    assert_eq!(out.notifications[1].value, v(20));
    assert!(!ids(&out.notifications).contains(&w3));
}

#[test]
fn batch_repeats_key_last_writer_wins() {
    let mut s: Store<u32> = Store::new();
    s.set("k", v(1));
    let w = s.subscribe("k", 1);
    let out = s.batch_set(&vec![("k".to_string(), v(2)), ("k".to_string(), v(3))]);
    assert!(out.changed);
    assert_eq!(s.get("k"), Some(v(3)));
    assert_eq!(out.notifications, vec![Notification { id: w, value: v(3) }]);
}

#[test]
fn batch_that_changes_and_restores_still_notifies() {
    let mut s: Store<u32> = Store::new();
    s.set("k", v(1));
    let w = s.subscribe("k", 1);
    let out = s.batch_set(&vec![("k".to_string(), v(2)), ("k".to_string(), v(1))]);
    assert!(out.changed);
    assert_eq!(s.get("k"), Some(v(1)));
    assert_eq!(out.notifications, vec![Notification { id: w, value: v(1) }]);
}

#[test]
fn batch_without_change_is_silent() {
    let mut s: Store<u32> = Store::new();
    s.set("k", v(1));
    s.subscribe("k", 1);
    let out = s.batch_set(&vec![("k".to_string(), v(1))]);
    assert!(!out.changed);
    assert!(out.notifications.is_empty());
    let empty = s.batch_set(&Vec::new());
    assert!(!empty.changed);
    assert!(empty.notifications.is_empty());
}

#[test]
fn failed_updater_leaves_key_alone() {
    let mut s: Store<u32> = Store::new();
    s.subscribe("k", 1);
    let out = s.update("k", None);
    assert!(!out.changed);
    assert!(out.notifications.is_empty());
    assert_eq!(s.get("k"), None);
    s.set("k", v(4));
    let out = s.update("k", None);
    assert!(!out.changed);
    assert_eq!(s.get("k"), Some(v(4)));
}

#[test]
fn batch_steps_with_failed_updater() {
    let mut s: Store<u32> = Store::new();
    s.set("a", v(1));
    let wa = s.subscribe("a", 1);
    let wb = s.subscribe("b", 2);
    let mut batch = Batch::new();
    assert!(batch.is_empty());
    assert!(!s.write("a", None, &mut batch));
    assert!(s.write("b", Some(v(7)), &mut batch));
    assert!(!batch.is_empty());
    assert!(batch.contains(&"b".to_string()));
    assert!(!batch.contains(&"a".to_string()));
    let plan = s.dispatch(&batch);
    assert_eq!(plan, vec![Notification { id: wb, value: v(7) }]);
    assert_eq!(s.get("a"), Some(v(1)));
    let _ = wa;
}

// A small host: handles stand for integers, and each callback records what it
// was called with.
struct Host {
    numbers: Vec<i64>,
}

impl Host {
    fn value(&mut self, n: i64) -> ValueRef {
        self.numbers.push(n);
        ValueRef::new((self.numbers.len() - 1) as u64)
    }

    fn number(&self, h: ValueRef) -> i64 {
        self.numbers[h.id as usize]
    }
}

#[test]
fn counter_scenario() {
    let mut host = Host { numbers: Vec::new() };
    let mut s: Store<&'static str> = Store::new();
    let mut calls: Vec<i64> = Vec::new();

    let id = s.subscribe("count", "cb");
    assert_eq!(id, 0);

    let one = host.value(1);
    let out = s.set("count", one);
    assert!(out.changed);
    for n in &out.notifications {
        assert_eq!(s.callback(n.id), Some(&"cb"));
        calls.push(host.number(n.value));
    }
    assert_eq!(calls, vec![1]);

    // prev => prev + 1
    let prev = host.number(s.get("count").unwrap());
    let next = host.value(prev + 1);
    let out = s.update("count", Some(next));
    assert!(out.changed);
    assert_eq!(host.number(s.get("count").unwrap()), 2);
    for n in &out.notifications {
        calls.push(host.number(n.value));
    }
    assert_eq!(calls, vec![1, 2]);

    assert!(s.unsubscribe(0));
    let three = host.value(3);
    let out = s.set("count", three);
    assert!(out.changed);
    assert!(out.notifications.is_empty());
    assert_eq!(calls, vec![1, 2]);
}

#[test]
fn callback_may_write_during_dispatch() {
    let mut s: Store<&'static str> = Store::new();
    let outer = s.subscribe("a", "writes b");
    let second = s.subscribe("a", "plain");
    let inner = s.subscribe("b", "on b");
    let out = s.set("a", v(1));
    assert_eq!(ids(&out.notifications), vec![outer, second]);
    let mut ran: Vec<usize> = Vec::new();
    for n in &out.notifications {
        ran.push(n.id);
        if s.callback(n.id) == Some(&"writes b") {
            let nested = s.set("b", v(2));
            assert!(nested.changed);
            assert_eq!(ids(&nested.notifications), vec![inner]);
        }
    }
    assert_eq!(ran, vec![outer, second]);
    assert_eq!(s.get("a"), Some(v(1)));
    assert_eq!(s.get("b"), Some(v(2)));
}
