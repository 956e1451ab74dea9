use vstd::prelude::*;

verus! {

/// The identity of an externally owned value. Two handles are equal exactly
/// when they stand for the same value; the store never looks inside it.
#[derive(Clone, Copy, Debug, PartialEq, Eq, Structural)]
pub struct ValueRef {
    pub id: u64,
}

impl ValueRef {
    pub fn new(id: u64) -> (r: ValueRef)
        ensures
            r.id == id,
    {
        ValueRef { id }
    }
}

/// One callback to run after a write: the subscription and the value now
/// committed under the key it watches.
#[derive(Clone, Copy, Debug, PartialEq, Eq, Structural)]
pub struct Notification {
    pub id: usize,
    pub value: ValueRef,
}

} // verus!
