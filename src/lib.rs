//! An observable key-value store. Keys are strings, values are opaque handles
//! compared by identity, and subscribers register a callback on one key. A
//! write commits first and then returns the callbacks it owes as a plan, so
//! callers run them with no part of the store borrowed.
use vstd::prelude::*;

pub mod dispatch;
pub mod laws;
pub mod model;
pub mod registry;
pub mod state;
pub mod store;
pub mod value;

verus! {

} // verus!
