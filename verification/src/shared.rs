//! Values that several owners share.
use std::sync::{Arc, RwLock};

use vstd::prelude::*;

verus! {

#[verifier::external_type_specification]
#[verifier::external_body]
#[verifier::reject_recursive_types(T)]
pub struct ExRwLock<T: ?Sized>(RwLock<T>);

/// Calls `Arc::clone`: the new pointer leads to the same value.
#[verifier::external_body]
pub(crate) fn share<T>(pointer: &Arc<T>) -> (other: Arc<T>)
    ensures
        other == *pointer,
{
    Arc::clone(pointer)
}

/// The value that a lock was made with. What it holds later is for those who share it to tell.
pub uninterp spec fn first_value(lock: RwLock<Option<bool>>) -> Option<bool>;

/// Calls `RwLock::new`: the lock is made with the given value.
#[verifier::external_body]
pub(crate) fn new_lock(value: Option<bool>) -> (lock: RwLock<Option<bool>>)
    ensures
        first_value(lock) == value,
{
    RwLock::new(value)
}

} // verus!
