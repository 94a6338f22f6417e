//! The bounded lock-free queues shared between the executor, its producers and
//! interrupt handlers.
//!
//! Producers push from any context while the executor pops, so nothing can be
//! known of what a pop returns: code that pops is correct for every outcome.
use std::sync::Arc;
use vstd::prelude::*;

verus! {

#[verifier::external_type_specification]
#[verifier::external_body]
#[verifier::reject_recursive_types(T)]
pub struct ExArrayQueue<T>(crossbeam_queue::ArrayQueue<T>);

/// Relies on `crossbeam_queue::ArrayQueue::new`, which panics on a zero
/// capacity.
#[verifier::external_body]
pub(crate) fn array_new<T>(cap: usize) -> (q: crossbeam_queue::ArrayQueue<T>)
    requires
        cap > 0,
{
    crossbeam_queue::ArrayQueue::new(cap)
}

/// Relies on `crossbeam_queue::ArrayQueue::push`: a full queue hands the value
/// back unchanged.
#[verifier::external_body]
pub(crate) fn array_push<T>(q: &crossbeam_queue::ArrayQueue<T>, value: T) -> (r: Result<(), T>)
    ensures
        r matches Err(v) ==> v == value,
{
    q.push(value).map_err(|e| e.0)
}

/// Relies on `crossbeam_queue::ArrayQueue::pop`: the oldest value, if any.
#[verifier::external_body]
pub(crate) fn array_pop<T>(q: &crossbeam_queue::ArrayQueue<T>) -> (r: Option<T>) {
    q.pop().ok()
}

/// Relies on `crossbeam_queue::ArrayQueue::len`: the number of queued values
/// at some moment during the call.
#[verifier::external_body]
pub(crate) fn array_len<T>(q: &crossbeam_queue::ArrayQueue<T>) -> (r: usize) {
    q.len()
}

/// Relies on `crossbeam_queue::ArrayQueue::is_empty`.
#[verifier::external_body]
pub(crate) fn array_is_empty<T>(q: &crossbeam_queue::ArrayQueue<T>) -> (r: bool) {
    q.is_empty()
}

/// Relies on `Arc::clone`: another handle on the same value.
#[verifier::external_body]
pub(crate) fn share<T>(a: &Arc<T>) -> (r: Arc<T>) {
    Arc::clone(a)
}

} // verus!
