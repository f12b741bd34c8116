//! The bounded concurrent queue of `crossbeam_queue`, shared between
//! threads. Other threads push and pop concurrently, so what a pop returns
//! is not determined by this thread's calls.
use crossbeam_queue::ArrayQueue;
use std::sync::Arc;
use vstd::prelude::*;

verus! {

#[verifier::external_type_specification]
#[verifier::external_body]
#[verifier::reject_recursive_types(T)]
pub struct ExArrayQueue<T>(ArrayQueue<T>);

/// `ArrayQueue::new`: an empty bounded queue. It panics for a zero capacity
/// and for one whose successor does not round up to a power of two in 64
/// bits, which `requires` excludes.
#[verifier::external_body]
pub(crate) fn queue_new<T>(capacity: usize) -> (q: ArrayQueue<T>)
    requires
        0 < capacity,
        capacity < 0x8000_0000_0000_0000,
{
    ArrayQueue::new(capacity)
}

/// `ArrayQueue::push`: appends `value` unless the queue is full, in which
/// case `value` is handed back unchanged.
#[verifier::external_body]
pub(crate) fn queue_push<T>(q: &ArrayQueue<T>, value: T) -> (r: Result<(), T>)
    ensures
        r matches Err(v) ==> v == value,
{
    q.push(value)
}

/// `ArrayQueue::force_push`: appends `value`, replacing and returning the
/// oldest element when the queue is full. Which element that is depends on
/// other threads, so nothing is stated of it.
#[verifier::external_body]
pub(crate) fn queue_force_push<T>(q: &ArrayQueue<T>, value: T) -> (r: Option<T>) {
    q.force_push(value)
}

/// `ArrayQueue::pop`: the oldest element, if any. Other threads push and pop
/// concurrently, so nothing is stated of the result.
#[verifier::external_body]
pub(crate) fn queue_pop<T>(q: &ArrayQueue<T>) -> (r: Option<T>) {
    q.pop()
}

/// `Arc::clone`: another handle to the same value.
#[verifier::external_body]
pub(crate) fn share<T>(a: &Arc<T>) -> (r: Arc<T>)
    ensures
        r == *a,
{
    a.clone()
}

} // verus!
