//! The realtime queues between the control threads and the audio thread.
//!
//! The queues are `rtrb` single-producer single-consumer ring buffers. The other end of
//! a queue lives on another thread, so what a queue holds can change between two calls
//! made here: the items below promise only what holds of every outcome.

use vstd::prelude::*;

verus! {

/// The receiving end of a realtime queue.
pub type RtConsumer<T> = rtrb::Consumer<T>;

/// The sending end of a realtime queue.
pub type RtProducer<T> = rtrb::Producer<T>;

/// `rtrb::Consumer`, the reading end of an `rtrb` ring buffer, carried as an opaque value.
#[verifier::external_type_specification]
#[verifier::external_body]
#[verifier::reject_recursive_types(T)]
pub struct ExRtrbConsumer<T>(rtrb::Consumer<T>);

/// `rtrb::Producer`, the writing end of an `rtrb` ring buffer, carried as an opaque value.
#[verifier::external_type_specification]
#[verifier::external_body]
#[verifier::reject_recursive_types(T)]
pub struct ExRtrbProducer<T>(rtrb::Producer<T>);

/// Calls `rtrb::Consumer::pop`: the oldest queued item, or `None` when the queue is empty.
/// Nothing is stated of the result: the producer fills the queue from another thread.
#[verifier::external_body]
pub(crate) fn pop_item<T>(rx: &mut rtrb::Consumer<T>) -> (r: Option<T>) {
    match rx.pop() {
        Ok(value) => Some(value),
        Err(rtrb::PopError::Empty) => None,
    }
}

/// Calls `rtrb::Producer::push`. The claim: when the queue is full, the item comes back
/// unchanged in `Err`; whether it is full depends on the consumer's thread and is not stated.
#[verifier::external_body]
pub(crate) fn push_item<T>(tx: &mut rtrb::Producer<T>, value: T) -> (r: Result<(), T>)
    ensures
        r matches Err(v) ==> v == value,
{
    match tx.push(value) {
        Ok(()) => Ok(()),
        Err(rtrb::PushError::Full(v)) => Err(v),
    }
}

/// Calls `Vec::capacity`: how many items the vector can hold without reallocating, which
/// std documents to be at least its length. What the allocator gave is not stated further.
#[verifier::external_body]
pub(crate) fn vec_capacity<T>(v: &Vec<T>) -> (r: usize)
    ensures
        r >= v.len(),
{
    v.capacity()
}

} // verus!
