//! Bounded sample queue backed by a `ringbuf` ring buffer.
//!
//! The adapter owns both ends of each ring, so unlike in the split
//! producer/consumer use the occupancy the owner observes is exact.

use vstd::prelude::*;

use ringbuf::traits::Consumer;
use ringbuf::traits::Observer;
use ringbuf::traits::Producer;

verus! {

/// A bounded queue of samples, oldest first, with a fixed capacity.
#[verifier::external_body]
pub struct SampleQueue {
    rb: ringbuf::HeapRb<i32>,
}

/// The samples the queue currently holds, oldest first.
pub uninterp spec fn queue_items(q: SampleQueue) -> Seq<i32>;

/// The capacity the queue was created with.
pub uninterp spec fn queue_capacity(q: SampleQueue) -> nat;

/// One element appended if there is room, the queue unchanged otherwise.
pub open spec fn push_if_room(items: Seq<i32>, cap: nat, x: i32) -> Seq<i32> {
    if items.len() < cap {
        items.push(x)
    } else {
        items
    }
}

/// Every element of `xs` offered to the queue in order, each one dropped if
/// the queue is full at its turn.
pub open spec fn enqueue_all(items: Seq<i32>, cap: nat, xs: Seq<i32>) -> Seq<i32>
    decreases xs.len(),
{
    if xs.len() == 0 {
        items
    } else {
        push_if_room(enqueue_all(items, cap, xs.drop_last()), cap, xs.last())
    }
}

/// Appending one more sample to an offer batch is one more bounded push.
pub proof fn lemma_enqueue_snoc(items: Seq<i32>, cap: nat, xs: Seq<i32>, x: i32)
    ensures
        enqueue_all(items, cap, xs.push(x)) == push_if_room(enqueue_all(items, cap, xs), cap, x),
{
    assert(xs.push(x).drop_last() =~= xs);
    assert(xs.push(x).last() == x);
}

/// Relies on `ringbuf::HeapRb::new`: a fresh ring buffer is empty and has
/// exactly the requested capacity. It panics when the capacity is zero or
/// allocation fails, so a zero capacity is ruled out here.
#[verifier::external_body]
pub(crate) fn new_queue(capacity: usize) -> (r: SampleQueue)
    requires
        capacity >= 1,
    ensures
        queue_items(r) == Seq::<i32>::empty(),
        queue_capacity(r) == capacity,
{
    SampleQueue { rb: ringbuf::HeapRb::new(capacity) }
}

/// Relies on ringbuf's `Producer::try_push`: the sample is appended at the
/// back when the ring has room and dropped (handed back) when it is full.
#[verifier::external_body]
pub(crate) fn queue_push(q: &mut SampleQueue, x: i32)
    ensures
        queue_capacity(*final(q)) == queue_capacity(*old(q)),
        queue_items(*final(q)) == push_if_room(
            queue_items(*old(q)),
            queue_capacity(*old(q)),
            x,
        ),
{
    let _ = q.rb.try_push(x);
}

/// Relies on ringbuf's `Consumer::try_pop`: removes and returns the oldest
/// sample, `None` when the ring is empty.
#[verifier::external_body]
pub(crate) fn queue_pop(q: &mut SampleQueue) -> (r: Option<i32>)
    ensures
        queue_capacity(*final(q)) == queue_capacity(*old(q)),
        queue_items(*old(q)).len() == 0 ==> r is None && queue_items(*final(q))
            == queue_items(*old(q)),
        queue_items(*old(q)).len() > 0 ==> r == Some(queue_items(*old(q))[0]) && queue_items(
            *final(q),
        ) == queue_items(*old(q)).subrange(1, queue_items(*old(q)).len() as int),
{
    q.rb.try_pop()
}

/// Relies on ringbuf's `Observer::occupied_len`: with both ends owned by one
/// caller, the count of stored samples is exact.
#[verifier::external_body]
pub(crate) fn queue_len(q: &SampleQueue) -> (r: usize)
    ensures
        r == queue_items(*q).len(),
{
    q.rb.occupied_len()
}

} // verus!
