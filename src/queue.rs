use vstd::prelude::*;

use ringbuf::ring_buffer::RbBase;
use ringbuf::Rb;

verus! {

/// A bounded first-in first-out queue of samples backed by a heap ring buffer.
#[verifier::external_body]
pub struct SampleQueue {
    ring: ringbuf::HeapRb<i32>,
}

/// The samples a queue holds, oldest first.
pub uninterp spec fn queue_items(q: SampleQueue) -> Seq<i32>;

/// The number of samples a queue can hold, fixed when it was made.
pub uninterp spec fn queue_capacity(q: SampleQueue) -> nat;

/// Contents after offering `x` to a queue of the given capacity: appended if
/// there is room, otherwise unchanged.
pub open spec fn after_push(items: Seq<i32>, capacity: nat, x: i32) -> Seq<i32> {
    if items.len() < capacity {
        items.push(x)
    } else {
        items
    }
}

/// What a pop hands out: the oldest sample, if any.
pub open spec fn front(items: Seq<i32>) -> Option<i32> {
    if items.len() == 0 {
        None
    } else {
        Some(items[0])
    }
}

/// Contents after a pop: the oldest sample removed, if there was one.
pub open spec fn after_pop(items: Seq<i32>) -> Seq<i32> {
    if items.len() == 0 {
        items
    } else {
        items.drop_first()
    }
}

impl View for SampleQueue {
    type V = Seq<i32>;

    open spec fn view(&self) -> Seq<i32> {
        queue_items(*self)
    }
}

impl SampleQueue {
    pub open spec fn capacity_spec(&self) -> nat {
        queue_capacity(*self)
    }

    pub open spec fn wf(&self) -> bool {
        0 < self.capacity_spec() && self@.len() <= self.capacity_spec()
    }

    pub open spec fn is_full_spec(&self) -> bool {
        self@.len() == self.capacity_spec()
    }

    pub open spec fn is_empty_spec(&self) -> bool {
        self@.len() == 0
    }

    /// Relies on ringbuf's `HeapRb::new`: an empty ring with room for exactly
    /// `capacity` items (it panics on zero).
    #[verifier::external_body]
    pub fn new(capacity: usize) -> (r: SampleQueue)
        requires
            capacity > 0,
        ensures
            queue_items(r) == Seq::<i32>::empty(),
            queue_capacity(r) == capacity as nat,
    {
        SampleQueue { ring: ringbuf::HeapRb::new(capacity) }
    }

    /// Relies on ringbuf's `Rb::capacity`: the fixed capacity.
    #[verifier::external_body]
    pub fn capacity(&self) -> (r: usize)
        ensures
            r as nat == queue_capacity(*self),
    {
        self.ring.capacity()
    }

    /// Relies on ringbuf's `Rb::len`: the number of items stored.
    #[verifier::external_body]
    pub fn len(&self) -> (r: usize)
        ensures
            r as nat == queue_items(*self).len(),
            r as nat <= queue_capacity(*self),
    {
        self.ring.len()
    }

    /// Relies on ringbuf's `RbBase::is_full`: no vacant place is left.
    #[verifier::external_body]
    pub fn is_full(&self) -> (r: bool)
        ensures
            r == (queue_items(*self).len() == queue_capacity(*self)),
    {
        self.ring.is_full()
    }

    /// Whether no sample is queued.
    pub fn is_empty(&self) -> (r: bool)
        ensures
            r == self.is_empty_spec(),
    {
        self.len() == 0
    }

    /// Relies on ringbuf's `Rb::push`: appends at the back, or refuses the item
    /// and leaves the ring unchanged when it is full. Returns whether it was
    /// appended.
    #[verifier::external_body]
    pub fn push(&mut self, x: i32) -> (r: bool)
        ensures
            queue_capacity(*final(self)) == queue_capacity(*old(self)),
            queue_items(*final(self)) == after_push(queue_items(*old(self)), queue_capacity(*old(self)), x),
            r == (queue_items(*old(self)).len() < queue_capacity(*old(self))),
    {
        self.ring.push(x).is_ok()
    }

    /// Relies on ringbuf's `Rb::pop`: removes and returns the oldest item, or
    /// `None` when the ring is empty.
    #[verifier::external_body]
    pub fn pop(&mut self) -> (r: Option<i32>)
        ensures
            queue_capacity(*final(self)) == queue_capacity(*old(self)),
            r == front(queue_items(*old(self))),
            queue_items(*final(self)) == after_pop(queue_items(*old(self))),
    {
        self.ring.pop()
    }
}

/// A queue with room for at least one sample is never full and empty at once.
pub proof fn lemma_never_full_and_empty(q: SampleQueue)
    requires
        q.wf(),
    ensures
        !(q.is_full_spec() && q.is_empty_spec()),
{
}

/// A sample pushed into an empty queue is the one the next pop returns, and that
/// pop leaves the queue empty again.
pub proof fn lemma_pop_after_push(items: Seq<i32>, capacity: nat, x: i32)
    requires
        items.len() == 0,
        capacity > 0,
    ensures
        front(after_push(items, capacity, x)) == Some(x),
        after_pop(after_push(items, capacity, x)) == items,
{
    assert(after_push(items, capacity, x) =~= seq![x]);
    assert(seq![x].drop_first() =~= items);
}

/// Popping an empty queue returns nothing and leaves the queue as it was.
pub proof fn lemma_pop_empty_unchanged(items: Seq<i32>)
    requires
        items.len() == 0,
    ensures
        front(items) == None::<i32>,
        after_pop(items) == items,
{
}

/// The producing half of a queue shared with a consumer on another thread.
#[verifier::external_body]
pub struct SampleProducer {
    inner: ringbuf::HeapProducer<i32>,
}

/// The consuming half of a queue shared with a producer on another thread.
#[verifier::external_body]
pub struct SampleConsumer {
    inner: ringbuf::HeapConsumer<i32>,
}

/// The number of samples the shared queue behind a producer can hold.
pub uninterp spec fn producer_capacity(p: SampleProducer) -> nat;

/// Relies on ringbuf's `HeapRb::new` and `SharedRb::split`: an empty ring with
/// room for `capacity` items, split into its two halves.
#[verifier::external_body]
pub fn split_queue(capacity: usize) -> (r: (SampleProducer, SampleConsumer))
    requires
        capacity > 0,
    ensures
        producer_capacity(r.0) == capacity as nat,
{
    let (inner_p, inner_c) = ringbuf::HeapRb::<i32>::new(capacity).split();
    (SampleProducer { inner: inner_p }, SampleConsumer { inner: inner_c })
}

impl SampleProducer {
    /// Relies on ringbuf's `Producer::capacity`: the fixed capacity.
    #[verifier::external_body]
    pub fn capacity(&self) -> (r: usize)
        ensures
            r as nat == producer_capacity(*self),
    {
        self.inner.capacity()
    }

    /// Relies on ringbuf's `Producer::is_full`. The consumer may pop at any
    /// moment, so nothing is promised of the answer.
    #[verifier::external_body]
    pub fn is_full(&self) -> (r: bool) {
        self.inner.is_full()
    }

    /// Relies on ringbuf's `Producer::push`: returns whether the sample was
    /// appended. The consumer may pop at any moment, so nothing is promised of
    /// the answer; the capacity stays.
    #[verifier::external_body]
    pub fn push(&mut self, x: i32) -> (r: bool)
        ensures
            producer_capacity(*final(self)) == producer_capacity(*old(self)),
    {
        self.inner.push(x).is_ok()
    }
}

impl SampleConsumer {
    /// Relies on ringbuf's `Consumer::pop`: the oldest sample, or `None` when
    /// the ring is empty. The producer may push at any moment, so nothing is
    /// promised of the answer.
    #[verifier::external_body]
    pub fn pop(&mut self) -> (r: Option<i32>) {
        self.inner.pop()
    }
}

} // verus!
