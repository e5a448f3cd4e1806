//! The queue of scancodes between the keyboard interrupt and the task that
//! decodes them: a bounded first-in first-out queue that drops a scancode
//! when it is full.
use vstd::prelude::*;
use crossbeam_queue::ArrayQueue;

verus! {

/// The bounded queue of `crossbeam_queue`.
#[verifier::external_type_specification]
#[verifier::external_body]
#[verifier::reject_recursive_types(T)]
pub struct ExArrayQueue<T>(ArrayQueue<T>);

/// The scancodes a queue holds, oldest first.
pub uninterp spec fn scancode_queue_contents(q: ArrayQueue<u8>) -> Seq<u8>;

/// The capacity a queue was made with.
pub uninterp spec fn scancode_queue_capacity(q: ArrayQueue<u8>) -> nat;

/// Calls `ArrayQueue::new`, which makes an empty queue of the given
/// capacity; it panics for a capacity of zero or one too large to allocate,
/// which the precondition leaves out.
#[verifier::external_body]
fn new_queue(cap: usize) -> (q: ArrayQueue<u8>)
    requires
        0 < cap <= 4096,
    ensures
        scancode_queue_contents(q) == Seq::<u8>::empty(),
        scancode_queue_capacity(q) == cap,
{
    ArrayQueue::new(cap)
}

/// Calls `ArrayQueue::push_mut`: a value joins the back of the queue unless
/// the queue is full, in which case it is handed back as the error.
#[verifier::external_body]
fn queue_push(q: &mut ArrayQueue<u8>, value: u8) -> (r: Result<(), u8>)
    ensures
        scancode_queue_capacity(*final(q)) == scancode_queue_capacity(*old(q)),
        scancode_queue_contents(*old(q)).len() < scancode_queue_capacity(*old(q)) ==> r is Ok
            && scancode_queue_contents(*final(q)) == scancode_queue_contents(*old(q)).push(value),
        scancode_queue_contents(*old(q)).len() >= scancode_queue_capacity(*old(q)) ==> (r matches Err(v) && v == value)
            && scancode_queue_contents(*final(q)) == scancode_queue_contents(*old(q)),
{
    q.push_mut(value)
}

/// Calls `ArrayQueue::pop_mut`: the value at the front of the queue leaves
/// it; `None` for an empty queue.
#[verifier::external_body]
fn queue_pop(q: &mut ArrayQueue<u8>) -> (r: Option<u8>)
    ensures
        scancode_queue_capacity(*final(q)) == scancode_queue_capacity(*old(q)),
        scancode_queue_contents(*old(q)).len() == 0 ==> r is None && scancode_queue_contents(*final(q))
            == scancode_queue_contents(*old(q)),
        scancode_queue_contents(*old(q)).len() > 0 ==> r == Some(scancode_queue_contents(*old(q))[0])
            && scancode_queue_contents(*final(q)) == scancode_queue_contents(*old(q)).drop_first(),
{
    q.pop_mut()
}

/// Number of scancodes the queue holds before it drops input.
pub const SCANCODE_QUEUE_CAPACITY: usize = 100;

/// The queue after a scancode arrives: it joins the back unless the queue
/// is full.
pub open spec fn queue_after_add(c: Seq<u8>, cap: nat, scancode: u8) -> Seq<u8> {
    if c.len() < cap {
        c.push(scancode)
    } else {
        c
    }
}

/// The stream of scancodes from the keyboard interrupt.
pub struct ScancodeStream {
    queue: ArrayQueue<u8>,
}

impl ScancodeStream {
    /// The scancodes waiting, oldest first.
    pub closed spec fn pending(&self) -> Seq<u8> {
        scancode_queue_contents(self.queue)
    }

    /// How many scancodes may wait at once.
    pub closed spec fn capacity(&self) -> nat {
        scancode_queue_capacity(self.queue)
    }

    /// A stream with no scancode waiting and room for
    /// `SCANCODE_QUEUE_CAPACITY` of them.
    pub fn new() -> (r: Self)
        ensures
            r.pending() == Seq::<u8>::empty(),
            r.capacity() == SCANCODE_QUEUE_CAPACITY,
    {
        ScancodeStream { queue: new_queue(SCANCODE_QUEUE_CAPACITY) }
    }

    /// Queues a scancode from the keyboard interrupt; returns whether it was
    /// queued (when the queue is full it is dropped, and the caller warns).
    pub fn add_scancode(&mut self, scancode: u8) -> (r: bool)
        ensures
            r == (old(self).pending().len() < old(self).capacity()),
            final(self).pending() == queue_after_add(old(self).pending(), old(self).capacity(), scancode),
            final(self).capacity() == old(self).capacity(),
    {
        match queue_push(&mut self.queue, scancode) {
            Ok(()) => true,
            Err(_) => false,
        }
    }

    /// Takes the oldest waiting scancode, if any.
    pub fn next_scancode(&mut self) -> (r: Option<u8>)
        ensures
            old(self).pending().len() == 0 ==> r is None && final(self).pending() == old(self).pending(),
            old(self).pending().len() > 0 ==> r == Some(old(self).pending()[0]) && final(self).pending()
                == old(self).pending().drop_first(),
            final(self).capacity() == old(self).capacity(),
    {
        queue_pop(&mut self.queue)
    }
}

impl Default for ScancodeStream {
    fn default() -> (r: Self)
        ensures
            r.pending() == Seq::<u8>::empty(),
            r.capacity() == SCANCODE_QUEUE_CAPACITY,
    {
        ScancodeStream::new()
    }
}

/// The queue after the given scancodes arrive in order.
pub open spec fn queue_after_adds(c: Seq<u8>, cap: nat, codes: Seq<u8>) -> Seq<u8>
    decreases codes.len(),
{
    if codes.len() == 0 {
        c
    } else {
        queue_after_add(queue_after_adds(c, cap, codes.drop_last()), cap, codes.last())
    }
}

/// Scancodes are neither lost nor reordered while the queue has room: the
/// scancodes that arrive at a queue with room for all of them wait behind
/// the ones already there, in the order they arrived.
pub proof fn lemma_scancodes_in_order(c: Seq<u8>, cap: nat, codes: Seq<u8>)
    requires
        c.len() + codes.len() <= cap,
    ensures
        queue_after_adds(c, cap, codes) == c + codes,
    decreases codes.len(),
{
    if codes.len() > 0 {
        lemma_scancodes_in_order(c, cap, codes.drop_last());
        assert(c + codes.drop_last() + seq![codes.last()] =~= c + codes);
    } else {
        assert(c + codes =~= c);
    }
}

/// A full queue drops what arrives: the queue is unchanged.
pub proof fn lemma_full_queue_drops(c: Seq<u8>, cap: nat, codes: Seq<u8>)
    requires
        c.len() >= cap,
    ensures
        queue_after_adds(c, cap, codes) == c,
    decreases codes.len(),
{
    if codes.len() > 0 {
        lemma_full_queue_drops(c, cap, codes.drop_last());
    }
}

} // verus!
