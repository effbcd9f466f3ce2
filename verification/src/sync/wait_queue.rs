//! A queue whose readers may ask to wait for data.
//!
//! The queue decides; it does not suspend anybody. A receive that would
//! have to wait says so and leaves everything as it was: the caller puts
//! the context to sleep and asks again once a send has been made.

use std::collections::VecDeque;
use vstd::prelude::*;

verus! {

/// What a receive came to.
#[derive(Copy, Clone, Debug, PartialEq, Eq, Structural)]
pub enum Received {
    /// That many elements were moved to the front of the buffer.
    Count(usize),
    /// Nothing was there and the caller asked to wait: it suspends until
    /// the next send and receives again.
    Suspend,
}

/// Whether a receive must wait: the caller asked for it, has room for an
/// element, and there is none.
pub open spec fn must_suspend<T>(queue: Seq<T>, capacity: nat, block: bool) -> bool {
    block && capacity > 0 && queue.len() == 0
}

/// Number of elements that a receive which need not wait moves: all there
/// are, up to the room in the buffer.
pub open spec fn received_count<T>(queue: Seq<T>, capacity: nat) -> nat {
    if queue.len() <= capacity {
        queue.len()
    } else {
        capacity
    }
}

/// The buffer after a receive which need not wait: the oldest elements of
/// the queue, oldest first, and behind them what the buffer held.
pub open spec fn received_into<T>(queue: Seq<T>, buffer: Seq<T>) -> Seq<T> {
    let count = received_count(queue, buffer.len()) as int;
    queue.take(count) + buffer.skip(count)
}

/// The queue after a receive which need not wait.
pub open spec fn left_after<T>(queue: Seq<T>, capacity: nat) -> Seq<T> {
    queue.skip(received_count(queue, capacity) as int)
}

/// A receive neither drops nor reorders: what it moved to the buffer,
/// followed by what it left in the queue, is the queue as it was.
pub proof fn lemma_receive_keeps_order<T>(queue: Seq<T>, buffer: Seq<T>)
    ensures
        received_into(queue, buffer).len() == buffer.len(),
        received_into(queue, buffer).take(received_count(queue, buffer.len()) as int) + left_after(
            queue,
            buffer.len(),
        ) == queue,
{
    let count = received_count(queue, buffer.len()) as int;
    assert(received_into(queue, buffer).take(count) =~= queue.take(count));
    assert(queue.take(count) + queue.skip(count) =~= queue);
}

/// Two sends to an empty queue, then a receive with room for two: the
/// receive need not wait, whether asked to or not, and moves the two
/// elements in the order they were sent, which empties the queue.
pub proof fn lemma_two_sends_received_in_order<T>(first: T, second: T, buffer: Seq<T>, block: bool)
    requires
        buffer.len() >= 2,
    ensures
        ({
            let queue = Seq::<T>::empty().push(first).push(second);
            &&& !must_suspend(queue, buffer.len(), block)
            &&& received_count(queue, buffer.len()) == 2
            &&& received_into(queue, buffer) == seq![first, second] + buffer.skip(2)
            &&& left_after(queue, buffer.len()) == Seq::<T>::empty()
        }),
{
    let queue = Seq::<T>::empty().push(first).push(second);
    assert(queue.take(2) =~= seq![first, second]);
    assert(queue.skip(2) =~= Seq::<T>::empty());
}

/// A receive from an empty queue that was not asked to wait does not
/// suspend: it moves nothing and leaves buffer and queue as they were.
pub proof fn lemma_empty_receive_returns_at_once<T>(buffer: Seq<T>)
    ensures
        ({
            let queue = Seq::<T>::empty();
            &&& !must_suspend(queue, buffer.len(), false)
            &&& received_count(queue, buffer.len()) == 0
            &&& received_into(queue, buffer) == buffer
            &&& left_after(queue, buffer.len()) == queue
        }),
{
    let queue = Seq::<T>::empty();
    assert(received_into(queue, buffer) =~= buffer);
    assert(left_after(queue, buffer.len()) =~= queue);
}

/// A receive from an empty queue that was asked to wait suspends, and
/// after the next send it does not suspend again: it then moves at least
/// one element, the one that was sent.
pub proof fn lemma_send_ends_the_wait<T>(value: T, buffer: Seq<T>)
    requires
        buffer.len() >= 1,
    ensures
        ({
            let queue = Seq::<T>::empty();
            let after = queue.push(value);
            &&& must_suspend(queue, buffer.len(), true)
            &&& !must_suspend(after, buffer.len(), true)
            &&& received_count(after, buffer.len()) == 1
            &&& received_into(after, buffer)[0] == value
        }),
{
}

/// A queue that gives its elements out in the order they came in.
pub struct WaitQueue<T> {
    inner: VecDeque<T>,
}

impl<T> View for WaitQueue<T> {
    type V = Seq<T>;

    /// The waiting elements, oldest first.
    closed spec fn view(&self) -> Seq<T> {
        self.inner@
    }
}

impl<T> WaitQueue<T> {
    /// An empty queue.
    pub fn new() -> (queue: WaitQueue<T>)
        ensures
            queue@ == Seq::<T>::empty(),
    {
        WaitQueue { inner: VecDeque::new() }
    }

    /// Whether nothing waits.
    pub fn is_empty(&self) -> (empty: bool)
        ensures
            empty == (self@.len() == 0),
    {
        self.inner.len() == 0
    }

    /// Number of waiting elements.
    pub fn len(&self) -> (len: usize)
        ensures
            len == self@.len(),
    {
        self.inner.len()
    }

    /// Appends `value` and returns how many elements wait now.
    pub fn send(&mut self, value: T) -> (len: usize)
        ensures
            final(self)@ == old(self)@.push(value),
            len == old(self)@.len() + 1,
    {
        self.inner.push_back(value);
        self.inner.len()
    }

    /// Moves the oldest elements to the front of `buf`, as many as there
    /// are and `buf` has room for, and returns their number. With `block`,
    /// an empty queue and room in `buf`, nothing is touched and the caller
    /// is told to suspend.
    pub fn receive_into(&mut self, buf: &mut [T], block: bool) -> (received: Received)
        ensures
            must_suspend(old(self)@, old(buf)@.len(), block) ==> {
                &&& received == Received::Suspend
                &&& final(self)@ == old(self)@
                &&& final(buf)@ == old(buf)@
            },
            !must_suspend(old(self)@, old(buf)@.len(), block) ==> {
                &&& received == Received::Count(
                    received_count(old(self)@, old(buf)@.len()) as usize,
                )
                &&& final(self)@ == left_after(old(self)@, old(buf)@.len())
                &&& final(buf)@ == received_into(old(self)@, old(buf)@)
            },
    {
        if block && buf.len() > 0 && self.inner.len() == 0 {
            return Received::Suspend;
        }
        let mut i: usize = 0;
        while i < buf.len() && self.inner.len() > 0
            invariant
                buf@.len() == old(buf)@.len(),
                i <= buf@.len(),
                i <= old(self)@.len(),
                self@ == old(self)@.skip(i as int),
                buf@ == old(self)@.take(i as int) + old(buf)@.skip(i as int),
            decreases buf@.len() - i,
        {
            if let Some(value) = self.inner.pop_front() {
                buf[i] = value;
                i += 1;
            }
        }
        Received::Count(i)
    }
}

} // verus!
