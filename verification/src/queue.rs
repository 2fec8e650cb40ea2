//! Bridge channels between a packet source and the embedding network
//! stack: a bounded, lossy inbound event queue and an outbound command
//! queue.  The inbound queue is the one place where overload is
//! resolved, and it is resolved by dropping: offering an event to a
//! saturated queue returns at once, leaving the queue unchanged — the
//! capture path is never blocked to apply backpressure to the OS layer.

use vstd::prelude::*;

verus! {

/// A first-in-first-out queue with a fixed capacity.
pub struct BoundedQueue<T> {
    items: Vec<T>,
    capacity: usize,
}

impl<T> BoundedQueue<T> {
    /// The queued items, oldest first.
    pub closed spec fn contents(&self) -> Seq<T> {
        self.items@
    }

    /// The capacity the queue was created with.
    pub closed spec fn cap(&self) -> int {
        self.capacity as int
    }

    /// An empty queue holding at most `capacity` items.
    pub fn new(capacity: usize) -> (q: BoundedQueue<T>)
        ensures
            q.contents() == Seq::<T>::empty(),
            q.cap() == capacity as int,
    {
        BoundedQueue { items: Vec::new(), capacity }
    }

    /// How many items are queued.
    pub fn len(&self) -> (n: usize)
        ensures
            n == self.contents().len(),
    {
        self.items.len()
    }

    /// The capacity the queue was created with.
    pub fn capacity(&self) -> (c: usize)
        ensures
            c == self.cap(),
    {
        self.capacity
    }

    /// Offer one item without ever blocking.  If there is room the item
    /// is appended and `true` returned; if the queue is saturated the
    /// item is dropped, the queue is left exactly as it was, and
    /// `false` is returned — delivery under overload is best-effort by
    /// design.
    pub fn try_send(&mut self, item: T) -> (accepted: bool)
        ensures
            old(self).contents().len() < old(self).cap() ==> accepted && final(self).contents()
                == old(self).contents().push(item),
            old(self).contents().len() >= old(self).cap() ==> !accepted && final(self).contents()
                == old(self).contents(),
            final(self).cap() == old(self).cap(),
    {
        if self.items.len() < self.capacity {
            self.items.push(item);
            true
        } else {
            false
        }
    }

    /// Take the oldest item, if any.
    pub fn recv(&mut self) -> (r: Option<T>)
        ensures
            old(self).contents().len() == 0 ==> r is None && final(self).contents() == old(
                self,
            ).contents(),
            old(self).contents().len() > 0 ==> (r matches Some(x) && x == old(self).contents()[0]
                && final(self).contents() == old(self).contents().drop_first()),
            final(self).cap() == old(self).cap(),
    {
        if self.items.len() == 0 {
            None
        } else {
            let item = self.items.remove(0);
            proof {
                assert(self.items@ =~= old(self).items@.drop_first());
            }
            Some(item)
        }
    }
}

} // verus!
