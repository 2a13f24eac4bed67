//! A bounded first-in-first-out buffer: the emission side of a streaming
//! call parks items here, and refuses new ones once the capacity is
//! reached, so production blocks instead of buffering without bound.

use vstd::prelude::*;

verus! {

/// A queue that holds at most `capacity` items. The producer calls
/// `try_push` and, on `Err`, gets the item back to retry once the
/// consumer has drained something: that refusal is the backpressure.
pub struct BoundedQueue<T> {
    pub items: Vec<T>,
    pub capacity: usize,
}

impl<T> BoundedQueue<T> {
    pub open spec fn wf(self) -> bool {
        self.items@.len() <= self.capacity && self.capacity >= 1
    }

    pub fn new(capacity: usize) -> (q: Self)
        requires
            capacity >= 1,
        ensures
            q.wf(),
            q.items@ == Seq::<T>::empty(),
            q.capacity == capacity,
    {
        BoundedQueue { items: Vec::new(), capacity }
    }

    pub fn len(&self) -> (n: usize)
        ensures
            n == self.items@.len(),
    {
        self.items.len()
    }

    /// Appends the item when there is room, and hands it back unchanged
    /// when the queue is full.
    pub fn try_push(&mut self, item: T) -> (r: Result<(), T>)
        requires
            old(self).wf(),
        ensures
            final(self).wf(),
            final(self).capacity == old(self).capacity,
            old(self).items@.len() < old(self).capacity ==> r is Ok && final(self).items@ == old(self).items@.push(item),
            old(self).items@.len() >= old(self).capacity ==> r == Err::<(), T>(item) && final(self).items@ == old(self).items@,
    {
        if self.items.len() < self.capacity {
            self.items.push(item);
            Ok(())
        } else {
            Err(item)
        }
    }

    /// Removes and returns the oldest item, if any.
    pub fn pop(&mut self) -> (r: Option<T>)
        requires
            old(self).wf(),
        ensures
            final(self).wf(),
            final(self).capacity == old(self).capacity,
            old(self).items@.len() == 0 ==> r is None && final(self).items@ == old(self).items@,
            old(self).items@.len() > 0 ==> r == Some(old(self).items@[0]) && final(self).items@
                == old(self).items@.drop_first(),
    {
        if self.items.len() > 0 {
            let item = self.items.remove(0);
            proof {
                assert(self.items@ =~= old(self).items@.drop_first());
            }
            Some(item)
        } else {
            None
        }
    }
}

} // verus!
