//! Bounded FIFO buffers with a drop-oldest overflow policy.
//!
//! A push never blocks and never grows the buffer past its capacity: once
//! full, the single oldest entry is evicted to admit the new one, favoring
//! recency over completeness.

use std::collections::VecDeque;
use vstd::prelude::*;

verus! {

/// What a push leaves in a buffer of capacity `cap`: the new entry is
/// appended, and the oldest entry is evicted first when the buffer is full.
pub open spec fn push_evict<T>(s: Seq<T>, t: T, cap: nat) -> Seq<T> {
    if s.len() < cap {
        s.push(t)
    } else {
        s.drop_first().push(t)
    }
}

/// A bounded FIFO buffer that drops its oldest entry on overflow.
#[derive(Clone, Debug)]
pub struct BoundedQueue<T> {
    items: VecDeque<T>,
    capacity: usize,
}

impl<T> View for BoundedQueue<T> {
    type V = Seq<T>;

    closed spec fn view(&self) -> Seq<T> {
        self.items@
    }
}

impl<T> BoundedQueue<T> {
    /// The fixed number of entries the buffer can hold.
    pub closed spec fn spec_capacity(&self) -> nat {
        self.capacity as nat
    }

    /// The buffer never holds more than its capacity, and the capacity is
    /// at least one, so a push always has room for the new entry.
    pub open spec fn wf(&self) -> bool {
        &&& self.spec_capacity() >= 1
        &&& self@.len() <= self.spec_capacity()
    }

    /// An empty buffer of the given capacity.
    pub fn new(capacity: usize) -> (q: BoundedQueue<T>)
        requires
            capacity >= 1,
        ensures
            q.wf(),
            q.spec_capacity() == capacity,
            q@ == Seq::<T>::empty(),
    {
        BoundedQueue { items: VecDeque::new(), capacity }
    }

    /// Appends `t`, evicting the oldest entry first when the buffer is full.
    pub fn push(&mut self, t: T)
        requires
            old(self).wf(),
        ensures
            final(self).wf(),
            final(self).spec_capacity() == old(self).spec_capacity(),
            final(self)@ == push_evict(old(self)@, t, old(self).spec_capacity()),
    {
        if self.items.len() == self.capacity {
            let _ = self.items.pop_front();
        }
        self.items.push_back(t);
    }

    /// Removes and returns all queued entries in insertion order, leaving
    /// the buffer empty.
    pub fn drain(&mut self) -> (r: Vec<T>)
        ensures
            old(self).wf() ==> final(self).wf(),
            final(self).spec_capacity() == old(self).spec_capacity(),
            r@ == old(self)@,
            final(self)@ == Seq::<T>::empty(),
    {
        let mut r: Vec<T> = Vec::new();
        while self.items.len() != 0
            invariant
                self.capacity == old(self).capacity,
                r@ + self.items@ == old(self).items@,
            decreases self.items@.len(),
        {
            match self.items.pop_front() {
                Some(t) => {
                    r.push(t);
                },
                None => {},
            }
        }
        proof {
            assert(r@ =~= old(self)@);
        }
        r
    }

    /// How many entries are queued.
    pub fn len(&self) -> (n: usize)
        ensures
            n == self@.len(),
    {
        self.items.len()
    }
}

} // verus!
