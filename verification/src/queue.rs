use vstd::prelude::*;

use crate::frame::{frame_wf, Frame, FrameView};

verus! {

/// Bounded FIFO of frames. Insertion order is delivery order; nothing is
/// ever reordered or dropped once accepted.
pub struct FrameQueue {
    pub items: Vec<Frame>,
    pub capacity: usize,
}

impl View for FrameQueue {
    type V = Seq<FrameView>;

    open spec fn view(&self) -> Seq<FrameView> {
        self.items@.map_values(|f: Frame| f@)
    }
}

impl FrameQueue {
    /// Never over capacity, and every queued frame fits the wire format.
    pub open spec fn wf(self) -> bool {
        &&& self@.len() <= self.capacity
        &&& forall|i: int| 0 <= i < self@.len() ==> frame_wf(self@[i])
    }

    pub fn new(capacity: usize) -> (q: FrameQueue)
        ensures
            q.wf(),
            q@ == Seq::<FrameView>::empty(),
            q.capacity == capacity,
    {
        FrameQueue { items: Vec::new(), capacity }
    }

    pub fn len(&self) -> (n: usize)
        ensures
            n == self@.len(),
    {
        self.items.len()
    }

    /// Enqueue at the back; reports whether there was room.
    pub fn push(&mut self, f: Frame) -> (accepted: bool)
        requires
            old(self).wf(),
            frame_wf(f@),
        ensures
            final(self).wf(),
            final(self).capacity == old(self).capacity,
            accepted == (old(self)@.len() < old(self).capacity),
            accepted ==> final(self)@ == old(self)@.push(f@),
            !accepted ==> final(self)@ == old(self)@,
    {
        if self.items.len() < self.capacity {
            let ghost prev = self@;
            self.items.push(f);
            proof {
                assert(self@ =~= prev.push(f@));
            }
            true
        } else {
            false
        }
    }

    /// Dequeue at the front; `None` leaves the queue unchanged.
    pub fn pop(&mut self) -> (r: Option<Frame>)
        requires
            old(self).wf(),
        ensures
            final(self).wf(),
            final(self).capacity == old(self).capacity,
            old(self)@.len() == 0 ==> r is None && final(self)@ == old(self)@,
            old(self)@.len() > 0 ==> (r matches Some(f) && f@ == old(self)@.first()
                && final(self)@ == old(self)@.drop_first()),
    {
        if self.items.len() > 0 {
            let ghost prev = self@;
            let f = self.items.remove(0);
            proof {
                assert(self@ =~= prev.drop_first());
            }
            Some(f)
        } else {
            None
        }
    }
}

} // verus!
