use vstd::prelude::*;

verus! {

/// The bounded send-credit counter: how many outbound frames may be in
/// flight before the inbound side replenishes permission. The waiting and
/// waking around it belong to the scheduler driving the engine; the counter
/// itself only moves through `try_acquire` and `release`.
pub struct FlowCredit {
    pub count: usize,
    pub capacity: usize,
}

impl FlowCredit {
    /// The counter never exceeds the capacity fixed at start time.
    pub open spec fn wf(self) -> bool {
        self.count <= self.capacity
    }

    /// A counter starting at full credit.
    pub fn new(capacity: usize) -> (c: FlowCredit)
        ensures
            c.wf(),
            c.count == capacity,
            c.capacity == capacity,
    {
        FlowCredit { count: capacity, capacity }
    }

    /// Take one credit if any is available; never blocks.
    pub fn try_acquire(&mut self) -> (got: bool)
        requires
            old(self).wf(),
        ensures
            final(self).wf(),
            final(self).capacity == old(self).capacity,
            got == (old(self).count > 0),
            got ==> final(self).count == old(self).count - 1,
            !got ==> final(self).count == old(self).count,
    {
        if self.count > 0 {
            self.count = self.count - 1;
            true
        } else {
            false
        }
    }

    /// Return one credit, saturating at the capacity.
    pub fn release(&mut self)
        requires
            old(self).wf(),
        ensures
            final(self).wf(),
            final(self).capacity == old(self).capacity,
            final(self).count == (if old(self).count < old(self).capacity {
                old(self).count + 1
            } else {
                old(self).count as int
            }),
    {
        if self.count < self.capacity {
            self.count = self.count + 1;
        }
    }

    /// Law: whatever sequence of acquires and releases ran, a well-formed
    /// credit counter lies within `[0, capacity]` at every observation point.
    pub proof fn lemma_within_bounds(self)
        requires
            self.wf(),
        ensures
            0 <= self.count <= self.capacity,
    {
    }
}

} // verus!
