//! Group-wide execution barrier.
//!
//! On the device, the barrier instruction suspends each arriving thread
//! until every thread of its block has reached the same call; issuing the
//! instruction is all this layer does, and a block in which some thread takes
//! a divergent path around the call is undefined at the hardware level. The
//! model here makes the guarantee the instruction gives provable: a barrier
//! value records which threads of the block have arrived, and release is
//! defined as every thread having arrived, so nothing past the barrier can be
//! reached in a state where some thread still stands before it.

use vstd::prelude::*;

verus! {

/// Arrival state of one block-wide barrier: one flag per thread of the
/// block, set once that thread has reached the barrier.
pub struct BlockBarrier {
    arrived: Vec<bool>,
}

impl View for BlockBarrier {
    type V = Seq<bool>;

    closed spec fn view(&self) -> Seq<bool> {
        self.arrived@
    }
}

impl BlockBarrier {
    /// Every thread of the block has reached the barrier; only then may any
    /// thread proceed past it.
    pub open spec fn all_arrived(&self) -> bool {
        forall|t: int| 0 <= t < self@.len() ==> self@[t]
    }

    /// A fresh barrier for a block of `block_size` threads, none arrived.
    pub fn new(block_size: usize) -> (barrier: Self)
        ensures
            barrier@.len() == block_size,
            forall|t: int| 0 <= t < block_size ==> !barrier@[t],
    {
        let mut arrived: Vec<bool> = Vec::new();
        let mut i: usize = 0;
        while i < block_size
            invariant
                i <= block_size,
                arrived@.len() == i as int,
                forall|t: int| 0 <= t < i ==> !arrived@[t],
            decreases block_size - i,
        {
            arrived.push(false);
            i = i + 1;
        }
        BlockBarrier { arrived }
    }

    /// Number of threads the barrier waits for.
    pub fn block_size(&self) -> (n: usize)
        ensures
            n == self@.len(),
    {
        self.arrived.len()
    }

    /// The barrier releases: true exactly when every thread has arrived.
    pub fn released(&self) -> (r: bool)
        ensures
            r == self.all_arrived(),
    {
        let mut i: usize = 0;
        while i < self.arrived.len()
            invariant
                i <= self.arrived@.len(),
                forall|t: int| 0 <= t < i ==> self@[t],
            decreases self.arrived@.len() - i,
        {
            if !self.arrived[i] {
                assert(!self@[i as int]);
                return false;
            }
            i = i + 1;
        }
        true
    }
}

/// Thread `thread_idx` reaches the block-wide barrier: its arrival is
/// recorded and no other thread's state changes. The hardware holds the
/// thread here until [`BlockBarrier::all_arrived`] holds of the whole block.
pub fn syncthreads(barrier: &mut BlockBarrier, thread_idx: usize)
    requires
        thread_idx < old(barrier)@.len(),
    ensures
        final(barrier)@ == old(barrier)@.update(thread_idx as int, true),
{
    barrier.arrived.set(thread_idx, true);
}

/// The cut the barrier establishes: a released barrier admits no thread that
/// has not arrived, so no thread proceeds past the barrier before every
/// thread of the block has reached it.
pub proof fn lemma_barrier_cut(barrier: BlockBarrier, thread_idx: int)
    requires
        barrier.all_arrived(),
        0 <= thread_idx < barrier@.len(),
    ensures
        barrier@[thread_idx],
{
}

} // verus!
