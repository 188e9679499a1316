//! Runtime-support layer for device-side kernel code on a SIMT accelerator.
//!
//! The layer supplies the few primitives that kernel code cannot get from a
//! general-purpose standard library: a thread's logical position within the
//! execution grid, the group-wide barrier, the warp-level register shuffle,
//! and the diagnostic a fault handler emits before halting the group.
//!
//! Everything here is modelled over plain register-resident values: the
//! hardware reads (index registers, the barrier instruction, the shuffle
//! instruction, the output channel) belong to the compilation target, while
//! the arithmetic and formatting they feed are stated and proved here.

use vstd::prelude::*;

pub mod barrier;
pub mod fault;
pub mod shuffle;
pub mod topology;

verus! {

/// Number of threads the hardware schedules together in lockstep.
pub const WARP_SIZE: usize = 32;

} // verus!
