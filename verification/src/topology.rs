//! Position of a thread within the execution hierarchy.
//!
//! The hardware holds a thread's block index, block dimension and thread
//! index in per-axis registers; the launch mechanism fixes them before the
//! kernel runs. These functions take those register values as arguments and
//! compute the flattened global coordinates, one axis at a time, with the
//! machine's native unsigned wraparound.

use vstd::arithmetic::div_mod::{
    lemma_add_mod_noop, lemma_mod_bound, lemma_mod_multiples_vanish, lemma_small_mod,
};
use vstd::prelude::*;

verus! {

/// One more than the largest `usize` value: the modulus of the machine's
/// native unsigned wraparound.
pub open spec fn usize_modulus() -> int {
    usize::MAX as int + 1
}

/// Flattened global position along one axis:
/// `block_idx * block_dim + thread_idx`, wrapped to the machine word.
pub open spec fn axis_coord(block_idx: usize, block_dim: usize, thread_idx: usize) -> int {
    (block_idx * block_dim + thread_idx) % usize_modulus()
}

/// A product followed by a sum, each wrapped to the machine word, equals the
/// exact product-sum reduced once by the word modulus.
proof fn lemma_wrap_mul_add(a: usize, b: usize, c: usize)
    ensures
        vstd::wrapping::usize_specs::wrapping_add(
            vstd::wrapping::usize_specs::wrapping_mul(a, b),
            c,
        ) as int == (a * b + c) % usize_modulus(),
{
    let r = usize_modulus();
    let m = vstd::wrapping::usize_specs::wrapping_mul(a, b);
    assert(m as int == (a * b) % r) by {
        lemma_mod_bound(a * b, r);
    }
    let s = vstd::wrapping::usize_specs::wrapping_add(m, c);
    assert(s as int == (m + c) % r) by {
        if m + c > usize::MAX {
            lemma_mod_multiples_vanish(1, m + c - r, r);
            lemma_small_mod((m + c - r) as nat, r as nat);
        } else {
            lemma_small_mod((m + c) as nat, r as nat);
        }
    }
    lemma_add_mod_noop(a * b, c as int, r);
    lemma_small_mod(c as nat, r as nat);
}

/// Whenever the product-sum fits the machine word — as it does for any
/// launch a real device accepts — the flattened coordinate is exactly
/// `block_idx * block_dim + thread_idx`, with no wraparound.
pub proof fn lemma_axis_coord_exact(block_idx: usize, block_dim: usize, thread_idx: usize)
    requires
        block_idx * block_dim + thread_idx <= usize::MAX,
    ensures
        axis_coord(block_idx, block_dim, thread_idx) == block_idx * block_dim + thread_idx,
{
    lemma_small_mod((block_idx * block_dim + thread_idx) as nat, usize_modulus() as nat);
}

/// Index of a thread within its warp, derived from its linear thread index:
/// the hardware packs consecutive linear indices into warps of
/// [`WARP_SIZE`](crate::WARP_SIZE) lanes.
pub fn lane(linear_thread_idx: u32) -> (lane_id: u32)
    ensures
        lane_id == linear_thread_idx % 32,
        lane_id < crate::WARP_SIZE,
{
    linear_thread_idx % 32
}

/// Flattened global position on the x axis.
pub fn coords_1d(block_idx: usize, block_dim: usize, thread_idx: usize) -> (coord: usize)
    ensures
        coord as int == axis_coord(block_idx, block_dim, thread_idx),
{
    let scaled: usize = block_idx.wrapping_mul(block_dim);
    let coord: usize = scaled.wrapping_add(thread_idx);
    proof {
        lemma_wrap_mul_add(block_idx, block_dim, thread_idx);
    }
    coord
}

/// Flattened global position on the x and y axes, each axis independent.
pub fn coords_2d(
    block_idx: (usize, usize),
    block_dim: (usize, usize),
    thread_idx: (usize, usize),
) -> (coords: (usize, usize))
    ensures
        coords.0 as int == axis_coord(block_idx.0, block_dim.0, thread_idx.0),
        coords.1 as int == axis_coord(block_idx.1, block_dim.1, thread_idx.1),
{
    (
        coords_1d(block_idx.0, block_dim.0, thread_idx.0),
        coords_1d(block_idx.1, block_dim.1, thread_idx.1),
    )
}

/// Flattened global position on the x, y and z axes, each axis independent.
pub fn coords_3d(
    block_idx: (usize, usize, usize),
    block_dim: (usize, usize, usize),
    thread_idx: (usize, usize, usize),
) -> (coords: (usize, usize, usize))
    ensures
        coords.0 as int == axis_coord(block_idx.0, block_dim.0, thread_idx.0),
        coords.1 as int == axis_coord(block_idx.1, block_dim.1, thread_idx.1),
        coords.2 as int == axis_coord(block_idx.2, block_dim.2, thread_idx.2),
{
    (
        coords_1d(block_idx.0, block_dim.0, thread_idx.0),
        coords_1d(block_idx.1, block_dim.1, thread_idx.1),
        coords_1d(block_idx.2, block_dim.2, thread_idx.2),
    )
}

} // verus!
