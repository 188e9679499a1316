//! Cross-lane register exchange within a warp.
//!
//! The hardware's downward shuffle moves a 32-bit register value from lane
//! `lane_id + offset` to lane `lane_id`, wrapping within logical groups of
//! `width` lanes, without touching memory. The model here works on the full
//! warp at once: a sequence of 32 register values stands for the registers of
//! the 32 lanes, and one call computes what every lane receives.
//!
//! Lanes left out of the mask, and lanes whose source falls outside their
//! `width`-sized group, receive a hardware-defined result; the contract
//! states nothing about them, so no proof can lean on what they see. The
//! caller remains responsible for supplying a mask under which the
//! participating lanes have actually converged: the hardware performs no
//! divergence check, and neither does this model.

use vstd::arithmetic::div_mod::{
    lemma_add_mod_noop, lemma_mod_multiples_vanish, lemma_small_mod,
};
use vstd::prelude::*;

verus! {

/// Mask selecting every lane of the warp.
pub const FULL_MASK: u32 = 0xFFFF_FFFF;

/// One more than the largest `u32` value: the modulus of 32-bit register
/// wraparound.
pub open spec fn register_modulus() -> int {
    0x1_0000_0000
}

/// Lane `lane_id` participates in an exchange under `mask`.
pub open spec fn lane_in_mask(mask: u32, lane_id: u32) -> bool {
    (mask >> lane_id) & 1u32 == 1u32
}

/// The logical widths the shuffle instruction accepts: powers of two up to
/// the warp size.
pub open spec fn valid_shuffle_width(width: u32) -> bool {
    width == 1 || width == 2 || width == 4 || width == 8 || width == 16 || width == 32
}

/// Shifting lane `lane_id` down by `offset` stays inside its `width`-sized
/// group.
pub open spec fn source_in_group(lane_id: u32, offset: u32, width: u32) -> bool {
    lane_id % width + offset < width
}

/// Every lane of the warp participates under the full mask.
proof fn lemma_full_mask(lane_id: u32)
    requires
        lane_id < 32,
    ensures
        lane_in_mask(FULL_MASK, lane_id),
{
    assert((0xFFFF_FFFFu32 >> lane_id) & 1u32 == 1u32) by (bit_vector)
        requires
            lane_id < 32,
    ;
}

/// A source that stays inside its group stays inside the warp.
proof fn lemma_source_lane_bounded(lane_id: u32, offset: u32, width: u32)
    requires
        lane_id < 32,
        valid_shuffle_width(width),
        lane_id % width + offset < width,
    ensures
        lane_id + offset < 32,
{
    assert(lane_id + offset < 32) by (bit_vector)
        requires
            lane_id < 32,
            width == 1 || width == 2 || width == 4 || width == 8 || width == 16 || width == 32,
            lane_id % width + offset < width,
    ;
}

/// Downward shuffle across the warp: lane `l` receives the value lane
/// `l + offset` holds, as long as that source lies in `l`'s `width`-sized
/// group and `l` participates in `mask`. Every other lane receives a
/// hardware-defined result that the contract leaves open.
pub fn shfl_down_sync(mask: u32, values: &Vec<u32>, offset: u32, width: u32) -> (out: Vec<u32>)
    requires
        values@.len() == crate::WARP_SIZE,
        valid_shuffle_width(width),
    ensures
        out@.len() == crate::WARP_SIZE,
        forall|l: u32|
            l < 32 && #[trigger] lane_in_mask(mask, l) && source_in_group(l, offset, width)
                ==> out@[l as int] == values@[l + offset],
{
    let mut out: Vec<u32> = Vec::new();
    let mut l: u32 = 0;
    while l < 32
        invariant
            values@.len() == 32,
            valid_shuffle_width(width),
            l <= 32,
            out@.len() == l as int,
            forall|k: u32|
                k < l && #[trigger] lane_in_mask(mask, k) && source_in_group(k, offset, width)
                    ==> out@[k as int] == values@[k + offset],
        decreases 32 - l,
    {
        let in_group: bool = offset < width && l % width + offset < width;
        if in_group {
            proof {
                lemma_source_lane_bounded(l, offset, width);
            }
            out.push(values[(l + offset) as usize]);
        } else {
            out.push(values[l as usize]);
        }
        l = l + 1;
    }
    out
}

/// Sum of a sequence of 32-bit register values, as an unbounded integer.
pub open spec fn register_sum(s: Seq<u32>) -> int
    decreases s.len(),
{
    if s.len() == 0 {
        0
    } else {
        register_sum(s.drop_last()) + s.last()
    }
}

/// A sum splits at any cut point.
proof fn lemma_sum_split(s: Seq<u32>, k: int)
    requires
        0 <= k <= s.len(),
    ensures
        register_sum(s) == register_sum(s.take(k)) + register_sum(
            s.subrange(k, s.len() as int),
        ),
    decreases s.len(),
{
    if k == s.len() {
        assert(s.take(k) =~= s);
        assert(s.subrange(k, s.len() as int) =~= Seq::<u32>::empty());
    } else {
        let prefix = s.drop_last();
        lemma_sum_split(prefix, k);
        assert(prefix.take(k) =~= s.take(k));
        let tail = s.subrange(k, s.len() as int);
        assert(tail.len() > 0);
        assert(tail.drop_last() =~= prefix.subrange(k, prefix.len() as int));
        assert(tail.last() == s.last());
    }
}

/// A wrapped 32-bit add agrees with the exact sum modulo the register
/// modulus.
proof fn lemma_wrapping_add_mod(a: u32, b: u32)
    ensures
        vstd::wrapping::u32_specs::wrapping_add(a, b) as int % register_modulus() == (a
            + b) % register_modulus(),
{
    let m = register_modulus();
    if a + b > u32::MAX {
        lemma_mod_multiples_vanish(1, a + b - m, m);
        lemma_small_mod((a + b - m) as nat, m as nat);
    } else {
        lemma_small_mod((a + b) as nat, m as nat);
    }
}

/// Adding two sequences of registers lane by lane, with wraparound, sums to
/// the two sums modulo the register modulus.
proof fn lemma_sum_mod_pointwise_add(x: Seq<u32>, y: Seq<u32>, z: Seq<u32>)
    requires
        x.len() == y.len(),
        y.len() == z.len(),
        forall|i: int|
            0 <= i < z.len() ==> #[trigger] z[i] as int % register_modulus() == (x[i]
                + y[i]) % register_modulus(),
    ensures
        register_sum(z) % register_modulus() == (register_sum(x) + register_sum(y))
            % register_modulus(),
    decreases z.len(),
{
    let m = register_modulus();
    if z.len() == 0 {
    } else {
        let xp = x.drop_last();
        let yp = y.drop_last();
        let zp = z.drop_last();
        lemma_sum_mod_pointwise_add(xp, yp, zp);
        let n = z.len() - 1;
        assert(z[n] as int % m == (x[n] + y[n]) % m);
        lemma_add_mod_noop(register_sum(zp), z.last() as int, m);
        lemma_add_mod_noop(register_sum(xp) + register_sum(yp), x.last() + y.last(), m);
    }
}

/// Tree reduction over a full warp: each round shifts the live half of the
/// registers down onto the other half and adds, halving the live group, until
/// lane 0 holds the wrapped sum of all 32 starting values. This is the
/// cooperative pattern the downward shuffle exists for.
pub fn warp_reduce_sum(values: &Vec<u32>) -> (out: Vec<u32>)
    requires
        values@.len() == crate::WARP_SIZE,
    ensures
        out@.len() == crate::WARP_SIZE,
        out@[0] as int == register_sum(values@) % register_modulus(),
{
    let mut cur: Vec<u32> = Vec::new();
    let mut i: usize = 0;
    while i < 32
        invariant
            values@.len() == 32,
            i <= 32,
            cur@ == values@.take(i as int),
        decreases 32 - i,
    {
        cur.push(values[i]);
        assert(cur@ =~= values@.take(i + 1));
        i = i + 1;
    }
    assert(cur@ =~= values@);
    let mut group: u32 = 32;
    while group > 1
        invariant
            cur@.len() == 32,
            values@.len() == 32,
            valid_shuffle_width(group),
            register_sum(cur@.take(group as int)) % register_modulus() == register_sum(values@)
                % register_modulus(),
        decreases group,
    {
        let offset: u32 = group / 2;
        let shifted: Vec<u32> = shfl_down_sync(FULL_MASK, &cur, offset, 32);
        let mut next: Vec<u32> = Vec::new();
        let mut l: usize = 0;
        while l < 32
            invariant
                cur@.len() == 32,
                shifted@.len() == 32,
                l <= 32,
                next@.len() == l as int,
                forall|k: int|
                    0 <= k < l ==> #[trigger] next@[k] == vstd::wrapping::u32_specs::wrapping_add(
                        cur@[k],
                        shifted@[k],
                    ),
            decreases 32 - l,
        {
            next.push(cur[l].wrapping_add(shifted[l]));
            l = l + 1;
        }
        proof {
            let m = register_modulus();
            let half = offset as int;
            let live = group as int;
            let x = cur@.take(half);
            let y = cur@.subrange(half, live);
            let z = next@.take(half);
            assert forall|k: int| 0 <= k < half implies #[trigger] z[k] as int % m == (x[k]
                + y[k]) % m by {
                let ku = k as u32;
                lemma_full_mask(ku);
                assert(ku % 32 == ku) by (bit_vector)
                    requires
                        ku < 32,
                ;
                assert(source_in_group(ku, offset, 32));
                assert(shifted@[k] == cur@[k + half]);
                lemma_wrapping_add_mod(cur@[k], shifted@[k]);
            }
            lemma_sum_mod_pointwise_add(x, y, z);
            lemma_sum_split(cur@.take(live), half);
            assert(cur@.take(live).take(half) =~= x);
            assert(cur@.take(live).subrange(half, live) =~= y);
            lemma_add_mod_noop(register_sum(x), register_sum(y), m);
        }
        cur = next;
        group = offset;
    }
    proof {
        let single = cur@.take(1);
        assert(single.drop_last() =~= Seq::<u32>::empty());
        assert(register_sum(Seq::<u32>::empty()) == 0);
        assert(register_sum(single) == register_sum(single.drop_last()) + single.last());
        assert(register_sum(single) == cur@[0]);
        lemma_small_mod(cur@[0] as nat, register_modulus() as nat);
    }
    cur
}

} // verus!
