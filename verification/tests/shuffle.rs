use nvptx_core::shuffle::{shfl_down_sync, warp_reduce_sum, FULL_MASK};

fn lane_ids() -> Vec<u32> {
    (0..32u32).collect()
}

#[test]
fn broadcast_shifts_each_lane_id_down_by_one() {
    // Every lane contributes its own id; after a downward shuffle by one,
    // each lane except the top of its group observes the next lane's id.
    let out = shfl_down_sync(FULL_MASK, &lane_ids(), 1, 32);
    for l in 0..31usize {
        assert_eq!(out[l], l as u32 + 1);
    }
}

#[test]
fn shuffle_wraps_within_width_sized_groups() {
    let out = shfl_down_sync(FULL_MASK, &lane_ids(), 4, 8);
    for l in 0..32usize {
        if l % 8 + 4 < 8 {
            assert_eq!(out[l], l as u32 + 4);
        }
    }
}

#[test]
fn shuffle_with_offset_of_whole_group_moves_nothing_owed() {
    // An offset as large as the group leaves no lane with a source in range,
    // so the contract owes nothing; the call must still return 32 values.
    let out = shfl_down_sync(FULL_MASK, &lane_ids(), 16, 16);
    assert_eq!(out.len(), 32);
}

#[test]
fn reduction_of_lane_ids_sums_them_into_lane_zero() {
    let out = warp_reduce_sum(&lane_ids());
    assert_eq!(out[0], (0..32).sum::<u32>());
    assert_eq!(out[0], 496);
}

#[test]
fn reduction_wraps_on_register_overflow() {
    let values: Vec<u32> = vec![u32::MAX; 32];
    let out = warp_reduce_sum(&values);
    // 32 * (2^32 - 1) leaves -32 modulo 2^32.
    assert_eq!(out[0], 0u32.wrapping_sub(32));
}

#[test]
fn reduction_of_mixed_values() {
    let mut values = vec![0u32; 32];
    values[0] = 5;
    values[13] = 7;
    values[31] = 11;
    let out = warp_reduce_sum(&values);
    assert_eq!(out[0], 23);
}
