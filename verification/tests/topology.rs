use nvptx_core::topology::{coords_1d, coords_2d, coords_3d, lane};
use nvptx_core::WARP_SIZE;

#[test]
fn coords_1d_is_block_times_dim_plus_thread() {
    assert_eq!(coords_1d(2, 3, 4), 10);
    assert_eq!(coords_1d(0, 0, 0), 0);
    assert_eq!(coords_1d(0, 128, 17), 17);
    assert_eq!(coords_1d(7, 256, 255), 7 * 256 + 255);
}

#[test]
fn coords_1d_wraps_like_native_unsigned_arithmetic() {
    assert_eq!(coords_1d(usize::MAX, 2, 4), usize::MAX.wrapping_mul(2).wrapping_add(4));
    assert_eq!(coords_1d(usize::MAX, 2, 4), 2);
    assert_eq!(coords_1d(usize::MAX, 1, 1), 0);
}

#[test]
fn coords_2d_computes_each_axis_independently() {
    assert_eq!(coords_2d((2, 5), (3, 7), (4, 6)), (10, 41));
    assert_eq!(coords_2d((0, 0), (16, 16), (3, 9)), (3, 9));
}

#[test]
fn coords_3d_computes_each_axis_independently() {
    assert_eq!(coords_3d((2, 5, 1), (3, 7, 11), (4, 6, 0)), (10, 41, 11));
    assert_eq!(coords_3d((0, 0, 0), (8, 8, 8), (1, 2, 3)), (1, 2, 3));
}

#[test]
fn lane_is_linear_thread_index_within_its_warp() {
    assert_eq!(lane(0), 0);
    assert_eq!(lane(31), 31);
    assert_eq!(lane(32), 0);
    assert_eq!(lane(33), 1);
    assert_eq!(lane(63), 31);
}

#[test]
fn lane_stays_below_warp_size() {
    for t in 0..1000u32 {
        assert!((lane(t) as usize) < WARP_SIZE);
    }
    assert!((lane(u32::MAX) as usize) < WARP_SIZE);
}
