use nvptx_core::barrier::{syncthreads, BlockBarrier};

#[test]
fn fresh_barrier_holds_back_a_nonempty_block() {
    let barrier = BlockBarrier::new(4);
    assert_eq!(barrier.block_size(), 4);
    assert!(!barrier.released());
}

#[test]
fn barrier_releases_only_after_every_thread_arrives() {
    let mut barrier = BlockBarrier::new(4);
    syncthreads(&mut barrier, 0);
    assert!(!barrier.released());
    syncthreads(&mut barrier, 2);
    syncthreads(&mut barrier, 3);
    assert!(!barrier.released());
    syncthreads(&mut barrier, 1);
    assert!(barrier.released());
}

#[test]
fn arriving_twice_does_not_stand_in_for_another_thread() {
    let mut barrier = BlockBarrier::new(2);
    syncthreads(&mut barrier, 0);
    syncthreads(&mut barrier, 0);
    assert!(!barrier.released());
    syncthreads(&mut barrier, 1);
    assert!(barrier.released());
}

#[test]
fn barrier_over_an_empty_block_holds_nothing_back() {
    let barrier = BlockBarrier::new(0);
    assert!(barrier.released());
}
