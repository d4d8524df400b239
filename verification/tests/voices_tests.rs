use raydrone::voices::{bounce_depth, child_depth, VoicePool, MAX_BOUNCES};

#[test]
fn fresh_pool_hands_out_slots_in_order() {
    let mut p = VoicePool::new(4);
    assert_eq!(p.capacity(), 4);
    assert_eq!(p.active_len(), 0);
    assert_eq!(p.free_len(), 4);
    assert_eq!(p.allocate(), Some(0));
    assert_eq!(p.allocate(), Some(1));
    assert_eq!(p.allocate(), Some(2));
    assert_eq!(p.allocate(), Some(3));
    assert_eq!(p.active_len(), 4);
    assert_eq!(p.free_len(), 0);
}

#[test]
fn full_pool_allocates_nothing() {
    let mut p = VoicePool::new(2);
    assert!(p.allocate().is_some());
    assert!(p.allocate().is_some());
    assert_eq!(p.allocate(), None);
    assert_eq!(p.active_len(), 2);
}

#[test]
fn release_swap_removes_and_returns_slot() {
    let mut p = VoicePool::new(4);
    for _ in 0..4 {
        p.allocate();
    }
    // active list is [0, 1, 2, 3]; retiring position 1 moves slot 3 there
    assert_eq!(p.release(1), 1);
    assert_eq!(p.active_len(), 3);
    assert_eq!(p.active_slot(0), 0);
    assert_eq!(p.active_slot(1), 3);
    assert_eq!(p.active_slot(2), 2);
    assert_eq!(p.free_len(), 1);
}

#[test]
fn released_slot_is_reused_first() {
    let mut p = VoicePool::new(8);
    for _ in 0..5 {
        p.allocate();
    }
    let freed = p.release(2);
    assert_eq!(freed, 2);
    assert_eq!(p.allocate(), Some(2));
}

#[test]
fn reset_frees_every_voice() {
    let mut p = VoicePool::new(3);
    p.allocate();
    p.allocate();
    p.reset();
    assert_eq!(p.active_len(), 0);
    assert_eq!(p.free_len(), 3);
    assert_eq!(p.allocate(), Some(0));
}

#[test]
fn bounce_depth_is_capped() {
    assert_eq!(bounce_depth(0), 0);
    assert_eq!(bounce_depth(4), 4);
    assert_eq!(bounce_depth(6), 6);
    assert_eq!(bounce_depth(99), MAX_BOUNCES);
}

#[test]
fn bounce_chain_runs_out() {
    assert_eq!(child_depth(3), Some(2));
    assert_eq!(child_depth(1), Some(0));
    assert_eq!(child_depth(0), None);
    let mut d = bounce_depth(u32::MAX);
    let mut relaunches = 0;
    while let Some(c) = child_depth(d) {
        d = c;
        relaunches += 1;
    }
    assert_eq!(relaunches, 6);
}
