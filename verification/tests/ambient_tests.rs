use raydrone::ambient::{child_level, focus_level, free_focus_slot, AmbientShape};

#[test]
fn configure_clamps_and_marks_reseed() {
    let mut a = AmbientShape::new();
    assert!(a.is_dirty());
    a.mark_placed();
    a.configure(0, 3, 2); // same shape: no reseed
    assert!(!a.is_dirty());
    a.configure(5, 0, 9);
    assert!(a.is_on());
    assert_eq!(a.seeds(), 1);
    assert_eq!(a.depth(), 4);
    assert!(a.is_dirty());
    a.mark_placed();
    a.configure(1, 20, 1);
    assert_eq!(a.seeds(), 8);
    assert!(a.is_dirty());
    a.mark_placed();
    a.mark_dirty();
    assert!(a.is_dirty());
}

#[test]
fn first_free_focus_slot() {
    assert_eq!(free_focus_slot(&[true, true, false, false]), 2);
    assert_eq!(free_focus_slot(&[false]), 0);
    assert_eq!(free_focus_slot(&[true, true]), -1);
    assert_eq!(free_focus_slot(&[]), -1);
}

#[test]
fn levels_in_the_focus_tree() {
    assert_eq!(focus_level(2, 2), 0);
    assert_eq!(focus_level(2, 0), 2);
    assert_eq!(focus_level(1, 3), 0);
    assert_eq!(child_level(2, 2), 1);
    assert_eq!(child_level(2, 1), 2);
    assert_eq!(child_level(1, 4), 0);
}
