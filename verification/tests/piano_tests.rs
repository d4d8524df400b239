use raydrone::piano::{is_black, piano_range, shift_octave, white_keys, NoteMask};

#[test]
fn black_keys_follow_the_octave_pattern() {
    let blacks: Vec<i32> = (0..12).filter(|&n| is_black(n)).collect();
    assert_eq!(blacks, vec![1, 3, 6, 8, 10]);
    assert!(is_black(61));
    assert!(!is_black(60));
}

#[test]
fn negative_notes_use_the_same_pattern() {
    assert!(!is_black(-1)); // pitch class 11
    assert!(is_black(-2)); // pitch class 10
    assert!(is_black(-11)); // pitch class 1
}

#[test]
fn range_follows_octave_shift() {
    assert_eq!(piano_range(0), (48, 76, 60));
    assert_eq!(piano_range(3), (84, 112, 96));
    assert_eq!(piano_range(-3), (12, 40, 24));
    assert_eq!(piano_range(-5), (0, 28, 0));
    assert_eq!(piano_range(5), (100, 127, 115));
}

#[test]
fn octave_buttons_stay_within_three() {
    assert_eq!(shift_octave(0, true), 1);
    assert_eq!(shift_octave(3, true), 3);
    assert_eq!(shift_octave(-3, false), -3);
    assert_eq!(shift_octave(1, false), 0);
}

#[test]
fn white_keys_of_one_octave() {
    assert_eq!(white_keys(48, 60), vec![48, 50, 52, 53, 55, 57, 59]);
    assert_eq!(white_keys(48, 76).len(), 16);
    assert!(white_keys(60, 60).is_empty());
    assert!(white_keys(70, 60).is_empty());
}

#[test]
fn note_mask_press_release_and_union() {
    let mut m = NoteMask::new();
    m.press(60);
    m.press(64);
    m.press(200); // not a MIDI note: ignored
    m.press(-1);
    assert!(m.is_held(60) && m.is_held(64));
    m.release(60);
    assert!(!m.is_held(60) && m.is_held(64));
    let mut ui = NoteMask::new();
    ui.press(67);
    m.union_with(&ui);
    let held: Vec<usize> = (0..128).filter(|&n| m.is_held(n)).collect();
    assert_eq!(held, vec![64, 67]);
    assert_eq!(m.to_array().iter().filter(|&&b| b).count(), 2);
}
