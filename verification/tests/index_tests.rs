use raydrone::bins::{analysis_frames, bin_bounds, clamp_index};
use raydrone::delay::{catmull_taps, log_slot, ring_age, shimmer_next, shimmer_tap, wrap_next, SHIMMER_LEN};
use raydrone::lab::{lab_clamp_a, lab_sample_index, LAB_AMAX};

#[test]
fn bins_tile_the_buffer() {
    let (len, n) = (1000usize, 7usize);
    let mut prev_end = 0;
    for b in 0..n {
        let (s, e) = bin_bounds(b, len, n);
        assert_eq!(s, prev_end);
        assert!(s <= e && e <= len);
        prev_end = e;
    }
    assert_eq!(prev_end, len);
    assert_eq!(bin_bounds(0, 3, 256), (0, 0));
    assert_eq!(bin_bounds(255, 3, 256), (2, 3));
}

#[test]
fn kernel_half_width_is_clamped() {
    assert_eq!(lab_clamp_a(-5), 1);
    assert_eq!(lab_clamp_a(0), 1);
    assert_eq!(lab_clamp_a(300), 300);
    assert_eq!(lab_clamp_a(100_000), LAB_AMAX as i32);
}

#[test]
fn sample_reads_outside_the_buffer_are_silent() {
    assert_eq!(lab_sample_index(-1, 10), None);
    assert_eq!(lab_sample_index(0, 10), Some(0));
    assert_eq!(lab_sample_index(9, 10), Some(9));
    assert_eq!(lab_sample_index(10, 10), None);
}

#[test]
fn cursors_wrap() {
    assert_eq!(wrap_next(0, 3), 1);
    assert_eq!(wrap_next(2, 3), 0);
    assert_eq!(shimmer_next(SHIMMER_LEN - 1), 0);
    assert_eq!(shimmer_next(5), 6);
    // the newest frame (delay 0) sits just before the write cursor
    assert_eq!(shimmer_tap(10, 0), 9);
    assert_eq!(shimmer_tap(0, 0), SHIMMER_LEN - 1);
    assert_eq!(shimmer_tap(10, 20), SHIMMER_LEN - 11);
}

#[test]
fn interpolation_taps() {
    assert_eq!(catmull_taps(6, 1), Some((0, 1, 2, 3)));
    assert_eq!(catmull_taps(6, 0), Some((0, 0, 1, 2)));
    assert_eq!(catmull_taps(6, 3), Some((2, 3, 4, 5)));
    assert_eq!(catmull_taps(6, 4), None);
    assert_eq!(catmull_taps(2, 0), None); // too short
    assert_eq!(catmull_taps(6, 100), None); // out of range
}

#[test]
fn analysis_frame_count() {
    assert_eq!(analysis_frames(32, 64, 16), 1); // shorter than one frame
    assert_eq!(analysis_frames(64, 64, 16), 1);
    assert_eq!(analysis_frames(1024, 256, 128), 7);
    assert_eq!(analysis_frames(1000, 256, 128), 6);
}

#[test]
fn bin_index_is_clamped() {
    assert_eq!(clamp_index(5, 1024), 5);
    assert_eq!(clamp_index(1024, 1024), 1023);
    assert_eq!(clamp_index(usize::MAX, 8), 7);
}

#[test]
fn log_cursor_and_ring_age() {
    assert_eq!(log_slot(0, 512), (0, 1));
    assert_eq!(log_slot(513, 512), (1, 514));
    assert_eq!(log_slot(u32::MAX, 512), (511, 0));
    // with the counter at 5 on an 8-slot ring, slot 4 is the newest
    assert_eq!(ring_age(5, 8, 4), 0);
    assert_eq!(ring_age(5, 8, 5), 7);
    assert_eq!(ring_age(5, 8, 0), 4);
}
