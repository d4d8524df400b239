//! The Convergence Lab's integer helpers: the clamp of the triangular
//! kernel's half-width and the bounds check of a sample read.
use vstd::prelude::*;

verus! {

/// Samples per estimate (the grain length).
pub const LAB_D: usize = 4096;

/// Largest half-width of the triangular kernel, in samples.
pub const LAB_AMAX: usize = 6600;

/// The kernel half-width actually used: at least 1, at most `LAB_AMAX`.
pub fn lab_clamp_a(a: i32) -> (r: i32)
    ensures
        r == (if a < 1 {
            1
        } else if a > LAB_AMAX {
            LAB_AMAX as int
        } else {
            a as int
        }),
        1 <= r <= LAB_AMAX,
{
    if a < 1 {
        1
    } else if a as usize > LAB_AMAX {
        LAB_AMAX as i32
    } else {
        a
    }
}

/// The buffer index of sample `i`, or `None` when `i` lies outside a buffer
/// of `len` samples (such a sample reads as silence).
pub fn lab_sample_index(i: i64, len: usize) -> (r: Option<usize>)
    ensures
        r == (if 0 <= i < len {
            Some(i as usize)
        } else {
            None::<usize>
        }),
{
    if i >= 0 && (i as u64) < (len as u64) {
        Some(i as usize)
    } else {
        None
    }
}

} // verus!
