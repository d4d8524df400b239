//! Splitting a buffer into equal analysis bins (the energy envelope of a
//! scene and the waveform overview).
use vstd::prelude::*;
use vstd::arithmetic::div_mod::{lemma_div_is_ordered, lemma_div_multiples_vanish};
use vstd::arithmetic::mul::lemma_mul_inequality;

verus! {

/// First index of bin `b` of `n` over a buffer of `len` items.
pub open spec fn bin_start(b: int, len: int, n: int) -> int {
    b * len / n
}

/// One past the last index of bin `b`.
pub open spec fn bin_end(b: int, len: int, n: int) -> int {
    let e = (b + 1) * len / n;
    if e < len {
        e
    } else {
        len
    }
}

/// The index range `start..end` of bin `b` of `n` over `len` items.
pub fn bin_bounds(b: usize, len: usize, n: usize) -> (r: (usize, usize))
    requires
        n > 0,
        b < n,
        (b + 1) * len <= usize::MAX,
    ensures
        r.0 == bin_start(b as int, len as int, n as int),
        r.1 == bin_end(b as int, len as int, n as int),
        r.0 <= r.1 <= len,
{
    proof {
        lemma_bin_bounded(b as int, len as int, n as int);
        lemma_mul_inequality(b as int, (b + 1) as int, len as int);
    }
    let start = b * len / n;
    let e = (b + 1) * len / n;
    let end = if e < len {
        e
    } else {
        len
    };
    (start, end)
}

proof fn lemma_bin_bounded(b: int, len: int, n: int)
    requires
        n > 0,
        0 <= b < n,
        len >= 0,
    ensures
        0 <= bin_start(b, len, n) <= bin_end(b, len, n) <= len,
        bin_end(b, len, n) == (b + 1) * len / n,
{
    lemma_mul_inequality(b, b + 1, len);
    lemma_mul_inequality(b + 1, n, len);
    lemma_div_is_ordered(b * len, (b + 1) * len, n);
    lemma_div_is_ordered((b + 1) * len, n * len, n);
    lemma_div_multiples_vanish(len, n);
    assert(n * len == len * n) by (nonlinear_arith);
    assert(0 <= b * len) by (nonlinear_arith)
        requires
            0 <= b,
            0 <= len,
    ;
    vstd::arithmetic::div_mod::lemma_div_pos_is_pos(b * len, n);
}

/// An index clamped onto the last of `n` bins.
pub fn clamp_index(i: usize, n: usize) -> (r: usize)
    requires
        n > 0,
    ensures
        r == (if i >= n { (n - 1) as usize } else { i }),
        r < n,
{
    if i >= n {
        n - 1
    } else {
        i
    }
}

/// Number of analysis frames of `fft_size` samples, `hop` apart, over a
/// buffer of `len` samples: one zero-padded frame when the buffer is shorter
/// than a frame, otherwise every frame that fits.
pub fn analysis_frames(len: usize, fft_size: usize, hop: usize) -> (r: usize)
    requires
        hop > 0,
        fft_size > 0,
    ensures
        r == (if len < fft_size { 1 } else { 1 + (len - fft_size) / (hop as int) }),
        r >= 1,
        len >= fft_size ==> (r - 1) * hop + fft_size <= len,
        len >= fft_size ==> len < r * hop + fft_size,
{
    if len < fft_size {
        1
    } else {
        proof {
            let q = (len - fft_size) as int / (hop as int);
            vstd::arithmetic::div_mod::lemma_fundamental_div_mod((len - fft_size) as int, hop as int);
            assert(0 <= (len - fft_size) as int % (hop as int) < hop);
            assert(q * hop == hop * q) by (nonlinear_arith);
            assert((q + 1) * hop == q * hop + hop) by (nonlinear_arith);
            vstd::arithmetic::div_mod::lemma_div_is_ordered_by_denominator((len - fft_size) as int, 1, hop as int);
        }
        1 + (len - fft_size) / hop
    }
}

/// The bins tile the buffer: they start at 0, each ends where the next one
/// starts, and the last ends at the buffer's end.
pub proof fn lemma_bins_tile(len: int, n: int, b: int)
    requires
        n > 0,
        len >= 0,
        0 <= b < n,
    ensures
        bin_start(0, len, n) == 0,
        b + 1 < n ==> bin_end(b, len, n) == bin_start(b + 1, len, n),
        bin_end(n - 1, len, n) == len,
        bin_start(b, len, n) <= bin_end(b, len, n),
{
    lemma_bin_bounded(b, len, n);
    lemma_bin_bounded(n - 1, len, n);
    assert(0 * len == 0);
    lemma_div_multiples_vanish(len, n);
    assert((n - 1 + 1) * len == n * len);
    assert(n * len == len * n) by (nonlinear_arith);
}

} // verus!
