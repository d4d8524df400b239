//! Index arithmetic of the circular buffers: write cursors, the shimmer's
//! power-of-two delay line, and the four taps of cubic interpolation.
use vstd::prelude::*;

verus! {

/// Advance a cursor over a buffer of `len` slots, going back to 0 at the end.
pub fn wrap_next(i: usize, len: usize) -> (r: usize)
    requires
        i < usize::MAX,
    ensures
        r == (if i + 1 >= len { 0 } else { i + 1 }),
        len > 0 && i < len ==> r == (i + 1) % (len as int),
{
    let n = i + 1;
    proof {
        if len > 0 && i < len {
            if n >= len {
                vstd::arithmetic::div_mod::lemma_mod_self_0(len as int);
            } else {
                vstd::arithmetic::div_mod::lemma_small_mod(n as nat, len as nat);
            }
        }
    }
    if n >= len {
        0
    } else {
        n
    }
}

/// The slot a log write goes to and the next write counter: the counter runs
/// freely (wrapping at 2^32) and the slot is the counter modulo the log size.
pub fn log_slot(counter: u32, cap: usize) -> (r: (usize, u32))
    requires
        cap > 0,
    ensures
        r.0 == (counter as int) % (cap as int),
        r.0 < cap,
        r.1 == (counter as int + 1) % 0x1_0000_0000,
{
    ((counter as usize) % cap, counter.wrapping_add(1))
}

/// How many writes ago slot `i` of an `n`-slot ring was written, when the
/// write counter stands at `w` (0 = the newest entry).
pub fn ring_age(w: usize, n: usize, i: usize) -> (r: usize)
    requires
        i < n,
        w + n <= usize::MAX,
    ensures
        r == (w + n - 1 - i) % (n as int),
        r < n,
{
    (w + n - 1 - i) % n
}

/// Length of the shimmer delay line; a power of two, so indices wrap by mask.
pub const SHIMMER_LEN: usize = 4096;

/// Mask that wraps an index onto the shimmer delay line.
pub const SHIMMER_MASK: usize = 4095;

proof fn lemma_mask_is_mod(x: usize)
    ensures
        x & 4095 == x % 4096,
{
    assert(x & 4095 == x % 4096) by (bit_vector);
}

/// The write cursor after writing one frame at `w`.
pub fn shimmer_next(w: usize) -> (r: usize)
    requires
        w < SHIMMER_LEN,
    ensures
        r == (w + 1) % (SHIMMER_LEN as int),
        r < SHIMMER_LEN,
{
    proof {
        lemma_mask_is_mod((w + 1) as usize);
    }
    (w + 1) & SHIMMER_MASK
}

/// The slot `d` frames before the most recent write, when the next write
/// goes to `w`.
pub fn shimmer_tap(w: usize, d: usize) -> (r: usize)
    requires
        w < SHIMMER_LEN,
        d <= w + SHIMMER_LEN - 1,
    ensures
        r == (w + SHIMMER_LEN - 1 - d) % (SHIMMER_LEN as int),
        r < SHIMMER_LEN,
{
    let base = w + SHIMMER_LEN - 1;
    proof {
        lemma_mask_is_mod((base - d) as usize);
    }
    (base - d) & SHIMMER_MASK
}

/// The four taps of 4-point Catmull-Rom interpolation around sample `i` of a
/// buffer of `len` samples (the first tap repeats sample 0 at the start), or
/// `None` when the buffer is shorter than four samples or `i + 2` falls off
/// its end; the interpolated value is then silence.
pub fn catmull_taps(len: usize, i: usize) -> (r: Option<(usize, usize, usize, usize)>)
    ensures
        r == (if len < 4 || i + 2 >= len {
            None::<(usize, usize, usize, usize)>
        } else {
            Some(
                (
                    (if i >= 1 {
                        i - 1
                    } else {
                        i as int
                    }) as usize,
                    i,
                    (i + 1) as usize,
                    (i + 2) as usize,
                ),
            )
        }),
        r matches Some(t) ==> t.0 < len && t.1 < len && t.2 < len && t.3 < len,
{
    if len < 4 {
        return None;
    }
    if i >= len - 2 {
        return None;
    }
    let s0 = if i >= 1 {
        i - 1
    } else {
        i
    };
    Some((s0, i, i + 1, i + 2))
}

} // verus!
