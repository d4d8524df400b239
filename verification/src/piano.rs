//! The playable keyboard: which notes are black keys, the visible note range
//! and computer-keyboard base for an octave shift, the white keys to draw, and
//! the 128-note masks of held notes (on-screen piano and MIDI).
use vstd::prelude::*;

verus! {

/// Number of MIDI notes.
pub const NOTES: usize = 128;

/// Black keys are the pitch classes C#, D#, F#, G#, A#.
pub open spec fn black_key(n: int) -> bool {
    let pc = n % 12;
    pc == 1 || pc == 3 || pc == 6 || pc == 8 || pc == 10
}

/// Whether note `n` is a black key.
pub fn is_black(n: i32) -> (r: bool)
    ensures
        r == black_key(n as int),
{
    let pc: i32 = match n.checked_rem_euclid(12) {
        Some(m) => m,
        None => 0,
    };
    pc == 1 || pc == 3 || pc == 6 || pc == 8 || pc == 10
}

pub open spec fn clamp_int(x: int, lo: int, hi: int) -> int {
    if x < lo {
        lo
    } else if x > hi {
        hi
    } else {
        x
    }
}

/// The piano layout for an octave shift: the lowest visible note (C3 at
/// shift 0, kept within 0..=100), one past the highest visible note (28
/// semitones up, at most 127) and the note of the computer keyboard's first
/// key (C4 at shift 0, kept within 0..=115).
pub fn piano_range(octave: i32) -> (r: (i32, i32, i32))
    requires
        i32::MIN <= 12 * octave,
        60 + 12 * octave <= i32::MAX,
    ensures
        r.0 == clamp_int(48 + 12 * octave, 0, 100),
        r.1 == (if r.0 + 28 < 127 { r.0 + 28 } else { 127 }),
        r.2 == clamp_int(60 + 12 * octave, 0, 115),
{
    let lo_raw = 48 + octave * 12;
    let lo = if lo_raw < 0 {
        0
    } else if lo_raw > 100 {
        100
    } else {
        lo_raw
    };
    let hi = if lo + 28 < 127 {
        lo + 28
    } else {
        127
    };
    let kb_raw = 60 + octave * 12;
    let kb = if kb_raw < 0 {
        0
    } else if kb_raw > 115 {
        115
    } else {
        kb_raw
    };
    (lo, hi, kb)
}

/// The octave-shift buttons: one octave down or up, kept within -3..=3.
pub fn shift_octave(octave: i32, up: bool) -> (r: i32)
    requires
        i32::MIN < octave < i32::MAX,
    ensures
        r == (if up {
            if octave + 1 < 3 { octave + 1 } else { 3 }
        } else {
            if octave - 1 > -3 { octave - 1 } else { -3 }
        }),
{
    if up {
        let o = octave + 1;
        if o < 3 { o } else { 3 }
    } else {
        let o = octave - 1;
        if o > -3 { o } else { -3 }
    }
}

/// The white keys of `lo..hi`, ascending.
pub fn white_keys(lo: i32, hi: i32) -> (r: Vec<i32>)
    ensures
        forall|i: int| 0 <= i < r@.len() ==> lo <= #[trigger] r@[i] < hi && !black_key(r@[i] as int),
        forall|i: int, j: int| 0 <= i < j < r@.len() ==> #[trigger] r@[i] < #[trigger] r@[j],
        forall|n: i32| lo <= n < hi && !black_key(n as int) ==> #[trigger] r@.contains(n),
{
    let mut r: Vec<i32> = Vec::new();
    if lo >= hi {
        return r;
    }
    let mut n: i32 = lo;
    while n < hi
        invariant
            lo <= n <= hi,
            forall|i: int| 0 <= i < r@.len() ==> lo <= #[trigger] r@[i] < n && !black_key(r@[i] as int),
            forall|i: int, j: int| 0 <= i < j < r@.len() ==> #[trigger] r@[i] < #[trigger] r@[j],
            forall|m: i32| lo <= m < n && !black_key(m as int) ==> #[trigger] r@.contains(m),
        decreases hi - n,
    {
        if !is_black(n) {
            let ghost old_r = r@;
            r.push(n);
            assert(r@[r@.len() - 1] == n);
            assert forall|m: i32| lo <= m < n + 1 && !black_key(m as int) implies #[trigger] r@.contains(m) by {
                if m == n {
                    assert(r@[r@.len() - 1] == m);
                } else {
                    assert(old_r.contains(m));
                    let k = choose|k: int| 0 <= k < old_r.len() && old_r[k] == m;
                    assert(r@[k] == m);
                }
            }
        }
        n = n + 1;
    }
    r
}

/// A black key never neighbours another black key: both notes beside it are
/// white, so it can always be drawn straddling two white keys.
pub proof fn lemma_black_has_white_neighbours(n: int)
    requires
        black_key(n),
    ensures
        !black_key(n - 1),
        !black_key(n + 1),
{
}

/// Two white keys stand side by side only at E–F and B–C (pitch classes 4–5
/// and 11–0); everywhere else a white key is followed by a black one or a
/// black key by a white one. With the isolation of black keys this fixes the
/// whole keyboard pattern.
pub proof fn lemma_white_pairs_at_e_f_and_b_c(n: int)
    ensures
        (!black_key(n) && !black_key(n + 1)) <==> (n % 12 == 4 || n % 12 == 11),
        n % 12 == 0 ==> !black_key(n),
{
}

/// The keyboard pattern repeats every octave.
pub proof fn lemma_black_key_periodic(n: int)
    ensures
        black_key(n + 12) == black_key(n),
        black_key(n - 12) == black_key(n),
{
}

/// A set of held notes, one flag per MIDI note.
pub struct NoteMask {
    held: [bool; 128],
}

/// `n` names a MIDI note.
pub open spec fn in_note_range(n: int) -> bool {
    0 <= n < 128
}

impl NoteMask {
    pub closed spec fn view(&self) -> Seq<bool> {
        self.held@
    }

    /// No note held.
    pub fn new() -> (m: Self)
        ensures
            m.view() == Seq::new(128, |i: int| false),
    {
        let m = NoteMask { held: [false; 128] };
        assert(m.view() =~= Seq::new(128, |i: int| false));
        m
    }

    /// Hold note `n`; a number outside `0..128` changes nothing.
    pub fn press(&mut self, n: i32)
        ensures
            final(self).view() == (if in_note_range(n as int) {
                old(self).view().update(n as int, true)
            } else {
                old(self).view()
            }),
    {
        if 0 <= n && n < 128 {
            self.held[n as usize] = true;
        }
    }

    /// Release note `n`; a number outside `0..128` changes nothing.
    pub fn release(&mut self, n: i32)
        ensures
            final(self).view() == (if in_note_range(n as int) {
                old(self).view().update(n as int, false)
            } else {
                old(self).view()
            }),
    {
        if 0 <= n && n < 128 {
            self.held[n as usize] = false;
        }
    }

    /// Add every note held in `other`.
    pub fn union_with(&mut self, other: &NoteMask)
        ensures
            final(self).view().len() == 128,
            forall|i: int|
                0 <= i < 128 ==> #[trigger] final(self).view()[i] == (old(self).view()[i] || other.view()[i]),
    {
        let mut i: usize = 0;
        while i < 128
            invariant
                0 <= i <= 128,
                self.view().len() == 128,
                forall|j: int| 0 <= j < i ==> #[trigger] self.view()[j] == (old(self).view()[j] || other.view()[j]),
                forall|j: int| i <= j < 128 ==> #[trigger] self.view()[j] == old(self).view()[j],
            decreases 128 - i,
        {
            let h = self.held[i] || other.held[i];
            self.held[i] = h;
            i = i + 1;
        }
    }

    /// Whether note `n` is held.
    pub fn is_held(&self, n: usize) -> (r: bool)
        requires
            n < 128,
        ensures
            r == self.view()[n as int],
    {
        self.held[n]
    }

    /// The flags, note by note.
    pub fn to_array(&self) -> (r: [bool; 128])
        ensures
            r@ == self.view(),
    {
        self.held
    }
}

/// Releasing a note undoes pressing it, when it was not held before.
pub proof fn lemma_press_then_release(held: Seq<bool>, n: int)
    requires
        held.len() == 128,
        in_note_range(n),
        !held[n],
    ensures
        held.update(n, true).update(n, false) == held,
{
    assert(held.update(n, true).update(n, false) =~= held);
}

/// Combining two masks does not depend on their order.
pub proof fn lemma_union_commutes(a: Seq<bool>, b: Seq<bool>)
    requires
        a.len() == 128,
        b.len() == 128,
    ensures
        Seq::new(128, |i: int| a[i] || b[i]) == Seq::new(128, |i: int| b[i] || a[i]),
{
    assert(Seq::new(128, |i: int| a[i] || b[i]) =~= Seq::new(128, |i: int| b[i] || a[i]));
}

} // verus!
