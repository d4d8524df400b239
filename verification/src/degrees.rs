//! Sampling counters: the stratum counter of stratified time sampling and the
//! degree tables (microtonal scale, held keys) from which each new grain picks
//! its pitch.
use vstd::prelude::*;
use crate::music::{chord_table, chord_ratios, Ratio, CHORD_UNISON};

verus! {

/// Sampling modes of the engine.
pub const MODE_RANDOM: u32 = 0;
pub const MODE_QMC: u32 = 1;
pub const MODE_STRATIFIED: u32 = 2;

/// Number of strata of stratified time sampling.
pub const STRATA: u32 = 17;

/// Capacity of the microtonal scale table.
pub const SCALE_CAP: usize = 64;

/// Capacity of the held-keys table.
pub const KEYS_CAP: usize = 16;

/// Take the current stratum and advance the round-robin counter.
pub fn next_stratum(counter: &mut u32) -> (r: u32)
    requires
        *old(counter) < u32::MAX,
    ensures
        r == *old(counter),
        *final(counter) == (*old(counter) + 1) % (STRATA as int),
{
    let r = *counter;
    *counter = (r + 1) % STRATA;
    r
}

/// `min(len, cap)`.
pub open spec fn clamp_len(len: int, cap: int) -> int {
    if len > cap {
        cap
    } else {
        len
    }
}

/// The degree a pick yields on a table of `len` degrees: stratified mode walks
/// the degrees round-robin by `counter`; the other modes take the index drawn
/// by the caller, clamped onto the last degree.
pub open spec fn pick_model(mode: u32, counter: u32, len: nat, drawn: usize) -> usize {
    if mode == MODE_STRATIFIED {
        (counter as int % len as int) as usize
    } else if drawn >= len {
        (len - 1) as usize
    } else {
        drawn
    }
}

/// A table of pitch degrees (a microtonal scale or the held keys): how many
/// entries are in use, the capacity, and the round-robin counter of
/// stratified picking. The entries themselves are the caller's.
pub struct DegreeTable {
    len: usize,
    cap: usize,
    counter: u32,
}

impl DegreeTable {
    pub closed spec fn spec_len(&self) -> nat {
        self.len as nat
    }

    pub closed spec fn spec_cap(&self) -> nat {
        self.cap as nat
    }

    pub closed spec fn spec_counter(&self) -> u32 {
        self.counter
    }

    pub open spec fn wf(&self) -> bool {
        self.spec_len() <= self.spec_cap()
    }

    /// An empty table of capacity `cap`.
    pub fn new(cap: usize) -> (t: Self)
        ensures
            t.wf(),
            t.spec_len() == 0,
            t.spec_cap() == cap,
            t.spec_counter() == 0,
    {
        DegreeTable { len: 0, cap, counter: 0 }
    }

    pub fn len(&self) -> (r: usize)
        ensures
            r == self.spec_len(),
    {
        self.len
    }

    pub fn capacity(&self) -> (r: usize)
        ensures
            r == self.spec_cap(),
    {
        self.cap
    }

    /// Use the first `len` entries (at most the capacity) and restart the
    /// round robin. Zero entries means no table: continuous pitch.
    pub fn set_len(&mut self, len: usize)
        ensures
            final(self).wf(),
            final(self).spec_cap() == old(self).spec_cap(),
            final(self).spec_len() == clamp_len(len as int, old(self).spec_cap() as int),
            len <= old(self).spec_cap() ==> final(self).spec_len() == len,
            len > old(self).spec_cap() ==> final(self).spec_len() == old(self).spec_cap(),
            final(self).spec_counter() == 0,
    {
        self.len = if len > self.cap {
            self.cap
        } else {
            len
        };
        self.counter = 0;
    }

    /// Load a chord preset: the unison empties the table; any other preset
    /// fills it with the preset's ratios, cut to the capacity. Returns the
    /// ratios to write into the table, in order.
    pub fn load_chord(&mut self, preset: u32) -> (r: Vec<Ratio>)
        ensures
            final(self).wf(),
            final(self).spec_cap() == old(self).spec_cap(),
            final(self).spec_counter() == 0,
            preset == CHORD_UNISON ==> r@.len() == 0,
            preset != CHORD_UNISON ==> r@ == chord_table(preset).take(
                clamp_len(chord_table(preset).len() as int, old(self).spec_cap() as int),
            ),
            final(self).spec_len() == r@.len(),
    {
        if preset == CHORD_UNISON {
            self.len = 0;
            self.counter = 0;
            return Vec::new();
        }
        let ratios = chord_ratios(preset);
        let n = if ratios.len() > self.cap {
            self.cap
        } else {
            ratios.len()
        };
        let mut out: Vec<Ratio> = Vec::new();
        let mut i: usize = 0;
        while i < n
            invariant
                n <= ratios@.len(),
                i <= n,
                out@ == ratios@.take(i as int),
            decreases n - i,
        {
            out.push(ratios[i]);
            i = i + 1;
            assert(out@ =~= ratios@.take(i as int));
        }
        self.len = n;
        self.counter = 0;
        out
    }

    /// Pick the degree for a new grain. `drawn` is the index the caller drew
    /// for the random and quasi-random modes; stratified mode ignores it.
    pub fn pick(&mut self, mode: u32, drawn: usize) -> (r: usize)
        requires
            old(self).spec_len() > 0,
        ensures
            r == pick_model(mode, old(self).spec_counter(), old(self).spec_len(), drawn),
            r < old(self).spec_len(),
            mode != MODE_STRATIFIED && drawn < old(self).spec_len() ==> r == drawn,
            mode != MODE_STRATIFIED && drawn >= old(self).spec_len() ==> r + 1 == old(self).spec_len(),
            mode == MODE_STRATIFIED ==> r as int == old(self).spec_counter() as int % old(self).spec_len() as int,
            final(self).spec_len() == old(self).spec_len(),
            final(self).spec_cap() == old(self).spec_cap(),
            final(self).spec_counter() == (if mode == MODE_STRATIFIED {
                (old(self).spec_counter() + 1) % 0x1_0000_0000
            } else {
                old(self).spec_counter() as int
            }),
    {
        if mode == MODE_STRATIFIED {
            let i = (self.counter as usize) % self.len;
            self.counter = self.counter.wrapping_add(1);
            i
        } else if drawn >= self.len {
            self.len - 1
        } else {
            drawn
        }
    }
}

/// Outside stratified mode a pick plays the drawn degree whenever the draw
/// lies inside the table, and the top degree when it lies past the end: the
/// degree never depends on the stratum counter.
pub proof fn lemma_pick_follows_draw(mode: u32, counter: u32, other: u32, len: nat, drawn: usize)
    requires
        mode != MODE_STRATIFIED,
        len > 0,
    ensures
        drawn < len ==> pick_model(mode, counter, len, drawn) == drawn,
        drawn >= len ==> pick_model(mode, counter, len, drawn) + 1 == len,
        pick_model(mode, counter, len, drawn) == pick_model(mode, other, len, drawn),
{
}

/// In stratified mode the draw is ignored and successive counters walk the
/// degrees cyclically: each pick is the next degree after the previous one.
pub proof fn lemma_stratified_steps_by_one(counter: u32, len: nat, d1: usize, d2: usize)
    requires
        len > 0,
        counter < u32::MAX,
    ensures
        pick_model(MODE_STRATIFIED, counter, len, d1) < len,
        pick_model(MODE_STRATIFIED, counter, len, d1) == pick_model(MODE_STRATIFIED, counter, len, d2),
        pick_model(MODE_STRATIFIED, (counter + 1) as u32, len, d1) as int
            == (pick_model(MODE_STRATIFIED, counter, len, d1) as int + 1) % (len as int),
        counter == 0 ==> pick_model(MODE_STRATIFIED, counter, len, d1) == 0,
{
    vstd::arithmetic::div_mod::lemma_add_mod_noop(counter as int, 1, len as int);
    vstd::arithmetic::div_mod::lemma_mod_bound(counter as int, len as int);
    vstd::arithmetic::div_mod::lemma_mod_decreases(counter as nat, len);
    vstd::arithmetic::div_mod::lemma_mod_decreases((counter + 1) as nat, len);
    assert(((counter + 1) as u32) as int == counter + 1);
    if len == 1 {
        vstd::arithmetic::div_mod::lemma_mod_self_0(1);
    } else {
        vstd::arithmetic::div_mod::lemma_small_mod(1, len);
    }
    vstd::arithmetic::div_mod::lemma_small_mod(0, len);
}

/// In stratified mode any `len` consecutive picks (while the counter does not
/// wrap) visit every degree: for each degree `d` one of the counters
/// `c, c+1, ..., c+len-1` yields it.
pub proof fn lemma_round_robin_covers(c: u32, len: nat, d: nat, drawn: usize)
    requires
        len > 0,
        d < len,
        c + len <= u32::MAX + 1,
    ensures
        exists|j: nat|
            j < len && c + j <= u32::MAX && #[trigger] pick_model(
                MODE_STRATIFIED,
                (c + j) as u32,
                len,
                drawn,
            ) == d,
{
    let cm = (c as int) % (len as int);
    let j: nat = if d >= cm {
        (d - cm) as nat
    } else {
        (d + len - cm) as nat
    };
    assert(0 <= cm < len);
    vstd::arithmetic::div_mod::lemma_fundamental_div_mod(c as int, len as int);
    let q = (c as int) / (len as int);
    assert(c as int == len * q + cm);
    if d >= cm {
        assert((c + j) as int == len * q + d);
        vstd::arithmetic::div_mod::lemma_mod_multiples_vanish(q, d as int, len as int);
    } else {
        assert((c + j) as int == len * (q + 1) + (d as int)) by (nonlinear_arith)
            requires
                c as int == len * q + cm,
                j == d + len - cm;
        vstd::arithmetic::div_mod::lemma_mod_multiples_vanish(q + 1, d as int, len as int);
    }
    vstd::arithmetic::div_mod::lemma_small_mod(d, len);
    assert(((c + j) as u32) as int == (c + j) as int);
    assert(pick_model(MODE_STRATIFIED, (c + j) as u32, len, drawn) == d);
}

} // verus!
