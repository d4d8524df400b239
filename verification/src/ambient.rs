//! Ambient mode's integer state: how many seed foci, how deep the recursive
//! tree of foci grows, when the seeds must be placed again, and where a newly
//! born focus goes.
use vstd::prelude::*;

verus! {

/// Capacity of the constellation of foci.
pub const FOCI_MAX: usize = 48;

/// Most seed foci.
pub const MAX_SEEDS: u32 = 8;

/// Deepest recursion of child foci.
pub const MAX_DEPTH: u32 = 4;

pub open spec fn clamp_seeds(seeds: u32) -> u32 {
    if seeds < 1 {
        1
    } else if seeds > MAX_SEEDS {
        MAX_SEEDS
    } else {
        seeds
    }
}

pub open spec fn clamp_depth(depth: u32) -> u32 {
    if depth > MAX_DEPTH {
        MAX_DEPTH
    } else {
        depth
    }
}

/// The recursion depth the user asks for is kept whenever it is within
/// 0..=4, so depth 0 means no child foci; larger requests become 4. The seed
/// count asked for is kept within 1..=8, and anything outside becomes the
/// nearest bound.
pub proof fn lemma_settings_kept_in_range(seeds: u32, depth: u32)
    ensures
        depth <= MAX_DEPTH ==> clamp_depth(depth) == depth,
        depth > MAX_DEPTH ==> clamp_depth(depth) == MAX_DEPTH,
        clamp_depth(depth) <= depth,
        1 <= seeds <= MAX_SEEDS ==> clamp_seeds(seeds) == seeds,
        seeds < 1 ==> clamp_seeds(seeds) == 1,
        seeds > MAX_SEEDS ==> clamp_seeds(seeds) == MAX_SEEDS,
        1 <= clamp_seeds(seeds) <= MAX_SEEDS,
{
}

/// The integer settings of ambient mode.
pub struct AmbientShape {
    on: bool,
    seeds: u32,
    depth: u32,
    dirty: bool,
}

impl AmbientShape {
    pub closed spec fn spec_on(&self) -> bool {
        self.on
    }

    pub closed spec fn spec_seeds(&self) -> u32 {
        self.seeds
    }

    pub closed spec fn spec_depth(&self) -> u32 {
        self.depth
    }

    /// The seed foci must be placed again before the next update.
    pub closed spec fn spec_dirty(&self) -> bool {
        self.dirty
    }

    /// Off, three seeds, depth two, seeds still to be placed.
    pub fn new() -> (s: Self)
        ensures
            !s.spec_on(),
            s.spec_seeds() == 3,
            s.spec_depth() == 2,
            s.spec_dirty(),
    {
        AmbientShape { on: false, seeds: 3, depth: 2, dirty: true }
    }

    /// Apply new settings: any nonzero `on` switches ambient mode on, the
    /// seed count is kept within 1..=8 and the depth within 0..=4. Switching
    /// the mode or changing the seed count asks for the seeds to be placed
    /// again; otherwise the pending request is kept as it was.
    pub fn configure(&mut self, on: u32, seeds: u32, depth: u32)
        ensures
            final(self).spec_on() == (on != 0),
            final(self).spec_seeds() == clamp_seeds(seeds),
            final(self).spec_depth() == clamp_depth(depth),
            depth <= MAX_DEPTH ==> final(self).spec_depth() == depth,
            depth > MAX_DEPTH ==> final(self).spec_depth() == MAX_DEPTH,
            1 <= seeds <= MAX_SEEDS ==> final(self).spec_seeds() == seeds,
            seeds == 0 ==> final(self).spec_seeds() == 1,
            seeds > MAX_SEEDS ==> final(self).spec_seeds() == MAX_SEEDS,
            final(self).spec_dirty() == (old(self).spec_dirty() || clamp_seeds(seeds)
                != old(self).spec_seeds() || old(self).spec_on() != (on != 0)),
    {
        let was = self.on;
        let now = on != 0;
        let ns = if seeds < 1 {
            1
        } else if seeds > MAX_SEEDS {
            MAX_SEEDS
        } else {
            seeds
        };
        if ns != self.seeds || was != now {
            self.dirty = true;
        }
        self.on = now;
        self.seeds = ns;
        self.depth = if depth > MAX_DEPTH {
            MAX_DEPTH
        } else {
            depth
        };
    }

    /// A new scene was loaded: its span changed, so the seeds move.
    pub fn mark_dirty(&mut self)
        ensures
            final(self).spec_dirty(),
            final(self).spec_on() == old(self).spec_on(),
            final(self).spec_seeds() == old(self).spec_seeds(),
            final(self).spec_depth() == old(self).spec_depth(),
    {
        self.dirty = true;
    }

    /// The seeds were just placed.
    pub fn mark_placed(&mut self)
        ensures
            !final(self).spec_dirty(),
            final(self).spec_on() == old(self).spec_on(),
            final(self).spec_seeds() == old(self).spec_seeds(),
            final(self).spec_depth() == old(self).spec_depth(),
    {
        self.dirty = false;
    }

    pub fn is_on(&self) -> (r: bool)
        ensures
            r == self.spec_on(),
    {
        self.on
    }

    pub fn seeds(&self) -> (r: u32)
        ensures
            r == self.spec_seeds(),
    {
        self.seeds
    }

    pub fn depth(&self) -> (r: u32)
        ensures
            r == self.spec_depth(),
    {
        self.depth
    }

    pub fn is_dirty(&self) -> (r: bool)
        ensures
            r == self.spec_dirty(),
    {
        self.dirty
    }
}

/// The first inactive slot of the constellation, or -1 when all are taken.
pub fn free_focus_slot(active: &[bool]) -> (r: i32)
    requires
        active@.len() <= i32::MAX,
    ensures
        -1 <= r < active@.len(),
        r == -1 <==> forall|i: int| 0 <= i < active@.len() ==> active@[i],
        r >= 0 ==> !active@[r as int] && forall|i: int| 0 <= i < r ==> active@[i],
{
    let mut i: usize = 0;
    while i < active.len()
        invariant
            i <= active@.len() <= i32::MAX,
            forall|j: int| 0 <= j < i ==> active@[j],
        decreases active@.len() - i,
    {
        if !active[i] {
            return i as i32;
        }
        i = i + 1;
    }
    -1
}

/// How far down the tree a focus with `remaining` levels left sits:
/// `max(depth - remaining, 0)`.
pub fn focus_level(depth: u32, remaining: u8) -> (r: u32)
    ensures
        r == (if depth >= remaining { depth - remaining } else { 0 }),
{
    if depth >= remaining as u32 {
        depth - remaining as u32
    } else {
        0
    }
}

/// The level of a child born to a parent with `remaining` levels left:
/// `max(depth - remaining + 1, 0)`.
pub fn child_level(depth: u32, remaining: u8) -> (r: u32)
    requires
        depth < u32::MAX,
    ensures
        r == (if depth + 1 >= remaining { depth + 1 - remaining } else { 0 }),
{
    if depth + 1 >= remaining as u32 {
        depth + 1 - remaining as u32
    } else {
        0
    }
}

} // verus!
