//! The voice pool: a compact list of sounding voices plus a stack of free
//! slots, so the mixing loop walks only the active voices.
use vstd::prelude::*;

verus! {

/// The pool's shape: `active` and `free` together hold each slot below `cap`
/// at most once, every slot they hold is below `cap`, and between them they
/// hold `cap` slots.
pub open spec fn pool_wf(active: Seq<usize>, free: Seq<usize>, cap: nat) -> bool {
    &&& active.len() + free.len() == cap
    &&& forall|i: int, j: int|
        0 <= i < active.len() && 0 <= j < active.len() && i != j ==> active[i] != active[j]
    &&& forall|i: int, j: int|
        0 <= i < free.len() && 0 <= j < free.len() && i != j ==> free[i] != free[j]
    &&& forall|i: int, j: int| 0 <= i < active.len() && 0 <= j < free.len() ==> active[i] != free[j]
    &&& forall|i: int| 0 <= i < active.len() ==> active[i] < cap
    &&& forall|j: int| 0 <= j < free.len() ==> free[j] < cap
}

/// The free stack of a fresh pool: slots `cap-1, ..., 1, 0`, so the first
/// allocation hands out slot 0.
pub open spec fn initial_free(cap: nat) -> Seq<usize> {
    Seq::new(cap, |i: int| (cap - 1 - i) as usize)
}

/// A fresh pool hands out its slots in increasing order: the `k`-th slot
/// popped off a fresh free stack is slot `k`.
pub proof fn lemma_fresh_pool_order(cap: nat, k: int)
    requires
        0 <= k < cap,
        cap <= usize::MAX + 1,
    ensures
        initial_free(cap).len() == cap,
        initial_free(cap)[cap - 1 - k] == k,
        initial_free(cap).last() == 0,
{
}

/// Allocation on the model: pop the top free slot onto the active list, or
/// nothing when no slot is free.
pub open spec fn allocate_model(active: Seq<usize>, free: Seq<usize>) -> (Option<usize>, Seq<usize>, Seq<usize>) {
    if free.len() > 0 {
        (Some(free.last()), active.push(free.last()), free.drop_last())
    } else {
        (None, active, free)
    }
}

/// Release on the model: swap-remove position `k` of the active list and push
/// its slot back on the free stack.
pub open spec fn release_model(active: Seq<usize>, free: Seq<usize>, k: int) -> (usize, Seq<usize>, Seq<usize>) {
    (active[k], active.update(k, active.last()).drop_last(), free.push(active[k]))
}

/// A fixed number of voice slots, split between the sounding voices (in
/// mixing order) and a stack of free slots.
pub struct VoicePool {
    active: Vec<usize>,
    free: Vec<usize>,
    cap: usize,
}

impl VoicePool {
    /// The slots of the sounding voices, in list order.
    pub closed spec fn active_view(&self) -> Seq<usize> {
        self.active@
    }

    /// The free stack, top last.
    pub closed spec fn free_view(&self) -> Seq<usize> {
        self.free@
    }

    pub closed spec fn cap(&self) -> nat {
        self.cap as nat
    }

    pub open spec fn wf(&self) -> bool {
        pool_wf(self.active_view(), self.free_view(), self.cap())
    }

    /// A pool of `cap` voices, all free.
    pub fn new(cap: usize) -> (p: Self)
        ensures
            p.wf(),
            p.cap() == cap,
            p.active_view() == Seq::<usize>::empty(),
            p.free_view() == initial_free(cap as nat),
    {
        let mut free: Vec<usize> = Vec::new();
        let mut i: usize = 0;
        while i < cap
            invariant
                i <= cap,
                free@ == Seq::new(i as nat, |j: int| (cap - 1 - j) as usize),
            decreases cap - i,
        {
            free.push(cap - 1 - i);
            i = i + 1;
        }
        let p = VoicePool { active: Vec::new(), free, cap };
        assert(p.free_view() =~= initial_free(cap as nat));
        p
    }

    /// Free every voice: the pool returns to the state `new` builds.
    pub fn reset(&mut self)
        ensures
            final(self).wf(),
            final(self).cap() == old(self).cap(),
            final(self).active_view() == Seq::<usize>::empty(),
            final(self).free_view() == initial_free(old(self).cap()),
    {
        *self = VoicePool::new(self.cap);
    }

    pub fn capacity(&self) -> (r: usize)
        ensures
            r == self.cap(),
    {
        self.cap
    }

    /// Number of sounding voices.
    pub fn active_len(&self) -> (r: usize)
        ensures
            r == self.active_view().len(),
    {
        self.active.len()
    }

    /// Number of free slots.
    pub fn free_len(&self) -> (r: usize)
        ensures
            r == self.free_view().len(),
    {
        self.free.len()
    }

    /// The slot at position `k` of the active list.
    pub fn active_slot(&self, k: usize) -> (r: usize)
        requires
            k < self.active_view().len(),
        ensures
            r == self.active_view()[k as int],
    {
        self.active[k]
    }

    /// Take a free slot for a new voice. `None` exactly when every voice is
    /// sounding; the caller then steals one of the active voices.
    pub fn allocate(&mut self) -> (r: Option<usize>)
        requires
            old(self).wf(),
        ensures
            final(self).wf(),
            final(self).cap() == old(self).cap(),
            (r, final(self).active_view(), final(self).free_view()) == allocate_model(
                old(self).active_view(),
                old(self).free_view(),
            ),
            r is None <==> old(self).active_view().len() == old(self).cap(),
            r matches Some(s) ==> s < old(self).cap() && !old(self).active_view().contains(s),
    {
        match self.free.pop() {
            Some(slot) => {
                self.active.push(slot);
                proof {
                    let a = old(self).active@;
                    let f = old(self).free@;
                    assert(slot == f.last());
                    assert(self.free@ =~= f.drop_last());
                    assert(self.active@ =~= a.push(slot));
                    assert forall|i: int| 0 <= i < a.len() implies a[i] != slot by {
                        assert(slot == f[f.len() - 1]);
                    }
                }
                Some(slot)
            },
            None => None,
        }
    }

    /// Retire the voice at position `k` of the active list: it is swap-removed
    /// (the last active voice takes its place) and its slot goes back on top of
    /// the free stack. Returns the freed slot.
    pub fn release(&mut self, k: usize) -> (r: usize)
        requires
            old(self).wf(),
            k < old(self).active_view().len(),
        ensures
            final(self).wf(),
            final(self).cap() == old(self).cap(),
            (r, final(self).active_view(), final(self).free_view()) == release_model(
                old(self).active_view(),
                old(self).free_view(),
                k as int,
            ),
    {
        let slot = self.active.swap_remove(k);
        self.free.push(slot);
        proof {
            let a = old(self).active@;
            let f = old(self).free@;
            let a2 = a.update(k as int, a.last()).drop_last();
            assert(self.active@ =~= a2);
            assert(self.free@ =~= f.push(slot));
            assert forall|i: int| 0 <= i < a2.len() implies a2[i] != slot by {
                if i == k {
                    assert(a2[i] == a[a.len() - 1]);
                } else {
                    assert(a2[i] == a[i]);
                }
            }
            assert forall|i: int, j: int|
                0 <= i < a2.len() && 0 <= j < a2.len() && i != j implies a2[i] != a2[j] by {
                let ii = if i == k { a.len() - 1 } else { i };
                let jj = if j == k { a.len() - 1 } else { j };
                assert(a2[i] == a[ii]);
                assert(a2[j] == a[jj]);
            }
            assert forall|i: int, j: int|
                0 <= i < a2.len() && 0 <= j < f.len() + 1 implies a2[i] != f.push(slot)[j] by {
                let ii = if i == k { a.len() - 1 } else { i };
                assert(a2[i] == a[ii]);
            }
        }
        slot
    }
}

/// Releasing a voice and then allocating hands the same slot straight back:
/// the free stack is last in, first out.
pub proof fn lemma_release_then_allocate(active: Seq<usize>, free: Seq<usize>, cap: nat, k: int)
    requires
        pool_wf(active, free, cap),
        0 <= k < active.len(),
    ensures
        ({
            let (slot, a1, f1) = release_model(active, free, k);
            let (r, a2, f2) = allocate_model(a1, f1);
            &&& r == Some(slot)
            &&& f2 == free
            &&& a2 == a1.push(slot)
        }),
{
    let (slot, a1, f1) = release_model(active, free, k);
    assert(f1.drop_last() =~= free);
}

/// Every slot below the capacity is held by the pool: it is either sounding
/// (on the active list) or free, and by `pool_wf` never both nor twice.
pub proof fn lemma_every_slot_accounted(active: Seq<usize>, free: Seq<usize>, cap: nat, x: usize)
    requires
        pool_wf(active, free, cap),
        x < cap,
    ensures
        active.contains(x) || free.contains(x),
{
    broadcast use vstd::set::group_set_axioms, vstd::seq_lib::seq_to_set_is_finite;

    let s = active + free;
    assert forall|i: int, j: int| 0 <= i < s.len() && 0 <= j < s.len() && i != j implies s[i] != s[j] by {
        if i < active.len() && j < active.len() {
        } else if i >= active.len() && j >= active.len() {
            assert(s[i] == free[i - active.len()]);
            assert(s[j] == free[j - active.len()]);
        } else if i < active.len() {
            assert(s[j] == free[j - active.len()]);
        } else {
            assert(s[i] == free[i - active.len()]);
        }
    }
    assert(s.no_duplicates());
    s.unique_seq_to_set();
    let t = s.to_set();
    let f = |v: usize| v as int;
    let u = t.map(f);
    assert(vstd::relations::injective_on(f, t));
    vstd::set_lib::lemma_map_size(t, u, f);
    let r = vstd::set_lib::set_int_range(0, cap as int);
    vstd::set_lib::lemma_int_range(0, cap as int);
    assert forall|y: int| u.contains(y) implies r.contains(y) by {
        let v = choose|v: usize| t.contains(v) && f(v) == y;
        let i = choose|i: int| 0 <= i < s.len() && s[i] == v;
        if i < active.len() {
            assert(active[i] < cap);
        } else {
            assert(free[i - active.len()] < cap);
        }
    }
    assert(u.subset_of(r));
    vstd::set_lib::lemma_subset_equality(u, r);
    assert(r.contains(x as int));
    assert(u.contains(x as int));
    let v = choose|v: usize| t.contains(v) && f(v) == x as int;
    assert(v == x);
    let i = choose|i: int| 0 <= i < s.len() && s[i] == x;
    if i < active.len() {
        assert(active[i] == x);
    } else {
        assert(free[i - active.len()] == x);
    }
}

/// Allocating and then releasing the voice just placed at the end of the
/// active list gives back the pool as it was.
pub proof fn lemma_allocate_then_release(active: Seq<usize>, free: Seq<usize>, cap: nat)
    requires
        pool_wf(active, free, cap),
        free.len() > 0,
    ensures
        ({
            let (r, a1, f1) = allocate_model(active, free);
            let (slot, a2, f2) = release_model(a1, f1, a1.len() - 1);
            &&& r == Some(slot)
            &&& a2 == active
            &&& f2 == free
        }),
{
    let (r, a1, f1) = allocate_model(active, free);
    let (slot, a2, f2) = release_model(a1, f1, a1.len() - 1);
    assert(a2 =~= active);
    assert(f2 =~= free);
}

/// Most recursive bounces a grain may carry.
pub const MAX_BOUNCES: u32 = 6;

/// The bounce depth new grains carry: the requested depth, capped at
/// `MAX_BOUNCES`.
pub fn bounce_depth(n: u32) -> (r: u32)
    ensures
        r == (if n < MAX_BOUNCES { n } else { MAX_BOUNCES }),
        r <= MAX_BOUNCES,
{
    if n < MAX_BOUNCES {
        n
    } else {
        MAX_BOUNCES
    }
}

/// The depth a relaunched child grain carries when a grain with `depth`
/// bounces left dies, or `None` when it has none left and cannot relaunch.
/// Every relaunch lowers the depth, so a chain of bounces ends after at most
/// `depth` relaunches.
pub fn child_depth(depth: u32) -> (r: Option<u32>)
    ensures
        r == (if depth > 0 { Some((depth - 1) as u32) } else { None::<u32> }),
        r matches Some(c) ==> c < depth,
{
    if depth > 0 {
        Some(depth - 1)
    } else {
        None
    }
}

} // verus!
