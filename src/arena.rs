//! The arena as an owned value: three counters and the bump rule over them.

use vstd::prelude::*;
use crate::layout::{bump_plan, bump_target, effective_align, lemma_bump_target, round_up};

verus! {

/// A point-in-time summary of an arena.
#[derive(Copy, Clone, Debug, PartialEq, Eq, Structural)]
pub struct HeapStats {
    pub base: usize,
    pub size: usize,
    pub next: usize,
    pub end: usize,
}

impl HeapStats {
    /// The summary of an arena that was never configured.
    pub open spec fn zeroed() -> HeapStats {
        HeapStats { base: 0, size: 0, next: 0, end: 0 }
    }

    /// The counters are in order and `size` spans the arena.
    pub open spec fn is_consistent(self) -> bool {
        &&& self.base <= self.next <= self.end
        &&& self.size == self.end - self.base
    }
}

impl Default for HeapStats {
    fn default() -> (r: HeapStats)
        ensures
            r == HeapStats::zeroed(),
    {
        HeapStats { base: 0, size: 0, next: 0, end: 0 }
    }
}

/// The summary after one request for `size` bytes aligned to `align`, and
/// the start of the block handed out, if any.
pub open spec fn step(s: HeapStats, size: usize, align: usize) -> (HeapStats, Option<usize>) {
    match bump_target(s.next, s.end, size, align) {
        Some((start, next)) => (HeapStats { base: s.base, size: s.size, next: next, end: s.end }, Some(start)),
        None => (s, None),
    }
}

/// The summary after the requests `reqs`, each a size and an alignment, are
/// served one after another from `s` by `Arena::allocate`, and the outcome of
/// each.
pub open spec fn run(s: HeapStats, reqs: Seq<(usize, usize)>) -> (HeapStats, Seq<Option<usize>>)
    decreases reqs.len(),
{
    if reqs.len() == 0 {
        (s, Seq::empty())
    } else {
        let prev = run(s, reqs.drop_last());
        let last = step(prev.0, reqs.last().0, reqs.last().1);
        (last.0, prev.1.push(last.1))
    }
}

/// The total size of the requests among `reqs` whose outcome in `outs` is a
/// block.
pub open spec fn granted_bytes(reqs: Seq<(usize, usize)>, outs: Seq<Option<usize>>) -> nat
    decreases reqs.len(),
{
    if reqs.len() == 0 || outs.len() == 0 {
        0
    } else {
        granted_bytes(reqs.drop_last(), outs.drop_last()) + if outs.last() is Some {
            reqs.last().0 as nat
        } else {
            0
        }
    }
}

/// The total size of the requests `reqs`.
pub open spec fn requested_bytes(reqs: Seq<(usize, usize)>) -> nat
    decreases reqs.len(),
{
    if reqs.len() == 0 {
        0
    } else {
        requested_bytes(reqs.drop_last()) + reqs.last().0 as nat
    }
}

/// What a run of requests does to the counters and where its blocks lie.
proof fn lemma_run(s: HeapStats, reqs: Seq<(usize, usize)>)
    requires
        s.is_consistent(),
    ensures
        run(s, reqs).0.is_consistent(),
        run(s, reqs).0.base == s.base,
        run(s, reqs).0.end == s.end,
        s.next <= run(s, reqs).0.next,
        run(s, reqs).1.len() == reqs.len(),
        forall|i: int|
            0 <= i < reqs.len() && #[trigger] run(s, reqs).1[i] is Some ==> {
                &&& s.next <= run(s, reqs).1[i]->0
                &&& run(s, reqs).1[i]->0 + reqs[i].0 <= run(s, reqs).0.next
                &&& run(s, reqs).1[i]->0 as int % effective_align(reqs[i].1) as int == 0
            },
        forall|i: int, j: int|
            0 <= i < j < reqs.len() && #[trigger] run(s, reqs).1[i] is Some
                && #[trigger] run(s, reqs).1[j] is Some
                ==> run(s, reqs).1[i]->0 + reqs[i].0 <= run(s, reqs).1[j]->0,
        granted_bytes(reqs, run(s, reqs).1) <= run(s, reqs).0.next - s.next,
        (forall|i: int| 0 <= i < reqs.len() ==> #[trigger] run(s, reqs).1[i] is Some)
            ==> granted_bytes(reqs, run(s, reqs).1) == requested_bytes(reqs),
    decreases reqs.len(),
{
    if reqs.len() > 0 {
        let pre = reqs.drop_last();
        lemma_run(s, pre);
        let mid = run(s, pre).0;
        let outs0 = run(s, pre).1;
        let (size, align) = reqs.last();
        lemma_bump_target(mid.next, mid.end, size, align);
        let outs = run(s, reqs).1;
        assert(outs == outs0.push(step(mid, size, align).1));
        assert(outs.drop_last() =~= outs0);
        assert forall|i: int| 0 <= i < pre.len() implies outs[i] == outs0[i] && reqs[i] == pre[i] by {}
        if forall|i: int| 0 <= i < reqs.len() ==> #[trigger] outs[i] is Some {
            assert forall|i: int| 0 <= i < pre.len() implies #[trigger] outs0[i] is Some by {
                assert(outs[i] is Some);
            }
            assert(outs[pre.len() as int] is Some);
        }
    }
}

/// Requests served from one arena get blocks that lie inside the arena, past
/// the cursor they started from, and pairwise apart: a block granted earlier
/// ends at or before the start of any block granted later.
pub proof fn lemma_blocks_disjoint(s: HeapStats, reqs: Seq<(usize, usize)>)
    requires
        s.is_consistent(),
    ensures
        run(s, reqs).1.len() == reqs.len(),
        forall|i: int|
            0 <= i < reqs.len() && #[trigger] run(s, reqs).1[i] is Some ==> {
                &&& s.base <= s.next <= run(s, reqs).1[i]->0
                &&& run(s, reqs).1[i]->0 + reqs[i].0 <= s.end
            },
        forall|i: int, j: int|
            0 <= i < j < reqs.len() && #[trigger] run(s, reqs).1[i] is Some
                && #[trigger] run(s, reqs).1[j] is Some
                ==> run(s, reqs).1[i]->0 + reqs[i].0 <= run(s, reqs).1[j]->0,
{
    lemma_run(s, reqs);
}

/// Every block handed out starts on the alignment its request asked for.
pub proof fn lemma_blocks_aligned(s: HeapStats, reqs: Seq<(usize, usize)>)
    requires
        s.is_consistent(),
    ensures
        forall|i: int|
            0 <= i < reqs.len() && #[trigger] run(s, reqs).1[i] is Some
                ==> run(s, reqs).1[i]->0 as int % effective_align(reqs[i].1) as int == 0,
{
    lemma_run(s, reqs);
}

/// Requests contending for the bytes left between the cursor and the end of
/// the arena are granted at most those bytes in total; when they ask for
/// more, at least one of them is refused.
pub proof fn lemma_contention_bounded(s: HeapStats, reqs: Seq<(usize, usize)>)
    requires
        s.is_consistent(),
    ensures
        granted_bytes(reqs, run(s, reqs).1) <= s.end - s.next,
        requested_bytes(reqs) > s.end - s.next ==> exists|i: int|
            0 <= i < reqs.len() && #[trigger] run(s, reqs).1[i] is None,
{
    lemma_run(s, reqs);
}

/// An arena owned by one execution context: a region `[base, end)` and the
/// cursor `next` below which every byte has been handed out.
pub struct Arena {
    base: usize,
    end: usize,
    next: usize,
}

impl View for Arena {
    type V = HeapStats;

    closed spec fn view(&self) -> HeapStats {
        HeapStats { base: self.base, size: (self.end - self.base) as usize, next: self.next, end: self.end }
    }
}

impl Arena {
    /// The counters are in order.
    pub closed spec fn wf(&self) -> bool {
        self.base <= self.next <= self.end
    }

    /// An arena that was never configured: every counter is zero.
    pub fn new() -> (r: Arena)
        ensures
            r.wf(),
            r@ == HeapStats::zeroed(),
    {
        Arena { base: 0, end: 0, next: 0 }
    }

    /// Points the arena at `[base, base + size)` and rewinds the cursor to
    /// `base`, forgetting every block handed out before.
    pub fn configure(&mut self, base: usize, size: usize)
        requires
            base + size <= usize::MAX,
        ensures
            final(self).wf(),
            final(self)@ == (HeapStats { base, size, next: base, end: (base + size) as usize }),
    {
        self.base = base;
        self.end = base + size;
        self.next = base;
    }

    /// Hands out `size` bytes aligned to `align`, or `None` when they do not
    /// fit before the end of the arena; a refused request changes nothing.
    pub fn allocate(&mut self, size: usize, align: usize) -> (r: Option<usize>)
        requires
            old(self).wf(),
        ensures
            final(self).wf(),
            (final(self)@, r) == step(old(self)@, size, align),
            r matches Some(a) ==> {
                &&& a as int % effective_align(align) as int == 0
                &&& old(self)@.next <= a
                &&& a + size == final(self)@.next
                &&& final(self)@.next <= old(self)@.end
            },
            r is None <==> round_up(old(self)@.next as int, effective_align(align)) + size > old(self)@.end,
            r is None ==> final(self)@ == old(self)@,
    {
        proof {
            lemma_bump_target(self.next, self.end, size, align);
        }
        match bump_plan(self.next, self.end, size, align) {
            Some((start, next)) => {
                self.next = next;
                Some(start)
            },
            None => None,
        }
    }

    /// Takes a block back; blocks are never reused, so nothing changes.
    pub fn deallocate(&mut self, addr: usize, size: usize, align: usize)
        ensures
            final(self)@ == old(self)@,
            final(self).wf() == old(self).wf(),
    {
    }

    /// The current counters.
    pub fn stats(&self) -> (r: HeapStats)
        requires
            self.wf(),
        ensures
            r == self@,
            r.is_consistent(),
    {
        HeapStats { base: self.base, size: self.end - self.base, next: self.next, end: self.end }
    }
}

} // verus!
