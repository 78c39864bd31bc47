//! The shared arena and the lock-free bump allocator that serves it, behind
//! the capability surface that every build of the memory subsystem offers.

use vstd::prelude::*;
use std::sync::atomic::{AtomicUsize, Ordering};
use crate::arena::{step, HeapStats};
use crate::layout::{bump_plan, bump_target, effective_align, lemma_bump_target};

verus! {

/// Initialises the memory subsystem. The arena becomes usable only once it is
/// configured, so there is nothing to do here; calling it again is harmless.
pub fn init() {
}

/// The capability surface of the memory subsystem. A build provides exactly
/// one implementation of it, and code above it never asks which.
pub trait HeapFace {
    /// Prepares the subsystem; idempotent.
    fn init(&self);

    /// Hands the region `[base, base + size)` to the allocator and rewinds its
    /// cursor. Not to be called while allocations are in flight.
    fn set_heap_region(&self, base: usize, size: usize)
        requires
            base + size <= usize::MAX,
    ;

    /// A diagnostic snapshot of the arena's counters.
    fn heap_stats(&self) -> HeapStats;

    /// Hands out `size` bytes aligned to `align`, or `None` when they cannot be
    /// had.
    fn allocate(&self, size: usize, align: usize) -> (r: Option<usize>)
        ensures
            r matches Some(a) ==> a as int % effective_align(align) as int == 0,
    ;

    /// Takes a block back.
    fn deallocate(&self, addr: usize, size: usize, align: usize);
}

/// The arena shared between execution contexts: its bounds and its cursor,
/// each held in an atomic and always accessed sequentially consistently.
pub struct HeapRegion {
    base: AtomicUsize,
    end: AtomicUsize,
    next: AtomicUsize,
}

impl HeapRegion {
    /// A region that was never configured: every counter is zero.
    pub fn new() -> HeapRegion {
        HeapRegion { base: AtomicUsize::new(0), end: AtomicUsize::new(0), next: AtomicUsize::new(0) }
    }

    /// Publishes `[base, base + size)` as the arena and rewinds the cursor to
    /// `base`. Blocks handed out under an earlier configuration are forgotten.
    /// Not to be called while allocations are in flight: a request that sees the
    /// cursor move backwards under it gives up (see `after_cas`).
    pub fn set_heap_region(&self, base: usize, size: usize)
        requires
            base + size <= usize::MAX,
    {
        self.base.store(base, Ordering::SeqCst);
        self.end.store(base + size, Ordering::SeqCst);
        self.next.store(base, Ordering::SeqCst);
    }

    /// Reads the counters one after another. Under concurrent allocation they
    /// may come from different instants, so the snapshot is for diagnostics
    /// only; `size` is the distance from `base` to `end`, or zero where the two
    /// reads disagree.
    pub fn heap_stats(&self) -> (r: HeapStats)
        ensures
            r.size == (if r.base <= r.end { r.end - r.base } else { 0 }),
    {
        let base = self.base.load(Ordering::SeqCst);
        let end = self.end.load(Ordering::SeqCst);
        let next = self.next.load(Ordering::SeqCst);
        HeapStats { base, size: end.saturating_sub(base), next, end }
    }
}

/// What an allocation attempt does next, once its compare-and-swap on the
/// cursor has come back.
#[derive(Copy, Clone, Debug, PartialEq, Eq, Structural)]
pub enum CasStep {
    /// The request is over, with this result.
    Done(Option<usize>),
    /// Another context moved the cursor first: try again from this cursor.
    Retry(usize),
}

/// The decision after the compare-and-swap that tried to move the cursor
/// from `cur` past a block at `start`. Success hands out the block. A cursor
/// that moved forwards means another request won the race, and the attempt
/// is repeated from where it now stands. A cursor that did not move forwards
/// can only come from the region being configured again while this request
/// was in flight; the request then gives up rather than place a block that
/// spans two configurations.
pub fn after_cas(cur: usize, start: usize, outcome: Result<usize, usize>) -> (r: CasStep)
    ensures
        r == match outcome {
            Ok(_) => CasStep::Done(Some(start)),
            Err(seen) => if seen <= cur {
                CasStep::Done(None)
            } else {
                CasStep::Retry(seen)
            },
        },
{
    match outcome {
        Ok(_) => CasStep::Done(Some(start)),
        Err(seen) => {
            if seen <= cur {
                CasStep::Done(None)
            } else {
                CasStep::Retry(seen)
            }
        },
    }
}

/// The lock-free bump allocator: it advances the cursor of its region by
/// compare-and-swap and never takes memory back.
pub struct BumpAlloc {
    region: HeapRegion,
}

impl BumpAlloc {
    /// An allocator over a region that is not configured yet.
    pub fn new() -> BumpAlloc {
        BumpAlloc { region: HeapRegion::new() }
    }
}

impl HeapFace for BumpAlloc {
    fn init(&self) {
        init();
    }

    fn set_heap_region(&self, base: usize, size: usize) {
        self.region.set_heap_region(base, size);
    }

    fn heap_stats(&self) -> HeapStats {
        self.region.heap_stats()
    }

    /// Hands out `size` bytes aligned to `align`, or `None` when they do not
    /// fit before the end of the region. Each attempt reads the cursor, places
    /// the block by `bump_plan` and claims it with a compare-and-swap, whose
    /// outcome `after_cas` turns into the result or into the cursor to try
    /// again from. A refused request writes nothing. A block handed out is the
    /// one `Arena::allocate` hands out from the cursor and end that the
    /// successful attempt read.
    fn allocate(&self, size: usize, align: usize) -> (r: Option<usize>)
        ensures
            r matches Some(a) ==> {
                &&& a as int % effective_align(align) as int == 0
                &&& exists|cur: usize, end: usize| #[trigger]
                    bump_target(cur, end, size, align) == Some((a, (a + size) as usize))
                &&& exists|s: HeapStats| s.is_consistent() && #[trigger] step(s, size, align).1 == Some(a)
            },
    {
        let mut cur = self.region.next.load(Ordering::SeqCst);
        loop
            decreases usize::MAX - cur,
        {
            let end = self.region.end.load(Ordering::SeqCst);
            proof {
                lemma_bump_target(cur, end, size, align);
            }
            match bump_plan(cur, end, size, align) {
                None => {
                    return None;
                },
                Some((start, next)) => {
                    proof {
                        let s = HeapStats { base: cur, size: (end - cur) as usize, next: cur, end };
                        assert(s.is_consistent() && step(s, size, align).1 == Some(start));
                    }
                    let outcome = self.region.next.compare_exchange(cur, next, Ordering::SeqCst, Ordering::SeqCst);
                    match after_cas(cur, start, outcome) {
                        CasStep::Done(r) => {
                            return r;
                        },
                        CasStep::Retry(seen) => {
                            cur = seen;
                        },
                    }
                },
            }
        }
    }

    /// Takes a block back: blocks are never reused, so this does nothing.
    fn deallocate(&self, addr: usize, size: usize, align: usize) {
    }
}

} // verus!
