//! Alignment arithmetic and the placement rule of the bump allocator.

use vstd::prelude::*;
use vstd::arithmetic::div_mod::{lemma_fundamental_div_mod, lemma_mod_multiples_basic};

verus! {

/// The alignment honoured for a requested `align`: zero counts as one.
pub open spec fn effective_align(align: usize) -> nat {
    if align == 0 {
        1
    } else {
        align as nat
    }
}

/// The least multiple of `a` that is at least `v`.
pub open spec fn round_up(v: int, a: nat) -> int {
    if v % (a as int) == 0 {
        v
    } else {
        v + (a - v % (a as int))
    }
}

/// Where a request for `size` bytes aligned to `align` lands when the cursor
/// stands at `cur` and the arena ends at `end`: the start of the block and the
/// cursor just past it, or `None` when the block would run past `end`.
pub open spec fn bump_target(cur: usize, end: usize, size: usize, align: usize) -> Option<(usize, usize)> {
    let start = round_up(cur as int, effective_align(align));
    if start + size <= end {
        Some((start as usize, (start + size) as usize))
    } else {
        None
    }
}

/// `round_up(v, a)` is a multiple of `a`, at least `v`, and less than `v + a`.
pub proof fn lemma_round_up(v: int, a: nat)
    requires
        a > 0,
        v >= 0,
    ensures
        round_up(v, a) % (a as int) == 0,
        v <= round_up(v, a) < v + a,
{
    let ai = a as int;
    lemma_fundamental_div_mod(v, ai);
    let q = v / ai;
    let r = v % ai;
    if r != 0 {
        assert(round_up(v, a) == (q + 1) * ai) by (nonlinear_arith)
            requires
                v == ai * q + r,
                round_up(v, a) == v + (ai - r),
        ;
        lemma_mod_multiples_basic(q + 1, ai);
    }
}

/// A block placed by `bump_target` starts on the alignment, at or after the
/// cursor, and ends where the new cursor stands, within `end`.
pub proof fn lemma_bump_target(cur: usize, end: usize, size: usize, align: usize)
    ensures
        bump_target(cur, end, size, align) matches Some((start, next)) ==> {
            &&& start as int % effective_align(align) as int == 0
            &&& cur <= start
            &&& next == start + size
            &&& next <= end
        },
{
    lemma_round_up(cur as int, effective_align(align));
}

/// Rounds `v` up to a multiple of `a`; `None` when that multiple is past
/// `usize::MAX`.
pub fn align_up(v: usize, a: usize) -> (r: Option<usize>)
    requires
        a > 0,
    ensures
        r matches Some(x) ==> x == round_up(v as int, a as nat),
        r is None ==> round_up(v as int, a as nat) > usize::MAX,
{
    let rem = v % a;
    if rem == 0 {
        Some(v)
    } else {
        let gap = a - rem;
        if v > usize::MAX - gap {
            None
        } else {
            Some(v + gap)
        }
    }
}

/// The placement decision of one allocation attempt: the start of the block
/// and the new cursor, or `None` when the request does not fit before `end`
/// (an overflow of the address space counts as not fitting).
pub fn bump_plan(cur: usize, end: usize, size: usize, align: usize) -> (r: Option<(usize, usize)>)
    ensures
        r == bump_target(cur, end, size, align),
{
    let a: usize = if align == 0 {
        1
    } else {
        align
    };
    match align_up(cur, a) {
        None => None,
        Some(start) => {
            if size <= end && start <= end - size {
                Some((start, start + size))
            } else {
                None
            }
        },
    }
}

} // verus!
