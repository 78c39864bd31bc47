use asteria::arena::{Arena, HeapStats};
use asteria::heap::{after_cas, init, BumpAlloc, CasStep, HeapFace, HeapRegion};
use asteria::layout::{align_up, bump_plan};
use asteria::oom::HeapPhase;

fn configured(base: usize, size: usize) -> Arena {
    let mut a = Arena::new();
    a.configure(base, size);
    a
}

#[test]
fn bump_hands_out_consecutive_blocks() {
    let mut a = configured(0x1000, 0x100);
    assert_eq!(a.allocate(0x10, 0x10), Some(0x1000));
    assert_eq!(a.allocate(0x10, 0x10), Some(0x1010));
}

#[test]
fn shared_region_hands_out_consecutive_blocks() {
    let heap = BumpAlloc::new();
    heap.set_heap_region(0x1000, 0x100);
    assert_eq!(heap.allocate(0x10, 0x10), Some(0x1000));
    assert_eq!(heap.allocate(0x10, 0x10), Some(0x1010));
    assert_eq!(heap.heap_stats().next, 0x1020);
}

#[test]
fn stats_after_configure() {
    let a = configured(0x4000, 0x800);
    let s = a.stats();
    assert_eq!(s, HeapStats { base: 0x4000, size: 0x800, next: 0x4000, end: 0x4800 });

    let region = HeapRegion::new();
    region.set_heap_region(0x4000, 0x800);
    assert_eq!(region.heap_stats(), HeapStats { base: 0x4000, size: 0x800, next: 0x4000, end: 0x4800 });
}

#[test]
fn unconfigured_stats_are_zero() {
    assert_eq!(Arena::new().stats(), HeapStats::default());
    assert_eq!(HeapRegion::new().heap_stats(), HeapStats { base: 0, size: 0, next: 0, end: 0 });
    init();
    init();
}

#[test]
fn request_past_end_fails_without_moving_cursor() {
    let mut a = configured(0x1000, 0x100);
    assert_eq!(a.allocate(0x80, 8), Some(0x1000));
    let before = a.stats();
    assert_eq!(a.allocate(0x81, 8), None);
    assert_eq!(a.stats(), before);
    // exactly the rest still fits
    assert_eq!(a.allocate(0x80, 8), Some(0x1080));
    assert_eq!(a.allocate(0, 1), Some(0x1100));
    assert_eq!(a.allocate(1, 1), None);
}

#[test]
fn shared_request_past_end_fails_without_moving_cursor() {
    let heap = BumpAlloc::new();
    heap.set_heap_region(0x1000, 0x100);
    assert_eq!(heap.allocate(0x10, 1), Some(0x1000));
    assert_eq!(heap.allocate(0x100, 1), None);
    assert_eq!(heap.heap_stats().next, 0x1010);
}

#[test]
fn alignment_padding_counts_against_the_end() {
    let mut a = configured(0x1001, 0x20);
    assert_eq!(a.allocate(1, 1), Some(0x1001));
    assert_eq!(a.allocate(4, 0x10), Some(0x1010));
    assert_eq!(a.stats().next, 0x1014);
    // the aligned start 0x1020 leaves room for one byte before the end 0x1021
    assert_eq!(a.allocate(2, 0x20), None);
    assert_eq!(a.stats().next, 0x1014);
    assert_eq!(a.allocate(1, 0x20), Some(0x1020));
}

#[test]
fn blocks_are_aligned() {
    let mut a = configured(0x1003, 0x10000);
    for align in [1usize, 2, 4, 8, 16, 64, 256, 4096] {
        let p = a.allocate(3, align).unwrap();
        assert_eq!(p % align, 0);
    }
}

#[test]
fn zero_alignment_counts_as_one() {
    let mut a = configured(0x1003, 0x10);
    assert_eq!(a.allocate(2, 0), Some(0x1003));
    assert_eq!(a.allocate(2, 0), Some(0x1005));
}

#[test]
fn blocks_are_disjoint_and_inside() {
    let base = 0x2000usize;
    let len = 0x200usize;
    let mut a = configured(base, len);
    let reqs = [(24usize, 8usize), (1, 1), (100, 64), (7, 2), (300, 16), (16, 16), (0, 32), (40, 4)];
    let mut got: Vec<(usize, usize)> = Vec::new();
    for (size, align) in reqs {
        if let Some(p) = a.allocate(size, align) {
            assert!(p >= base && p + size <= base + len);
            got.push((p, size));
        }
    }
    assert!(got.len() >= 5);
    for i in 0..got.len() {
        for j in (i + 1)..got.len() {
            let (pi, si) = got[i];
            let (pj, sj) = got[j];
            assert!(pi + si <= pj || pj + sj <= pi);
        }
    }
}

#[test]
fn contention_grants_at_most_what_is_left() {
    let mut a = configured(0x3000, 0x100);
    assert_eq!(a.allocate(0xC0, 1), Some(0x3000));
    let left = 0x40usize;
    let sizes = [0x18usize, 0x18, 0x18, 0x18];
    let mut granted = 0usize;
    let mut refused = 0usize;
    for s in sizes {
        match a.allocate(s, 1) {
            Some(_) => granted += s,
            None => refused += 1,
        }
    }
    assert!(granted <= left);
    assert_eq!(granted, 0x30);
    assert_eq!(refused, 2);
}

#[test]
fn deallocate_changes_nothing() {
    let mut a = configured(0x1000, 0x100);
    let mut b = configured(0x1000, 0x100);
    let p = a.allocate(0x20, 8).unwrap();
    assert_eq!(b.allocate(0x20, 8), Some(p));
    a.deallocate(p, 0x20, 8);
    a.deallocate(0x1000, 0x100, 1);
    assert_eq!(a.stats(), b.stats());
    assert_eq!(a.allocate(0x10, 0x10), b.allocate(0x10, 0x10));
    assert_eq!(a.allocate(0x100, 1), None);

    let heap = BumpAlloc::new();
    heap.set_heap_region(0x1000, 0x100);
    let q = heap.allocate(0x20, 8).unwrap();
    heap.deallocate(q, 0x20, 8);
    assert_eq!(heap.allocate(0x20, 8), Some(0x1020));
}

#[test]
fn reconfigure_rewinds_cursor() {
    let mut a = configured(0x1000, 0x100);
    assert_eq!(a.allocate(0x40, 1), Some(0x1000));
    a.configure(0x8000, 0x10);
    assert_eq!(a.stats(), HeapStats { base: 0x8000, size: 0x10, next: 0x8000, end: 0x8010 });
    assert_eq!(a.allocate(0x10, 1), Some(0x8000));
}

#[test]
fn top_of_address_space_overflow_fails() {
    let base = usize::MAX - 0x10;
    let mut a = configured(base, 0x10);
    assert_eq!(a.allocate(4, 1), Some(base));
    assert_eq!(a.allocate(4, 1 << 20), None);
    assert_eq!(a.stats().next, base + 4);
    assert_eq!(a.allocate(usize::MAX, 1), None);
}

#[test]
fn align_up_rounds_to_multiples() {
    assert_eq!(align_up(0, 8), Some(0));
    assert_eq!(align_up(1, 8), Some(8));
    assert_eq!(align_up(8, 8), Some(8));
    assert_eq!(align_up(9, 8), Some(16));
    assert_eq!(align_up(0x1001, 0x1000), Some(0x2000));
    assert_eq!(align_up(13, 1), Some(13));
    assert_eq!(align_up(usize::MAX, 2), None);
    assert_eq!(align_up(usize::MAX - 7, 8), Some(usize::MAX - 7));
}

#[test]
fn bump_plan_places_blocks() {
    assert_eq!(bump_plan(0x1001, 0x1100, 0x10, 0x10), Some((0x1010, 0x1020)));
    assert_eq!(bump_plan(0x1001, 0x1100, 0x100, 0x10), None);
    assert_eq!(bump_plan(0x10f0, 0x1100, 0x10, 0x10), Some((0x10f0, 0x1100)));
    assert_eq!(bump_plan(5, 100, 3, 0), Some((5, 8)));
    assert_eq!(bump_plan(usize::MAX - 1, usize::MAX, 4, 1), None);
}

#[test]
fn exhausted_phase_is_absorbing() {
    let p = HeapPhase::Ready;
    assert_eq!(p.after(Some(0x1000)), HeapPhase::Ready);
    let q = p.after(None);
    assert_eq!(q, HeapPhase::Exhausted);
    assert!(q.is_exhausted());
    assert_eq!(q.after(Some(0x1000)), HeapPhase::Exhausted);
    assert!(!HeapPhase::Ready.is_exhausted());
}

#[test]
fn unconfigured_heap_refuses_memory() {
    let heap = BumpAlloc::new();
    heap.init();
    assert_eq!(heap.allocate(1, 1), None);
    let mut a = Arena::new();
    assert_eq!(a.allocate(1, 8), None);
}

#[test]
fn cas_outcome_decides_next_step() {
    assert_eq!(after_cas(0x1000, 0x1010, Ok(0x1000)), CasStep::Done(Some(0x1010)));
    assert_eq!(after_cas(0x1000, 0x1010, Err(0x1040)), CasStep::Retry(0x1040));
    assert_eq!(after_cas(0x1040, 0x1040, Err(0x1000)), CasStep::Done(None));
    assert_eq!(after_cas(0x1040, 0x1040, Err(0x1040)), CasStep::Done(None));
}
