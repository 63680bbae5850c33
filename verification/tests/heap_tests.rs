use bare_runtime::heap::{
    align, allocate, dealloc, defragment, defragment_backward, defragment_forward, malloc_init,
    split_block, Block, Heap, HEADER_SIZE, QUANTUM,
};

const START: usize = 0x2000_0400;

fn heap_with(usable: usize) -> Heap {
    Heap::new(START, usable + HEADER_SIZE).unwrap()
}

fn blocks_of(heap: &Heap) -> Vec<Block> {
    (0..heap.block_count()).map(|i| heap.block(i).unwrap()).collect()
}

fn footprint(heap: &Heap) -> usize {
    blocks_of(heap).iter().map(|b| HEADER_SIZE + b.size).sum()
}

fn no_free_neighbours(heap: &Heap) -> bool {
    let blocks = blocks_of(heap);
    blocks.windows(2).all(|w| !(w[0].free && w[1].free))
}

fn tiles(heap: &Heap) -> bool {
    let blocks = blocks_of(heap);
    if blocks.is_empty() {
        return true;
    }
    let mut at = heap.start();
    for b in &blocks {
        if b.addr != at {
            return false;
        }
        at = b.addr + HEADER_SIZE + b.size;
    }
    at == heap.start() + heap.size()
}

#[test]
fn align_rounds_up_to_the_quantum() {
    assert_eq!(align(0), 4);
    assert_eq!(align(1), 4);
    assert_eq!(align(3), 4);
    assert_eq!(align(4), 4);
    assert_eq!(align(5), 8);
    assert_eq!(align(100), 100);
    assert_eq!(align(101), 104);
    assert_eq!(align(usize::MAX - 3), usize::MAX - 3);
    assert_eq!(QUANTUM, 4);
}

#[test]
fn new_refuses_a_range_without_room_for_a_header() {
    assert!(Heap::new(START, HEADER_SIZE - 1).is_none());
    assert!(Heap::new(START, HEADER_SIZE).is_some());
    assert!(Heap::new(usize::MAX - 10, 64).is_none());
    assert!(Heap::new(usize::MAX - 64, 64).is_some());
}

#[test]
fn new_heap_has_no_table_yet() {
    let heap = heap_with(1024);
    assert_eq!(heap.start(), START);
    assert_eq!(heap.size(), 1024 + HEADER_SIZE);
    assert_eq!(heap.block_count(), 0);
    assert_eq!(heap.block(0), None);
}

#[test]
fn malloc_init_makes_one_free_block() {
    let mut heap = heap_with(1024);
    malloc_init(&mut heap);
    assert_eq!(blocks_of(&heap), vec![Block { addr: START, size: 1024, free: true }]);
}

#[test]
fn first_allocation_sets_the_table_up_and_splits() {
    let mut heap = heap_with(1024);
    let p = allocate(&mut heap, 100);
    assert_eq!(p, Some(START + HEADER_SIZE));
    assert_eq!(
        blocks_of(&heap),
        vec![
            Block { addr: START, size: 100, free: false },
            Block { addr: START + HEADER_SIZE + 100, size: 1024 - 100 - HEADER_SIZE, free: true },
        ]
    );
}

#[test]
fn region_example_allocate_exhaust_release_allocate_all() {
    let mut heap = heap_with(1024);
    let p = allocate(&mut heap, 100).unwrap();
    assert_eq!(heap.block(0), Some(Block { addr: START, size: 100, free: false }));
    assert_eq!(heap.block(1).unwrap().size, 1024 - 100 - HEADER_SIZE);
    assert!(heap.block(1).unwrap().free);
    assert_eq!(allocate(&mut heap, 2000), None);
    assert_eq!(heap.block_count(), 2);
    dealloc(&mut heap, p);
    assert_eq!(blocks_of(&heap), vec![Block { addr: START, size: 1024, free: true }]);
    let q = allocate(&mut heap, 1024 - HEADER_SIZE);
    assert_eq!(q, Some(START + HEADER_SIZE));
}

#[test]
fn three_blocks_free_middle_then_first() {
    let mut heap = heap_with(1024);
    let a = allocate(&mut heap, 64).unwrap();
    let b = allocate(&mut heap, 64).unwrap();
    let c = allocate(&mut heap, 64).unwrap();
    assert_eq!(b, a + 64 + HEADER_SIZE);
    assert_eq!(c, b + 64 + HEADER_SIZE);
    dealloc(&mut heap, b);
    assert_eq!(heap.block(1), Some(Block { addr: b - HEADER_SIZE, size: 64, free: true }));
    dealloc(&mut heap, a);
    assert_eq!(
        heap.block(0),
        Some(Block { addr: a - HEADER_SIZE, size: 64 + 64 + HEADER_SIZE, free: true })
    );
    assert_eq!(heap.block(1), Some(Block { addr: c - HEADER_SIZE, size: 64, free: false }));
    assert_eq!(heap.block_count(), 3);
}

#[test]
fn freeing_between_two_free_blocks_merges_all_three() {
    let mut heap = heap_with(1024);
    let a = allocate(&mut heap, 32).unwrap();
    let b = allocate(&mut heap, 32).unwrap();
    let c = allocate(&mut heap, 32).unwrap();
    let d = allocate(&mut heap, 32).unwrap();
    dealloc(&mut heap, a);
    dealloc(&mut heap, c);
    assert_eq!(heap.block_count(), 5);
    dealloc(&mut heap, b);
    assert_eq!(
        heap.block(0),
        Some(Block { addr: START, size: 3 * 32 + 2 * HEADER_SIZE, free: true })
    );
    assert_eq!(heap.block(1), Some(Block { addr: d - HEADER_SIZE, size: 32, free: false }));
    assert_eq!(heap.block_count(), 3);
}

#[test]
fn split_threshold_is_one_header_and_one_quantum() {
    // exactly header + quantum to spare: used whole
    let usable = 40 + HEADER_SIZE + QUANTUM;
    let mut heap = heap_with(usable);
    let p = allocate(&mut heap, 40);
    assert_eq!(p, Some(START + HEADER_SIZE));
    assert_eq!(blocks_of(&heap), vec![Block { addr: START, size: usable, free: false }]);

    // one quantum more to spare: split
    let usable = 40 + HEADER_SIZE + 2 * QUANTUM;
    let mut heap = heap_with(usable);
    allocate(&mut heap, 40);
    assert_eq!(
        blocks_of(&heap),
        vec![
            Block { addr: START, size: 40, free: false },
            Block { addr: START + HEADER_SIZE + 40, size: 2 * QUANTUM, free: true },
        ]
    );
}

#[test]
fn request_is_rounded_up() {
    let mut heap = heap_with(1024);
    allocate(&mut heap, 1);
    assert_eq!(heap.block(0), Some(Block { addr: START, size: 4, free: false }));
    allocate(&mut heap, 0);
    assert_eq!(heap.block(1).unwrap().size, 4);
    assert!(!heap.block(1).unwrap().free);
    allocate(&mut heap, 13);
    assert_eq!(heap.block(2).unwrap().size, 16);
}

#[test]
fn first_fit_takes_the_lowest_block_that_is_large_enough() {
    let mut heap = heap_with(1024);
    let a = allocate(&mut heap, 16).unwrap();
    let _b = allocate(&mut heap, 16).unwrap();
    let c = allocate(&mut heap, 200).unwrap();
    let _d = allocate(&mut heap, 16).unwrap();
    dealloc(&mut heap, a);
    dealloc(&mut heap, c);
    // the hole at a is too small, the one at c is the first that fits
    assert_eq!(allocate(&mut heap, 100), Some(c));
    // a small request goes to the lowest hole
    assert_eq!(allocate(&mut heap, 8), Some(a));
}

#[test]
fn a_request_too_large_for_any_block_fails_and_changes_nothing() {
    let mut heap = heap_with(256);
    allocate(&mut heap, 64).unwrap();
    let before = blocks_of(&heap);
    assert_eq!(allocate(&mut heap, 1000), None);
    assert_eq!(allocate(&mut heap, usize::MAX), None);
    assert_eq!(allocate(&mut heap, usize::MAX - 2), None);
    assert_eq!(blocks_of(&heap), before);
}

#[test]
fn a_failed_first_allocation_still_sets_the_table_up() {
    let mut heap = heap_with(64);
    assert_eq!(allocate(&mut heap, 65), None);
    assert_eq!(blocks_of(&heap), vec![Block { addr: START, size: 64, free: true }]);
    let mut heap = heap_with(64);
    assert_eq!(allocate(&mut heap, usize::MAX), None);
    assert_eq!(heap.block_count(), 1);
}

#[test]
fn double_free_and_foreign_addresses_change_nothing() {
    let mut heap = heap_with(512);
    let a = allocate(&mut heap, 32).unwrap();
    let b = allocate(&mut heap, 32).unwrap();
    dealloc(&mut heap, a);
    let before = blocks_of(&heap);
    dealloc(&mut heap, a);
    assert_eq!(blocks_of(&heap), before);
    dealloc(&mut heap, b + 4);
    dealloc(&mut heap, 0);
    dealloc(&mut heap, b - HEADER_SIZE);
    assert_eq!(blocks_of(&heap), before);
}

#[test]
fn dealloc_on_a_heap_without_table_does_nothing() {
    let mut heap = heap_with(512);
    dealloc(&mut heap, START + HEADER_SIZE);
    assert_eq!(heap.block_count(), 0);
}

#[test]
fn bytes_are_conserved_through_every_step() {
    let mut heap = heap_with(2048);
    let mut live = Vec::new();
    for (step, size) in [24usize, 100, 7, 300, 64, 1, 512, 40].iter().enumerate() {
        if let Some(p) = allocate(&mut heap, *size) {
            live.push(p);
        }
        assert_eq!(footprint(&heap), heap.size());
        assert!(tiles(&heap));
        if step % 3 == 2 {
            let p = live.remove(0);
            dealloc(&mut heap, p);
            assert_eq!(footprint(&heap), heap.size());
            assert!(tiles(&heap));
            assert!(no_free_neighbours(&heap));
        }
    }
}

#[test]
fn live_payloads_never_overlap() {
    let mut heap = heap_with(2048);
    let mut live: Vec<(usize, usize)> = Vec::new();
    for size in [24usize, 100, 7, 300, 64, 1, 512, 40] {
        if let Some(p) = allocate(&mut heap, size) {
            for (q, len) in &live {
                assert!(p + size <= *q || *q + *len <= p);
            }
            live.push((p, size));
        }
    }
    let (p, _) = live.remove(2);
    dealloc(&mut heap, p);
    let again = allocate(&mut heap, 4).unwrap();
    for (q, len) in &live {
        assert!(again + 4 <= *q || *q + *len <= again);
    }
}

#[test]
fn after_a_deallocation_no_two_neighbours_are_free() {
    let mut heap = heap_with(1024);
    let ps: Vec<usize> = (0..6).map(|_| allocate(&mut heap, 48).unwrap()).collect();
    for i in [1usize, 3, 2, 5, 0, 4] {
        dealloc(&mut heap, ps[i]);
        assert!(no_free_neighbours(&heap));
    }
    assert_eq!(blocks_of(&heap), vec![Block { addr: START, size: 1024, free: true }]);
}

#[test]
fn exhaust_then_release_everything_restores_the_whole_range() {
    let mut heap = heap_with(1024);
    let mut live = Vec::new();
    while let Some(p) = allocate(&mut heap, 60) {
        live.push(p);
    }
    assert!(live.len() > 5);
    assert_eq!(allocate(&mut heap, 60), None);
    for p in live.iter().rev().step_by(2) {
        dealloc(&mut heap, *p);
    }
    for p in &live {
        dealloc(&mut heap, *p);
    }
    assert_eq!(blocks_of(&heap), vec![Block { addr: START, size: 1024, free: true }]);
    assert_eq!(allocate(&mut heap, 1024), Some(START + HEADER_SIZE));
    assert_eq!(blocks_of(&heap), vec![Block { addr: START, size: 1024, free: false }]);
}

#[test]
fn split_block_hands_out_the_given_block() {
    let mut heap = heap_with(256);
    malloc_init(&mut heap);
    let p = split_block(&mut heap, 0, 16);
    assert_eq!(p, START + HEADER_SIZE);
    let q = split_block(&mut heap, 1, 256 - 16 - HEADER_SIZE);
    assert_eq!(q, START + 2 * HEADER_SIZE + 16);
    assert_eq!(
        blocks_of(&heap),
        vec![
            Block { addr: START, size: 16, free: false },
            Block { addr: START + HEADER_SIZE + 16, size: 256 - 16 - HEADER_SIZE, free: false },
        ]
    );
}

#[test]
fn defragment_frees_and_merges_both_ways() {
    let mut heap = heap_with(1024);
    let a = allocate(&mut heap, 32).unwrap();
    let _b = allocate(&mut heap, 32).unwrap();
    let c = allocate(&mut heap, 32).unwrap();
    let _d = allocate(&mut heap, 32).unwrap();
    dealloc(&mut heap, a);
    dealloc(&mut heap, c);
    defragment(&mut heap, 1);
    assert_eq!(heap.block(0).unwrap().size, 3 * 32 + 2 * HEADER_SIZE);
    assert!(heap.block(0).unwrap().free);
    assert_eq!(heap.block_count(), 3);
}

#[test]
fn defragment_backward_returns_the_merge_point() {
    let mut heap = heap_with(1024);
    let a = allocate(&mut heap, 32).unwrap();
    let b = allocate(&mut heap, 32).unwrap();
    let _c = allocate(&mut heap, 32).unwrap();
    dealloc(&mut heap, b);
    dealloc(&mut heap, a);
    // blocks: free(80) used(32) free(rest); nothing free in front of block 2
    assert_eq!(defragment_backward(&mut heap, 2), 2);
    assert_eq!(defragment_backward(&mut heap, 0), 0);
    assert_eq!(heap.block_count(), 3);
    assert_eq!(heap.block(0).unwrap().size, 80);
}

#[test]
fn defragment_forward_stops_at_a_used_block() {
    let mut heap = heap_with(1024);
    let a = allocate(&mut heap, 32).unwrap();
    let _b = allocate(&mut heap, 32).unwrap();
    dealloc(&mut heap, a);
    let before = blocks_of(&heap);
    defragment_forward(&mut heap, 0);
    assert_eq!(blocks_of(&heap), before);
    defragment_forward(&mut heap, 2);
    assert_eq!(blocks_of(&heap), before);
}
