//! A first-fit heap manager over one fixed address range.
//!
//! The range is cut into blocks, each a header followed by its payload. The
//! blocks are kept as a table ordered by address, so that the neighbour of a
//! block in the table is its neighbour in memory. Allocation takes the first
//! free block that is large enough and splits off what is left over;
//! deallocation merges the freed block with every free neighbour.
//!
//! This file holds the heap and its operations. What their contracts speak
//! of is defined in `model`; what holds of every heap is proved in `laws`.

pub mod laws;
pub mod model;

use crate::heap::laws::{
    lemma_chained_within, lemma_coalesce_wf, lemma_first_fit_none, lemma_merge_range_chained,
    lemma_merge_twice, lemma_release_chained, lemma_run_start, lemma_take_wf,
};
pub use crate::heap::model::{Block, HEADER_SIZE, QUANTUM};
use crate::heap::model::{
    after_allocate, after_dealloc, align_spec, allocated_at, chained, coalesce, coalesced,
    first_fit, fits, initial_blocks, merge_range, merged, payload_index, release, run_end,
    run_start, take,
};
use vstd::prelude::*;

verus! {

/// The managed range and its block table.
pub struct Heap {
    start: usize,
    size: usize,
    blocks: Vec<Block>,
}

impl View for Heap {
    type V = Seq<Block>;

    /// The block table, lowest address first; empty until the first allocation.
    closed spec fn view(&self) -> Seq<Block> {
        self.blocks@
    }
}

impl Heap {
    /// First address of the managed range.
    pub closed spec fn region_start(&self) -> int {
        self.start as int
    }

    /// Number of bytes in the managed range.
    pub closed spec fn region_size(&self) -> int {
        self.size as int
    }

    /// First address behind the managed range.
    pub open spec fn region_end(&self) -> int {
        self.region_start() + self.region_size()
    }

    /// The range starts at a machine address.
    pub proof fn lemma_region(self)
        ensures
            0 <= self.region_start() <= usize::MAX,
            0 <= self.region_size() <= usize::MAX,
    {
    }

    /// The table is set up, and its blocks tile the range.
    pub open spec fn tiled(&self) -> bool {
        &&& HEADER_SIZE <= self.region_size()
        &&& self.region_end() <= usize::MAX
        &&& chained(self@, self.region_start(), self.region_end())
    }

    /// The range can hold a header and ends within the address space; once
    /// the table is set up, its blocks tile the range and are fully merged.
    pub open spec fn wf(&self) -> bool {
        &&& HEADER_SIZE <= self.region_size()
        &&& self.region_end() <= usize::MAX
        &&& self@.len() > 0 ==> chained(self@, self.region_start(), self.region_end())
            && coalesced(self@)
    }

    /// The table as the next allocation sees it: set up if it was not yet.
    pub open spec fn ready(&self) -> Seq<Block> {
        if self@.len() == 0 {
            initial_blocks(self.region_start(), self.region_size())
        } else {
            self@
        }
    }

    /// A heap over the `size` bytes at `start`, its table not yet set up.
    /// `None` when the range cannot hold one header or leaves the address
    /// space.
    pub fn new(start: usize, size: usize) -> (r: Option<Heap>)
        ensures
            r.is_some() <==> HEADER_SIZE <= size && start + size <= usize::MAX,
            r matches Some(h) ==> h.wf() && h.region_start() == start && h.region_size() == size
                && h@.len() == 0,
    {
        if size < HEADER_SIZE || start > usize::MAX - size {
            None
        } else {
            Some(Heap { start, size, blocks: Vec::new() })
        }
    }

    /// First address of the managed range.
    pub fn start(&self) -> (r: usize)
        ensures
            r == self.region_start(),
    {
        self.start
    }

    /// Number of bytes in the managed range.
    pub fn size(&self) -> (r: usize)
        ensures
            r == self.region_size(),
    {
        self.size
    }

    /// Number of blocks in the table; zero until the first allocation.
    pub fn block_count(&self) -> (r: usize)
        ensures
            r == self@.len(),
    {
        self.blocks.len()
    }

    /// Block `index` of the table, counted from the lowest address.
    pub fn block(&self, index: usize) -> (r: Option<Block>)
        ensures
            r == if index < self@.len() {
                Some(self@[index as int])
            } else {
                None
            },
    {
        if index < self.blocks.len() {
            Some(self.blocks[index])
        } else {
            None
        }
    }
}

/// Rounds `x` up to the next multiple of the quantum; zero becomes one quantum.
pub fn align(x: usize) -> (r: usize)
    requires
        align_spec(x as int) <= usize::MAX,
    ensures
        r == align_spec(x as int),
{
    if x == 0 {
        QUANTUM
    } else {
        let y: usize = x - 1;
        assert((y >> 2) << 2 == (y / 4) * 4) by (bit_vector);
        ((y >> 2) << 2) + 4
    }
}

/// Sets up the table of a heap as one free block over the whole range.
pub fn malloc_init(heap: &mut Heap)
    requires
        old(heap).wf(),
    ensures
        final(heap).wf(),
        final(heap).region_start() == old(heap).region_start(),
        final(heap).region_size() == old(heap).region_size(),
        final(heap)@ == initial_blocks(old(heap).region_start(), old(heap).region_size()),
{
    let block = Block { addr: heap.start, size: heap.size - HEADER_SIZE, free: true };
    heap.blocks = Vec::new();
    heap.blocks.push(block);
    assert(heap@ =~= initial_blocks(old(heap).region_start(), old(heap).region_size()));
}

/// Hands out block `index` for `size` payload bytes and returns the address of
/// its payload. A block with more than a header and a quantum to spare is
/// split, and the rest stays free behind it; a smaller one is used whole.
pub fn split_block(heap: &mut Heap, index: usize, size: usize) -> (r: usize)
    requires
        old(heap).wf(),
        index < old(heap)@.len(),
        fits(old(heap)@[index as int], size as int),
    ensures
        final(heap).wf(),
        final(heap).region_start() == old(heap).region_start(),
        final(heap).region_size() == old(heap).region_size(),
        final(heap)@ == take(old(heap)@, index as int, size as int),
        r == old(heap)@[index as int].payload(),
{
    let block = heap.blocks[index];
    assert(index < heap.blocks.len());
    proof {
        lemma_chained_within(heap@, heap.region_start(), heap.region_end(), index as int);
    }
    if block.size - size > HEADER_SIZE + QUANTUM {
        let rest = Block {
            addr: block.addr + HEADER_SIZE + size,
            size: block.size - size - HEADER_SIZE,
            free: true,
        };
        heap.blocks.set(index, Block { addr: block.addr, size, free: false });
        heap.blocks.insert(index + 1, rest);
        proof {
            lemma_take_wf(
                old(heap)@,
                heap.region_start(),
                heap.region_end(),
                index as int,
                size as int,
            );
        }
    } else {
        heap.blocks.set(index, Block { addr: block.addr, size: block.size, free: false });
        proof {
            lemma_take_wf(
                old(heap)@,
                heap.region_start(),
                heap.region_end(),
                index as int,
                size as int,
            );
        }
    }
    block.addr + HEADER_SIZE
}

/// Allocates `size` bytes, rounded up to the quantum: sets the table up on
/// first use, then takes the first free block from the lowest address that is
/// large enough. Returns the payload address, or `None` when no block fits.
pub fn allocate(heap: &mut Heap, size: usize) -> (r: Option<usize>)
    requires
        old(heap).wf(),
    ensures
        final(heap).wf(),
        final(heap).region_start() == old(heap).region_start(),
        final(heap).region_size() == old(heap).region_size(),
        final(heap)@ == after_allocate(old(heap).ready(), size as int),
        match r {
            Some(p) => allocated_at(old(heap).ready(), size as int) == Some(p as int),
            None => allocated_at(old(heap).ready(), size as int).is_none(),
        },
{
    if heap.blocks.len() == 0 {
        malloc_init(heap);
    }
    let ghost ready = heap@;
    if size > usize::MAX - 3 {
        proof {
            assert forall|k: int| 0 <= k < ready.len() implies !fits(
                #[trigger] ready[k],
                align_spec(size as int),
            ) by {}
            lemma_first_fit_none(ready, align_spec(size as int), 0);
        }
        return None;
    }
    let n = align(size);
    let mut i: usize = 0;
    while i < heap.blocks.len()
        invariant
            heap.wf(),
            heap@ == ready,
            ready == old(heap).ready(),
            n == align_spec(size as int),
            heap.region_start() == old(heap).region_start(),
            heap.region_size() == old(heap).region_size(),
            i <= ready.len(),
            first_fit(ready, n as int, i as int) == first_fit(ready, n as int, 0),
        decreases ready.len() - i,
    {
        let block = heap.blocks[i];
        if block.free && block.size >= n {
            let p = split_block(heap, i, n);
            return Some(p);
        }
        i += 1;
    }
    None
}

/// Merges the free block `index` with the run of free blocks in front of it
/// and returns the index of the block that holds them all.
pub fn defragment_backward(heap: &mut Heap, index: usize) -> (r: usize)
    requires
        old(heap).tiled(),
        index < old(heap)@.len(),
        old(heap)@[index as int].free,
    ensures
        final(heap).tiled(),
        final(heap).region_start() == old(heap).region_start(),
        final(heap).region_size() == old(heap).region_size(),
        r == run_start(old(heap)@, index as int),
        final(heap)@ == merge_range(old(heap)@, r as int, index as int),
{
    let ghost before = heap@;
    let ghost start = heap.region_start();
    let ghost end = heap.region_end();
    let mut cur: usize = index;
    assert(index < heap.blocks.len());
    proof {
        lemma_chained_within(before, start, end, index as int);
        assert(merged(before, index as int, index as int) == before[index as int]);
        assert(heap@ =~= merge_range(before, index as int, index as int));
    }
    while cur > 0 && heap.blocks[cur - 1].free
        invariant
            heap.tiled(),
            heap.region_start() == start,
            heap.region_end() == end,
            heap.region_size() == old(heap).region_size(),
            chained(before, start, end),
            0 <= start,
            end <= usize::MAX,
            cur <= index < before.len(),
            heap@ == merge_range(before, cur as int, index as int),
            run_start(before, cur as int) == run_start(before, index as int),
        decreases cur,
    {
        proof {
            lemma_merge_range_chained(before, start, end, cur as int, index as int);
            lemma_merge_range_chained(before, start, end, cur - 1, index as int);
            lemma_chained_within(before, start, end, cur - 1);
            lemma_chained_within(before, start, end, index as int);
            assert(heap@[cur - 1] == before[cur - 1]);
            assert(before[cur - 1].end() == before[cur as int].addr);
        }
        let prev = heap.blocks[cur - 1];
        let this = heap.blocks[cur];
        heap.blocks.set(
            cur - 1,
            Block { addr: prev.addr, size: prev.size + (HEADER_SIZE + this.size), free: true },
        );
        heap.blocks.remove(cur);
        cur -= 1;
        proof {
            assert(heap@ =~= merge_range(before, cur as int, index as int));
        }
    }
    cur
}

/// Merges the free block `index` with the run of free blocks behind it.
pub fn defragment_forward(heap: &mut Heap, index: usize)
    requires
        old(heap).tiled(),
        index < old(heap)@.len(),
        old(heap)@[index as int].free,
    ensures
        final(heap).tiled(),
        final(heap).region_start() == old(heap).region_start(),
        final(heap).region_size() == old(heap).region_size(),
        final(heap)@ == merge_range(
            old(heap)@,
            index as int,
            run_end(old(heap)@, index as int),
        ),
{
    let ghost before = heap@;
    let ghost start = heap.region_start();
    let ghost end = heap.region_end();
    let ghost hi: int = index as int;
    assert(index < heap.blocks.len());
    proof {
        lemma_chained_within(before, start, end, index as int);
        assert(merged(before, index as int, index as int) == before[index as int]);
        assert(heap@ =~= merge_range(before, index as int, index as int));
    }
    while index + 1 < heap.blocks.len() && heap.blocks[index + 1].free
        invariant
            heap.tiled(),
            heap.region_start() == start,
            heap.region_end() == end,
            heap.region_size() == old(heap).region_size(),
            chained(before, start, end),
            0 <= start,
            end <= usize::MAX,
            index <= hi < before.len(),
            index < heap.blocks.len(),
            heap@ == merge_range(before, index as int, hi),
            run_end(before, hi) == run_end(before, index as int),
        decreases before.len() - hi,
    {
        proof {
            lemma_merge_range_chained(before, start, end, index as int, hi);
            assert(heap@[index + 1] == before[hi + 1]);
            lemma_merge_range_chained(before, start, end, index as int, hi + 1);
            lemma_chained_within(before, start, end, index as int);
            lemma_chained_within(before, start, end, hi + 1);
            assert(before[hi].end() == before[hi + 1].addr);
        }
        let this = heap.blocks[index];
        let next = heap.blocks[index + 1];
        heap.blocks.set(
            index,
            Block { addr: this.addr, size: this.size + (HEADER_SIZE + next.size), free: true },
        );
        heap.blocks.remove(index + 1);
        proof {
            hi = hi + 1;
            assert(heap@ =~= merge_range(before, index as int, hi));
        }
    }
}

/// Frees block `index` and merges it with its free neighbours, first those
/// in front of it, then those behind.
pub fn defragment(heap: &mut Heap, index: usize)
    requires
        old(heap).tiled(),
        index < old(heap)@.len(),
    ensures
        final(heap).tiled(),
        final(heap).region_start() == old(heap).region_start(),
        final(heap).region_size() == old(heap).region_size(),
        final(heap)@ == coalesce(release(old(heap)@, index as int), index as int),
{
    let block = heap.blocks[index];
    heap.blocks.set(index, Block { addr: block.addr, size: block.size, free: true });
    let ghost freed = heap@;
    proof {
        assert(freed =~= release(old(heap)@, index as int));
        lemma_release_chained(old(heap)@, heap.region_start(), heap.region_end(), index as int);
        lemma_run_start(freed, index as int);
    }
    let at = defragment_backward(heap, index);
    proof {
        lemma_merge_range_chained(
            freed,
            heap.region_start(),
            heap.region_end(),
            at as int,
            index as int,
        );
        lemma_merge_twice(freed, heap.region_start(), heap.region_end(), at as int, index as int);
    }
    defragment_forward(heap, at);
}

/// Gives the payload at address `ptr` back. The used block whose payload
/// starts there becomes free and is merged with its free neighbours. An
/// address that is no block's payload, or that of a block already free,
/// changes nothing.
pub fn dealloc(heap: &mut Heap, ptr: usize)
    requires
        old(heap).wf(),
    ensures
        final(heap).wf(),
        final(heap).region_start() == old(heap).region_start(),
        final(heap).region_size() == old(heap).region_size(),
        final(heap)@ == after_dealloc(old(heap)@, ptr as int),
        coalesced(final(heap)@),
{
    let mut i: usize = 0;
    while i < heap.blocks.len()
        invariant
            heap.wf(),
            heap@ == old(heap)@,
            heap.region_start() == old(heap).region_start(),
            heap.region_size() == old(heap).region_size(),
            i <= heap@.len(),
            payload_index(heap@, ptr as int, i as int) == payload_index(heap@, ptr as int, 0),
        decreases heap@.len() - i,
    {
        let block = heap.blocks[i];
        proof {
            lemma_chained_within(heap@, heap.region_start(), heap.region_end(), i as int);
        }
        if block.addr + HEADER_SIZE == ptr {
            if !block.free {
                proof {
                    lemma_coalesce_wf(heap@, heap.region_start(), heap.region_end(), i as int);
                }
                defragment(heap, i);
            }
            return ;
        }
        i += 1;
    }
}

} // verus!
