//! The heap as mathematics: blocks, tables of blocks, and what allocation
//! and deallocation make of a table.

use vstd::prelude::*;

verus! {

/// Bytes that the header in front of every payload takes.
pub const HEADER_SIZE: usize = 16;

/// Granularity of payload sizes, and the smallest payload handed out.
pub const QUANTUM: usize = 4;

/// One block of the managed range.
#[derive(Clone, Copy, Debug, PartialEq, Eq, Structural)]
pub struct Block {
    /// Address of the block's header.
    pub addr: usize,
    /// Payload bytes, the header not counted.
    pub size: usize,
    /// Whether the payload is available.
    pub free: bool,
}

impl Block {
    /// Address of the first payload byte.
    pub open spec fn payload(self) -> int {
        self.addr + HEADER_SIZE
    }

    /// Address just behind the last payload byte.
    pub open spec fn end(self) -> int {
        self.addr + HEADER_SIZE + self.size
    }
}

/// `x` rounded up to a multiple of the quantum, and at least one quantum.
pub open spec fn align_spec(x: int) -> int {
    if x <= 0 {
        QUANTUM as int
    } else {
        ((x - 1) / 4) * 4 + 4
    }
}

/// The blocks cover `start..end` in order, with neither gap nor overlap.
pub open spec fn chained(blocks: Seq<Block>, start: int, end: int) -> bool {
    &&& blocks.len() > 0
    &&& blocks[0].addr == start
    &&& forall|i: int, j: int|
        #![trigger blocks[i], blocks[j]]
        0 <= i && j == i + 1 && j < blocks.len() ==> blocks[i].end() == blocks[j].addr
    &&& blocks.last().end() == end
}

/// No two neighbouring blocks are both free.
pub open spec fn coalesced(blocks: Seq<Block>) -> bool {
    forall|i: int, j: int|
        #![trigger blocks[i], blocks[j]]
        0 <= i && j == i + 1 && j < blocks.len() ==> !(blocks[i].free && blocks[j].free)
}

/// Every payload size is a multiple of the quantum.
pub open spec fn quantized(blocks: Seq<Block>) -> bool {
    forall|i: int| 0 <= i < blocks.len() ==> (#[trigger] blocks[i]).size % QUANTUM == 0
}

/// The one free block that a fresh range of `size` bytes at `start` consists of.
pub open spec fn initial_blocks(start: int, size: int) -> Seq<Block> {
    seq![Block { addr: start as usize, size: (size - HEADER_SIZE) as usize, free: true }]
}

/// Sum of the bytes that the blocks take, headers included.
pub open spec fn footprint(blocks: Seq<Block>) -> int
    decreases blocks.len(),
{
    if blocks.len() == 0 {
        0
    } else {
        footprint(blocks.drop_last()) + HEADER_SIZE + blocks.last().size
    }
}

/// A free block with room for `n` payload bytes.
pub open spec fn fits(b: Block, n: int) -> bool {
    b.free && b.size >= n
}

/// Index of the first block at or behind `from` that fits `n` bytes, or the
/// table's length when there is none.
pub open spec fn first_fit(blocks: Seq<Block>, n: int, from: int) -> int
    decreases blocks.len() - from,
{
    if from < 0 || from >= blocks.len() {
        blocks.len() as int
    } else if fits(blocks[from], n) {
        from
    } else {
        first_fit(blocks, n, from + 1)
    }
}

/// Whether a block, asked for `n` bytes, leaves enough behind them for
/// another header and more than one quantum of payload.
pub open spec fn splits(b: Block, n: int) -> bool {
    b.size > n + HEADER_SIZE + QUANTUM
}

/// The block cut down to `n` payload bytes and marked used.
pub open spec fn used_part(b: Block, n: int) -> Block {
    Block { addr: b.addr, size: n as usize, free: false }
}

/// The free block made of what is left of `b` behind `n` payload bytes.
pub open spec fn free_part(b: Block, n: int) -> Block {
    Block {
        addr: (b.addr + HEADER_SIZE + n) as usize,
        size: (b.size - n - HEADER_SIZE) as usize,
        free: true,
    }
}

/// The table after block `i` has been handed out for `n` bytes: split in a
/// used and a free part where it is large enough, else used as a whole.
pub open spec fn take(blocks: Seq<Block>, i: int, n: int) -> Seq<Block> {
    let b = blocks[i];
    if splits(b, n) {
        blocks.update(i, used_part(b, n)).insert(i + 1, free_part(b, n))
    } else {
        blocks.update(i, Block { addr: b.addr, size: b.size, free: false })
    }
}

/// The used block that a request for `size` bytes is answered with, if any
/// block fits: the first fit, whole or cut down to the rounded size.
pub open spec fn granted(blocks: Seq<Block>, size: int) -> Option<Block> {
    let n = align_spec(size);
    let i = first_fit(blocks, n, 0);
    if i < blocks.len() {
        Some(take(blocks, i, n)[i])
    } else {
        None
    }
}

/// The table after a request for `size` bytes.
pub open spec fn after_allocate(blocks: Seq<Block>, size: int) -> Seq<Block> {
    let n = align_spec(size);
    let i = first_fit(blocks, n, 0);
    if i < blocks.len() {
        take(blocks, i, n)
    } else {
        blocks
    }
}

/// The payload address that a request for `size` bytes is answered with.
pub open spec fn allocated_at(blocks: Seq<Block>, size: int) -> Option<int> {
    let i = first_fit(blocks, align_spec(size), 0);
    if i < blocks.len() {
        Some(blocks[i].payload())
    } else {
        None
    }
}

/// Index of the first block at or behind `from` whose payload starts at
/// address `p`, or the table's length when there is none.
pub open spec fn payload_index(blocks: Seq<Block>, p: int, from: int) -> int
    decreases blocks.len() - from,
{
    if from < 0 || from >= blocks.len() {
        blocks.len() as int
    } else if blocks[from].payload() == p {
        from
    } else {
        payload_index(blocks, p, from + 1)
    }
}

/// The table with block `i` marked free.
pub open spec fn release(blocks: Seq<Block>, i: int) -> Seq<Block> {
    blocks.update(i, Block { addr: blocks[i].addr, size: blocks[i].size, free: true })
}

/// Lowest index from which every block up to, but not counting, `i` is free.
pub open spec fn run_start(blocks: Seq<Block>, i: int) -> int
    decreases i,
{
    if 0 < i < blocks.len() && blocks[i - 1].free {
        run_start(blocks, i - 1)
    } else {
        i
    }
}

/// Highest index up to which every block behind `i` is free.
pub open spec fn run_end(blocks: Seq<Block>, i: int) -> int
    decreases blocks.len() - i,
{
    if 0 <= i && i + 1 < blocks.len() && blocks[i + 1].free {
        run_end(blocks, i + 1)
    } else {
        i
    }
}

/// The free block that takes the place of blocks `lo` to `hi`: it starts where
/// `lo` starts, and its payload runs to the end of `hi`, so it holds their
/// payloads and the headers between them.
pub open spec fn merged(blocks: Seq<Block>, lo: int, hi: int) -> Block {
    Block {
        addr: blocks[lo].addr,
        size: (blocks[hi].end() - blocks[lo].payload()) as usize,
        free: true,
    }
}

/// The table with blocks `lo` to `hi` replaced by the one block merged of them.
pub open spec fn merge_range(blocks: Seq<Block>, lo: int, hi: int) -> Seq<Block> {
    blocks.subrange(0, lo).push(merged(blocks, lo, hi)) + blocks.subrange(
        hi + 1,
        blocks.len() as int,
    )
}

/// The table with the free block `i` merged with all free blocks that
/// touch it, on both sides.
pub open spec fn coalesce(blocks: Seq<Block>, i: int) -> Seq<Block> {
    merge_range(blocks, run_start(blocks, i), run_end(blocks, i))
}

/// The table after the payload address `p` has been given back: the used
/// block that starts there is freed and merged with its free neighbours; any
/// other address changes nothing.
pub open spec fn after_dealloc(blocks: Seq<Block>, p: int) -> Seq<Block> {
    let i = payload_index(blocks, p, 0);
    if i < blocks.len() && !blocks[i].free {
        coalesce(release(blocks, i), i)
    } else {
        blocks
    }
}

/// The blocks in use: each stands for one live allocation, with the address
/// and size of its payload.
pub open spec fn live(blocks: Seq<Block>) -> Set<Block> {
    Set::new(|b: Block| exists|i: int| is_live_at(blocks, i, b))
}

/// `b` is block `i`, and it is in use.
pub open spec fn is_live_at(blocks: Seq<Block>, i: int, b: Block) -> bool {
    0 <= i < blocks.len() && !b.free && blocks[i] == b
}

} // verus!
