//! What holds of every heap: bytes are conserved, blocks never overlap,
//! free neighbours never stay apart, and a heap with nothing live is whole
//! again. The lemmas that the heap's operations rest on follow.

use crate::heap::model::{
    after_allocate, after_dealloc, align_spec, allocated_at, chained, coalesce, coalesced,
    first_fit, fits, footprint, granted, initial_blocks, is_live_at, live, merge_range, merged,
    payload_index, quantized, release, run_end, run_start, splits, take, Block, HEADER_SIZE,
    QUANTUM,
};
use crate::heap::Heap;
use vstd::prelude::*;

verus! {

/// Conservation: the payloads and headers of a tiled table add up to the
/// size of the range, no byte lost and none counted twice.
pub proof fn lemma_footprint(blocks: Seq<Block>, start: int, end: int)
    requires
        chained(blocks, start, end),
    ensures
        footprint(blocks) == end - start,
    decreases blocks.len(),
{
    let front = blocks.drop_last();
    if blocks.len() == 1 {
        assert(footprint(front) == 0);
    } else {
        let last = blocks.len() - 1;
        assert(blocks[last - 1].end() == blocks[last].addr);
        assert(front.last() == blocks[last - 1]);
        assert forall|k: int, j: int| 0 <= k && j == k + 1 && j < front.len() implies (
        #[trigger] front[k]).end() == (#[trigger] front[j]).addr by {
            assert(blocks[k].end() == blocks[j].addr);
        }
        lemma_footprint(front, start, blocks[last].addr as int);
    }
}

/// Conservation, of a heap: at every point after set-up, block payloads plus
/// block headers equal the size of the managed range.
pub proof fn lemma_conservation(heap: Heap)
    requires
        heap.wf(),
        heap@.len() > 0,
    ensures
        footprint(heap@) == heap.region_size(),
{
    lemma_footprint(heap@, heap.region_start(), heap.region_end());
}

/// No overlap: two different blocks of a heap share no byte, headers
/// included; so the payloads of two live allocations never intersect.
pub proof fn lemma_no_overlap(heap: Heap, i: int, j: int)
    requires
        heap.wf(),
        0 <= i < heap@.len(),
        0 <= j < heap@.len(),
        i != j,
    ensures
        heap@[i].end() <= heap@[j].addr || heap@[j].end() <= heap@[i].addr,
        heap.region_start() <= heap@[i].addr,
        heap@[i].end() <= heap.region_end(),
{
    lemma_chained_within(heap@, heap.region_start(), heap.region_end(), i);
    if i < j {
        lemma_chained_ascending(heap@, heap.region_start(), heap.region_end(), i, j);
    } else {
        lemma_chained_ascending(heap@, heap.region_start(), heap.region_end(), j, i);
    }
}

/// An allocation that succeeds adds the block it grants to the live ones
/// and touches no other; one that fails leaves the table as it was.
pub proof fn lemma_allocate_live(blocks: Seq<Block>, size: int)
    ensures
        match granted(blocks, size) {
            Some(g) => live(after_allocate(blocks, size)) == live(blocks).insert(g) && !g.free
                && g.size >= align_spec(size) && allocated_at(blocks, size) == Some(
                g.payload(),
            ),
            None => after_allocate(blocks, size) == blocks && allocated_at(blocks, size).is_none(),
        },
{
    let n = align_spec(size);
    let i = first_fit(blocks, n, 0);
    lemma_first_fit(blocks, n, 0);
    if i < blocks.len() {
        let t = take(blocks, i, n);
        let g = t[i];
        assert forall|q: Block| live(t).contains(q) <==> live(blocks).insert(g).contains(q) by {
            if live(t).contains(q) {
                let k = choose|k: int| is_live_at(t, k, q);
                if k != i {
                    if splits(blocks[i], n) && k > i {
                        assert(is_live_at(blocks, k - 1, q));
                    } else {
                        assert(is_live_at(blocks, k, q));
                    }
                }
            }
            if live(blocks).insert(g).contains(q) {
                if q == g {
                    assert(is_live_at(t, i, q));
                } else {
                    let k = choose|k: int| is_live_at(blocks, k, q);
                    if splits(blocks[i], n) && k > i {
                        assert(is_live_at(t, k + 1, q));
                    } else {
                        assert(is_live_at(t, k, q));
                    }
                }
            }
        }
        assert(live(t) =~= live(blocks).insert(g));
    }
}

/// Under the tiling the payload of a granted block shares no byte with
/// the payload of any block that was live before.
pub proof fn lemma_allocate_fresh(blocks: Seq<Block>, start: int, end: int, size: int, b: Block)
    requires
        chained(blocks, start, end),
        live(blocks).contains(b),
        granted(blocks, size).is_some(),
    ensures
        granted(blocks, size).unwrap().end() <= b.payload() || b.end() <= granted(
            blocks,
            size,
        ).unwrap().payload(),
{
    let n = align_spec(size);
    let i = first_fit(blocks, n, 0);
    lemma_first_fit(blocks, n, 0);
    let k = choose|k: int| is_live_at(blocks, k, b);
    lemma_chained_within(blocks, start, end, i);
    if k < i {
        lemma_chained_ascending(blocks, start, end, k, i);
    } else {
        lemma_chained_ascending(blocks, start, end, i, k);
    }
}

/// A deallocation takes the block at its address out of the live ones and
/// touches no other.
pub proof fn lemma_dealloc_live(blocks: Seq<Block>, start: int, end: int, p: int)
    requires
        chained(blocks, start, end),
    ensures
        live(after_dealloc(blocks, p)) == live(blocks).filter(|b: Block| b.payload() != p),
{
    let i = payload_index(blocks, p, 0);
    lemma_payload_index_found(blocks, p, 0);
    let after = after_dealloc(blocks, p);
    let rest = live(blocks).filter(|b: Block| b.payload() != p);
    if i < blocks.len() && !blocks[i].free {
        let b = release(blocks, i);
        let lo = run_start(b, i);
        let hi = run_end(b, i);
        lemma_run_start(b, i);
        lemma_run_end(b, i);
        assert(after == merge_range(b, lo, hi));
        assert forall|q: Block| live(after).contains(q) <==> rest.contains(q) by {
            if live(after).contains(q) {
                let k = choose|k: int| is_live_at(after, k, q);
                if k < lo {
                    assert(after[k] == blocks[k]);
                    lemma_payload_index(blocks, start, end, k);
                    assert(is_live_at(blocks, k, q));
                } else {
                    assert(after[k] == blocks[k + (hi - lo)]);
                    lemma_payload_index(blocks, start, end, k + (hi - lo));
                    assert(is_live_at(blocks, k + (hi - lo), q));
                }
            }
            if rest.contains(q) {
                let k = choose|k: int| is_live_at(blocks, k, q);
                assert(b[k] == blocks[k]);
                if k < lo {
                    assert(is_live_at(after, k, q));
                } else {
                    assert(after[k - (hi - lo)] == blocks[k]);
                    assert(is_live_at(after, k - (hi - lo), q));
                }
            }
        }
        assert(live(after) =~= rest);
    } else {
        assert forall|q: Block| live(blocks).contains(q) implies q.payload() != p by {
            let k = choose|k: int| is_live_at(blocks, k, q);
            if q.payload() == p {
                lemma_payload_index(blocks, start, end, k);
            }
        }
        assert(live(after) =~= rest);
    }
}

/// Recoverability: once nothing is live, the heap is one free block over
/// the whole range again, and a request for all of it but one header
/// succeeds.
pub proof fn lemma_recoverable(heap: Heap, size: int)
    requires
        heap.wf(),
        heap@.len() > 0,
        live(heap@) == Set::<Block>::empty(),
        align_spec(size) <= heap.region_size() - HEADER_SIZE,
    ensures
        heap@ == initial_blocks(heap.region_start(), heap.region_size()),
        allocated_at(heap@, size) == Some(heap.region_start() + HEADER_SIZE),
{
    let blocks = heap@;
    assert forall|k: int| 0 <= k < blocks.len() implies (#[trigger] blocks[k]).free by {
        if !blocks[k].free {
            assert(is_live_at(blocks, k, blocks[k]));
            assert(live(blocks).contains(blocks[k]));
        }
    }
    if blocks.len() > 1 {
        assert(!(blocks[0].free && blocks[1].free));
    }
    assert(blocks =~= initial_blocks(heap.region_start(), heap.region_size()));
}

/// First fit: the search returns the lowest block that is free and large
/// enough, or the table's length when there is none.
pub proof fn lemma_first_fit(blocks: Seq<Block>, n: int, from: int)
    requires
        0 <= from,
    ensures
        from <= first_fit(blocks, n, from) || first_fit(blocks, n, from) == blocks.len(),
        first_fit(blocks, n, from) <= blocks.len(),
        first_fit(blocks, n, from) < blocks.len() ==> fits(blocks[first_fit(blocks, n, from)], n),
        forall|k: int| from <= k < first_fit(blocks, n, from) ==> !fits(#[trigger] blocks[k], n),
    decreases blocks.len() - from,
{
    if from < blocks.len() && !fits(blocks[from], n) {
        lemma_first_fit(blocks, n, from + 1);
    }
}

/// Where no block from `from` on fits, the search runs off the table.
pub proof fn lemma_first_fit_none(blocks: Seq<Block>, n: int, from: int)
    requires
        0 <= from,
        forall|k: int| from <= k < blocks.len() ==> !fits(#[trigger] blocks[k], n),
    ensures
        first_fit(blocks, n, from) == blocks.len(),
    decreases blocks.len() - from,
{
    if from < blocks.len() {
        lemma_first_fit_none(blocks, n, from + 1);
    }
}

/// In a tiled table the search by payload address finds the one block whose
/// payload starts there.
pub proof fn lemma_payload_index(blocks: Seq<Block>, start: int, end: int, i: int)
    requires
        chained(blocks, start, end),
        0 <= i < blocks.len(),
    ensures
        payload_index(blocks, blocks[i].payload(), 0) == i,
{
    lemma_payload_index_from(blocks, start, end, i, 0);
}

/// The search by payload address, started at or before the block it looks
/// for, stops at that block.
pub proof fn lemma_payload_index_from(blocks: Seq<Block>, start: int, end: int, i: int, from: int)
    requires
        chained(blocks, start, end),
        0 <= from <= i < blocks.len(),
    ensures
        payload_index(blocks, blocks[i].payload(), from) == i,
    decreases i - from,
{
    if from < i {
        lemma_chained_ascending(blocks, start, end, from, i);
        lemma_payload_index_from(blocks, start, end, i, from + 1);
    }
}

/// The search by payload address returns a block with that payload
/// address, or the table's length when no block has it.
pub proof fn lemma_payload_index_found(blocks: Seq<Block>, p: int, from: int)
    requires
        0 <= from,
    ensures
        from <= payload_index(blocks, p, from) || payload_index(blocks, p, from) == blocks.len(),
        payload_index(blocks, p, from) <= blocks.len(),
        payload_index(blocks, p, from) < blocks.len() ==> blocks[payload_index(
            blocks,
            p,
            from,
        )].payload() == p,
        forall|k: int|
            from <= k < payload_index(blocks, p, from) ==> (#[trigger] blocks[k]).payload() != p,
    decreases blocks.len() - from,
{
    if from < blocks.len() && blocks[from].payload() != p {
        lemma_payload_index_found(blocks, p, from + 1);
    }
}

/// The run of free blocks in front of `i` starts at `run_start`: every block
/// from there to `i` is free, and the one before it, if any, is not.
pub proof fn lemma_run_start(blocks: Seq<Block>, i: int)
    requires
        0 <= i < blocks.len(),
    ensures
        0 <= run_start(blocks, i) <= i,
        forall|k: int| run_start(blocks, i) <= k < i ==> (#[trigger] blocks[k]).free,
        run_start(blocks, i) > 0 ==> !blocks[run_start(blocks, i) - 1].free,
    decreases i,
{
    if 0 < i && blocks[i - 1].free {
        lemma_run_start(blocks, i - 1);
    }
}

/// The run of free blocks behind `i` ends at `run_end`: every block from
/// behind `i` to there is free, and the one after it, if any, is not.
pub proof fn lemma_run_end(blocks: Seq<Block>, i: int)
    requires
        0 <= i < blocks.len(),
    ensures
        i <= run_end(blocks, i) < blocks.len(),
        forall|k: int| i < k <= run_end(blocks, i) ==> (#[trigger] blocks[k]).free,
        run_end(blocks, i) + 1 < blocks.len() ==> !blocks[run_end(blocks, i) + 1].free,
    decreases blocks.len() - i,
{
    if i + 1 < blocks.len() && blocks[i + 1].free {
        lemma_run_end(blocks, i + 1);
    }
}

/// A fresh table is quantized when the range, less one header, is a
/// multiple of the quantum.
pub proof fn lemma_initial_quantized(start: int, size: int)
    requires
        HEADER_SIZE <= size <= usize::MAX,
        (size - HEADER_SIZE) % (QUANTUM as int) == 0,
    ensures
        quantized(initial_blocks(start, size)),
{
}

/// Allocation keeps payload sizes quantized: what it cuts off is rounded
/// to the quantum, and so is what is left.
pub proof fn lemma_allocate_quantized(blocks: Seq<Block>, size: int)
    requires
        quantized(blocks),
        0 <= size,
    ensures
        quantized(after_allocate(blocks, size)),
{
    let n = align_spec(size);
    let i = first_fit(blocks, n, 0);
    lemma_first_fit(blocks, n, 0);
    if i < blocks.len() {
        let t = take(blocks, i, n);
        assert forall|k: int| 0 <= k < t.len() implies (#[trigger] t[k]).size % QUANTUM == 0 by {
            if k < i {
                assert(t[k] == blocks[k]);
            } else if k > i {
                if splits(blocks[i], n) {
                    if k > i + 1 {
                        assert(t[k] == blocks[k - 1]);
                    }
                } else {
                    assert(t[k] == blocks[k]);
                }
            }
        }
    }
}

/// Deallocation keeps payload sizes quantized: a merged block holds
/// quantized payloads and whole headers.
pub proof fn lemma_dealloc_quantized(blocks: Seq<Block>, start: int, end: int, p: int)
    requires
        chained(blocks, start, end),
        quantized(blocks),
        0 <= start,
        end <= usize::MAX,
    ensures
        quantized(after_dealloc(blocks, p)),
{
    let i = payload_index(blocks, p, 0);
    lemma_payload_index_found(blocks, p, 0);
    if i < blocks.len() && !blocks[i].free {
        let b = release(blocks, i);
        let lo = run_start(b, i);
        let hi = run_end(b, i);
        let r = merge_range(b, lo, hi);
        lemma_run_start(b, i);
        lemma_run_end(b, i);
        lemma_release_chained(blocks, start, end, i);
        lemma_merge_range_chained(b, start, end, lo, hi);
        assert(quantized(b));
        lemma_quantized_distance(b, start, end, lo, hi);
        lemma_chained_within(b, start, end, lo);
        lemma_chained_within(b, start, end, hi);
        if lo < hi {
            lemma_chained_ascending(b, start, end, lo, hi);
        }
        assert forall|k: int| 0 <= k < r.len() implies (#[trigger] r[k]).size % QUANTUM == 0 by {
            if k < lo {
                assert(r[k] == blocks[k]);
            } else if k > lo {
                assert(r[k] == blocks[k + (hi - lo)]);
            }
        }
    }
}

/// In a tiled table of quantized blocks, headers lie a multiple of the
/// quantum apart.
pub proof fn lemma_quantized_distance(blocks: Seq<Block>, start: int, end: int, i: int, j: int)
    requires
        chained(blocks, start, end),
        quantized(blocks),
        0 <= i <= j < blocks.len(),
    ensures
        (blocks[j].addr - blocks[i].addr) % (QUANTUM as int) == 0,
        (blocks[j].end() - blocks[i].payload()) % (QUANTUM as int) == 0,
    decreases j - i,
{
    if i < j {
        lemma_quantized_distance(blocks, start, end, i, j - 1);
        assert(blocks[j - 1].end() == blocks[j].addr);
    }
}

/// The table that an allocation works on tiles the range and is fully
/// merged, whether it was set up before or not.
pub proof fn lemma_ready(heap: Heap)
    requires
        heap.wf(),
    ensures
        chained(heap.ready(), heap.region_start(), heap.region_end()),
        coalesced(heap.ready()),
        0 <= heap.region_start(),
        heap.region_end() <= usize::MAX,
{
    heap.lemma_region();
}

/// A granted block lies within the range and has room for the bytes asked
/// for.
pub proof fn lemma_granted_within(blocks: Seq<Block>, start: int, end: int, size: int)
    requires
        chained(blocks, start, end),
        0 <= start,
        end <= usize::MAX,
        0 <= size,
        granted(blocks, size).is_some(),
    ensures
        start + HEADER_SIZE <= granted(blocks, size).unwrap().payload(),
        granted(blocks, size).unwrap().payload() + size <= granted(blocks, size).unwrap().end(),
        granted(blocks, size).unwrap().end() <= end,
{
    let n = align_spec(size);
    let i = first_fit(blocks, n, 0);
    lemma_first_fit(blocks, n, 0);
    lemma_chained_within(blocks, start, end, i);
}

/// In a chain, a block ends at or before the start of every later block.
pub proof fn lemma_chained_ascending(blocks: Seq<Block>, start: int, end: int, i: int, j: int)
    requires
        chained(blocks, start, end),
        0 <= i < j < blocks.len(),
    ensures
        blocks[i].end() <= blocks[j].addr,
    decreases j - i,
{
    if j > i + 1 {
        lemma_chained_ascending(blocks, start, end, i, j - 1);
        assert(blocks[j - 1].end() == blocks[j].addr);
    }
}

/// Every block of a chain lies within the range that the chain covers.
pub proof fn lemma_chained_within(blocks: Seq<Block>, start: int, end: int, i: int)
    requires
        chained(blocks, start, end),
        0 <= i < blocks.len(),
    ensures
        start <= blocks[i].addr,
        blocks[i].end() <= end,
{
    if 0 < i {
        lemma_chained_ascending(blocks, start, end, 0, i);
    }
    if i < blocks.len() - 1 {
        lemma_chained_ascending(blocks, start, end, i, blocks.len() - 1);
    }
}

/// Handing out a free block of a tiled, fully merged table leaves the table
/// tiled and fully merged.
pub proof fn lemma_take_wf(blocks: Seq<Block>, start: int, end: int, i: int, n: int)
    requires
        chained(blocks, start, end),
        coalesced(blocks),
        end <= usize::MAX,
        0 <= start,
        0 <= i < blocks.len(),
        0 <= n,
        fits(blocks[i], n),
    ensures
        chained(take(blocks, i, n), start, end),
        coalesced(take(blocks, i, n)),
{
    let b = blocks[i];
    let t = take(blocks, i, n);
    lemma_chained_within(blocks, start, end, i);
    if splits(b, n) {
        assert(t.len() == blocks.len() + 1);
        assert forall|k: int, j: int|
            0 <= k && j == k + 1 && j < t.len() implies (#[trigger] t[k]).end()
            == (#[trigger] t[j]).addr && !(t[k].free && t[j].free) by {
            if k < i - 1 {
                assert(t[k] == blocks[k] && t[j] == blocks[j]);
            } else if k == i - 1 {
                assert(t[k] == blocks[k] && blocks[j] == b);
            } else if k == i {
            } else if k == i + 1 {
                assert(t[j] == blocks[i + 1]);
                assert(b.end() == blocks[i + 1].addr);
                assert(!(blocks[i].free && blocks[i + 1].free));
            } else {
                assert(t[k] == blocks[k - 1] && t[j] == blocks[j - 1]);
            }
        }
    } else {
        assert(t.len() == blocks.len());
        assert forall|k: int, j: int|
            0 <= k && j == k + 1 && j < t.len() implies (#[trigger] t[k]).end()
            == (#[trigger] t[j]).addr && !(t[k].free && t[j].free) by {
            assert(blocks[k].end() == blocks[j].addr);
            assert(!(blocks[k].free && blocks[j].free));
        }
    }
}

/// Marking a block free moves no block.
pub proof fn lemma_release_chained(blocks: Seq<Block>, start: int, end: int, i: int)
    requires
        chained(blocks, start, end),
        0 <= i < blocks.len(),
    ensures
        chained(release(blocks, i), start, end),
{
    let b = release(blocks, i);
    assert forall|k: int, j: int|
        0 <= k && j == k + 1 && j < b.len() implies (#[trigger] b[k]).end()
        == (#[trigger] b[j]).addr by {
        assert(blocks[k].end() == blocks[j].addr);
    }
}

/// Merging a range of neighbours of a tiled table leaves the table tiled.
pub proof fn lemma_merge_range_chained(
    blocks: Seq<Block>,
    start: int,
    end: int,
    lo: int,
    hi: int,
)
    requires
        chained(blocks, start, end),
        0 <= start,
        end <= usize::MAX,
        0 <= lo <= hi < blocks.len(),
    ensures
        chained(merge_range(blocks, lo, hi), start, end),
        merge_range(blocks, lo, hi).len() == blocks.len() - (hi - lo),
        merge_range(blocks, lo, hi)[lo] == merged(blocks, lo, hi),
        merged(blocks, lo, hi).end() == blocks[hi].end(),
{
    let r = merge_range(blocks, lo, hi);
    lemma_chained_within(blocks, start, end, lo);
    lemma_chained_within(blocks, start, end, hi);
    if lo < hi {
        lemma_chained_ascending(blocks, start, end, lo, hi);
    }
    assert(r[lo] == merged(blocks, lo, hi));
    assert forall|k: int, j: int|
        0 <= k && j == k + 1 && j < r.len() implies (#[trigger] r[k]).end()
        == (#[trigger] r[j]).addr by {
        if j < lo {
            assert(r[k] == blocks[k] && r[j] == blocks[j]);
        } else if j == lo {
            assert(r[k] == blocks[k] && blocks[j].addr == r[j].addr);
        } else if k == lo {
            assert(r[j] == blocks[hi + 1]);
            assert(blocks[hi].end() == blocks[hi + 1].addr);
        } else {
            assert(r[k] == blocks[k + (hi - lo)] && r[j] == blocks[j + (hi - lo)]);
        }
    }
    if hi + 1 < blocks.len() {
        assert(r.last() == blocks.last());
    }
}

/// Merging forward from the block that a backward merge made gives the
/// same table as merging the whole run at once.
pub proof fn lemma_merge_twice(blocks: Seq<Block>, start: int, end: int, lo: int, i: int)
    requires
        chained(blocks, start, end),
        0 <= start,
        end <= usize::MAX,
        0 <= lo <= i < blocks.len(),
    ensures
        run_end(merge_range(blocks, lo, i), lo) == run_end(blocks, i) - (i - lo),
        merge_range(merge_range(blocks, lo, i), lo, run_end(merge_range(blocks, lo, i), lo))
            == merge_range(blocks, lo, run_end(blocks, i)),
{
    let once = merge_range(blocks, lo, i);
    let hi = run_end(blocks, i);
    lemma_run_end(blocks, i);
    lemma_run_end_shifted(blocks, lo, i, i);
    lemma_merge_range_chained(blocks, start, end, lo, i);
    lemma_merge_range_chained(blocks, start, end, lo, hi);
    lemma_chained_within(blocks, start, end, lo);
    lemma_chained_within(blocks, start, end, hi);
    let twice = merge_range(once, lo, hi - (i - lo));
    let whole = merge_range(blocks, lo, hi);
    if i < hi {
        assert(once[hi - (i - lo)] == blocks[hi]);
    }
    assert(once[lo].addr == blocks[lo].addr);
    assert(merged(once, lo, hi - (i - lo)) == merged(blocks, lo, hi));
    assert(twice =~= whole);
}

/// Behind a merged range the table holds the same blocks as before, so the
/// run of free blocks behind it ends at the same block.
pub proof fn lemma_run_end_shifted(blocks: Seq<Block>, lo: int, i: int, k: int)
    requires
        0 <= lo <= i <= k < blocks.len(),
    ensures
        run_end(merge_range(blocks, lo, i), k - (i - lo)) == run_end(blocks, k) - (i - lo),
    decreases blocks.len() - k,
{
    let once = merge_range(blocks, lo, i);
    assert(once.len() == blocks.len() - (i - lo));
    if k + 1 < blocks.len() {
        assert(once[k + 1 - (i - lo)] == blocks[k + 1]);
        if blocks[k + 1].free {
            lemma_run_end_shifted(blocks, lo, i, k + 1);
        }
    }
}

/// Freeing a used block of a tiled, fully merged table and merging it with
/// its free neighbours leaves the table tiled and fully merged.
pub proof fn lemma_coalesce_wf(blocks: Seq<Block>, start: int, end: int, i: int)
    requires
        chained(blocks, start, end),
        coalesced(blocks),
        0 <= start,
        end <= usize::MAX,
        0 <= i < blocks.len(),
        !blocks[i].free,
    ensures
        chained(coalesce(release(blocks, i), i), start, end),
        coalesced(coalesce(release(blocks, i), i)),
{
    let b = release(blocks, i);
    let lo = run_start(b, i);
    let hi = run_end(b, i);
    let r = merge_range(b, lo, hi);
    lemma_release_chained(blocks, start, end, i);
    lemma_run_start(b, i);
    lemma_run_end(b, i);
    lemma_merge_range_chained(b, start, end, lo, hi);
    assert forall|k: int, j: int|
        0 <= k && j == k + 1 && j < r.len() implies !((#[trigger] r[k]).free
        && (#[trigger] r[j]).free) by {
        if j < lo {
            assert(r[k] == blocks[k] && r[j] == blocks[j]);
        } else if j == lo {
            assert(r[k] == b[lo - 1]);
        } else if k == lo {
            assert(r[j] == b[hi + 1]);
        } else {
            assert(r[k] == blocks[k + (hi - lo)] && r[j] == blocks[j + (hi - lo)]);
        }
    }
}

} // verus!
