//! What holds of every task table: registering and deleting keep the slots
//! gapless and count the tasks, and the stacks of two tasks never overlap.

use crate::heap::laws::{
    lemma_allocate_fresh, lemma_allocate_live, lemma_chained_ascending, lemma_chained_within,
    lemma_dealloc_live, lemma_granted_within,
};
use crate::heap::model::{after_allocate, after_dealloc, chained, is_live_at, live, Block};
use crate::heap::Heap;
use crate::task::model::{
    action_at, backed, backs, dense, first_empty, framed, new_task, stack_grant, TaskView,
    FRAME_WORDS, WORD_BYTES,
};
use crate::task::{SchedulerAction, TaskTable};
use vstd::prelude::*;

verus! {

/// The search for an empty slot returns the lowest empty slot, or the number
/// of slots when every slot is filled.
pub proof fn lemma_first_empty(slots: Seq<Option<TaskView>>, from: int)
    requires
        0 <= from,
    ensures
        from <= first_empty(slots, from) || first_empty(slots, from) == slots.len(),
        first_empty(slots, from) <= slots.len(),
        first_empty(slots, from) < slots.len() ==> slots[first_empty(slots, from)].is_none(),
        forall|k: int| from <= k < first_empty(slots, from) ==> (#[trigger] slots[k]).is_some(),
    decreases slots.len() - from,
{
    if from < slots.len() && slots[from].is_some() {
        lemma_first_empty(slots, from + 1);
    }
}

/// A slot that is empty, with every slot before it filled, is the one that
/// the search for an empty slot returns.
pub proof fn lemma_first_empty_is(slots: Seq<Option<TaskView>>, at: int, from: int)
    requires
        0 <= from <= at <= slots.len(),
        at < slots.len() ==> slots[at].is_none(),
        forall|k: int| from <= k < at ==> (#[trigger] slots[k]).is_some(),
    ensures
        first_empty(slots, from) == at,
    decreases at - from,
{
    if from < at {
        lemma_first_empty_is(slots, at, from + 1);
    }
}

/// Filling the first empty slot of a gapless table leaves the table gapless,
/// with one task more.
pub proof fn lemma_fill_dense(slots: Seq<Option<TaskView>>, task: TaskView)
    requires
        dense(slots),
        first_empty(slots, 0) < slots.len(),
    ensures
        dense(slots.update(first_empty(slots, 0), Some(task))),
        first_empty(slots.update(first_empty(slots, 0), Some(task)), 0) == first_empty(slots, 0)
            + 1,
{
    let n = first_empty(slots, 0);
    let after = slots.update(n, Some(task));
    lemma_first_empty(slots, 0);
    assert forall|k: int| n < k < slots.len() implies (#[trigger] slots[k]).is_none() by {
        if slots[k].is_some() {
            assert(slots[n].is_some());
        }
    }
    assert forall|k: int| 0 <= k < n + 1 implies (#[trigger] after[k]).is_some() by {
        if k < n {
            assert(after[k] == slots[k]);
        }
    }
    lemma_first_empty_is(after, n + 1, 0);
}

/// Taking a task out of a gapless table and closing up leaves the table
/// gapless, with one task fewer, each later task one slot lower.
pub proof fn lemma_remove_dense(slots: Seq<Option<TaskView>>, at: int)
    requires
        dense(slots),
        0 <= at < slots.len(),
        slots[at].is_some(),
    ensures
        dense(slots.remove(at).push(None)),
        first_empty(slots.remove(at).push(None), 0) == first_empty(slots, 0) - 1,
        forall|k: int| 0 <= k < at ==> slots.remove(at).push(None)[k] == slots[k],
        forall|k: int| at <= k < slots.len() - 1 ==> slots.remove(at).push(None)[k] == slots[k + 1],
        slots.remove(at).push(None).last().is_none(),
{
    let after = slots.remove(at).push(None);
    let n = first_empty(slots, 0);
    lemma_first_empty(slots, 0);
    assert forall|i: int, j: int|
        0 <= i < j < after.len() && (#[trigger] after[j]).is_some() implies (
    #[trigger] after[i]).is_some() by {
        if j < at {
            assert(after[j] == slots[j] && after[i] == slots[i]);
        } else {
            assert(after[j] == slots[j + 1]);
            if i < at {
                assert(after[i] == slots[i]);
            } else {
                assert(after[i] == slots[i + 1]);
            }
        }
    }
    assert(after[n - 1].is_none()) by {
        if n < slots.len() {
            assert(after[n - 1] == slots[n]);
        }
    }
    assert forall|k: int| 0 <= k < n - 1 implies (#[trigger] after[k]).is_some() by {
        if k < at {
            assert(after[k] == slots[k]);
        } else {
            assert(after[k] == slots[k + 1]);
        }
    }
    lemma_first_empty_is(after, n - 1, 0);
}

/// A freshly prepared task is well formed wherever its stack fits the
/// address space, and the first switch to it resumes at its entry address.
pub proof fn lemma_new_task(base: int, entry: u32, words: int)
    requires
        words >= FRAME_WORDS,
        0 <= base,
        base + WORD_BYTES * words <= usize::MAX,
    ensures
        new_task(base, entry, words).wf(),
        new_task(base, entry, words).entry() == entry,
        new_task(base, entry, words).stack.len() == words,
{
}

/// In a gapless table the dispatcher activates the task at the cursor as
/// long as the cursor is below the number of tasks, and ends the pass there:
/// a pass reaches every task once, in slot order.
pub proof fn lemma_pass(slots: Seq<Option<TaskView>>, cursor: int)
    requires
        dense(slots),
        0 <= cursor <= usize::MAX,
    ensures
        action_at(slots, cursor) == if cursor < first_empty(slots, 0) {
            SchedulerAction::Activate(cursor as usize)
        } else {
            SchedulerAction::PassEnds
        },
{
    lemma_first_empty(slots, 0);
    let n = first_empty(slots, 0);
    if n <= cursor < slots.len() && slots[cursor].is_some() {
        assert(slots[n].is_some());
    }
}

/// The stacks of two tasks share no byte, and each lies within the heap's
/// range.
pub proof fn lemma_stacks_disjoint(table: TaskTable, heap: Heap, i: int, j: int)
    requires
        table.wf(),
        heap.wf(),
        table.backed_by(&heap),
        0 <= i < table.capacity(),
        0 <= j < table.capacity(),
        i != j,
        table@[i].is_some(),
        table@[j].is_some(),
    ensures
        table@[i].unwrap().base + WORD_BYTES * table@[i].unwrap().stack.len()
            <= table@[j].unwrap().base
            || table@[j].unwrap().base + WORD_BYTES * table@[j].unwrap().stack.len()
            <= table@[i].unwrap().base,
        heap.region_start() <= table@[i].unwrap().base,
        table@[i].unwrap().base + WORD_BYTES * table@[i].unwrap().stack.len() <= heap.region_end(),
{
    let slots = table@;
    let blocks = heap@;
    let ti = slots[i].unwrap();
    let tj = slots[j].unwrap();
    let bi = choose|b: Block| live(blocks).contains(b) && #[trigger] backs(b, ti);
    let bj = choose|b: Block| live(blocks).contains(b) && #[trigger] backs(b, tj);
    let ki = choose|k: int| is_live_at(blocks, k, bi);
    let kj = choose|k: int| is_live_at(blocks, k, bj);
    if i < j {
        assert(slots[i].unwrap().base != slots[j].unwrap().base);
    } else {
        assert(slots[j].unwrap().base != slots[i].unwrap().base);
    }
    lemma_chained_within(blocks, heap.region_start(), heap.region_end(), ki);
    if ki < kj {
        lemma_chained_ascending(blocks, heap.region_start(), heap.region_end(), ki, kj);
    } else if kj < ki {
        lemma_chained_ascending(blocks, heap.region_start(), heap.region_end(), kj, ki);
    }
}

/// A table without tasks is backed by any heap.
pub proof fn lemma_empty_backed(slots: Seq<Option<TaskView>>, blocks: Seq<Block>)
    requires
        first_empty(slots, 0) == 0,
        dense(slots),
    ensures
        backed(slots, blocks),
{
    lemma_first_empty(slots, 0);
    assert forall|i: int| 0 <= i < slots.len() implies (#[trigger] slots[i]).is_none() by {
        if slots[i].is_some() {
            assert(slots[0].is_some());
        }
    }
}

/// Tasks that own blocks of a heap own them in the table that the next
/// allocation works on.
pub proof fn lemma_backed_ready(slots: Seq<Option<TaskView>>, heap: Heap)
    requires
        backed(slots, heap@),
    ensures
        backed(slots, heap.ready()),
{
    if heap@.len() == 0 {
        assert forall|i: int| 0 <= i < slots.len() implies (#[trigger] slots[i]).is_none() by {
            if slots[i].is_some() {
                let b = choose|b: Block|
                    live(heap@).contains(b) && #[trigger] backs(b, slots[i].unwrap());
                let k = choose|k: int| is_live_at(heap@, k, b);
            }
        }
    }
}

/// A task registered on a freshly granted block owns that block, and every
/// task registered before still owns its own.
pub proof fn lemma_add_backed(
    slots: Seq<Option<TaskView>>,
    blocks: Seq<Block>,
    start: int,
    end: int,
    entry: u32,
    words: int,
)
    requires
        chained(blocks, start, end),
        0 <= start,
        end <= usize::MAX,
        framed(slots),
        backed(slots, blocks),
        words >= FRAME_WORDS,
        first_empty(slots, 0) < slots.len(),
        stack_grant(blocks, words).is_some(),
    ensures
        backed(
            slots.update(
                first_empty(slots, 0),
                Some(new_task(stack_grant(blocks, words).unwrap().payload(), entry, words)),
            ),
            after_allocate(blocks, words * WORD_BYTES),
        ),
{
    lemma_first_empty(slots, 0);
    let at = first_empty(slots, 0);
    let bytes = words * WORD_BYTES;
    let g = stack_grant(blocks, words).unwrap();
    let task = new_task(g.payload(), entry, words);
    let slots2 = slots.update(at, Some(task));
    let blocks2 = after_allocate(blocks, bytes);
    lemma_allocate_live(blocks, bytes);
    lemma_granted_within(blocks, start, end, bytes);
    assert(live(blocks2) == live(blocks).insert(g));
    assert forall|i: int| 0 <= i < slots2.len() && (#[trigger] slots2[i]).is_some() implies exists|
        b: Block,
    |
        live(blocks2).contains(b) && #[trigger] backs(b, slots2[i].unwrap()) by {
        if i == at {
            assert(live(blocks2).contains(g) && backs(g, task));
            assert(slots2[i].unwrap() == task);
        } else {
            assert(slots2[i] == slots[i]);
            let b = choose|b: Block|
                live(blocks).contains(b) && #[trigger] backs(b, slots[i].unwrap());
            assert(live(blocks).contains(b) && backs(b, slots[i].unwrap()));
            assert(live(blocks2).contains(b) && backs(b, slots2[i].unwrap()));
        }
    }
    assert forall|i: int, j: int|
        0 <= i < j < slots2.len() && (#[trigger] slots2[i]).is_some()
            && (#[trigger] slots2[j]).is_some()
        implies slots2[i].unwrap().base != slots2[j].unwrap().base by {
        if i != at && j != at {
            assert(slots2[i] == slots[i] && slots2[j] == slots[j]);
        } else {
            let other = if i == at {
                j
            } else {
                i
            };
            assert(slots2[other] == slots[other]);
            let b = choose|b: Block|
                live(blocks).contains(b) && #[trigger] backs(b, slots[other].unwrap());
            lemma_allocate_fresh(blocks, start, end, bytes, b);
            assert(slots[other].unwrap().wf());
        }
    }
}

/// After a task has been deleted and its stack given back, every task left
/// still owns its block.
pub proof fn lemma_delete_backed(
    slots: Seq<Option<TaskView>>,
    blocks: Seq<Block>,
    start: int,
    end: int,
    at: int,
)
    requires
        chained(blocks, start, end),
        backed(slots, blocks),
        0 <= at < slots.len(),
        slots[at].is_some(),
    ensures
        backed(slots.remove(at).push(None), after_dealloc(blocks, slots[at].unwrap().base)),
{
    let p = slots[at].unwrap().base;
    let slots2 = slots.remove(at).push(None);
    let blocks2 = after_dealloc(blocks, p);
    lemma_dealloc_live(blocks, start, end, p);
    assert forall|i: int| 0 <= i < slots2.len() && (#[trigger] slots2[i]).is_some() implies exists|
        b: Block,
    |
        live(blocks2).contains(b) && #[trigger] backs(b, slots2[i].unwrap()) by {
        let k = if i < at {
            i
        } else {
            i + 1
        };
        assert(slots2[i] == slots[k]);
        let b = choose|b: Block| live(blocks).contains(b) && #[trigger] backs(b, slots[k].unwrap());
        if k < at {
            assert(slots[k].unwrap().base != slots[at].unwrap().base);
        } else {
            assert(slots[at].unwrap().base != slots[k].unwrap().base);
        }
        assert(live(blocks2).contains(b) && backs(b, slots2[i].unwrap()));
    }
    assert forall|i: int, j: int|
        0 <= i < j < slots2.len() && (#[trigger] slots2[i]).is_some()
            && (#[trigger] slots2[j]).is_some()
        implies slots2[i].unwrap().base != slots2[j].unwrap().base by {
        let ki = if i < at {
            i
        } else {
            i + 1
        };
        let kj = if j < at {
            j
        } else {
            j + 1
        };
        assert(slots2[i] == slots[ki] && slots2[j] == slots[kj]);
    }
}

} // verus!
