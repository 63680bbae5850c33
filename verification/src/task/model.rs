//! Tasks and task tables as mathematics: what a prepared stack holds, where
//! the next task goes, and what the dispatcher does at a cursor.

use crate::heap::model::{granted, live, Block};
use crate::task::{SchedulerAction, SchedulerEvent};
use vstd::prelude::*;

verus! {

/// General registers that a context switch saves on the stack.
pub const CONTEXT_SIZE: usize = 8;

/// Words of the frame that the first switch to a task pops: the saved
/// registers, then the address to resume at.
pub const FRAME_WORDS: usize = CONTEXT_SIZE + 1;

/// Bytes in a stack word.
pub const WORD_BYTES: usize = 4;

/// What a task is, as plain values.
pub struct TaskView {
    /// Address of the stack buffer in the heap.
    pub base: int,
    /// The words of the stack buffer.
    pub stack: Seq<u32>,
    /// Index of the word that the stack pointer starts at.
    pub top: int,
}

impl TaskView {
    /// The frame lies at the top of the buffer, and the buffer ends within
    /// the address space.
    pub open spec fn wf(self) -> bool {
        &&& 0 <= self.top
        &&& self.top + FRAME_WORDS == self.stack.len()
        &&& 0 <= self.base
        &&& self.base + WORD_BYTES * self.stack.len() <= usize::MAX
    }

    /// The address that the first switch to the task resumes at.
    pub open spec fn entry(self) -> u32 {
        self.stack[self.top + CONTEXT_SIZE]
    }
}

/// A stack of `words` words, all zero but the last, which holds `entry`: the
/// register frame at the top pops as zeroes and then the entry address.
pub open spec fn initial_stack(entry: u32, words: int) -> Seq<u32> {
    Seq::new(
        words as nat,
        |i: int|
            if i == words - 1 {
                entry
            } else {
                0u32
            },
    )
}

/// The task made of a fresh stack of `words` words at address `base`.
pub open spec fn new_task(base: int, entry: u32, words: int) -> TaskView {
    TaskView { base, stack: initial_stack(entry, words), top: words - FRAME_WORDS }
}

/// Index of the first empty slot at or behind `from`, or the number of slots
/// when there is none.
pub open spec fn first_empty(slots: Seq<Option<TaskView>>, from: int) -> int
    decreases slots.len() - from,
{
    if from < 0 || from >= slots.len() {
        slots.len() as int
    } else if slots[from].is_none() {
        from
    } else {
        first_empty(slots, from + 1)
    }
}

/// No empty slot stands before a filled one.
pub open spec fn dense(slots: Seq<Option<TaskView>>) -> bool {
    forall|i: int, j: int|
        0 <= i < j < slots.len() && (#[trigger] slots[j]).is_some()
            ==> (#[trigger] slots[i]).is_some()
}

/// Every task in the slots has at least its frame on its stack.
pub open spec fn framed(slots: Seq<Option<TaskView>>) -> bool {
    forall|i: int|
        0 <= i < slots.len() && (#[trigger] slots[i]).is_some() ==> slots[i].unwrap().wf()
}

/// The block that the heap grants for a stack of `words` words, if it has one.
pub open spec fn stack_grant(blocks: Seq<Block>, words: int) -> Option<Block> {
    if words * WORD_BYTES > usize::MAX {
        None
    } else {
        granted(blocks, words * WORD_BYTES)
    }
}

/// Block `b` is in use and holds the stack of task `t`.
pub open spec fn backs(b: Block, t: TaskView) -> bool {
    !b.free && b.payload() == t.base && b.size >= WORD_BYTES * t.stack.len()
}

/// Every task's stack is the payload of a live block of `blocks`, and no two
/// tasks have their stack at the same address.
pub open spec fn backed(slots: Seq<Option<TaskView>>, blocks: Seq<Block>) -> bool {
    &&& forall|i: int|
        0 <= i < slots.len() && (#[trigger] slots[i]).is_some() ==> exists|b: Block|
            live(blocks).contains(b) && #[trigger] backs(b, slots[i].unwrap())
    &&& forall|i: int, j: int|
        0 <= i < j < slots.len() && (#[trigger] slots[i]).is_some()
            && (#[trigger] slots[j]).is_some()
            ==> slots[i].unwrap().base != slots[j].unwrap().base
}

/// Where the cursor goes on an event: to slot 0 when a pass starts, one slot
/// on when a task has returned, never past the end of the table.
pub open spec fn next_cursor(cursor: int, capacity: int, event: SchedulerEvent) -> int {
    match event {
        SchedulerEvent::PassStarts => 0,
        SchedulerEvent::TaskReturned => if cursor < capacity {
            cursor + 1
        } else {
            cursor
        },
    }
}

/// What to do with the cursor at `cursor`: activate the task there, or end
/// the pass when there is none.
pub open spec fn action_at(slots: Seq<Option<TaskView>>, cursor: int) -> SchedulerAction {
    if 0 <= cursor < slots.len() && slots[cursor].is_some() {
        SchedulerAction::Activate(cursor as usize)
    } else {
        SchedulerAction::PassEnds
    }
}

} // verus!
