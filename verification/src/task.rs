//! The task table and the decisions of its cooperative dispatcher.
//!
//! A task is a stack buffer obtained from the heap, prepared so that the first
//! switch to it pops a zeroed register frame and then the task's entry address.
//! The table has a fixed number of slots, filled from slot 0 without gaps. The
//! dispatcher walks the table with a cursor; what it decides stands here, the
//! switch itself is done by the firmware around it.
//!
//! This file holds the table and its operations. What their contracts speak
//! of is defined in `model`; what holds of every table is proved in `laws`.

pub mod laws;
pub mod model;

use crate::heap::laws::{lemma_allocate_live, lemma_granted_within, lemma_ready};
use crate::heap::model::{after_allocate, after_dealloc};
use crate::heap::{allocate, dealloc, Heap};
use crate::task::laws::{
    lemma_add_backed, lemma_backed_ready, lemma_delete_backed, lemma_fill_dense,
    lemma_first_empty, lemma_remove_dense,
};
use crate::task::model::{
    action_at, backed, dense, first_empty, framed, initial_stack, new_task, next_cursor,
    stack_grant, TaskView,
};
pub use crate::task::model::{CONTEXT_SIZE, FRAME_WORDS, WORD_BYTES};
use vstd::prelude::*;

verus! {

/// Why a task could not be registered.
#[derive(Clone, Copy, Debug, PartialEq, Eq, Structural)]
pub enum TaskError {
    /// Every slot of the table holds a task.
    TaskLimitExceeded,
    /// The heap has no block for the stack.
    OutOfMemory,
}

/// A registered task.
#[derive(Debug)]
pub struct Task {
    /// Address of the stack buffer in the heap.
    pub base: usize,
    /// The words of the stack buffer.
    pub stack: Vec<u32>,
    /// Index of the word that the stack pointer starts at.
    pub top: usize,
}

impl View for Task {
    type V = TaskView;

    open spec fn view(&self) -> TaskView {
        TaskView { base: self.base as int, stack: self.stack@, top: self.top as int }
    }
}

/// The fixed-capacity table of tasks, with the dispatcher's cursor.
pub struct TaskTable {
    slots: Vec<Option<Task>>,
    cur_task: usize,
}

/// A slot as plain values.
pub open spec fn slot_view(slot: Option<Task>) -> Option<TaskView> {
    match slot {
        Some(task) => Some(task@),
        None => None,
    }
}

impl View for TaskTable {
    type V = Seq<Option<TaskView>>;

    /// The slots, slot 0 first.
    closed spec fn view(&self) -> Seq<Option<TaskView>> {
        self.slots@.map_values(|slot: Option<Task>| slot_view(slot))
    }
}

impl TaskTable {
    /// Index of the slot that the dispatcher is at.
    pub closed spec fn cursor(&self) -> int {
        self.cur_task as int
    }

    /// Number of slots.
    pub open spec fn capacity(&self) -> int {
        self@.len() as int
    }

    /// The slots are filled without gaps, every task is well formed, and
    /// the cursor is at a slot or just behind the last.
    pub open spec fn wf(&self) -> bool {
        &&& dense(self@)
        &&& framed(self@)
        &&& 0 <= self.cursor() <= self.capacity()
    }

    /// Every task of the table owns a live block of `heap` as its stack, each
    /// task its own.
    pub open spec fn backed_by(&self, heap: &Heap) -> bool {
        backed(self@, heap@)
    }

    /// A table of `limit` empty slots, the cursor at slot 0.
    pub fn new(limit: usize) -> (r: TaskTable)
        ensures
            r.wf(),
            r.capacity() == limit,
            r.cursor() == 0,
            forall|i: int| 0 <= i < limit ==> r@[i].is_none(),
    {
        let mut slots: Vec<Option<Task>> = Vec::new();
        let mut i: usize = 0;
        while i < limit
            invariant
                i <= limit,
                slots@.len() == i,
                forall|k: int| 0 <= k < i ==> slots@[k].is_none(),
            decreases limit - i,
        {
            slots.push(None);
            i += 1;
        }
        TaskTable { slots, cur_task: 0 }
    }

    /// Number of slots.
    pub fn limit(&self) -> (r: usize)
        ensures
            r == self.capacity(),
    {
        self.slots.len()
    }

    /// Index of the slot that the dispatcher is at.
    pub fn current(&self) -> (r: usize)
        ensures
            r == self.cursor(),
    {
        self.cur_task
    }

    /// Number of registered tasks.
    pub fn count(&self) -> (r: usize)
        ensures
            r == first_empty(self@, 0),
    {
        let mut i: usize = 0;
        while i < self.slots.len() && self.slots[i].is_some()
            invariant
                i <= self.slots.len(),
                first_empty(self@, i as int) == first_empty(self@, 0),
            decreases self.slots.len() - i,
        {
            assert(self@[i as int] == slot_view(self.slots@[i as int]));
            i += 1;
        }
        if i < self.slots.len() {
            assert(self@[i as int] == slot_view(self.slots@[i as int]));
        }
        i
    }

    /// The task in slot `index`, if the slot exists and is filled.
    pub fn get(&self, index: usize) -> (r: Option<&Task>)
        ensures
            match r {
                Some(task) => index < self.capacity() && self@[index as int] == Some(task@),
                None => index >= self.capacity() || self@[index as int].is_none(),
            },
    {
        if index < self.slots.len() {
            assert(self@[index as int] == slot_view(self.slots@[index as int]));
            self.slots[index].as_ref()
        } else {
            None
        }
    }
}

/// Registers a task that starts at address `task_code` on a stack of
/// `stack_size` words taken from `heap`, in the first empty slot.
///
/// Fails with `TaskLimitExceeded`, and leaves the heap alone, when no slot is
/// empty; with `OutOfMemory` when the heap grants no block for the stack.
pub fn task_add(table: &mut TaskTable, heap: &mut Heap, task_code: u32, stack_size: usize) -> (r:
    Result<(), TaskError>)
    requires
        old(table).wf(),
        old(heap).wf(),
        stack_size >= FRAME_WORDS,
    ensures
        final(table).wf(),
        final(table).capacity() == old(table).capacity(),
        final(table).cursor() == old(table).cursor(),
        final(heap).wf(),
        final(heap).region_start() == old(heap).region_start(),
        final(heap).region_size() == old(heap).region_size(),
        old(table).backed_by(old(heap)) ==> final(table).backed_by(final(heap)),
        first_empty(final(table)@, 0) == first_empty(old(table)@, 0) + if r.is_ok() {
            1int
        } else {
            0int
        },
        match r {
            Err(TaskError::TaskLimitExceeded) => {
                &&& first_empty(old(table)@, 0) == old(table).capacity()
                &&& final(table)@ == old(table)@
                &&& final(heap)@ == old(heap)@
            },
            Err(TaskError::OutOfMemory) => {
                &&& first_empty(old(table)@, 0) < old(table).capacity()
                &&& stack_grant(old(heap).ready(), stack_size as int).is_none()
                &&& final(table)@ == old(table)@
                &&& final(heap)@ == if stack_size * WORD_BYTES > usize::MAX {
                    old(heap)@
                } else {
                    after_allocate(old(heap).ready(), stack_size * WORD_BYTES)
                }
            },
            Ok(()) => {
                &&& first_empty(old(table)@, 0) < old(table).capacity()
                &&& stack_grant(old(heap).ready(), stack_size as int) matches Some(g)
                &&& final(heap)@ == after_allocate(old(heap).ready(), stack_size * WORD_BYTES)
                &&& final(table)@ == old(table)@.update(
                    first_empty(old(table)@, 0),
                    Some(new_task(g.payload(), task_code, stack_size as int)),
                )
            },
        },
{
    let mut i: usize = 0;
    while i < table.slots.len() && table.slots[i].is_some()
        invariant
            i <= table.slots.len(),
            table@ == old(table)@,
            first_empty(table@, i as int) == first_empty(table@, 0),
        decreases table.slots.len() - i,
    {
        assert(table@[i as int] == slot_view(table.slots@[i as int]));
        i += 1;
    }
    if i == table.slots.len() {
        return Err(TaskError::TaskLimitExceeded);
    }
    assert(table@[i as int] == slot_view(table.slots@[i as int]));
    if stack_size > usize::MAX / WORD_BYTES {
        return Err(TaskError::OutOfMemory);
    }
    let base = match allocate(heap, stack_size * WORD_BYTES) {
        Some(p) => p,
        None => {
            proof {
                lemma_allocate_live(old(heap).ready(), stack_size * WORD_BYTES);
                if old(table).backed_by(old(heap)) {
                    lemma_backed_ready(old(table)@, *old(heap));
                }
            }
            return Err(TaskError::OutOfMemory);
        },
    };
    let mut stack: Vec<u32> = vec![0u32; stack_size];
    stack.set(stack_size - 1, task_code);
    let task = Task { base, stack, top: stack_size - FRAME_WORDS };
    proof {
        lemma_allocate_live(old(heap).ready(), stack_size * WORD_BYTES);
        lemma_ready(*old(heap));
        lemma_granted_within(
            old(heap).ready(),
            heap.region_start(),
            heap.region_end(),
            stack_size * WORD_BYTES,
        );
        assert(task@.stack =~= initial_stack(task_code, stack_size as int));
        assert(task@ == new_task(base as int, task_code, stack_size as int));
        lemma_first_empty(old(table)@, 0);
        lemma_fill_dense(old(table)@, task@);
        if old(table).backed_by(old(heap)) {
            lemma_backed_ready(old(table)@, *old(heap));
            lemma_add_backed(
                old(table)@,
                old(heap).ready(),
                heap.region_start(),
                heap.region_end(),
                task_code,
                stack_size as int,
            );
        }
    }
    table.slots.set(i, Some(task));
    proof {
        assert(table@ =~= old(table)@.update(
            i as int,
            Some(new_task(base as int, task_code, stack_size as int)),
        ));
    }
    Ok(())
}

/// Removes the task at the cursor: every later slot moves down by one, the
/// last slot becomes empty, and the task's stack goes back to `heap`. The
/// cursor stays where it is, now at the task that followed.
pub fn task_delete(table: &mut TaskTable, heap: &mut Heap)
    requires
        old(table).wf(),
        old(heap).wf(),
        old(table).cursor() < old(table).capacity(),
        old(table)@[old(table).cursor()].is_some(),
    ensures
        final(table).wf(),
        final(table).capacity() == old(table).capacity(),
        final(table).cursor() == old(table).cursor(),
        final(table)@ == old(table)@.remove(old(table).cursor()).push(None),
        first_empty(final(table)@, 0) == first_empty(old(table)@, 0) - 1,
        final(heap).wf(),
        final(heap).region_start() == old(heap).region_start(),
        final(heap).region_size() == old(heap).region_size(),
        final(heap)@ == after_dealloc(old(heap)@, old(table)@[old(table).cursor()].unwrap().base),
        old(table).backed_by(old(heap)) ==> final(table).backed_by(final(heap)),
{
    let cur = table.cur_task;
    assert(table@[cur as int] == slot_view(table.slots@[cur as int]));
    let slot = table.slots.remove(cur);
    table.slots.push(None);
    proof {
        assert(table@ =~= old(table)@.remove(cur as int).push(None));
        lemma_remove_dense(old(table)@, cur as int);
        if old(table).backed_by(old(heap)) {
            lemma_delete_backed(
                old(table)@,
                old(heap)@,
                heap.region_start(),
                heap.region_end(),
                cur as int,
            );
        }
    }
    match slot {
        Some(task) => {
            dealloc(heap, task.base);
        },
        None => {},
    }
}

/// What the dispatcher is told when it is asked for its next step.
#[derive(Clone, Copy, Debug, PartialEq, Eq, Structural)]
pub enum SchedulerEvent {
    /// A pass over the table begins.
    PassStarts,
    /// The task that was activated last has handed the processor back.
    TaskReturned,
}

/// What the dispatcher wants done next.
#[derive(Clone, Copy, Debug, PartialEq, Eq, Structural)]
pub enum SchedulerAction {
    /// Activate the task in this slot.
    Activate(usize),
    /// No task is left in this pass; begin the next one.
    PassEnds,
}

/// One step of the dispatcher: moves the cursor as the event asks, and says
/// whether a task stands there to be activated.
pub fn task_scheduler(table: &mut TaskTable, event: SchedulerEvent) -> (r: SchedulerAction)
    requires
        old(table).wf(),
    ensures
        final(table).wf(),
        final(table)@ == old(table)@,
        final(table).cursor() == next_cursor(old(table).cursor(), old(table).capacity(), event),
        r == action_at(final(table)@, final(table).cursor()),
{
    match event {
        SchedulerEvent::PassStarts => {
            table.cur_task = 0;
        },
        SchedulerEvent::TaskReturned => {
            if table.cur_task < table.slots.len() {
                table.cur_task += 1;
            }
        },
    }
    let cur = table.cur_task;
    if cur < table.slots.len() {
        assert(table@[cur as int] == slot_view(table.slots@[cur as int]));
        if table.slots[cur].is_some() {
            return SchedulerAction::Activate(cur);
        }
    }
    SchedulerAction::PassEnds
}

/// The values that the switch to a task installs.
#[derive(Clone, Copy, Debug, PartialEq, Eq, Structural)]
pub struct Activation {
    /// Address that becomes the task's stack pointer: the start of its frame.
    pub stack_pointer: usize,
    /// Address that the task starts to run at.
    pub resume: u32,
    /// Address that a return from the task's entry function goes to.
    pub link: u32,
}

/// Prepares the switch to `task`: the stack pointer goes to the task's saved
/// frame, the task resumes at the address in the frame's last word, and a
/// return from it leads to `teardown`.
pub fn activate(task: &Task, teardown: u32) -> (r: Activation)
    requires
        task@.wf(),
    ensures
        r.stack_pointer == task@.base + WORD_BYTES * task@.top,
        r.resume == task@.entry(),
        r.link == teardown,
{
    Activation {
        stack_pointer: task.base + WORD_BYTES * task.top,
        resume: task.stack[task.top + CONTEXT_SIZE],
        link: teardown,
    }
}

} // verus!
