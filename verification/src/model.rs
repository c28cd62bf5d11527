//! The task list as a mathematical value: two sequences of tasks and the
//! next id to hand out, with the four operations on it as functions from
//! one such value to the next.

use crate::task::TaskView;
use crate::text::is_blank;
use vstd::prelude::*;

verus! {

/// The first position at or after `from` whose task has the given id, or
/// `tasks.len()` if there is none.
pub open spec fn first_with_id(tasks: Seq<TaskView>, id: nat, from: int) -> int
    recommends
        0 <= from <= tasks.len(),
    decreases tasks.len() - from,
{
    if from >= tasks.len() {
        tasks.len() as int
    } else if tasks[from].id == id {
        from
    } else {
        first_with_id(tasks, id, from + 1)
    }
}

/// Where a linear scan finds the given id: the position of the first task
/// that has it, or `tasks.len()` if none has.
pub open spec fn position_of(tasks: Seq<TaskView>, id: nat) -> int {
    first_with_id(tasks, id, 0)
}

/// Whether some task of the sequence has the given id.
pub open spec fn has_id(tasks: Seq<TaskView>, id: nat) -> bool {
    exists|i: int| 0 <= i < tasks.len() && (#[trigger] tasks[i]).id == id
}

/// No two tasks of the sequence share an id.
pub open spec fn distinct_ids(tasks: Seq<TaskView>) -> bool {
    forall|i: int, j: int|
        0 <= i < j < tasks.len() ==> (#[trigger] tasks[i]).id != (#[trigger] tasks[j]).id
}

/// The tasks stand in ascending order of their ids.
pub open spec fn ascending_ids(tasks: Seq<TaskView>) -> bool {
    forall|i: int, j: int|
        0 <= i < j < tasks.len() ==> (#[trigger] tasks[i]).id < (#[trigger] tasks[j]).id
}

/// No task of `a` shares an id with a task of `b`.
pub open spec fn disjoint_ids(a: Seq<TaskView>, b: Seq<TaskView>) -> bool {
    forall|i: int, j: int|
        0 <= i < a.len() && 0 <= j < b.len() ==> (#[trigger] a[i]).id != (#[trigger] b[j]).id
}

/// Every task has a positive id that was handed out already, and a
/// description that is not blank.
pub open spec fn valid_tasks(tasks: Seq<TaskView>, next_id: nat) -> bool {
    forall|i: int|
        0 <= i < tasks.len() ==> {
            &&& 1 <= (#[trigger] tasks[i]).id < next_id
            &&& !is_blank(tasks[i].description)
        }
}

/// The positional rule: a task goes to position `id - 1` if the list is
/// long enough to have it, and to the end otherwise.
pub open spec fn insert_position(len: nat, id: nat) -> int
    recommends
        id >= 1,
{
    if len < id {
        len as int
    } else {
        id - 1
    }
}

/// `tasks` with `task` put in by the positional rule.
pub open spec fn place(tasks: Seq<TaskView>, task: TaskView) -> Seq<TaskView>
    recommends
        task.id >= 1,
{
    tasks.insert(insert_position(tasks.len(), task.id), task)
}

/// The tasks, one line each, in order.
pub open spec fn task_lines(tasks: Seq<TaskView>) -> Seq<char>
    decreases tasks.len(),
{
    if tasks.len() == 0 {
        Seq::empty()
    } else {
        task_lines(tasks.drop_last()) + tasks.last().rendering() + "\n"@
    }
}

/// The line that parts the pending tasks from the completed ones on display.
pub open spec fn separator_line() -> Seq<char> {
    "----------------------------------\n"@
}

/// The state of a task list.
pub struct TaskListView {
    /// The tasks still to do.
    pub pending: Seq<TaskView>,
    /// The tasks done, in the order in which they were completed.
    pub completed: Seq<TaskView>,
    /// The id that the next new task gets.
    pub next_id: nat,
}

impl TaskListView {
    /// The list that holds no task and has handed out no id.
    pub open spec fn empty() -> TaskListView {
        TaskListView { pending: Seq::empty(), completed: Seq::empty(), next_id: 1 }
    }

    /// The invariant of a task list: ids are positive, were handed out
    /// before, and occur once over both lists; descriptions are not blank.
    pub open spec fn wf(self) -> bool {
        &&& self.next_id >= 1
        &&& self.pending.len() + self.completed.len() < self.next_id
        &&& valid_tasks(self.pending, self.next_id)
        &&& valid_tasks(self.completed, self.next_id)
        &&& distinct_ids(self.pending)
        &&& distinct_ids(self.completed)
        &&& disjoint_ids(self.pending, self.completed)
    }

    /// The id that creating a task with this description returns: the next
    /// id, or 0 where the description is blank and no task is made.
    pub open spec fn created_id(self, description: Seq<char>) -> nat {
        if is_blank(description) {
            0
        } else {
            self.next_id
        }
    }

    /// The list after creating a task with this description.
    pub open spec fn create(self, description: Seq<char>) -> TaskListView {
        if is_blank(description) {
            self
        } else {
            TaskListView {
                pending: place(self.pending, TaskView { id: self.next_id, description }),
                completed: self.completed,
                next_id: self.next_id + 1,
            }
        }
    }

    /// The list after completing the task with this id.
    pub open spec fn complete(self, id: nat) -> TaskListView {
        let at = position_of(self.pending, id);
        if at < self.pending.len() {
            TaskListView {
                pending: self.pending.remove(at),
                completed: self.completed.push(self.pending[at]),
                next_id: self.next_id,
            }
        } else {
            self
        }
    }

    /// The list after moving the completed task with this id back.
    pub open spec fn undo(self, id: nat) -> TaskListView {
        let at = position_of(self.completed, id);
        if at < self.completed.len() {
            TaskListView {
                pending: place(self.pending, self.completed[at]),
                completed: self.completed.remove(at),
                next_id: self.next_id,
            }
        } else {
            self
        }
    }

    /// The list after deleting the task with this id: from the pending
    /// tasks if one of them has it, else from the completed ones.
    pub open spec fn delete(self, id: nat) -> TaskListView {
        let at = position_of(self.pending, id);
        let done_at = position_of(self.completed, id);
        if at < self.pending.len() {
            TaskListView { pending: self.pending.remove(at), ..self }
        } else if done_at < self.completed.len() {
            TaskListView { completed: self.completed.remove(done_at), ..self }
        } else {
            self
        }
    }

    /// The whole list as text: the pending tasks, the separator, the
    /// completed tasks.
    pub open spec fn rendering(self) -> Seq<char> {
        task_lines(self.pending) + separator_line() + task_lines(self.completed)
    }
}

/// What `first_with_id` finds: no task before it has the id, and the task
/// at it has, unless the list ran out.
pub proof fn lemma_first_with_id(tasks: Seq<TaskView>, id: nat, from: int)
    requires
        0 <= from <= tasks.len(),
    ensures
        from <= first_with_id(tasks, id, from) <= tasks.len(),
        forall|i: int| from <= i < first_with_id(tasks, id, from) ==> (#[trigger] tasks[i]).id != id,
        first_with_id(tasks, id, from) < tasks.len() ==> tasks[first_with_id(tasks, id, from)].id
            == id,
    decreases tasks.len() - from,
{
    if from < tasks.len() && tasks[from].id != id {
        lemma_first_with_id(tasks, id, from + 1);
    }
}

/// A scan finds an id exactly where some task has it, and then finds the
/// first such task.
pub proof fn lemma_position_of(tasks: Seq<TaskView>, id: nat)
    ensures
        0 <= position_of(tasks, id) <= tasks.len(),
        position_of(tasks, id) < tasks.len() <==> has_id(tasks, id),
        position_of(tasks, id) < tasks.len() ==> tasks[position_of(tasks, id)].id == id,
        forall|i: int| 0 <= i < position_of(tasks, id) ==> (#[trigger] tasks[i]).id != id,
{
    lemma_first_with_id(tasks, id, 0);
}

/// Creating a task keeps the invariant.
pub proof fn lemma_create_wf(list: TaskListView, description: Seq<char>)
    requires
        list.wf(),
    ensures
        list.create(description).wf(),
{
}

/// Completing a task keeps the invariant.
pub proof fn lemma_complete_wf(list: TaskListView, id: nat)
    requires
        list.wf(),
    ensures
        list.complete(id).wf(),
{
    lemma_position_of(list.pending, id);
}

/// Moving a task back keeps the invariant.
pub proof fn lemma_undo_wf(list: TaskListView, id: nat)
    requires
        list.wf(),
    ensures
        list.undo(id).wf(),
{
    lemma_position_of(list.completed, id);
}

/// Deleting a task keeps the invariant.
pub proof fn lemma_delete_wf(list: TaskListView, id: nat)
    requires
        list.wf(),
    ensures
        list.delete(id).wf(),
{
    lemma_position_of(list.pending, id);
    lemma_position_of(list.completed, id);
}

} // verus!
