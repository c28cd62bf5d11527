//! What holds of the task list whatever is done with it, stated over the
//! mathematical model and proved once for all lists.

use crate::input::{list_after, InstructionView};
use crate::model::{
    ascending_ids, has_id, insert_position, lemma_complete_wf, lemma_create_wf, lemma_delete_wf,
    lemma_position_of, lemma_undo_wf, place, position_of, task_lines, TaskListView,
};
use crate::task::TaskView;
use crate::text::is_blank;
use vstd::prelude::*;
use vstd::seq_lib::to_multiset_remove;

verus! {

/// The task list after a sequence of instructions, carried out in order.
pub open spec fn run(list: TaskListView, instructions: Seq<InstructionView>) -> TaskListView
    decreases instructions.len(),
{
    if instructions.len() == 0 {
        list
    } else {
        list_after(run(list, instructions.drop_last()), instructions.last())
    }
}

/// Carrying out an instruction keeps the invariant and never takes back an
/// id: the next id stays or grows.
pub proof fn lemma_list_after(list: TaskListView, instruction: InstructionView)
    requires
        list.wf(),
    ensures
        list_after(list, instruction).wf(),
        list_after(list, instruction).next_id >= list.next_id,
{
    match instruction {
        InstructionView::CreateTask(description) => lemma_create_wf(list, description),
        InstructionView::RunCommand(_, id) => {
            lemma_complete_wf(list, id);
            lemma_undo_wf(list, id);
            lemma_delete_wf(list, id);
        },
    }
}

/// The same of any sequence of instructions.
pub proof fn lemma_run(list: TaskListView, instructions: Seq<InstructionView>)
    requires
        list.wf(),
    ensures
        run(list, instructions).wf(),
        run(list, instructions).next_id >= list.next_id,
    decreases instructions.len(),
{
    if instructions.len() > 0 {
        lemma_run(list, instructions.drop_last());
        lemma_list_after(run(list, instructions.drop_last()), instructions.last());
    }
}

/// A new task goes to the end of the pending tasks under the next id, and
/// its line to the end of their rendering; nothing else changes.
pub proof fn lemma_create_appends(list: TaskListView, description: Seq<char>)
    requires
        list.wf(),
        !is_blank(description),
    ensures
        ({
            let task = TaskView { id: list.next_id, description };
            let after = list.create(description);
            &&& list.created_id(description) == list.next_id
            &&& after.pending == list.pending.push(task)
            &&& after.completed == list.completed
            &&& after.next_id == list.next_id + 1
            &&& task_lines(after.pending) == task_lines(list.pending) + task.rendering() + "\n"@
        }),
{
    let task = TaskView { id: list.next_id, description };
    assert(insert_position(list.pending.len(), task.id) == list.pending.len());
    assert(place(list.pending, task) =~= list.pending.push(task));
    assert(list.pending.push(task).drop_last() =~= list.pending);
}

/// Ids only grow: of two tasks that are made, the later one has the greater
/// id, whatever was done to the list in between.
pub proof fn lemma_later_id_is_greater(
    list: TaskListView,
    earlier: Seq<char>,
    between: Seq<InstructionView>,
    later: Seq<char>,
)
    requires
        list.wf(),
        !is_blank(earlier),
        !is_blank(later),
    ensures
        run(list.create(earlier), between).created_id(later) > list.created_id(earlier),
{
    lemma_create_wf(list, earlier);
    lemma_run(list.create(earlier), between);
}

/// Completing a pending task takes exactly that task out of the pending
/// ones, which keep their order, and puts it at the end of the completed
/// ones, which grow by one.
pub proof fn lemma_complete_moves(list: TaskListView, id: nat)
    requires
        list.wf(),
        has_id(list.pending, id),
    ensures
        ({
            let at = position_of(list.pending, id);
            let after = list.complete(id);
            &&& 0 <= at < list.pending.len()
            &&& list.pending[at].id == id
            &&& after.pending == list.pending.remove(at)
            &&& after.completed == list.completed.push(list.pending[at])
            &&& after.completed.len() == list.completed.len() + 1
            &&& after.next_id == list.next_id
            &&& !has_id(after.pending, id)
            &&& has_id(after.completed, id)
        }),
{
    let at = position_of(list.pending, id);
    let after = list.complete(id);
    lemma_position_of(list.pending, id);
    assert(after.completed[list.completed.len() as int].id == id);
    assert forall|i: int| 0 <= i < after.pending.len() implies (#[trigger] after.pending[i]).id
        != id by {
        if i < at {
            assert(after.pending[i] == list.pending[i]);
        } else {
            assert(after.pending[i] == list.pending[i + 1]);
        }
    }
}

/// Completing a task that is not pending changes nothing.
pub proof fn lemma_complete_absent(list: TaskListView, id: nat)
    requires
        !has_id(list.pending, id),
    ensures
        list.complete(id) == list,
{
    lemma_position_of(list.pending, id);
}

/// Moving a task back undoes completing it, as far as membership goes: the
/// pending tasks are the same tasks as before, though the task may stand at
/// another place, and the completed tasks are as they were, in their order.
pub proof fn lemma_undo_reverts_complete(list: TaskListView, id: nat)
    requires
        list.wf(),
        !has_id(list.completed, id),
    ensures
        ({
            let back = list.complete(id).undo(id);
            &&& back.pending.to_multiset() == list.pending.to_multiset()
            &&& back.completed == list.completed
            &&& back.next_id == list.next_id
            &&& has_id(list.pending, id) ==> has_id(back.pending, id)
        }),
{
    lemma_position_of(list.pending, id);
    lemma_position_of(list.completed, id);
    if has_id(list.pending, id) {
        let at = position_of(list.pending, id);
        let task = list.pending[at];
        let moved = list.complete(id);
        lemma_position_of(moved.completed, id);
        assert(moved.completed[list.completed.len() as int].id == id);
        assert forall|i: int| 0 <= i < list.completed.len() implies (
        #[trigger] moved.completed[i]).id != id by {
            assert(moved.completed[i] == list.completed[i]);
        }
        assert(position_of(moved.completed, id) == list.completed.len());
        let back = moved.undo(id);
        assert(back.completed =~= list.completed);
        let to = insert_position(moved.pending.len(), id);
        assert(task.id >= 1);
        assert(back.pending == moved.pending.insert(to, task));
        assert(back.pending[to] == task);
        assert(back.pending.remove(to) =~= moved.pending);
        to_multiset_remove(back.pending, to);
        to_multiset_remove(list.pending, at);
        back.pending.to_multiset_ensures();
        list.pending.to_multiset_ensures();
        assert(back.pending.contains(task));
        assert(list.pending.contains(task));
        let ours = back.pending.to_multiset();
        let theirs = list.pending.to_multiset();
        assert(ours.remove(task) == theirs.remove(task));
        assert forall|other: TaskView| ours.count(other) == theirs.count(other) by {
            assert(ours.remove(task).count(other) == theirs.remove(task).count(other));
        }
        assert(ours =~= theirs);
    }
}

/// Deleting takes the task out of the list that holds it and leaves the
/// other list alone; afterwards no task has the id, and deleting it again
/// changes nothing.
pub proof fn lemma_delete_removes(list: TaskListView, id: nat)
    requires
        list.wf(),
    ensures
        ({
            let after = list.delete(id);
            &&& !has_id(after.pending, id)
            &&& !has_id(after.completed, id)
            &&& after.delete(id) == after
            &&& after.next_id == list.next_id
            &&& has_id(list.pending, id) ==> {
                &&& after.pending == list.pending.remove(position_of(list.pending, id))
                &&& after.completed == list.completed
            }
            &&& !has_id(list.pending, id) && has_id(list.completed, id) ==> {
                &&& after.pending == list.pending
                &&& after.completed == list.completed.remove(position_of(list.completed, id))
            }
            &&& !has_id(list.pending, id) && !has_id(list.completed, id) ==> after == list
        }),
{
    let after = list.delete(id);
    let at = position_of(list.pending, id);
    let done_at = position_of(list.completed, id);
    lemma_position_of(list.pending, id);
    lemma_position_of(list.completed, id);
    if at < list.pending.len() {
        assert forall|i: int| 0 <= i < after.pending.len() implies (#[trigger] after.pending[i]).id
            != id by {
            if i < at {
                assert(after.pending[i] == list.pending[i]);
            } else {
                assert(after.pending[i] == list.pending[i + 1]);
            }
        }
    } else if done_at < list.completed.len() {
        assert forall|i: int| 0 <= i < after.completed.len() implies (
        #[trigger] after.completed[i]).id != id by {
            if i < done_at {
                assert(after.completed[i] == list.completed[i]);
            } else {
                assert(after.completed[i] == list.completed[i + 1]);
            }
        }
    }
    lemma_position_of(after.pending, id);
    lemma_position_of(after.completed, id);
}

/// Creating, completing and deleting keep the pending tasks in ascending
/// order of their ids.
pub proof fn lemma_order_kept(list: TaskListView, description: Seq<char>, id: nat)
    requires
        list.wf(),
        ascending_ids(list.pending),
    ensures
        ascending_ids(list.create(description).pending),
        ascending_ids(list.complete(id).pending),
        ascending_ids(list.delete(id).pending),
{
    if !is_blank(description) {
        lemma_create_appends(list, description);
    }
    lemma_position_of(list.pending, id);
    let at = position_of(list.pending, id);
    if at < list.pending.len() {
        let rest = list.pending.remove(at);
        assert forall|i: int, j: int| 0 <= i < j < rest.len() implies (#[trigger] rest[i]).id < (
        #[trigger] rest[j]).id by {
            let from = if i < at { i } else { i + 1 };
            let to = if j < at { j } else { j + 1 };
            assert(rest[i] == list.pending[from]);
            assert(rest[j] == list.pending[to]);
        }
    }
}

/// In a list of ascending positive ids, the task at a position has an id
/// greater than the position.
proof fn lemma_ascending_lower_bound(tasks: Seq<TaskView>, at: int)
    requires
        ascending_ids(tasks),
        forall|i: int| 0 <= i < tasks.len() ==> (#[trigger] tasks[i]).id >= 1,
        0 <= at < tasks.len(),
    ensures
        tasks[at].id >= at + 1,
    decreases at,
{
    if at > 0 {
        lemma_ascending_lower_bound(tasks, at - 1);
    }
}

/// In a list of ascending positive ids that has every id below `bound`,
/// these ids stand at the front, each at the position one less than itself.
proof fn lemma_dense_front(tasks: Seq<TaskView>, bound: nat, at: int)
    requires
        ascending_ids(tasks),
        forall|i: int| 0 <= i < tasks.len() ==> (#[trigger] tasks[i]).id >= 1,
        forall|k: nat| 1 <= k < bound ==> has_id(tasks, k),
        0 <= at,
        at + 1 < bound,
    ensures
        at < tasks.len(),
        tasks[at].id == at + 1,
    decreases at,
{
    let wanted = (at + 1) as nat;
    assert(has_id(tasks, wanted));
    let found = choose|i: int| 0 <= i < tasks.len() && (#[trigger] tasks[i]).id == wanted;
    if found < at {
        lemma_dense_front(tasks, bound, found);
    } else if found > at {
        lemma_ascending_lower_bound(tasks, at);
    }
}

/// Moving a task back keeps the pending tasks in ascending order of their
/// ids where every task with a smaller id is pending: the positional rule
/// then puts the task where its id belongs.
pub proof fn lemma_undo_keeps_order(list: TaskListView, id: nat)
    requires
        list.wf(),
        ascending_ids(list.pending),
        forall|k: nat| 1 <= k < id ==> has_id(list.pending, k),
    ensures
        ascending_ids(list.undo(id).pending),
{
    lemma_position_of(list.completed, id);
    let at = position_of(list.completed, id);
    if at < list.completed.len() {
        let tasks = list.pending;
        let task = list.completed[at];
        let to = insert_position(tasks.len(), id);
        let after = tasks.insert(to, task);
        assert(task.id == id && id >= 1);
        if id >= 2 {
            lemma_dense_front(tasks, id, id - 2);
        }
        if to < tasks.len() {
            lemma_ascending_lower_bound(tasks, to);
            assert(tasks[to].id != id);
        }
        assert forall|i: int, j: int| 0 <= i < j < after.len() implies (#[trigger] after[i]).id < (
        #[trigger] after[j]).id by {
            if j == to {
                assert(after[i] == tasks[i]);
                assert(tasks[i].id <= tasks[to - 1].id);
            } else if i == to {
                assert(after[j] == tasks[j - 1]);
                assert(tasks[to].id <= tasks[j - 1].id);
            } else {
                let from = if i < to { i } else { i - 1 };
                let upto = if j < to { j } else { j - 1 };
                assert(after[i] == tasks[from]);
                assert(after[j] == tasks[upto]);
            }
        }
    }
}

} // verus!
