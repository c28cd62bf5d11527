//! The task list engine: it owns the pending and the completed tasks,
//! hands out ids, and carries out the four operations.

use crate::laws::lemma_create_appends;
use crate::model::{
    first_with_id, has_id, lemma_complete_wf, lemma_create_wf, lemma_delete_wf, lemma_position_of,
    lemma_undo_wf, place, position_of, task_lines, TaskListView,
};
use crate::task::{Task, TaskView};
use crate::text::{is_blank, is_blank_text};
use vstd::prelude::*;
use vstd::string::StringExecFns;

verus! {

/// What a sequence of tasks holds, task by task.
pub open spec fn views_of(tasks: Seq<Task>) -> Seq<TaskView> {
    tasks.map_values(|task: Task| task@)
}

#[derive(PartialEq, Debug)]
pub struct TaskList {
    todo: Vec<Task>,
    completed: Vec<Task>,
    next_id: usize,
}

impl View for TaskList {
    type V = TaskListView;

    closed spec fn view(&self) -> TaskListView {
        TaskListView {
            pending: views_of(self.todo@),
            completed: views_of(self.completed@),
            next_id: self.next_id as nat,
        }
    }
}

impl Default for TaskList {
    fn default() -> (list: TaskList)
        ensures
            list@ == TaskListView::empty(),
            list.wf(),
    {
        TaskList::new()
    }
}

impl TaskList {
    /// The invariant that every operation keeps.
    pub open spec fn wf(&self) -> bool {
        self@.wf()
    }

    /// A list without tasks; the first task made in it gets id 1.
    pub fn new() -> (list: TaskList)
        ensures
            list@ == TaskListView::empty(),
            list.wf(),
    {
        let list = TaskList { todo: Vec::new(), completed: Vec::new(), next_id: 1 };
        assert(list@.pending =~= Seq::empty());
        assert(list@.completed =~= Seq::empty());
        list
    }

    /// The tasks still to do, in display order.
    pub fn pending(&self) -> (tasks: &Vec<Task>)
        ensures
            views_of(tasks@) == self@.pending,
    {
        &self.todo
    }

    /// The tasks done, in the order in which they were completed.
    pub fn completed(&self) -> (tasks: &Vec<Task>)
        ensures
            views_of(tasks@) == self@.completed,
    {
        &self.completed
    }

    /// The id that the next new task gets.
    pub fn next_id(&self) -> (id: usize)
        ensures
            id == self@.next_id,
    {
        self.next_id
    }

    /// Puts a task among the pending ones by the positional rule.
    fn add_task_todo(&mut self, task: Task)
        requires
            task@.id >= 1,
        ensures
            final(self)@ == (TaskListView {
                pending: place(old(self)@.pending, task@),
                ..old(self)@
            }),
    {
        if self.todo.len() < task.id() {
            self.todo.push(task);
        } else {
            let index = task.id() - 1;
            self.todo.insert(index, task);
        }
        assert(self@.pending =~= place(old(self)@.pending, task@));
    }

    /// Takes the first task with the given id out of `list`, if there is one.
    fn remove_task_from_list(list: &mut Vec<Task>, task_id: usize) -> (removed: Option<Task>)
        ensures
            ({
                let tasks = views_of(old(list)@);
                let at = position_of(tasks, task_id as nat);
                match removed {
                    Some(task) => {
                        &&& at < tasks.len()
                        &&& task@ == tasks[at]
                        &&& views_of(final(list)@) == tasks.remove(at)
                    },
                    None => at == tasks.len() && final(list)@ == old(list)@,
                }
            }),
    {
        let ghost tasks = views_of(list@);
        let mut index: usize = 0;
        while index < list.len() && list[index].id() != task_id
            invariant
                index <= list.len(),
                list@ == old(list)@,
                tasks == views_of(list@),
                position_of(tasks, task_id as nat) == first_with_id(
                    tasks,
                    task_id as nat,
                    index as int,
                ),
            decreases list.len() - index,
        {
            index += 1;
        }
        if index == list.len() {
            return None;
        }
        let task = list.remove(index);
        assert(views_of(list@) =~= tasks.remove(index as int));
        Some(task)
    }

    /// Makes a task with the given description and puts it among the pending
    /// ones. Returns its id, or 0 where the description is blank and no task
    /// is made.
    pub fn create_task(&mut self, description: &str) -> (id: usize)
        requires
            old(self).wf(),
            !is_blank(description@) ==> old(self)@.next_id < usize::MAX,
        ensures
            final(self)@ == old(self)@.create(description@),
            id == old(self)@.created_id(description@),
            is_blank(description@) ==> id == 0 && final(self)@ == old(self)@,
            !is_blank(description@) ==> {
                &&& id == old(self)@.next_id
                &&& final(self)@.next_id == id + 1
                &&& final(self)@.pending == old(self)@.pending.push(
                    TaskView { id: id as nat, description: description@ },
                )
                &&& final(self)@.completed == old(self)@.completed
            },
            final(self).wf(),
    {
        if is_blank_text(description) {
            return 0;
        }
        let task = Task::new(self.next_id, description);
        let task_id = task.id();
        self.next_id = self.next_id + 1;
        self.add_task_todo(task);
        proof {
            lemma_create_wf(old(self)@, description@);
            lemma_create_appends(old(self)@, description@);
        }
        task_id
    }

    /// Moves the pending task with the given id to the end of the completed
    /// ones. Says whether there was such a task; if not, nothing changes.
    pub fn complete_task(&mut self, task_id: usize) -> (found: bool)
        requires
            old(self).wf(),
        ensures
            final(self)@ == old(self)@.complete(task_id as nat),
            found == has_id(old(self)@.pending, task_id as nat),
            final(self).wf(),
    {
        proof {
            lemma_position_of(self@.pending, task_id as nat);
            lemma_complete_wf(self@, task_id as nat);
        }
        match TaskList::remove_task_from_list(&mut self.todo, task_id) {
            Some(task) => {
                self.completed.push(task);
                assert(self@.completed =~= old(self)@.completed.push(task@));
                true
            },
            None => false,
        }
    }

    /// Moves the completed task with the given id back among the pending
    /// ones, by the positional rule. Says whether there was such a task; if
    /// not, nothing changes.
    pub fn undo_task(&mut self, task_id: usize) -> (found: bool)
        requires
            old(self).wf(),
        ensures
            final(self)@ == old(self)@.undo(task_id as nat),
            found == has_id(old(self)@.completed, task_id as nat),
            final(self).wf(),
    {
        proof {
            lemma_position_of(self@.completed, task_id as nat);
            lemma_undo_wf(self@, task_id as nat);
        }
        match TaskList::remove_task_from_list(&mut self.completed, task_id) {
            Some(task) => {
                self.add_task_todo(task);
                true
            },
            None => false,
        }
    }

    /// Discards the task with the given id, pending or completed. Says
    /// whether there was such a task; if not, nothing changes.
    pub fn delete_task(&mut self, task_id: usize) -> (found: bool)
        requires
            old(self).wf(),
        ensures
            final(self)@ == old(self)@.delete(task_id as nat),
            found == (has_id(old(self)@.pending, task_id as nat) || has_id(
                old(self)@.completed,
                task_id as nat,
            )),
            final(self).wf(),
    {
        proof {
            lemma_position_of(self@.pending, task_id as nat);
            lemma_position_of(self@.completed, task_id as nat);
            lemma_delete_wf(self@, task_id as nat);
        }
        if TaskList::remove_task_from_list(&mut self.todo, task_id).is_some() {
            return true;
        }
        TaskList::remove_task_from_list(&mut self.completed, task_id).is_some()
    }

    /// The whole list as text: one line for each pending task, the separator
    /// line, one line for each completed task.
    pub fn render(&self) -> (text: String)
        ensures
            text@ == self@.rendering(),
    {
        let mut text = String::new();
        TaskList::render_tasks(&mut text, &self.todo);
        text.append("----------------------------------\n");
        TaskList::render_tasks(&mut text, &self.completed);
        text
    }

    /// Appends one line for each task to `out`.
    fn render_tasks(out: &mut String, tasks: &Vec<Task>)
        ensures
            final(out)@ == old(out)@ + task_lines(views_of(tasks@)),
    {
        let ghost all = views_of(tasks@);
        let mut index: usize = 0;
        assert(all.take(0) =~= Seq::empty());
        while index < tasks.len()
            invariant
                index <= tasks.len(),
                all == views_of(tasks@),
                out@ == old(out)@ + task_lines(all.take(index as int)),
            decreases tasks.len() - index,
        {
            let line = tasks[index].render();
            out.append(line.as_str());
            out.append("\n");
            proof {
                let next = all.take(index + 1);
                assert(next.drop_last() =~= all.take(index as int));
                assert(next.last() == tasks@[index as int]@);
            }
            index += 1;
        }
        assert(all.take(index as int) =~= all);
    }
}

} // verus!
