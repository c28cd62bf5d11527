//! A single task: an id that never changes and the text that describes it.

use crate::decimal::{decimal_digits, push_decimal};
use vstd::prelude::*;
use vstd::string::StringExecFns;

verus! {

/// What a task is: its id and its description.
pub struct TaskView {
    pub id: nat,
    pub description: Seq<char>,
}

impl TaskView {
    /// How a task is shown: the id in decimal, a full stop, a space and the
    /// description.
    pub open spec fn rendering(self) -> Seq<char> {
        decimal_digits(self.id) + ". "@ + self.description
    }
}

#[derive(PartialEq, Debug)]
pub struct Task {
    id: usize,
    description: String,
}

impl View for Task {
    type V = TaskView;

    closed spec fn view(&self) -> TaskView {
        TaskView { id: self.id as nat, description: self.description@ }
    }
}

impl Task {
    /// A task with the given id and description.
    pub fn new(id: usize, description: &str) -> (task: Task)
        ensures
            task@ == (TaskView { id: id as nat, description: description@ }),
    {
        Task { id, description: String::from_str(description) }
    }

    pub fn id(&self) -> (id: usize)
        ensures
            id == self@.id,
    {
        self.id
    }

    pub fn description(&self) -> (description: &str)
        ensures
            description@ == self@.description,
    {
        self.description.as_str()
    }

    /// The task as one line of text, without a line break.
    pub fn render(&self) -> (text: String)
        ensures
            text@ == self@.rendering(),
    {
        let mut text = String::new();
        push_decimal(&mut text, self.id);
        text.append(". ");
        text.append(self.description.as_str());
        assert(text@ =~= self@.rendering());
        text
    }
}

} // verus!
