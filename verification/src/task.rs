//! A single task and the line it is shown as.

use vstd::prelude::*;

verus! {

/// A task as a mathematical value: its text and whether it is done.
pub struct TaskView {
    pub description: Seq<char>,
    pub is_done: bool,
}

/// One entry of the to-do list.
#[derive(Debug, Clone, PartialEq, Eq)]
pub struct Task {
    pub description: String,
    pub is_done: bool,
}

impl View for Task {
    type V = TaskView;

    open spec fn view(&self) -> TaskView {
        TaskView { description: self.description@, is_done: self.is_done }
    }
}

/// The tasks of a vector, each as a mathematical value.
pub open spec fn views(tasks: Seq<Task>) -> Seq<TaskView> {
    tasks.map_values(|task: Task| task@)
}

/// The marker in front of a task: a box with a cross when it is done, an
/// empty box otherwise, and one space.
pub open spec fn marker(is_done: bool) -> Seq<char> {
    if is_done {
        seq!['[', 'x', ']', ' ']
    } else {
        seq!['[', ' ', ']', ' ']
    }
}

/// The display line of a task: its marker, then its description.
pub open spec fn rendered(task: TaskView) -> Seq<char> {
    marker(task.is_done) + task.description
}

impl Task {
    /// A task that is not done yet.
    pub fn new(description: String) -> (task: Task)
        ensures
            task@ == (TaskView { description: description@, is_done: false }),
    {
        Task { description, is_done: false }
    }

    /// The display line: the marker, then the description.
    pub fn display(&self) -> (line: String)
        ensures
            line@ == rendered(self@),
    {
        let mark = if self.is_done {
            "[x] "
        } else {
            "[ ] "
        };
        proof {
            reveal_strlit("[x] ");
            reveal_strlit("[ ] ");
        }
        let mut line = String::from_str(mark);
        line.append(self.description.as_str());
        line
    }
}

} // verus!
