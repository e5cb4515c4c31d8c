//! The task store: the ordered list of tasks and the three ways to change it.
//! Tasks are addressed by position, counted from one.

use crate::storage::{
    all_storable, deserialize, deserialized, serialize, serialized, storable, DELIMITER,
    LINE_FEED,
};
use crate::task::{views, Task, TaskView};
use vstd::prelude::*;

verus! {

/// Why a position was not accepted.
#[derive(Debug, Clone, Copy, PartialEq, Eq, Structural)]
pub enum PositionError {
    /// The input is not an unsigned number.
    NotANumber,
    /// The number is zero or beyond the last task.
    OutOfRange,
}

/// Whether `position` addresses a task of `tasks`.
pub open spec fn valid_position(tasks: Seq<TaskView>, position: int) -> bool {
    1 <= position <= tasks.len()
}

/// The list with one more task at its end, not done, with the given
/// description.
pub open spec fn added(tasks: Seq<TaskView>, description: Seq<char>) -> Seq<TaskView> {
    tasks.push(TaskView { description, is_done: false })
}

/// The list without the task at `position`; the same list where the position
/// addresses none.
pub open spec fn removed(tasks: Seq<TaskView>, position: int) -> Seq<TaskView> {
    if valid_position(tasks, position) {
        tasks.remove(position - 1)
    } else {
        tasks
    }
}

/// The list with the task at `position` done; the same list where the
/// position addresses none.
pub open spec fn completed(tasks: Seq<TaskView>, position: int) -> Seq<TaskView> {
    if valid_position(tasks, position) {
        tasks.update(
            position - 1,
            TaskView { description: tasks[position - 1].description, is_done: true },
        )
    } else {
        tasks
    }
}

/// The tasks of a to-do list, in the order in which they were added.
#[derive(Debug)]
pub struct TaskStore {
    tasks: Vec<Task>,
}

impl View for TaskStore {
    type V = Seq<TaskView>;

    closed spec fn view(&self) -> Seq<TaskView> {
        views(self.tasks@)
    }
}

impl TaskStore {
    /// A store without tasks.
    pub fn new() -> (store: TaskStore)
        ensures
            store@ == Seq::<TaskView>::empty(),
    {
        let store = TaskStore { tasks: Vec::new() };
        store
    }

    /// The store that a backing file stands for: `contents` is the text of the
    /// file, or `None` where there is no file, which gives a store without
    /// tasks.
    pub fn load(contents: Option<&str>) -> (store: TaskStore)
        ensures
            store@ == match contents {
                Some(text) => deserialized(text@),
                None => Seq::empty(),
            },
    {
        match contents {
            Some(text) => TaskStore { tasks: deserialize(text) },
            None => TaskStore::new(),
        }
    }

    /// The text to write to the backing file, which replaces what the file
    /// held.
    pub fn file_text(&self) -> (text: String)
        ensures
            text@ == serialized(self@),
    {
        serialize(&self.tasks)
    }

    /// The number of tasks.
    pub fn len(&self) -> (n: usize)
        ensures
            n == self@.len(),
    {
        self.tasks.len()
    }

    /// The tasks in order.
    pub fn tasks(&self) -> (tasks: &Vec<Task>)
        ensures
            views(tasks@) == self@,
    {
        &self.tasks
    }

    /// Appends a task with the given description, not done. Descriptions may
    /// repeat.
    pub fn add(&mut self, description: String)
        ensures
            final(self)@ == added(old(self)@, description@),
    {
        let task = Task::new(description);
        self.tasks.push(task);
    }

    /// Deletes the task at `position`; the tasks behind it move up by one. A
    /// position that addresses no task is refused and the store stays as it
    /// is.
    pub fn remove(&mut self, position: usize) -> (result: Result<(), PositionError>)
        ensures
            result == if valid_position(old(self)@, position as int) {
                Ok::<(), PositionError>(())
            } else {
                Err(PositionError::OutOfRange)
            },
            final(self)@ == removed(old(self)@, position as int),
    {
        if position == 0 || position > self.tasks.len() {
            return Err(PositionError::OutOfRange);
        }
        let _ = self.tasks.remove(position - 1);
        Ok(())
    }

    /// Marks the task at `position` as done, whether or not it was done
    /// before. A position that addresses no task is refused and the store
    /// stays as it is.
    pub fn complete(&mut self, position: usize) -> (result: Result<(), PositionError>)
        ensures
            result == if valid_position(old(self)@, position as int) {
                Ok::<(), PositionError>(())
            } else {
                Err(PositionError::OutOfRange)
            },
            final(self)@ == completed(old(self)@, position as int),
    {
        if position == 0 || position > self.tasks.len() {
            return Err(PositionError::OutOfRange);
        }
        self.tasks[position - 1].is_done = true;
        Ok(())
    }
}

/// Adding to a list of `n` tasks gives `n + 1` tasks: the ones before, in
/// their places, and last the new one, not done, with the description given.
pub proof fn law_add_appends(tasks: Seq<TaskView>, description: Seq<char>)
    ensures
        added(tasks, description).len() == tasks.len() + 1,
        added(tasks, description).last() == (TaskView { description, is_done: false }),
        forall|i: int| 0 <= i < tasks.len() ==> added(tasks, description)[i] == tasks[i],
{
}

/// Removing at a position that addresses no task, such as zero or one past
/// the last, leaves the list as it is.
pub proof fn law_remove_refused(tasks: Seq<TaskView>, position: int)
    requires
        position <= 0 || position > tasks.len(),
    ensures
        removed(tasks, position) == tasks,
{
}

/// Removing at a position from one to the length gives a list that is one
/// shorter: the tasks before the position keep their places, and each task
/// behind it moves up by one.
pub proof fn law_remove_shifts(tasks: Seq<TaskView>, position: int)
    requires
        1 <= position <= tasks.len(),
    ensures
        removed(tasks, position).len() == tasks.len() - 1,
        forall|i: int| 0 <= i < position - 1 ==> removed(tasks, position)[i] == tasks[i],
        forall|i: int|
            position - 1 <= i < tasks.len() - 1 ==> removed(tasks, position)[i] == tasks[i + 1],
{
}

/// Completing changes nothing but the done flag of the task addressed, which
/// is set; no flag is ever cleared.
pub proof fn law_complete_sets_one_flag(tasks: Seq<TaskView>, position: int)
    ensures
        completed(tasks, position).len() == tasks.len(),
        forall|i: int|
            0 <= i < tasks.len() ==> (#[trigger] completed(tasks, position)[i]).description
                == tasks[i].description,
        forall|i: int|
            0 <= i < tasks.len() ==> (#[trigger] completed(tasks, position)[i]).is_done == (
            tasks[i].is_done || (i == position - 1)),
{
}

/// A list whose tasks can all be written and read back stays so when a task
/// is removed or completed, and when a task is added whose description holds
/// neither the delimiter nor a line feed.
pub proof fn law_changes_keep_storable(
    tasks: Seq<TaskView>,
    description: Seq<char>,
    position: int,
)
    requires
        all_storable(tasks),
    ensures
        all_storable(removed(tasks, position)),
        all_storable(completed(tasks, position)),
        !description.contains(DELIMITER) && !description.contains(LINE_FEED) ==> all_storable(
            added(tasks, description),
        ),
{
    let shorter = removed(tasks, position);
    assert forall|i: int| 0 <= i < shorter.len() implies storable(#[trigger] shorter[i]) by {
        if valid_position(tasks, position) && i >= position - 1 {
            assert(shorter[i] == tasks[i + 1]);
        } else {
            assert(shorter[i] == tasks[i]);
        }
    }
    let marked = completed(tasks, position);
    assert forall|i: int| 0 <= i < marked.len() implies storable(#[trigger] marked[i]) by {
        assert(marked[i].description == tasks[i].description);
    }
    let longer = added(tasks, description);
    if !description.contains(DELIMITER) && !description.contains(LINE_FEED) {
        assert forall|i: int| 0 <= i < longer.len() implies storable(#[trigger] longer[i]) by {
            if i < tasks.len() {
                assert(longer[i] == tasks[i]);
            }
        }
    }
}

/// Completing a task twice is the same as completing it once.
pub proof fn law_complete_idempotent(tasks: Seq<TaskView>, position: int)
    ensures
        completed(completed(tasks, position), position) == completed(tasks, position),
{
}

} // verus!
