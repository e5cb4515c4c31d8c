//! The menu-driven session: what is shown, and how each line that the user
//! enters moves the session on. The session reads and writes nothing itself:
//! whoever runs it shows the texts, hands over the lines and writes the
//! backing file when told that the list has changed.

use crate::store::{added, completed, removed, valid_position, PositionError, TaskStore};
use crate::task::{rendered, views, TaskView};
use crate::text::{
    chars_of, decimal, parse_unsigned, parsed_unsigned, push_decimal, trim, trimmed,
};
use vstd::prelude::*;

verus! {

/// The line above the list.
pub const HEADER: &'static str = "\n--ToDo List--\n";

/// The menu below the list.
pub const MENU: &'static str =
    "\nEnter a command:\n1. Add a task\n2. Remove a task\n3. Mark a task as complete\n4. Quit\n";

/// What the user selects from the menu.
#[derive(Debug, Clone, Copy, PartialEq, Eq, Structural)]
pub enum Command {
    Add,
    Remove,
    Complete,
    Quit,
    /// Anything that is not on the menu.
    Invalid,
}

/// The command that a selection stands for, the selection taken without the
/// white space around it: `1` to `4` are the four commands of the menu.
pub open spec fn command_of(selection: Seq<char>) -> Command {
    if selection == seq!['1'] {
        Command::Add
    } else if selection == seq!['2'] {
        Command::Remove
    } else if selection == seq!['3'] {
        Command::Complete
    } else if selection == seq!['4'] {
        Command::Quit
    } else {
        Command::Invalid
    }
}

impl Command {
    /// Reads a selection that has no white space around it.
    pub fn of_selection(selection: &str) -> (command: Command)
        ensures
            command == command_of(selection@),
    {
        let chars = chars_of(selection);
        if chars.len() != 1 {
            return Command::Invalid;
        }
        let c = chars[0];
        proof {
            assert(selection@ =~= seq![c]);
        }
        if c == '1' {
            Command::Add
        } else if c == '2' {
            Command::Remove
        } else if c == '3' {
            Command::Complete
        } else if c == '4' {
            Command::Quit
        } else {
            Command::Invalid
        }
    }

    /// Reads a selection as the user entered it, white space and line ending
    /// included.
    pub fn parse(input: &str) -> (command: Command)
        ensures
            command == command_of(trimmed(input@)),
    {
        let selection = trim(input);
        Command::of_selection(selection.as_str())
    }
}

/// Where a session stands: at the menu, waiting for what a command asked for,
/// or over.
#[derive(Debug, Clone, Copy, PartialEq, Eq, Structural)]
pub enum Phase {
    /// The list and the menu are shown; the next line selects a command.
    Idle,
    /// The next line is the description of a new task.
    AwaitingDescription,
    /// The next line is the position of the task to remove.
    AwaitingRemoval,
    /// The next line is the position of the task to mark as done.
    AwaitingCompletion,
    /// The user has quit.
    Finished,
}

/// What a session answers to a line.
#[derive(Debug, Clone, Copy, PartialEq, Eq, Structural)]
pub enum Reply {
    /// The next line is taken as the description of a new task.
    AskDescription,
    /// The next line is taken as the position of the task to remove.
    AskRemoval,
    /// The next line is taken as the position of the task to mark as done.
    AskCompletion,
    /// The list was changed and is to be written to the backing file.
    Changed,
    /// The position was refused; the list is as it was.
    Rejected(PositionError),
    /// The selection is not on the menu; the list is as it was.
    InvalidCommand,
    /// The session is over.
    Quit,
}

/// A session as a mathematical value: the list and the phase.
pub struct SessionView {
    pub tasks: Seq<TaskView>,
    pub phase: Phase,
}

/// The position that an entry addresses in a list: the entry must be an
/// unsigned number, and the number a position of the list.
pub open spec fn addressed(tasks: Seq<TaskView>, entry: Seq<char>) -> Result<int, PositionError> {
    match parsed_unsigned(entry) {
        None => Err(PositionError::NotANumber),
        Some(position) => if valid_position(tasks, position as int) {
            Ok(position as int)
        } else {
            Err(PositionError::OutOfRange)
        },
    }
}

/// The session after an entry, and the reply to it. The entry is a line
/// without the white space around it.
///
/// At the menu the entry selects a command: adding, removing and completing
/// each ask for one more line, quitting ends the session, and anything else is
/// refused. The line that was asked for is the description of the new task, or
/// the position of the task to remove or to mark as done; with it the session
/// is back at the menu. Once the session is over it stays so.
pub open spec fn entered(state: SessionView, entry: Seq<char>) -> (SessionView, Reply) {
    let tasks = state.tasks;
    match state.phase {
        Phase::Idle => match command_of(entry) {
            Command::Add => (
                SessionView { tasks, phase: Phase::AwaitingDescription },
                Reply::AskDescription,
            ),
            Command::Remove => (
                SessionView { tasks, phase: Phase::AwaitingRemoval },
                Reply::AskRemoval,
            ),
            Command::Complete => (
                SessionView { tasks, phase: Phase::AwaitingCompletion },
                Reply::AskCompletion,
            ),
            Command::Quit => (SessionView { tasks, phase: Phase::Finished }, Reply::Quit),
            Command::Invalid => (SessionView { tasks, phase: Phase::Idle }, Reply::InvalidCommand),
        },
        Phase::AwaitingDescription => (
            SessionView { tasks: added(tasks, entry), phase: Phase::Idle },
            Reply::Changed,
        ),
        Phase::AwaitingRemoval => match addressed(tasks, entry) {
            Ok(position) => (
                SessionView { tasks: removed(tasks, position), phase: Phase::Idle },
                Reply::Changed,
            ),
            Err(error) => (SessionView { tasks, phase: Phase::Idle }, Reply::Rejected(error)),
        },
        Phase::AwaitingCompletion => match addressed(tasks, entry) {
            Ok(position) => (
                SessionView { tasks: completed(tasks, position), phase: Phase::Idle },
                Reply::Changed,
            ),
            Err(error) => (SessionView { tasks, phase: Phase::Idle }, Reply::Rejected(error)),
        },
        Phase::Finished => (state, Reply::Quit),
    }
}

/// The line of a task in the list that is shown: its position, a colon and a
/// space, and the task's display line.
pub open spec fn numbered_line(position: nat, task: TaskView) -> Seq<char> {
    decimal(position) + seq![':', ' '] + rendered(task) + seq!['\n']
}

/// The list as it is shown: the line of each task, numbered from one.
pub open spec fn listing(tasks: Seq<TaskView>) -> Seq<char>
    decreases tasks.len(),
{
    if tasks.len() == 0 {
        Seq::empty()
    } else {
        listing(tasks.drop_last()) + numbered_line(tasks.len(), tasks.last())
    }
}

/// What is shown at the menu: the header, the list, and the menu.
pub open spec fn screen_text(tasks: Seq<TaskView>) -> Seq<char> {
    HEADER@ + listing(tasks) + MENU@
}

impl Reply {
    /// What is shown for a reply: the prompt for the line that is asked for, or
    /// why the entry was refused. Nothing is shown for a change or at the end.
    pub open spec fn message_text(self) -> Seq<char> {
        match self {
            Reply::AskDescription => "Enter task description: "@,
            Reply::AskRemoval => "Enter the task to remove: "@,
            Reply::AskCompletion => "Enter the task to mark as complete: "@,
            Reply::Changed => Seq::empty(),
            Reply::Rejected(PositionError::NotANumber) => "Enter a valid number."@,
            Reply::Rejected(PositionError::OutOfRange) => "\nInvalid task number."@,
            Reply::InvalidCommand => "Invalid command."@,
            Reply::Quit => Seq::empty(),
        }
    }

    /// The text to show for this reply; empty where nothing is to be shown.
    pub fn message(&self) -> (text: &'static str)
        ensures
            text@ == self.message_text(),
    {
        match self {
            Reply::AskDescription => "Enter task description: ",
            Reply::AskRemoval => "Enter the task to remove: ",
            Reply::AskCompletion => "Enter the task to mark as complete: ",
            Reply::Rejected(PositionError::NotANumber) => "Enter a valid number.",
            Reply::Rejected(PositionError::OutOfRange) => "\nInvalid task number.",
            Reply::InvalidCommand => "Invalid command.",
            Reply::Changed | Reply::Quit => {
                proof {
                    reveal_strlit("");
                }
                ""
            },
        }
    }
}

/// A to-do list in use: the store and the phase of the dialogue.
#[derive(Debug)]
pub struct Session {
    store: TaskStore,
    phase: Phase,
}

impl View for Session {
    type V = SessionView;

    closed spec fn view(&self) -> SessionView {
        SessionView { tasks: self.store@, phase: self.phase }
    }
}

impl Session {
    /// A session at the menu, on the given store.
    pub fn new(store: TaskStore) -> (session: Session)
        ensures
            session@ == (SessionView { tasks: store@, phase: Phase::Idle }),
    {
        Session { store, phase: Phase::Idle }
    }

    /// The store as it stands.
    pub fn store(&self) -> (store: &TaskStore)
        ensures
            store@ == self@.tasks,
    {
        &self.store
    }

    /// The phase in which the session is.
    pub fn phase(&self) -> (phase: Phase)
        ensures
            phase == self@.phase,
    {
        self.phase
    }

    /// What is shown at the menu: the header, the numbered list, and the menu.
    pub fn screen(&self) -> (text: String)
        ensures
            text@ == screen_text(self@.tasks),
    {
        let tasks = self.store.tasks();
        let mut text = String::from_str(HEADER);
        let mut i: usize = 0;
        while i < tasks.len()
            invariant
                i <= tasks.len(),
                text@ == HEADER@ + listing(views(tasks@).take(i as int)),
            decreases tasks.len() - i,
        {
            let line = tasks[i].display();
            push_decimal(&mut text, i + 1);
            text.append(": ");
            text.append(line.as_str());
            text.push('\n');
            i += 1;
            proof {
                reveal_strlit(": ");
                let shown = views(tasks@).take(i as int);
                assert(shown.drop_last() =~= views(tasks@).take(i - 1));
            }
        }
        assert(views(tasks@).take(tasks.len() as int) =~= views(tasks@));
        text.append(MENU);
        text
    }

    /// Takes an entry, a line without the white space around it, and moves the
    /// session on.
    pub fn enter(&mut self, entry: &str) -> (reply: Reply)
        ensures
            (final(self)@, reply) == entered(old(self)@, entry@),
    {
        match self.phase {
            Phase::Idle => match Command::of_selection(entry) {
                Command::Add => {
                    self.phase = Phase::AwaitingDescription;
                    Reply::AskDescription
                },
                Command::Remove => {
                    self.phase = Phase::AwaitingRemoval;
                    Reply::AskRemoval
                },
                Command::Complete => {
                    self.phase = Phase::AwaitingCompletion;
                    Reply::AskCompletion
                },
                Command::Quit => {
                    self.phase = Phase::Finished;
                    Reply::Quit
                },
                Command::Invalid => Reply::InvalidCommand,
            },
            Phase::AwaitingDescription => {
                self.phase = Phase::Idle;
                self.store.add(String::from_str(entry));
                Reply::Changed
            },
            Phase::AwaitingRemoval => {
                self.phase = Phase::Idle;
                match parse_unsigned(entry) {
                    None => Reply::Rejected(PositionError::NotANumber),
                    Some(position) => match self.store.remove(position) {
                        Ok(()) => Reply::Changed,
                        Err(error) => Reply::Rejected(error),
                    },
                }
            },
            Phase::AwaitingCompletion => {
                self.phase = Phase::Idle;
                match parse_unsigned(entry) {
                    None => Reply::Rejected(PositionError::NotANumber),
                    Some(position) => match self.store.complete(position) {
                        Ok(()) => Reply::Changed,
                        Err(error) => Reply::Rejected(error),
                    },
                }
            },
            Phase::Finished => Reply::Quit,
        }
    }

    /// Takes a line as the user entered it, white space and line ending
    /// included, and moves the session on.
    pub fn feed(&mut self, line: &str) -> (reply: Reply)
        ensures
            (final(self)@, reply) == entered(old(self)@, trimmed(line@)),
    {
        let entry = trim(line);
        self.enter(entry.as_str())
    }
}

/// The list changes only with the reply that says so: after any other reply
/// the tasks are what they were.
pub proof fn law_change_is_reported(state: SessionView, entry: Seq<char>)
    ensures
        entered(state, entry).1 != Reply::Changed ==> entered(state, entry).0.tasks == state.tasks,
{
}

/// An entry that addresses no task, whether it is no number or a number out
/// of range, is refused: the list stays as it is, nothing is to be written,
/// and the session is back at the menu.
pub proof fn law_refused_position(state: SessionView, entry: Seq<char>)
    requires
        state.phase == Phase::AwaitingRemoval || state.phase == Phase::AwaitingCompletion,
        addressed(state.tasks, entry) is Err,
    ensures
        entered(state, entry).0 == (SessionView { tasks: state.tasks, phase: Phase::Idle }),
        entered(state, entry).1 == Reply::Rejected(addressed(state.tasks, entry)->Err_0),
{
}

/// A selection that is not on the menu leaves the session as it was.
pub proof fn law_invalid_command_changes_nothing(state: SessionView, entry: Seq<char>)
    requires
        state.phase == Phase::Idle,
        command_of(entry) == Command::Invalid,
    ensures
        entered(state, entry) == (state, Reply::InvalidCommand),
{
}

} // verus!
