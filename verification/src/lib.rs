//! A small to-do list: an ordered store of tasks, the plain-text format it is
//! kept in, and the menu-driven session that edits it. Every function is
//! verified against a mathematical model of the list.

pub mod session;
pub mod storage;
pub mod store;
pub mod task;
pub mod text;

pub use session::{Command, Phase, Reply, Session};
pub use store::{PositionError, TaskStore};
pub use task::{Task, TaskView};
