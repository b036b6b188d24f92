//! A small task list: the tasks, the operations that add, delete and toggle
//! them, and the text that a terminal front end shows for them.

pub mod command;
pub mod date;
pub mod laws;
pub mod list;
pub mod table;
pub mod task;
pub mod text;
