//! A terminal todo list: an ordered store of tasks, the command step that
//! drives it, and the text that the screen shows.
pub mod numbers;
pub mod print_tools;
pub mod task;
pub mod task_list;
