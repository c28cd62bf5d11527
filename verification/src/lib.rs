//! A to-do list for the terminal: the list itself with its four operations,
//! the reading of input lines into instructions, and the texts to show.

pub mod command;
pub mod decimal;
pub mod input;
pub mod laws;
pub mod model;
pub mod task;
pub mod task_list;
pub mod text;
