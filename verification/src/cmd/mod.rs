//! Command parsing: indices, selections, history indices, paths, argument
//! expressions and flags.
pub mod selection;
pub mod undo_index;
pub mod path;
pub mod expressions;
pub mod flags;
pub mod commands;
pub mod input;
pub mod substitution;
pub mod history_cmds;
pub mod run;
pub mod io_cmds;
pub mod global;
pub mod macros;
