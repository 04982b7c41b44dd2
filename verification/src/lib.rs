//! A line editor library in the tradition of `ed`: a line buffer with
//! undo history, clipboard operations, index/selection parsing and
//! regex powered search and substitution.
use vstd::prelude::*;

pub mod error;
pub mod error_consts;
pub mod text;
pub mod vecops;
pub mod buffer;
pub mod history;
pub mod ed;
pub mod ui;
pub mod io;
pub mod messages;
pub mod laws;
pub mod cmd;

verus! {

} // verus!
