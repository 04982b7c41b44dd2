//! The interface through which the editor talks to its user.
use vstd::prelude::*;
use crate::ed::Ed;

verus! {

/// An error from a [`UI`] implementation, with its message.
#[derive(Debug)]
pub struct UIError {
    pub message: String,
}

/// Any two user interface errors compare equal, whatever their messages: an error
/// of the user interface is one kind of editor error.
impl PartialEq for UIError {
    fn eq(&self, other: &Self) -> (r: bool) {
        true
    }
}

impl vstd::std_specs::cmp::PartialEqSpecImpl for UIError {
    open spec fn obeys_eq_spec() -> bool {
        true
    }

    open spec fn eq_spec(&self, other: &Self) -> bool {
        true
    }
}

/// What the editor needs from a user interface. Implemented by users of
/// the library; nothing is assumed of what the methods return.
pub trait UI {
    /// Shows a message from a command.
    fn print_message(&mut self, data: &str) -> Result<(), UIError>;

    /// Gets the next command to run, a single line.
    fn get_command(&mut self, state: &Ed) -> Result<String, UIError>;

    /// Gets input lines, each newline terminated, until a line holding only
    /// `terminator` (which is not returned).
    fn get_input(&mut self, state: &Ed, terminator: char) -> Result<Vec<String>, UIError>;

    /// Shows the lines of `selection` of the viewed buffer, with line
    /// numbers (`numbered`) and escaped (`literal`) as asked.
    fn print_selection(&mut self, state: &Ed, selection: (usize, usize), numbered: bool, literal: bool) -> Result<(), UIError>;
}

} // verus!
