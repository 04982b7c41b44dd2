//! Error types of the crate.
use vstd::prelude::*;
use crate::buffer::line::LineTextError;
use crate::ui::UIError;
use crate::io::IOError;

verus! {

/// Defines non-user errors: reaching them means a logic error in the crate.
#[derive(Debug, PartialEq)]
pub enum InternalError {
    /// A code path that shouldn't be reachable was reached.
    UnreachableCode { file: &'static str, line: u32, column: u32 },
    /// Internal code tried to create a line from invalid text data.
    InvalidLineText(LineTextError),
}

/// The error type of the editor.
///
/// Whilst it implements `PartialEq`, two `RegexInvalid` errors compare their
/// held `regex::Error` too.
#[allow(inconsistent_fields)]
#[derive(Debug, PartialEq)]
pub enum EdError {
    /// Internal error, usually a logic bug.
    Internal(InternalError),
    /// An error from the user interface.
    UI(UIError),
    /// An error from reading or writing files or running shell commands.
    IO(IOError),
    /// Execution recursed more times than the recursion limit.
    InfiniteRecursion,

    // Selection/index interpretation/validation errors
    /// Given index exceeds size of buffer (always given if buffer is empty).
    IndexTooBig { index: usize, buffer_len: usize },
    /// Index 0 isn't a valid line.
    Line0Invalid,
    /// Selection empty or inverted. Holds the interpreted bad selection.
    SelectionEmpty((usize, usize)),
    /// Given command doesn't allow any selection and one was given.
    SelectionForbidden,

    // Command+argument+flag interpretation errors
    /// Unsaved changes when about to non-forcibly drop/delete buffer.
    UnsavedChanges,
    /// Selection and arguments were given that makes its command do nothing.
    NoOp,
    /// Tried to undo beyond start of history.
    UndoIndexNegative { relative_undo_limit: usize },
    /// Tried to redo past end of history.
    UndoIndexTooBig { index: usize, history_len: usize, relative_redo_limit: usize },
    /// Tried to give a shell escape where a file path is required.
    CommandEscapeForbidden(String),
    /// `k` or `K` command received an invalid tag. Holds the argument string.
    TagInvalid(String),
    /// Given tag found no match. Holds the used tag.
    TagNoMatch(char),
    /// Any regex operation received an invalid regex.
    RegexInvalid { regex: String, error: regex::Error },
    /// Given regex found no match. Holds the used regex.
    RegexNoMatch(String),
    /// Flags asked to print after the whole buffer was deleted.
    PrintAfterWipe,

    // Errors related to unset state variables
    /// Tried to get the default file, but it isn't yet set.
    DefaultFileUnset,
    /// Tried to get the default shell command, but it isn't yet set.
    DefaultShellCommandUnset,
    /// Tried to get default `s` arguments, but they aren't yet set.
    DefaultSArgsUnset,

    // Index parsing errors
    /// Special index character found after start of index.
    IndexSpecialAfterStart { prior_index: String, special_index: char },
    /// Given index couldn't be parsed as a number. Holds its text.
    IndexNotInt(String),
    /// Offset part of index couldn't be parsed as a number. Holds its text.
    OffsetNotInt(String),
    /// Multiple indices with unclear relation (for example `'x2`).
    IndicesUnrelated { prior_index: String, unrelated_index: String },
    /// Unfinished index, a special index without its arguments.
    IndexUnfinished(String),

    // History index parsing errors
    /// Special history index character found after start of index.
    HistoryIndexSpecialAfterStart { prior_index: String, special_index: char },
    /// Given history index couldn't be parsed as a number.
    HistoryIndexNotInt(String),
    /// Offset part of history index couldn't be parsed as a number.
    HistoryOffsetNotInt(String),
    /// Multiple history indices with unclear relation.
    HistoryIndicesUnrelated { prior_index: String, unrelated_index: String },

    // Command and argument parsing errors
    /// The given command doesn't exist. Holds given command char.
    CommandUndefined(char),
    /// Argument list ended with `\`. Holds whole argument list.
    ArgumentListEscapedEnd(String),
    /// Wrong number of arguments.
    ArgumentsWrongNr { expected: &'static str, received: usize },
    /// `z` command received a non numeric number of lines to scroll.
    ScrollNotInt(String),
    /// `u` or `U` couldn't interpret the number of steps to undo/redo.
    UndoStepsNotInt(String),
    /// `J` command received a non numeric number of columns to reflow within.
    ReflowNotInt { error: String, text: String },
    /// The macro invoked wasn't found. Holds given macro name.
    MacroUndefined(String),

    // Flag parsing errors
    /// Same flag appears more than once. Holds duplicated flag.
    FlagDuplicate(char),
    /// Unexpected flag was received. Holds undefined flag.
    FlagUndefined(char),
}

/// Defines all errors that occur based on state.
#[derive(Debug, PartialEq, Eq)]
pub enum ExecutionError {
    IndexTooBig,
    InvalidLine0,
    SelectionEmpty,
    SelectionForbidden,
    UnsavedChanges,
    NoOpArgument,
    InvalidUndoSteps,
    InvalidDefaultFile,
    InvalidTag(char),
    InvalidRegex,
    PrintAfterWipe,
    NoRegexMatch,
    NoTagMatch,
    DefaultFileUnset,
    DefaultShellCommandUnset,
    DefaultSArgsUnset,
    LastErrorUnset,
}

/// Defines all possible parsing errors.
#[derive(Debug, PartialEq, Eq)]
pub enum ParsingError {
    SpecialIndex(String),
    IndexNotInt(String),
    OffsetNotInt(String),
    UnrelatedIndices(String),
    UnfinishedIndex(String),
    UndefinedCommand(char),
    EscapedArgumentListEnd(String),
    WrongNrArguments((usize, usize)),
    ScrollNotInt(String),
    UndoRedoNotInt(String),
    ReflowNotInt(String),
    UndefinedMacro(String),
    DuplicateFlag(char),
    UndefinedFlag(char),
}

/// The result type of the editor's operations.
pub type EdResult<T> = core::result::Result<T, EdError>;

impl EdError {
    /// The error for an invalid regex.
    pub fn regex_error(error: regex::Error, regex: String) -> (r: EdError)
        ensures
            r == (EdError::RegexInvalid { regex, error }),
    {
        EdError::RegexInvalid { regex, error }
    }

    /// A copy of the error, equal to it.
    pub fn duplicate(&self) -> (r: EdError)
        ensures
            r == *self,
    {
        match self {
            EdError::Internal(InternalError::UnreachableCode { file, line, column }) =>
                EdError::Internal(InternalError::UnreachableCode { file: *file, line: *line, column: *column }),
            EdError::Internal(InternalError::InvalidLineText(e)) =>
                EdError::Internal(InternalError::InvalidLineText(LineTextError { text: e.text.clone() })),
            EdError::UI(e) => EdError::UI(UIError { message: e.message.clone() }),
            EdError::IO(e) => EdError::IO(IOError { message: e.message.clone() }),
            EdError::InfiniteRecursion => EdError::InfiniteRecursion,
            EdError::IndexTooBig { index, buffer_len } =>
                EdError::IndexTooBig { index: *index, buffer_len: *buffer_len },
            EdError::Line0Invalid => EdError::Line0Invalid,
            EdError::SelectionEmpty(s) => EdError::SelectionEmpty(*s),
            EdError::SelectionForbidden => EdError::SelectionForbidden,
            EdError::UnsavedChanges => EdError::UnsavedChanges,
            EdError::NoOp => EdError::NoOp,
            EdError::UndoIndexNegative { relative_undo_limit } =>
                EdError::UndoIndexNegative { relative_undo_limit: *relative_undo_limit },
            EdError::UndoIndexTooBig { index, history_len, relative_redo_limit } =>
                EdError::UndoIndexTooBig {
                    index: *index,
                    history_len: *history_len,
                    relative_redo_limit: *relative_redo_limit,
                },
            EdError::CommandEscapeForbidden(s) => EdError::CommandEscapeForbidden(s.clone()),
            EdError::TagInvalid(s) => EdError::TagInvalid(s.clone()),
            EdError::TagNoMatch(c) => EdError::TagNoMatch(*c),
            EdError::RegexInvalid { regex, error } =>
                EdError::RegexInvalid { regex: regex.clone(), error: clone_regex_error(error) },
            EdError::RegexNoMatch(s) => EdError::RegexNoMatch(s.clone()),
            EdError::PrintAfterWipe => EdError::PrintAfterWipe,
            EdError::DefaultFileUnset => EdError::DefaultFileUnset,
            EdError::DefaultShellCommandUnset => EdError::DefaultShellCommandUnset,
            EdError::DefaultSArgsUnset => EdError::DefaultSArgsUnset,
            EdError::IndexSpecialAfterStart { prior_index, special_index } =>
                EdError::IndexSpecialAfterStart { prior_index: prior_index.clone(), special_index: *special_index },
            EdError::IndexNotInt(s) => EdError::IndexNotInt(s.clone()),
            EdError::OffsetNotInt(s) => EdError::OffsetNotInt(s.clone()),
            EdError::IndicesUnrelated { prior_index, unrelated_index } =>
                EdError::IndicesUnrelated { prior_index: prior_index.clone(), unrelated_index: unrelated_index.clone() },
            EdError::IndexUnfinished(s) => EdError::IndexUnfinished(s.clone()),
            EdError::HistoryIndexSpecialAfterStart { prior_index, special_index } =>
                EdError::HistoryIndexSpecialAfterStart {
                    prior_index: prior_index.clone(),
                    special_index: *special_index,
                },
            EdError::HistoryIndexNotInt(s) => EdError::HistoryIndexNotInt(s.clone()),
            EdError::HistoryOffsetNotInt(s) => EdError::HistoryOffsetNotInt(s.clone()),
            EdError::HistoryIndicesUnrelated { prior_index, unrelated_index } =>
                EdError::HistoryIndicesUnrelated {
                    prior_index: prior_index.clone(),
                    unrelated_index: unrelated_index.clone(),
                },
            EdError::CommandUndefined(c) => EdError::CommandUndefined(*c),
            EdError::ArgumentListEscapedEnd(s) => EdError::ArgumentListEscapedEnd(s.clone()),
            EdError::ArgumentsWrongNr { expected, received } =>
                EdError::ArgumentsWrongNr { expected: *expected, received: *received },
            EdError::ScrollNotInt(s) => EdError::ScrollNotInt(s.clone()),
            EdError::UndoStepsNotInt(s) => EdError::UndoStepsNotInt(s.clone()),
            EdError::ReflowNotInt { error, text } =>
                EdError::ReflowNotInt { error: error.clone(), text: text.clone() },
            EdError::MacroUndefined(s) => EdError::MacroUndefined(s.clone()),
            EdError::FlagDuplicate(c) => EdError::FlagDuplicate(*c),
            EdError::FlagUndefined(c) => EdError::FlagUndefined(*c),
        }
    }
}

/// Calls `Clone::clone` on a `regex::Error`.
///
/// Trusted: the copy equals the error it was made from (the crate derives `Clone` on its
/// error enum, whose variants hold a `String` or a `usize`).
#[verifier::external_body]
fn clone_regex_error(e: &regex::Error) -> (r: regex::Error)
    ensures
        r == *e,
{
    e.clone()
}

} // verus!
