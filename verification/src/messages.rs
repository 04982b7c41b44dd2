//! The messages that describe errors to the user.
use vstd::prelude::*;
use crate::error::{EdError, InternalError};
use crate::ed::Ed;
use crate::text::{decimal_chars, decimal_of, push_str, push_chars, string_from_chars};

verus! {

/// The decimal digits of `n`.
pub open spec fn num(n: usize) -> Seq<char> {
    decimal_chars(n as nat)
}

/// The text of `c` alone.
pub open spec fn ch(c: char) -> Seq<char> {
    seq![c]
}

/// The description of an internal error.
pub open spec fn internal_message(e: InternalError) -> Seq<char> {
    match e {
        InternalError::UnreachableCode { file, line, column } => "unreachable code reached at "@ + file@ + ":"@
            + num(line as usize) + ":"@ + num(column as usize),
        InternalError::InvalidLineText(t) => "invalid line text `"@ + t.text@ + "`"@,
    }
}

/// The message for error `e`; for an invalid regex, `regex_text` is the
/// regex crate's description of what is wrong with it.
pub open spec fn message_spec(e: EdError, regex_text: Seq<char>) -> Seq<char> {
    match e {
        EdError::Internal(i) => "Internal error! Save and quit, and please report at `https://github.com/sidju/add-ed/issues`\n\n debug data: "@
            + internal_message(i),
        EdError::UI(u) => "UI error: "@ + u.message@,
        EdError::IO(i) => "IO error: "@ + i.message@,
        EdError::InfiniteRecursion => "Execution recursion hit recursion limit, no changes made."@,
        EdError::IndexTooBig { index, buffer_len } => if buffer_len == 0 {
            "Buffer is empty, so no valid selections or lines can exist."@
        } else {
            "Given index ("@ + num(index) + ") overshoots the length of the buffer ("@ + num(buffer_len) + ")."@
        },
        EdError::Line0Invalid => "Index 0 was given when a line was needed, there is no line at index 0."@,
        EdError::SelectionEmpty(s) => "Selection given ("@ + num(s.0) + ","@ + num(s.1) + ") is empty or inverted."@,
        EdError::SelectionForbidden => "That command doesn't allow any selection."@,
        EdError::UnsavedChanges => "Unsaved changes! Capitalise command to ignore."@,
        EdError::NoOp => "That combination of command and arguments doesn't do anything."@,
        EdError::UndoIndexNegative { relative_undo_limit } => "Tried to undo to before undo history.\nHighest valid nr of undo steps is "@
            + num(relative_undo_limit) + "."@,
        EdError::UndoIndexTooBig { index, history_len, relative_redo_limit } => "Tried to redo beyond existing snapshots.\nHigest valid nr of redo steps is "@
            + num(relative_redo_limit) + ".\n(Given index: "@ + num(index) + ", Highest valid index: "@
            + num(if history_len == 0 { 0 } else { (history_len - 1) as usize }) + ")"@,
        EdError::CommandEscapeForbidden(_) => "Command doesn't accept shell escapes. Use \\! if path begins with !."@,
        EdError::TagInvalid(a) => "Invalid tag given: "@ + a@ + ". Tags should be a single character."@,
        EdError::TagNoMatch(t) => "Could not find any line matching the tag `"@ + ch(t) + "`."@,
        EdError::RegexInvalid { regex, error: _ } => "Regex `"@ + regex@ + "` invalid! "@ + regex_text + "."@,
        EdError::RegexNoMatch(r) => "No matches found for regex `"@ + r@ + "`."@,
        EdError::PrintAfterWipe => "Would print after deleting whole buffer, refusing to run command."@,
        EdError::DefaultFileUnset => "Couldn't read default file as it hasn't been set. Set by opening file or with the `f` command."@,
        EdError::DefaultShellCommandUnset => "Couldn't read default shell command as it hasn't been set. Run a fully defined shell command first."@,
        EdError::DefaultSArgsUnset => "Couldn't read default `s` arguments as they haven't been set. Run `s` with arguments first."@,
        EdError::IndexSpecialAfterStart { prior_index, special_index } => "Special index character `"@ + ch(special_index)
            + "` found after index `"@ + prior_index@ + "`."@,
        EdError::IndexNotInt(t) => "Failed to parse given index string `"@ + t@ + "` as a number."@,
        EdError::OffsetNotInt(t) => "Failed to parse given index offset `"@ + t@ + "` as a number."@,
        EdError::IndicesUnrelated { prior_index, unrelated_index } => "Received non-chainable index `"@ + unrelated_index@
            + "` immediately after index `"@ + prior_index@ + "`."@,
        EdError::IndexUnfinished(t) => "Special index unfinished: `"@ + t@ + "`."@,
        EdError::HistoryIndexSpecialAfterStart { prior_index, special_index } => "Special index character `"@ + ch(special_index)
            + "` found after index `"@ + prior_index@ + "`."@,
        EdError::HistoryIndexNotInt(t) => "Failed to parse given index string `"@ + t@ + "` as a number."@,
        EdError::HistoryOffsetNotInt(t) => "Failed to parse given index offset `"@ + t@ + "` as a number."@,
        EdError::HistoryIndicesUnrelated { prior_index, unrelated_index } => "Received non-chainable index `"@ + unrelated_index@
            + "` immediately after index `"@ + prior_index@ + "`."@,
        EdError::CommandUndefined(c) => "Unknown command `"@ + ch(c) + "`."@,
        EdError::ArgumentListEscapedEnd(a) => "Argument list's end was escaped: `"@ + a@ + "`."@,
        EdError::ArgumentsWrongNr { expected, received } => "Wrong nr of arguments given. Expected "@ + expected@
            + ", received "@ + num(received) + "."@,
        EdError::ScrollNotInt(t) => "Failed to parse nr of lines to scroll `"@ + t@ + "` as a number."@,
        EdError::UndoStepsNotInt(t) => "Failed to parse nr of changes to undo/redo `"@ + t@ + "` as a number."@,
        EdError::ReflowNotInt { error, text } => "Failed to parse nr of columns to reflow within `"@ + text@ + "` as a number: "@
            + error@,
        EdError::MacroUndefined(m) => "Given macro `"@ + m@ + "` is not defined."@,
        EdError::FlagDuplicate(f) => "Flag `"@ + ch(f) + "` was given more than once."@,
        EdError::FlagUndefined(f) => "Given flag `"@ + ch(f) + "` isn't valid for that command."@,
    }
}

/// The regex crate's description of a regex error.
///
/// Trusted: calls `<regex::Error as Display>::fmt` through `to_string`.
/// Nothing is stated of the text, which the regex crate composes from the
/// error's internals.
#[verifier::external_body]
fn regex_error_text(error: &regex::Error) -> (r: String) {
    error.to_string()
}

/// Appends `s` to `m`.
fn put(m: &mut Vec<char>, s: &str)
    ensures
        final(m)@ == old(m)@ + s@,
{
    push_str(m, s)
}

/// Appends the decimal digits of `n` to `m`.
fn put_num(m: &mut Vec<char>, n: usize)
    ensures
        final(m)@ == old(m)@ + num(n),
{
    let d = decimal_of(n);
    push_chars(m, &d);
}

/// Appends `c` to `m`.
fn put_char(m: &mut Vec<char>, c: char)
    ensures
        final(m)@ == old(m)@ + ch(c),
{
    m.push(c);
    assert(final(m)@ =~= old(m)@ + ch(c));
}

impl EdError {
    /// The message describing the error to the user.
    pub fn message(&self) -> (r: String)
        ensures
            !(self is RegexInvalid) ==> r@ == message_spec(*self, Seq::empty()),
            self is RegexInvalid ==> exists|t: Seq<char>| r@ == message_spec(*self, t),
    {
        proof {
            reveal_strlit("Internal error! Save and quit, and please report at `https://github.com/sidju/add-ed/issues`\n\n debug data: ");
        }
        let mut m: Vec<char> = Vec::new();
        match self {
            EdError::Internal(i) => {
                put(&mut m, "Internal error! Save and quit, and please report at `https://github.com/sidju/add-ed/issues`\n\n debug data: ");
                match i {
                    InternalError::UnreachableCode { file, line, column } => {
                        put(&mut m, "unreachable code reached at ");
                        put(&mut m, *file);
                        put(&mut m, ":");
                        put_num(&mut m, *line as usize);
                        put(&mut m, ":");
                        put_num(&mut m, *column as usize);
                    },
                    InternalError::InvalidLineText(t) => {
                        put(&mut m, "invalid line text `");
                        put(&mut m, t.text.as_str());
                        put(&mut m, "`");
                    },
                }
            },
            EdError::UI(u) => {
                put(&mut m, "UI error: ");
                put(&mut m, u.message.as_str());
            },
            EdError::IO(i) => {
                put(&mut m, "IO error: ");
                put(&mut m, i.message.as_str());
            },
            EdError::InfiniteRecursion => put(&mut m, "Execution recursion hit recursion limit, no changes made."),
            EdError::IndexTooBig { index, buffer_len } => {
                if *buffer_len == 0 {
                    put(&mut m, "Buffer is empty, so no valid selections or lines can exist.");
                } else {
                    put(&mut m, "Given index (");
                    put_num(&mut m, *index);
                    put(&mut m, ") overshoots the length of the buffer (");
                    put_num(&mut m, *buffer_len);
                    put(&mut m, ").");
                }
            },
            EdError::Line0Invalid => put(&mut m, "Index 0 was given when a line was needed, there is no line at index 0."),
            EdError::SelectionEmpty(s) => {
                put(&mut m, "Selection given (");
                put_num(&mut m, s.0);
                put(&mut m, ",");
                put_num(&mut m, s.1);
                put(&mut m, ") is empty or inverted.");
            },
            EdError::SelectionForbidden => put(&mut m, "That command doesn't allow any selection."),
            EdError::UnsavedChanges => put(&mut m, "Unsaved changes! Capitalise command to ignore."),
            EdError::NoOp => put(&mut m, "That combination of command and arguments doesn't do anything."),
            EdError::UndoIndexNegative { relative_undo_limit } => {
                put(&mut m, "Tried to undo to before undo history.\nHighest valid nr of undo steps is ");
                put_num(&mut m, *relative_undo_limit);
                put(&mut m, ".");
            },
            EdError::UndoIndexTooBig { index, history_len, relative_redo_limit } => {
                put(&mut m, "Tried to redo beyond existing snapshots.\nHigest valid nr of redo steps is ");
                put_num(&mut m, *relative_redo_limit);
                put(&mut m, ".\n(Given index: ");
                put_num(&mut m, *index);
                put(&mut m, ", Highest valid index: ");
                put_num(&mut m, history_len.saturating_sub(1));
                put(&mut m, ")");
            },
            EdError::CommandEscapeForbidden(_) => put(&mut m, "Command doesn't accept shell escapes. Use \\! if path begins with !."),
            EdError::TagInvalid(a) => {
                put(&mut m, "Invalid tag given: ");
                put(&mut m, a.as_str());
                put(&mut m, ". Tags should be a single character.");
            },
            EdError::TagNoMatch(t) => {
                put(&mut m, "Could not find any line matching the tag `");
                put_char(&mut m, *t);
                put(&mut m, "`.");
            },
            EdError::RegexInvalid { regex, error } => {
                put(&mut m, "Regex `");
                put(&mut m, regex.as_str());
                put(&mut m, "` invalid! ");
                let text = regex_error_text(error);
                put(&mut m, text.as_str());
                put(&mut m, ".");
                let r = string_from_chars(m.as_slice());
                assert(r@ == message_spec(*self, text@));
                return r;
            },
            EdError::RegexNoMatch(r) => {
                put(&mut m, "No matches found for regex `");
                put(&mut m, r.as_str());
                put(&mut m, "`.");
            },
            EdError::PrintAfterWipe => put(&mut m, "Would print after deleting whole buffer, refusing to run command."),
            EdError::DefaultFileUnset => put(&mut m, "Couldn't read default file as it hasn't been set. Set by opening file or with the `f` command."),
            EdError::DefaultShellCommandUnset => put(&mut m, "Couldn't read default shell command as it hasn't been set. Run a fully defined shell command first."),
            EdError::DefaultSArgsUnset => put(&mut m, "Couldn't read default `s` arguments as they haven't been set. Run `s` with arguments first."),
            EdError::IndexSpecialAfterStart { prior_index, special_index } | EdError::HistoryIndexSpecialAfterStart { prior_index, special_index } => {
                put(&mut m, "Special index character `");
                put_char(&mut m, *special_index);
                put(&mut m, "` found after index `");
                put(&mut m, prior_index.as_str());
                put(&mut m, "`.");
            },
            EdError::IndexNotInt(t) | EdError::HistoryIndexNotInt(t) => {
                put(&mut m, "Failed to parse given index string `");
                put(&mut m, t.as_str());
                put(&mut m, "` as a number.");
            },
            EdError::OffsetNotInt(t) | EdError::HistoryOffsetNotInt(t) => {
                put(&mut m, "Failed to parse given index offset `");
                put(&mut m, t.as_str());
                put(&mut m, "` as a number.");
            },
            EdError::IndicesUnrelated { prior_index, unrelated_index } | EdError::HistoryIndicesUnrelated { prior_index, unrelated_index } => {
                put(&mut m, "Received non-chainable index `");
                put(&mut m, unrelated_index.as_str());
                put(&mut m, "` immediately after index `");
                put(&mut m, prior_index.as_str());
                put(&mut m, "`.");
            },
            EdError::IndexUnfinished(t) => {
                put(&mut m, "Special index unfinished: `");
                put(&mut m, t.as_str());
                put(&mut m, "`.");
            },
            EdError::CommandUndefined(c) => {
                put(&mut m, "Unknown command `");
                put_char(&mut m, *c);
                put(&mut m, "`.");
            },
            EdError::ArgumentListEscapedEnd(a) => {
                put(&mut m, "Argument list's end was escaped: `");
                put(&mut m, a.as_str());
                put(&mut m, "`.");
            },
            EdError::ArgumentsWrongNr { expected, received } => {
                put(&mut m, "Wrong nr of arguments given. Expected ");
                put(&mut m, *expected);
                put(&mut m, ", received ");
                put_num(&mut m, *received);
                put(&mut m, ".");
            },
            EdError::ScrollNotInt(t) => {
                put(&mut m, "Failed to parse nr of lines to scroll `");
                put(&mut m, t.as_str());
                put(&mut m, "` as a number.");
            },
            EdError::UndoStepsNotInt(t) => {
                put(&mut m, "Failed to parse nr of changes to undo/redo `");
                put(&mut m, t.as_str());
                put(&mut m, "` as a number.");
            },
            EdError::ReflowNotInt { error, text } => {
                put(&mut m, "Failed to parse nr of columns to reflow within `");
                put(&mut m, text.as_str());
                put(&mut m, "` as a number: ");
                put(&mut m, error.as_str());
            },
            EdError::MacroUndefined(name) => {
                put(&mut m, "Given macro `");
                put(&mut m, name.as_str());
                put(&mut m, "` is not defined.");
            },
            EdError::FlagDuplicate(f) => {
                put(&mut m, "Flag `");
                put_char(&mut m, *f);
                put(&mut m, "` was given more than once.");
            },
            EdError::FlagUndefined(f) => {
                put(&mut m, "Given flag `");
                put_char(&mut m, *f);
                put(&mut m, "` isn't valid for that command.");
            },
        }
        string_from_chars(m.as_slice())
    }
}

/// What the user is shown of an error: its message where the editor prints
/// errors (the `H` command toggles this), else only `?`.
pub fn error_report(state: &Ed, e: &EdError) -> (m: String)
    ensures
        !state.print_errors ==> m@ == "?"@,
        state.print_errors && !(e is RegexInvalid) ==> m@ == message_spec(*e, Seq::empty()),
        state.print_errors && e is RegexInvalid ==> exists|t: Seq<char>| m@ == message_spec(*e, t),
{
    if state.print_errors {
        e.message()
    } else {
        String::from_str("?")
    }
}

} // verus!
