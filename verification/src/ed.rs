//! The editor's state, which the commands act on.
use vstd::prelude::*;
use crate::buffer::buffer::{Buffer, Clipboard};
use crate::buffer::line::LineView;
use crate::error::EdError;
use crate::history::History;
use crate::cmd::macros::Macro;

verus! {

/// Whether the user interface and the I/O were left as they were.
pub open spec fn untouched<U, I>(old_ui: U, new_ui: U, old_io: I, new_io: I) -> bool {
    new_ui == old_ui && new_io == old_io
}

/// The arguments of the last `s` command, which `s` alone repeats.
#[derive(Debug)]
pub struct Substitution {
    /// The regex searched for.
    pub pattern: String,
    /// What matches are replaced with (escapes not yet interpreted).
    pub substitute: String,
    /// Whether every match is replaced, not only the first.
    pub global: bool,
    /// The printing flags given.
    pub p: bool,
    pub n: bool,
    pub l: bool,
}

/// The state of the editor.
pub struct Ed {
    /// The history of buffer states, one of which is viewed and edited.
    pub history: History<Buffer>,
    /// Lines cut or copied, for pasting.
    pub clipboard: Clipboard,
    /// The selected lines (1-indexed, inclusive): the default of commands.
    pub selection: (usize, usize),
    /// The default file path of file commands.
    pub file: String,
    /// The last shell command run, repeated by `!!`.
    pub prev_shell_command: String,
    /// The arguments of the last `s` command.
    pub prev_s: Option<Substitution>,
    /// Whether errors are printed as they occur (else only `?`).
    pub print_errors: bool,
    /// The last error that occurred.
    pub error: Option<EdError>,
    /// Whether printing numbers lines by default.
    pub n: bool,
    /// Whether printing is literal by default.
    pub l: bool,
    /// How deeply commands may run commands.
    pub recursion_limit: usize,
    /// The macros `:` runs, each with its name; the first of a name is used.
    pub macros: Vec<(String, Macro)>,
}

impl Ed {
    /// The history holds a viewed buffer.
    pub open spec fn wf(&self) -> bool {
        self.history.wf()
    }

    /// The viewed buffer's lines.
    pub open spec fn lines(&self) -> Seq<LineView> {
        self.history.present()
    }

    /// `self` has the same settings (file, previous command, error
    /// handling, default printing, recursion limit) as `old`.
    pub open spec fn same_settings(&self, old: Ed) -> bool {
        &&& self.file@ == old.file@
        &&& self.prev_shell_command@ == old.prev_shell_command@
        &&& self.prev_s == old.prev_s
        &&& self.print_errors == old.print_errors
        &&& self.error == old.error
        &&& self.n == old.n
        &&& self.l == old.l
        &&& self.recursion_limit == old.recursion_limit
    }

    /// `self` is `old` after a change to the buffer caused by `cause`, which
    /// left the lines `lines`: the history got a snapshot labelled `cause`
    /// (after reverting, if the past was viewed) holding them, and views it.
    pub open spec fn edited(&self, old: Ed, cause: Seq<char>, lines: Seq<LineView>) -> bool {
        &&& self.history_edited(old, cause, lines)
        &&& self.same_settings(old)
    }

    /// The history part of [`Ed::edited`].
    pub open spec fn history_edited(&self, old: Ed, cause: Seq<char>, lines: Seq<LineView>) -> bool {
        &&& self.history_changed(old, cause, lines)
        &&& self.history.saved_index() == old.history.saved_index()
    }

    /// As [`Ed::history_edited`], whatever is considered saved after.
    pub open spec fn history_changed(&self, old: Ed, cause: Seq<char>, lines: Seq<LineView>) -> bool {
        let states = old.history.snapshot_states();
        &&& self.wf()
        &&& self.history.states() == states.update(states.len() - 1, lines)
        &&& self.history.labels() == old.history.snapshot_labels(cause)
        &&& self.history.viewed() == self.history.states().len() - 1
        &&& self.history.paused() == old.history.paused()
        &&& self.lines() == lines
    }

    /// A new editor with an empty buffer and no file.
    pub fn new() -> (e: Ed)
        ensures
            e.wf(),
            e.lines() == Seq::<LineView>::empty(),
            e.history.states().len() == 1,
            e.history.saved_index() == Some(0usize),
            e.clipboard@ == Seq::<(char, Seq<char>)>::empty(),
            e.selection == (1usize, 0usize),
            e.file@ == Seq::<char>::empty(),
            e.prev_shell_command@ == Seq::<char>::empty(),
            e.prev_s is None,
            e.print_errors,
            e.error is None,
            !e.n && !e.l,
            e.recursion_limit == 16,
            e.macros@.len() == 0,
    {
        Ed {
            history: History::new(),
            clipboard: Clipboard::new(),
            selection: (1, 0),
            file: String::new(),
            prev_shell_command: String::new(),
            prev_s: None,
            print_errors: true,
            error: None,
            n: false,
            l: false,
            recursion_limit: 16,
            macros: Vec::new(),
        }
    }

    /// The viewed buffer.
    pub fn buffer(&self) -> (b: &Buffer)
        requires
            self.wf(),
        ensures
            b@ == self.lines(),
    {
        self.history.current()
    }
}

} // verus!
