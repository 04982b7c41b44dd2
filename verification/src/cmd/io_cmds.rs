//! The commands that work with files and the shell: `f`, `e`, `E`, `r`,
//! `w`, `W`, `!` and `|`.
//!
//! Everything given is checked before the [`IO`] is used; what is done
//! with what it returns is stated over that value.
use vstd::prelude::*;
use crate::buffer::buffer::{Buffer, Clipboard, index_valid, index_error, selection_valid, selection_error, texts_of};
use crate::buffer::editing::{terminated_lines, lines_from_pieces, fresh_lines, strings_view, all_valid};
use crate::buffer::line::{LineView, valid_line_text};
use crate::cmd::commands::{checked, checked_selection, selection_fault_is, clipped};
use crate::cmd::input::{TargetFault, target_fault_is};
use crate::cmd::path::{Path, PathV, parse_path, parse_path_spec, path_view, command_substitutions, substituted_from, SubstitutionFault};
use crate::cmd::selection::{
    Sel, SelV, lookup_is, opt_sel_view, interpret_selection, interpret_selection_spec, interpret_index_from_selection,
    index_from_selection_spec, char_at,
};
use crate::ed::{Ed, untouched};
use crate::error::{EdError, EdResult};
use crate::error_consts::NO_FILE;
use crate::io::{IO, IOCall, Logged, WriteType};
use crate::text::{chars_of, lines_of, split_lines, first_newline, decimal_of, push_str, push_chars, string_from_chars};
use crate::ui::UI;
use crate::vecops::spliced;

verus! {

/// The outcome of `f`: without a path the file is printed (or that none is
/// set); a path sets the file; a shell command is refused.
pub open spec fn filename_outcome(old: Ed, new: Ed, path: Seq<char>, r: EdResult<()>) -> bool {
    match parse_path_spec(path) {
        None => new == old && (r is Ok || (r is Err && r->Err_0 is UI)),
        Some(PathV::Command(_)) => r matches Err(EdError::CommandEscapeForbidden(p)) && p@ == path && new == old,
        Some(PathV::File(f)) => {
            &&& r is Ok
            &&& new.file@ == f
            &&& new.history == old.history && new.clipboard == old.clipboard && new.selection == old.selection
            &&& new.prev_shell_command == old.prev_shell_command && new.prev_s == old.prev_s
            &&& new.print_errors == old.print_errors && new.error == old.error
            &&& new.n == old.n && new.l == old.l && new.recursion_limit == old.recursion_limit
        },
    }
}

/// `f`: prints the file, or sets it to the path given.
pub fn filename<U: UI>(state: &mut Ed, ui: &mut U, path: &str) -> (r: EdResult<()>)
    requires
        old(state).wf(),
    ensures
        final(state).wf(),
        final(state).error == old(state).error,
        final(state).recursion_limit == old(state).recursion_limit,
        filename_outcome(*old(state), *final(state), path@, r),
{
    match parse_path(path) {
        None => {
            let printed = if state.file.as_str().unicode_len() == 0 {
                ui.print_message(NO_FILE)
            } else {
                ui.print_message(state.file.as_str())
            };
            match printed {
                Ok(()) => Ok(()),
                Err(e) => Err(EdError::UI(e)),
            }
        },
        Some(Path::Command(_)) => Err(EdError::CommandEscapeForbidden(path.to_owned())),
        Some(Path::File(file)) => {
            state.file = file.to_owned();
            Ok(())
        },
    }
}

/// Where `r` (`Some`) or `e`/`E` (`None`, replacing the buffer) put the
/// text read.
pub open spec fn read_target(s: Seq<LineView>, sel: Option<SelV>, old: (usize, usize), command: char) -> Result<Option<usize>, TargetFault> {
    if command == 'r' {
        match index_from_selection_spec(s, sel, old, true) {
            Err(f) => Err(TargetFault::Lookup(f)),
            Ok(i) => if index_valid(s.len(), i as int) {
                Ok(Some(i))
            } else {
                Err(TargetFault::Refused(index_error(s.len() as usize, i)))
            },
        }
    } else if sel is None {
        Ok(None)
    } else {
        Err(TargetFault::Refused(EdError::SelectionForbidden))
    }
}

/// Whether `new` is `old` after the text `data` was read in at `index`
/// (or, `None`, replaced the buffer): its lines are put there and selected.
pub open spec fn read_done(old: Ed, new: Ed, cmd: Seq<char>, index: Option<usize>, data: Seq<char>) -> bool {
    let read = terminated_lines(lines_of(data));
    let lines = match index {
        Some(i) => spliced(old.lines(), i as int, i as int, read),
        None => read,
    };
    let start = match index {
        Some(i) => if i < usize::MAX { i + 1 } else { 0 },
        None => 1,
    };
    &&& new.history_changed(old, cmd, lines)
    &&& new.clipboard == old.clipboard
    &&& new.selection == (start as usize, (match index {
        Some(i) => i + read.len(),
        None => read.len() as int,
    }) as usize)
}

/// Whether `new` is `old` after some text was read in at `index`.
pub open spec fn read_some(old: Ed, new: Ed, cmd: Seq<char>, index: Option<usize>) -> bool {
    exists|data: Seq<char>| read_done(old, new, cmd, index, data)
}

/// The outcome of `e`, `E` and `r`: where to read to is checked (and `e`
/// refuses to drop unsaved changes) before anything is read; once read,
/// the text's lines are put in place.
/// Whether `new` keeps the settings of `old` that reading does not touch.
pub open spec fn read_keeps(old: Ed, new: Ed) -> bool {
    &&& new.prev_s == old.prev_s
    &&& new.print_errors == old.print_errors
    &&& new.error == old.error
    &&& new.n == old.n
    &&& new.l == old.l
    &&& new.recursion_limit == old.recursion_limit
}

/// The outcome of `e`, `E` and `r`: the lines read from the file (by
/// default the state's file) or from the output of a shell command go
/// after the index given to `r`, or replace the buffer. Reading a whole
/// file (`e`, `E`) makes it the state's file, saved. Apart from the errors
/// of the checks made before, only the [`IO`] and the [`UI`] can fail.
pub open spec fn read_outcome(old: Ed, new: Ed, cmd: Seq<char>, selection: Option<SelV>, command: char, path: Seq<char>, r: EdResult<()>) -> bool {
    match read_target(old.lines(), selection, old.selection, command) {
        Err(f) => r matches Err(e) && target_fault_is(e, f) && new == old,
        Ok(index) => if command == 'e' && old.history.saved_index() != Some(old.history.viewed() as usize) {
            r == Err::<(), EdError>(EdError::UnsavedChanges) && new == old
        } else {
            match parse_path_spec(path) {
                Some(PathV::Command(c)) => match substituted_from(c, 0, false, old.file@, old.prev_shell_command@) {
                    Err(SubstitutionFault::FileUnset) => r == Err::<(), EdError>(EdError::DefaultFileUnset) && new == old,
                    Err(SubstitutionFault::CommandUnset) => r == Err::<(), EdError>(EdError::DefaultShellCommandUnset)
                        && new == old,
                    Ok(t) => {
                        &&& r matches Err(e) ==> e is IO || e is UI
                        &&& r is Ok ==> {
                            &&& read_some(old, new, cmd, index)
                            &&& new.history.saved_index() == old.history.saved_index()
                            &&& new.prev_shell_command@ == t
                            &&& new.file@ == old.file@
                            &&& read_keeps(old, new)
                        }
                    },
                },
                p => {
                    let f = match p {
                        Some(PathV::File(f)) => f,
                        _ => old.file@,
                    };
                    &&& r matches Err(e) ==> e is IO || e is UI
                    &&& r is Ok ==> {
                        &&& read_some(old, new, cmd, index)
                        &&& new.prev_shell_command@ == old.prev_shell_command@
                        &&& read_keeps(old, new)
                        &&& command == 'r' ==> new.file@ == old.file@ && new.history.saved_index()
                            == old.history.saved_index()
                        &&& command != 'r' ==> new.file@ == f && new.history.saved_index() == (if old.history.paused() {
                            None
                        } else {
                            Some(new.history.viewed() as usize)
                        })
                    }
                },
            }
        },
    }
}

/// Puts the text `data` read for `e`, `E` or `r` into the buffer, as lines
/// (the last one newline terminated if it wasn't): after line `index`, or
/// in place of all lines when `index` is `None`. Selects the lines read and
/// returns their number.
pub fn read_into(state: &mut Ed, full_command: &str, index: Option<usize>, data: &str) -> (r: usize)
    requires
        old(state).wf(),
        index matches Some(i) ==> index_valid(old(state).lines().len(), i as int),
    ensures
        final(state).wf(),
        final(state).error == old(state).error,
        read_done(*old(state), *final(state), full_command@, index, data@),
        final(state).history.saved_index() == old(state).history.saved_index(),
        final(state).same_settings(*old(state)),
        r == lines_of(data@).len(),
{
    let chars = chars_of(data);
    let pieces = split_lines(&chars);
    let lines = lines_from_pieces(pieces, Ghost(data@));
    let n = lines.len();
    proof {
        state.history.lemma_wf();
    }
    let ghost read = terminated_lines(lines_of(data@));
    assert(read.len() == n);
    let old_len = state.buffer().len();
    let buffer = state.history.current_mut(full_command.to_owned());
    let (start, end) = match index {
        Some(i) => {
            let _ = buffer.paste(i, &lines);
            let new_len = buffer.len();
            assert(new_len == old_len + n);
            (if i < usize::MAX { i + 1 } else { 0 }, i + n)
        },
        None => {
            buffer.inner = lines;
            (1, n)
        },
    };
    state.selection = (start, end);
    n
}

/// Where `e`, `E` or `r` reads from: a file, with whether it must exist
/// (`E`), or the output of a shell command (its `%` and `!` substituted).
pub enum ReadSource {
    File(String, bool),
    Command(String),
}

/// The mathematical value of a [`ReadSource`].
pub enum ReadSourceV {
    File(Seq<char>, bool),
    Command(Seq<char>),
}

/// What `e`, `E` or `r` does, once its checks passed: where the lines go
/// (after `index`, or in place of all) and where they come from.
pub struct ReadPlan {
    pub index: Option<usize>,
    pub source: ReadSource,
}

pub open spec fn source_view(s: ReadSource) -> ReadSourceV {
    match s {
        ReadSource::File(f, m) => ReadSourceV::File(f@, m),
        ReadSource::Command(c) => ReadSourceV::Command(c@),
    }
}

/// Where `e`, `E` or `r` (`command`) with argument `path` reads from on
/// state `old`: the file named, else the state's file (which must exist
/// for `E`), or a shell command; `None` when its substitutions fail.
pub open spec fn read_source(old: Ed, command: char, path: Seq<char>) -> Option<ReadSourceV> {
    match parse_path_spec(path) {
        None => Some(ReadSourceV::File(old.file@, command == 'E')),
        Some(PathV::File(f)) => Some(ReadSourceV::File(f, command == 'E')),
        Some(PathV::Command(c)) => match substituted_from(c, 0, false, old.file@, old.prev_shell_command@) {
            Ok(t) => Some(ReadSourceV::Command(t)),
            Err(_) => None,
        },
    }
}

/// What `e`, `E` or `r` does on state `old`, when its checks pass.
pub open spec fn read_plan_spec(old: Ed, selection: Option<SelV>, command: char, path: Seq<char>) -> Option<(Option<usize>, ReadSourceV)> {
    match read_target(old.lines(), selection, old.selection, command) {
        Err(_) => None,
        Ok(index) => if command == 'e' && old.history.saved_index() != Some(old.history.viewed() as usize) {
            None
        } else {
            match read_source(old, command, path) {
                None => None,
                Some(src) => Some((index, src)),
            }
        },
    }
}

/// The call `e`, `E` or `r` makes to the [`IO`] to read from `source`.
pub open spec fn read_call(source: ReadSourceV) -> IOCall {
    match source {
        ReadSourceV::File(f, must_exist) => IOCall::ReadFile(f, must_exist),
        ReadSourceV::Command(c) => IOCall::RunRead(c),
    }
}

/// The checks of `e`, `E` and `r` (`command`): works out where the lines
/// read go and where they come from, or the error it is refused with.
pub fn read_plan<'a>(state: &Ed, selection: Option<Sel<'a>>, command: char, path: &str) -> (r: EdResult<ReadPlan>)
    requires
        state.wf(),
    ensures
        r is Ok <==> read_plan_spec(*state, opt_sel_view(selection), command, path@) is Some,
        r matches Ok(p) ==> (p.index, source_view(p.source)) == read_plan_spec(*state, opt_sel_view(selection), command, path@)->Some_0,
        r matches Err(e) ==> read_outcome(*state, *state, Seq::<char>::empty(), opt_sel_view(selection), command, path@, Err(e)),
{
    let index = if command == 'r' {
        let i = match interpret_index_from_selection(state, selection, state.selection, true) {
            Ok(i) => i,
            Err(e) => {
                return Err(e);
            },
        };
        if let Err(e) = state.buffer().verify_index(i) {
            return Err(e);
        }
        Some(i)
    } else if selection.is_none() {
        None
    } else {
        return Err(EdError::SelectionForbidden);
    };
    if !state.history.saved() && command == 'e' {
        return Err(EdError::UnsavedChanges);
    }
    let source = match parse_path(path) {
        None => ReadSource::File(state.file.clone(), command == 'E'),
        Some(Path::File(f)) => ReadSource::File(f.to_owned(), command == 'E'),
        Some(Path::Command(cmd)) => match command_substitutions(cmd, state.file.as_str(), state.prev_shell_command.as_str()) {
            Ok(t) => ReadSource::Command(t),
            Err(e) => {
                return Err(e);
            },
        },
    };
    Ok(ReadPlan { index, source })
}

/// `e`, `E` and `r`: reads a file (or a shell command's output) into the
/// buffer, replacing it (`e`, `E`) or after the selection (`r`). What is
/// asked of the [`IO`] is what [`read_plan`] works out: the file and whether
/// it must exist, or the command; the text it gives goes in as
/// [`read_into`] says.
pub fn read_from_file<'a, U: UI, I: IO>(state: &mut Ed, ui: &mut U, io: &mut Logged<I>, full_command: &str, selection: Option<Sel<'a>>, command: char, path: &str) -> (r: EdResult<()>)
    requires
        old(state).wf(),
    ensures
        final(state).wf(),
        final(state).error == old(state).error,
        final(state).recursion_limit == old(state).recursion_limit,
        read_outcome(*old(state), *final(state), full_command@, opt_sel_view(selection), command, path@, r),
        read_plan_spec(*old(state), opt_sel_view(selection), command, path@) is None ==> untouched(
            *old(ui),
            *final(ui),
            *old(io),
            *final(io),
        ),
        read_plan_spec(*old(state), opt_sel_view(selection), command, path@) matches Some(p) ==> final(io).calls()
            == old(io).calls().push(read_call(p.1)),
{
    let plan = match read_plan(state, selection, command, path) {
        Ok(p) => p,
        Err(e) => {
            return Err(e);
        },
    };
    let ghost given = parse_path_spec(path@);
    let ReadPlan { index, source } = plan;
    let (data, from_file) = match source {
        ReadSource::Command(cmd) => {
            let data = match io.run_read_command(cmd.clone()) {
                Ok(d) => d,
                Err(e) => {
                    return Err(EdError::IO(e));
                },
            };
            state.prev_shell_command = cmd;
            (data, None)
        },
        ReadSource::File(file, must_exist) => {
            let data = match io.read_file(file.as_str(), must_exist) {
                Ok(d) => d,
                Err(e) => {
                    return Err(EdError::IO(e));
                },
            };
            (data, Some(file))
        },
    };
    let ghost mid = *state;
    let n = read_into(state, full_command, index, data.as_str());
    let mut m: Vec<char> = Vec::new();
    push_str(&mut m, "Read ");
    let bytes = decimal_of(data.as_str().len());
    push_chars(&mut m, &bytes);
    match &from_file {
        None => push_str(&mut m, " bytes"),
        Some(f) => {
            push_str(&mut m, " bytes from path `");
            push_str(&mut m, f.as_str());
            push_str(&mut m, "`");
        },
    }
    let message = string_from_chars(m.as_slice());
    if let Err(e) = ui.print_message(message.as_str()) {
        return Err(EdError::UI(e));
    }
    proof {
        if index is None {
            assert(state.lines().len() == n);
        }
        if from_file is Some {
            assert(from_file->Some_0@ == (match given {
                Some(PathV::File(f)) => f,
                _ => old(state).file@,
            }));
        }
    }
    if let Some(f) = from_file {
        if state.buffer().len() == n && command != 'r' {
            state.file = f;
            state.history.set_saved();
        }
    }
    assert(read_done(*old(state), *state, full_command@, index, data@));
    Ok(())
}

/// What `w` and `W` write: `None` for the whole buffer (the default, or a
/// selection of all of it), else the selection.
pub open spec fn write_selection(s: Seq<LineView>, sel: Option<SelV>, old: (usize, usize)) -> Result<Option<(usize, usize)>, crate::cmd::selection::Lookup> {
    match sel {
        None => Ok(None),
        Some(x) => match interpret_selection_spec(s, Some(x), old) {
            Err(f) => Err(f),
            Ok(v) => if v == (1usize, s.len() as usize) { Ok(None) } else { Ok(Some(v)) },
        },
    }
}

/// The outcome of `w` and `W`: what to write is checked before anything is
/// written (`wq` needs the whole buffer); the buffer is unchanged, and
/// writing all of it to a file with `w` makes it saved. The result says
/// whether to quit (`wq`).
/// Where `w` or `W` with argument `path` writes: the path given, else (and
/// for `wq`) the state's file `file`.
pub open spec fn write_target(path: Seq<char>, file: Seq<char>) -> PathV {
    if path == seq!['q'] {
        PathV::File(file)
    } else {
        match parse_path_spec(path) {
            Some(p) => p,
            None => PathV::File(file),
        }
    }
}

/// The outcome of `w` and `W` (`command`): the selection (by default the
/// whole buffer) is written to the target; writing the whole buffer to a
/// file with `w` makes that file the state's file, saved. Apart from the
/// errors of the checks made before, only the [`IO`] and the [`UI`] can
/// fail.
pub open spec fn write_outcome(old: Ed, new: Ed, selection: Option<SelV>, command: char, path: Seq<char>, r: EdResult<bool>) -> bool {
    let len = old.lines().len();
    let q = path == seq!['q'];
    match write_selection(old.lines(), selection, old.selection) {
        Err(f) => r matches Err(e) && lookup_is(e, f) && new == old,
        Ok(sel) => {
            let range = match sel {
                Some(s) => s,
                None => (1usize, len as usize),
            };
            if q && sel is Some {
                r == Err::<bool, EdError>(EdError::UnsavedChanges) && new == old
            } else if !selection_valid(len, range) {
                r == Err::<bool, EdError>(selection_error(len as usize, range)) && new == old
            } else {
                match write_target(path, old.file@) {
                    PathV::File(f) => {
                        &&& r is Err ==> (r->Err_0 is IO || r->Err_0 is UI) && new == old
                        &&& r matches Ok(b) ==> {
                            &&& b == q
                            &&& new.wf()
                            &&& new.history.states() == old.history.states()
                            &&& new.history.labels() == old.history.labels()
                            &&& new.history.viewed() == old.history.viewed()
                            &&& new.history.paused() == old.history.paused()
                            &&& new.clipboard == old.clipboard
                            &&& new.selection == (match sel { Some(s) => s, None => old.selection })
                            &&& new.prev_shell_command@ == old.prev_shell_command@
                            &&& read_keeps(old, new)
                            &&& if sel is None && command != 'W' {
                                &&& new.file@ == f
                                &&& new.history.saved_index() == (if old.history.paused() {
                                    None
                                } else {
                                    Some(old.history.viewed() as usize)
                                })
                            } else {
                                new.file@ == old.file@ && new.history.saved_index() == old.history.saved_index()
                            }
                        }
                    },
                    PathV::Command(c) => if command == 'W' {
                        r matches Err(EdError::CommandEscapeForbidden(p)) && p@ == path && new == old
                    } else {
                        match substituted_from(c, 0, false, old.file@, old.prev_shell_command@) {
                            Err(SubstitutionFault::FileUnset) => r == Err::<bool, EdError>(EdError::DefaultFileUnset)
                                && new == old,
                            Err(SubstitutionFault::CommandUnset) => r == Err::<bool, EdError>(
                                EdError::DefaultShellCommandUnset,
                            ) && new == old,
                            Ok(t) => {
                                &&& new.wf()
                                &&& new.history == old.history
                                &&& new.clipboard == old.clipboard
                                &&& new.prev_shell_command@ == t
                                &&& new.file@ == old.file@
                                &&& read_keeps(old, new)
                                &&& r is Err ==> r->Err_0 is IO || r->Err_0 is UI
                                &&& r matches Ok(b) ==> b == q && new.selection == (match sel { Some(s) => s, None => old.selection })
                            },
                        }
                    },
                }
            }
        },
    }
}

/// Where `w` or `W` writes: a file, with how it is written, or a shell
/// command (its `%` and `!` substituted) that is fed the lines.
pub enum WriteDest {
    File(String, WriteType),
    Command(String),
}

/// The mathematical value of a [`WriteDest`].
pub enum WriteDestV {
    File(Seq<char>, WriteType),
    Command(Seq<char>),
}

/// What `w` or `W` does, once its checks passed: where it writes, which
/// lines (`range`), whether that is the whole buffer given without a
/// selection (`whole`), and whether it then quits (`wq`).
pub struct WritePlan {
    pub dest: WriteDest,
    pub range: (usize, usize),
    pub whole: bool,
    pub quit: bool,
}

pub open spec fn dest_view(d: WriteDest) -> WriteDestV {
    match d {
        WriteDest::File(f, t) => WriteDestV::File(f@, t),
        WriteDest::Command(c) => WriteDestV::Command(c@),
    }
}

/// Where `w` or `W` (`command`) with argument `path` writes on state `old`:
/// `W` appends; `w` creates a file named in `path` and overwrites the
/// state's file (the default, and the target of `wq`). `None` when a shell
/// command is given to `W`, or its substitutions fail.
pub open spec fn write_dest(old: Ed, command: char, path: Seq<char>) -> Option<WriteDestV> {
    let append = command == 'W';
    if path == seq!['q'] {
        Some(WriteDestV::File(old.file@, if append { WriteType::Append } else { WriteType::Overwrite }))
    } else {
        match parse_path_spec(path) {
            None => Some(WriteDestV::File(old.file@, if append { WriteType::Append } else { WriteType::Overwrite })),
            Some(PathV::File(f)) => Some(WriteDestV::File(f, if append { WriteType::Append } else { WriteType::Create })),
            Some(PathV::Command(c)) => if append {
                None
            } else {
                match substituted_from(c, 0, false, old.file@, old.prev_shell_command@) {
                    Ok(t) => Some(WriteDestV::Command(t)),
                    Err(_) => None,
                }
            },
        }
    }
}

/// What `w` or `W` does on state `old`, when its checks pass: the
/// destination, the lines written (by default all of them), whether no
/// selection or the whole buffer was given, and whether it quits after.
pub open spec fn write_plan_spec(old: Ed, selection: Option<SelV>, command: char, path: Seq<char>) -> Option<(WriteDestV, (usize, usize), bool, bool)> {
    let len = old.lines().len();
    let q = path == seq!['q'];
    match write_selection(old.lines(), selection, old.selection) {
        Err(_) => None,
        Ok(sel) => {
            let range = match sel {
                Some(s) => s,
                None => (1usize, len as usize),
            };
            if (q && sel is Some) || !selection_valid(len, range) {
                None
            } else {
                match write_dest(old, command, path) {
                    None => None,
                    Some(d) => Some((d, range, sel is None, q)),
                }
            }
        },
    }
}

/// The call `w` or `W` makes to the [`IO`] to write `lines` to `dest`.
pub open spec fn write_call(dest: WriteDestV, lines: Seq<Seq<char>>) -> IOCall {
    match dest {
        WriteDestV::File(f, t) => IOCall::WriteFile(f, t, lines),
        WriteDestV::Command(c) => IOCall::RunWrite(c, lines),
    }
}

/// The checks of `w` and `W` (`command`): works out where and what it
/// writes, or the error it is refused with.
pub fn write_plan<'a>(state: &Ed, selection: Option<Sel<'a>>, command: char, in_path: &str) -> (r: EdResult<WritePlan>)
    requires
        state.wf(),
    ensures
        r is Ok <==> write_plan_spec(*state, opt_sel_view(selection), command, in_path@) is Some,
        r matches Ok(p) ==> (dest_view(p.dest), p.range, p.whole, p.quit) == write_plan_spec(
            *state,
            opt_sel_view(selection),
            command,
            in_path@,
        )->Some_0,
        r matches Err(e) ==> write_outcome(*state, *state, opt_sel_view(selection), command, in_path@, Err(e)),
{
    let len = state.buffer().len();
    let sel = match selection {
        Some(s) => match interpret_selection(state, Some(s), state.selection) {
            Ok(inter) => if inter.0 == 1 && inter.1 == len { None } else { Some(inter) },
            Err(e) => {
                return Err(e);
            },
        },
        None => None,
    };
    let q = in_path.unicode_len() == 1 && in_path.get_char(0) == 'q';
    proof {
        if in_path@ == seq!['q'] {
            assert(in_path@[0] == 'q');
        }
        if q {
            assert(in_path@ =~= seq!['q']);
        }
    }
    if q && sel.is_some() {
        return Err(EdError::UnsavedChanges);
    }
    let range = match sel {
        Some(s) => s,
        None => (1, len),
    };
    if let Err(e) = state.buffer().verify_selection(range) {
        return Err(e);
    }
    let append = command == 'W';
    let dest = if q {
        WriteDest::File(state.file.clone(), if append { WriteType::Append } else { WriteType::Overwrite })
    } else {
        match parse_path(in_path) {
            None => WriteDest::File(state.file.clone(), if append { WriteType::Append } else { WriteType::Overwrite }),
            Some(Path::File(f)) => WriteDest::File(f.to_owned(), if append { WriteType::Append } else { WriteType::Create }),
            Some(Path::Command(cmd)) => {
                if append {
                    return Err(EdError::CommandEscapeForbidden(in_path.to_owned()));
                }
                match command_substitutions(cmd, state.file.as_str(), state.prev_shell_command.as_str()) {
                    Ok(t) => WriteDest::Command(t),
                    Err(e) => {
                        return Err(e);
                    },
                }
            },
        }
    };
    Ok(WritePlan { dest, range, whole: sel.is_none(), quit: q })
}

/// `w` and `W`: writes (`W`: appends) the selection, by default the whole
/// buffer, to a file or a shell command (`w !cmd`). `wq` writes and quits.
/// What is handed to the [`IO`] is what [`write_plan`] works out: the
/// destination, the way a file is written and the lines of its range.
pub fn write_to_file<'a, U: UI, I: IO>(state: &mut Ed, ui: &mut U, io: &mut Logged<I>, selection: Option<Sel<'a>>, command: char, in_path: &str) -> (r: EdResult<bool>)
    requires
        old(state).wf(),
    ensures
        final(state).wf(),
        final(state).error == old(state).error,
        final(state).recursion_limit == old(state).recursion_limit,
        write_outcome(*old(state), *final(state), opt_sel_view(selection), command, in_path@, r),
        write_plan_spec(*old(state), opt_sel_view(selection), command, in_path@) is None ==> untouched(
            *old(ui),
            *final(ui),
            *old(io),
            *final(io),
        ),
        write_plan_spec(*old(state), opt_sel_view(selection), command, in_path@) matches Some(p) ==> final(io).calls()
            == old(io).calls().push(write_call(p.0, texts_of(old(state).lines().subrange(p.1.0 - 1, p.1.1 as int)))),
{
    let plan = match write_plan(state, selection, command, in_path) {
        Ok(p) => p,
        Err(e) => {
            return Err(e);
        },
    };
    let WritePlan { dest, range, whole, quit } = plan;
    let data = match state.history.current().get_lines(range) {
        Ok(d) => d,
        Err(e) => {
            assert(false);
            return Err(e);
        },
    };
    match dest {
        WriteDest::File(file, wtype) => {
            let written = match io.write_file(file.as_str(), wtype, data) {
                Ok(w) => w,
                Err(e) => {
                    return Err(EdError::IO(e));
                },
            };
            let mut m: Vec<char> = Vec::new();
            push_str(&mut m, "Wrote ");
            let digits = decimal_of(written);
            push_chars(&mut m, &digits);
            push_str(&mut m, " bytes to path `");
            push_str(&mut m, file.as_str());
            push_str(&mut m, "`");
            let message = string_from_chars(m.as_slice());
            if let Err(e) = ui.print_message(message.as_str()) {
                return Err(EdError::UI(e));
            }
            if whole && command != 'W' {
                state.file = file;
                state.history.set_saved();
            }
        },
        WriteDest::Command(cmd) => {
            state.prev_shell_command = cmd.clone();
            let written = match io.run_write_command(cmd, data) {
                Ok(w) => w,
                Err(e) => {
                    return Err(EdError::IO(e));
                },
            };
            let mut m: Vec<char> = Vec::new();
            push_str(&mut m, "Wrote ");
            let digits = decimal_of(written);
            push_chars(&mut m, &digits);
            push_str(&mut m, " bytes");
            let message = string_from_chars(m.as_slice());
            if let Err(e) = ui.print_message(message.as_str()) {
                return Err(EdError::UI(e));
            }
        },
    }
    if !whole {
        state.selection = range;
    }
    Ok(quit)
}

/// The pieces of `t` each ending with its newline, the last one without
/// if `t` does not end with one (as `str::split_inclusive`).
pub open spec fn inclusive_pieces(t: Seq<char>) -> Seq<Seq<char>>
    decreases t.len(),
{
    if t.len() == 0 {
        Seq::empty()
    } else {
        let k = first_newline(t) as int;
        if k >= t.len() {
            seq![t]
        } else {
            seq![t.subrange(0, k + 1)] + inclusive_pieces(t.subrange(k + 1, t.len() as int))
        }
    }
}

/// `t` with a newline added unless it ends with one.
pub open spec fn newline_terminated(t: Seq<char>) -> Seq<char> {
    if t.len() > 0 && t.last() == '\n' { t } else { t.push('\n') }
}

/// Whether `new` is `old` after the lines of `sel` were replaced by the
/// output `out` of a shell command (cut into the clipboard).
pub open spec fn transform_done(old: Ed, new: Ed, cmd: Seq<char>, sel: (usize, usize), out: Seq<char>) -> bool {
    let texts = inclusive_pieces(newline_terminated(out));
    let n = texts.len();
    &&& new.history_edited(old, cmd, spliced(old.lines(), sel.0 - 1, sel.1 as int, fresh_lines(texts)))
    &&& new.clipboard@ == clipped(old.lines(), sel.0 - 1, sel.1 as int)
    &&& new.selection == (if n != 0 { (sel.0, (sel.0 + n - 1) as usize) } else { ((if sel.0 - 1 < 1 { 1 } else { sel.0 - 1 }) as usize, (sel.0 - 1) as usize) })
}

/// Whether `new` is `old` after the lines of `sel` were replaced by the
/// output of some shell command.
pub open spec fn transformed_some(old: Ed, new: Ed, cmd: Seq<char>, sel: (usize, usize)) -> bool {
    exists|out: Seq<char>| transform_done(old, new, cmd, sel, out)
}

/// The outcome of `!` (no selection) and `|` (the selection is piped
/// through the command and replaced by its output): `%` and `!` in the
/// command are substituted, and the result remembered, before it runs.
pub open spec fn shell_outcome(old: Ed, new: Ed, cmd: Seq<char>, selection: Option<SelV>, ch: char, command: Seq<char>, r: EdResult<()>) -> bool {
    let len = old.lines().len();
    let subst = substituted_from(command, 0, false, old.file@, old.prev_shell_command@);
    if ch == '!' && selection is Some {
        r == Err::<(), EdError>(EdError::SelectionForbidden) && new == old
    } else if ch == '|' && checked_selection(old.lines(), selection, old.selection) is Err {
        r matches Err(e) && selection_fault_is(e, checked_selection(old.lines(), selection, old.selection)->Err_0, len as usize)
            && new == old
    } else {
        match subst {
            Err(SubstitutionFault::FileUnset) => r == Err::<(), EdError>(EdError::DefaultFileUnset) && new == old,
            Err(SubstitutionFault::CommandUnset) => r == Err::<(), EdError>(EdError::DefaultShellCommandUnset) && new == old,
            Ok(c) => {
                &&& new.wf()
                &&& new.prev_shell_command@ == c
                &&& new.file@ == old.file@
                &&& read_keeps(old, new)
                &&& r is Err ==> r->Err_0 is IO || r->Err_0 is UI
                &&& ch == '!' ==> new.history == old.history && new.selection == old.selection
                    && new.clipboard == old.clipboard
                &&& (ch == '|' && r is Ok) ==> transformed_some(old, new, cmd, checked_selection(old.lines(), selection, old.selection)->Ok_0)
            },
        }
    }
}

/// The call `!` (without selection) or `|` makes to the [`IO`] on state
/// `old`, when its checks pass: the substituted command is run, with the
/// selected lines fed to it for `|`.
pub open spec fn shell_call(old: Ed, selection: Option<SelV>, ch: char, command: Seq<char>) -> Option<IOCall> {
    let check = checked_selection(old.lines(), selection, old.selection);
    if (ch == '!' && selection is Some) || (ch == '|' && check is Err) {
        None
    } else {
        match substituted_from(command, 0, false, old.file@, old.prev_shell_command@) {
            Err(_) => None,
            Ok(c) => if ch == '!' {
                Some(IOCall::Run(c))
            } else {
                Some(IOCall::RunTransform(c, texts_of(old.lines().subrange(check->Ok_0.0 - 1, check->Ok_0.1 as int))))
            },
        }
    }
}

proof fn lemma_inclusive_pieces_valid(t: Seq<char>)
    requires
        t.len() > 0 && t.last() == '\n',
    ensures
        all_valid(inclusive_pieces(t)),
    decreases t.len(),
{
    crate::text::lemma_first_newline_bound(t);
    let k = first_newline(t) as int;
    if k < t.len() {
        crate::text::lemma_first_newline_is(t, k);
        let p = t.subrange(0, k + 1);
        assert(valid_line_text(p));
        if k + 1 < t.len() {
            lemma_inclusive_pieces_valid(t.subrange(k + 1, t.len() as int));
        } else {
            assert(t.subrange(k + 1, t.len() as int) =~= Seq::<char>::empty());
        }
        assert forall|i: int| 0 <= i < inclusive_pieces(t).len() implies valid_line_text(#[trigger] inclusive_pieces(t)[i]) by {
            if i > 0 {
                assert(inclusive_pieces(t)[i] == inclusive_pieces(t.subrange(k + 1, t.len() as int))[i - 1]);
            }
        }
    }
}

/// The pieces of `t` each ending with its newline.
pub(crate) fn split_inclusive(t: &Vec<char>) -> (r: Vec<String>)
    ensures
        strings_view(r@) == inclusive_pieces(t@),
    decreases t@.len(),
{
    let mut out: Vec<String> = Vec::new();
    let mut start: usize = 0;
    let mut i: usize = 0;
    let tl = t.len();
    let ghost whole = t@;
    assert(t@.subrange(0, t@.len() as int) =~= t@);
    while i < t.len()
        invariant
            start <= i <= t@.len(),
            tl == t@.len(),
            forall|j: int| start <= j < i ==> #[trigger] t@[j] != '\n',
            strings_view(out@) + inclusive_pieces(t@.subrange(start as int, t@.len() as int)) == inclusive_pieces(t@),
        decreases t@.len() - i,
    {
        if char_at(t, i) == '\n' {
            let ghost rest = t@.subrange(start as int, t@.len() as int);
            proof {
                crate::text::lemma_first_newline_is(rest, i - start);
                assert(rest.subrange(0, i - start + 1) =~= t@.subrange(start as int, i + 1));
                assert(rest.subrange(i - start + 1, rest.len() as int) =~= t@.subrange(i + 1, t@.len() as int));
            }
            let mut piece: Vec<char> = Vec::new();
            let mut k = start;
            while k <= i
                invariant
                    start <= k <= i + 1,
                    i < t@.len(),
                    tl == t@.len(),
                    piece@ == t@.subrange(start as int, k as int),
                decreases i + 1 - k,
            {
                piece.push(char_at(t, k));
                k = k + 1;
                assert(piece@ =~= t@.subrange(start as int, k as int));
            }
            let ghost before = strings_view(out@);
            out.push(string_from_chars(piece.as_slice()));
            assert(strings_view(out@) =~= before.push(piece@));
            assert(before + (seq![piece@] + inclusive_pieces(t@.subrange(i + 1, t@.len() as int)))
                =~= strings_view(out@) + inclusive_pieces(t@.subrange(i + 1, t@.len() as int)));
            start = i + 1;
        }
        i = i + 1;
    }
    if start < t.len() {
        let ghost rest = t@.subrange(start as int, t@.len() as int);
        proof {
            crate::text::lemma_first_newline_bound(rest);
            assert forall|j: int| 0 <= j < rest.len() implies rest[j] != '\n' by {
                assert(rest[j] == t@[start + j]);
            }
            crate::text::lemma_lines_of_no_newline(rest);
        }
        let mut piece: Vec<char> = Vec::new();
        let mut k = start;
        while k < t.len()
            invariant
                start <= k <= t@.len(),
                piece@ == t@.subrange(start as int, k as int),
            decreases t@.len() - k,
        {
            piece.push(char_at(t, k));
            k = k + 1;
            assert(piece@ =~= t@.subrange(start as int, k as int));
        }
        let ghost before = strings_view(out@);
        out.push(string_from_chars(piece.as_slice()));
        assert(strings_view(out@) =~= before.push(piece@));
        assert(strings_view(out@) =~= before + inclusive_pieces(rest));
    } else {
        assert(t@.subrange(start as int, t@.len() as int) =~= Seq::<char>::empty());
        assert(strings_view(out@) + Seq::<Seq<char>>::empty() =~= strings_view(out@));
    }
    out
}

/// `|` after its command ran: replaces the lines of `sel` by `out`, the
/// command's output, cut into lines (the last one newline terminated if it
/// wasn't). The lines replaced go to the clipboard and the new lines are
/// selected (if there are none, the line before them).
pub fn replace_with_output(state: &mut Ed, full_command: &str, sel: (usize, usize), out: &str)
    requires
        old(state).wf(),
        selection_valid(old(state).lines().len(), sel),
    ensures
        final(state).wf(),
        final(state).error == old(state).error,
        transform_done(*old(state), *final(state), full_command@, sel, out@),
        final(state).same_settings(*old(state)),
{
    let s = sel;
    let mut chars = chars_of(out);
    let appended = chars.len() == 0 || char_at(&chars, chars.len() - 1) != '\n';
    if appended {
        chars.push('\n');
    }
    assert(chars@ == newline_terminated(out@));
    let texts = split_inclusive(&chars);
    proof {
        lemma_inclusive_pieces_valid(chars@);
    }
    let n = texts.len();
    proof {
        state.history.lemma_wf();
    }
    let buffer = state.history.current_mut(full_command.to_owned());
    let cut = match buffer.change(texts, s) {
        Ok(c) => c,
        Err(_) => {
            assert(false);
            return;
        },
    };
    let new_len = buffer.len();
    assert(new_len == old(state).lines().len() - (s.1 - s.0 + 1) + n);
    state.clipboard = Clipboard::from_lines(cut.as_slice());
    state.selection = if n != 0 {
        (s.0, s.0 + (n - 1))
    } else {
        (if s.0 - 1 < 1 { 1 } else { s.0 - 1 }, s.0 - 1)
    };
}

/// `!` and `|`: runs a shell command; with `|` the selection is piped
/// through it and replaced by its output.
pub fn run_command<'a, U: UI, I: IO>(state: &mut Ed, ui: &mut U, io: &mut Logged<I>, full_command: &str, selection: Option<Sel<'a>>, ch: char, command: &str) -> (r: EdResult<()>)
    requires
        old(state).wf(),
        ch == '!' || ch == '|',
    ensures
        final(state).wf(),
        final(state).error == old(state).error,
        final(state).recursion_limit == old(state).recursion_limit,
        shell_outcome(*old(state), *final(state), full_command@, opt_sel_view(selection), ch, command@, r),
        shell_call(*old(state), opt_sel_view(selection), ch, command@) matches Some(c) ==> final(io).calls() == old(io).calls().push(c),
        shell_call(*old(state), opt_sel_view(selection), ch, command@) is None ==> final(io).calls() == old(io).calls(),
{
    let sel = if ch == '!' {
        if selection.is_some() {
            return Err(EdError::SelectionForbidden);
        }
        None
    } else {
        match checked(state, selection) {
            Ok(s) => Some(s),
            Err(e) => {
                return Err(e);
            },
        }
    };
    let substituted = match command_substitutions(command, state.file.as_str(), state.prev_shell_command.as_str()) {
        Ok(s) => s,
        Err(e) => {
            return Err(e);
        },
    };
    state.prev_shell_command = substituted.clone();
    match sel {
        None => {
            match io.run_command(substituted) {
                Ok(()) => Ok(()),
                Err(e) => Err(EdError::IO(e)),
            }
        },
        Some(s) => {
            let data = match state.buffer().get_lines(s) {
                Ok(d) => d,
                Err(e) => {
                    assert(false);
                    return Err(e);
                },
            };
            let out = match io.run_transform_command(substituted, data) {
                Ok(o) => o,
                Err(e) => {
                    return Err(EdError::IO(e));
                },
            };
            let appended = out.as_str().unicode_len() == 0 || out.as_str().get_char(out.as_str().unicode_len() - 1) != '\n';
            let ghost mid = *state;
            replace_with_output(state, full_command, s, out.as_str());
            assert(mid.history == old(state).history);
            assert(transform_done(*old(state), *state, full_command@, s, out@));
            let mut m: Vec<char> = Vec::new();
            push_str(&mut m, "Transformation returned ");
            let bytes = if appended { out.as_str().len().saturating_add(1) } else { out.as_str().len() };
            let digits = decimal_of(bytes);
            push_chars(&mut m, &digits);
            push_str(&mut m, " bytes");
            let message = string_from_chars(m.as_slice());
            match ui.print_message(message.as_str()) {
                Ok(()) => Ok(()),
                Err(e) => Err(EdError::UI(e)),
            }
        },
    }
}

} // verus!
