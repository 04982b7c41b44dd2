//! Macros: named lists of commands, run by `:` with the macro's name.
//!
//! A macro's commands run as a script. How its changes show in the undo
//! history is chosen per macro ([`ModificationMode`]): snapshots are
//! paused while it runs, and afterwards the one snapshot it made is kept,
//! dropped when it changed nothing, or dropped to undo it.
use vstd::prelude::*;
use crate::cmd::commands::{checked, checked_selection, selection_fault_is};
use crate::cmd::global::Scripted;
use crate::cmd::io_cmds::{split_inclusive, inclusive_pieces};
use crate::cmd::run::{macro_name, macro_name_spec, run_script, script_start};
use crate::cmd::selection::{Sel, SelV, opt_sel_view};
use crate::ed::{Ed, untouched};
use crate::error::{EdError, EdResult};
use crate::history::History;
use crate::buffer::buffer::Buffer;
use crate::io::{IO, Logged};
use crate::text::{chars_of, push_str, string_from_chars};
use crate::ui::UI;

verus! {

/// How the changes a macro makes show in the undo history.
#[derive(Debug, Clone, Copy, PartialEq, Eq, Structural)]
pub enum ModificationMode {
    /// One undo step, labelled with the command that ran the macro; none
    /// if nothing changed. On error the changes are undone.
    Default,
    /// The changes are undone when the macro ends: the history is left as
    /// it was, and the selection too on error.
    Revert,
    /// Each change is an undo step of its own, as if the commands were
    /// given one by one.
    Expose,
    /// One undo step, even if nothing changed. On error the changes are
    /// undone.
    Squash,
}

/// A named list of commands, one per line.
#[derive(Debug)]
pub struct Macro {
    /// The commands, one per line.
    pub input: String,
    /// How its changes show in the history.
    pub modification_mode: ModificationMode,
}

/// Whether `i` is the index of the first of `macros` named `name`.
pub open spec fn first_named(macros: Seq<(String, Macro)>, name: Seq<char>, i: int) -> bool {
    &&& 0 <= i < macros.len()
    &&& macros[i].0@ == name
    &&& forall|j: int| 0 <= j < i ==> #[trigger] macros[j].0@ != name
}

/// Whether one of `macros` is named `name`.
pub open spec fn defined(macros: Seq<(String, Macro)>, name: Seq<char>) -> bool {
    exists|j: int| 0 <= j < macros.len() && #[trigger] macros[j].0@ == name
}

/// The label of the snapshot a [`ModificationMode::Revert`] macro run by
/// `command` makes.
pub open spec fn revert_snapshot_label(command: Seq<char>) -> Seq<char> {
    "revert_snapshot: "@ + command
}

/// Whether `new` holds the same history states, labels, view and save as
/// `old` (whether snapshots are paused aside).
pub open spec fn history_kept(old: History<Buffer>, new: History<Buffer>) -> bool {
    &&& new.wf()
    &&& new.states() == old.states()
    &&& new.labels() == old.labels()
    &&& new.viewed() == old.viewed()
    &&& new.saved_index() == old.saved_index()
}

/// Whether `pre` is `old` made ready to run a macro in `mode`, by the
/// command `command`, on the selection `given` if one was given:
/// `Revert` forces a snapshot labelled for it, `Default` and `Squash`
/// snapshot as a change would, `Expose` does nothing; all but `Expose`
/// then pause snapshots.
pub open spec fn macro_prepared(old: Ed, pre: Ed, mode: ModificationMode, command: Seq<char>, given: Option<(usize, usize)>) -> bool {
    let h = old.history;
    &&& pre.wf()
    &&& pre.clipboard == old.clipboard
    &&& pre.same_settings(old)
    &&& pre.selection == (match given {
        Some(s) => s,
        None => old.selection,
    })
    &&& match mode {
        ModificationMode::Revert => {
            &&& pre.history.states() == h.forced_states()
            &&& pre.history.labels() == h.forced_labels(revert_snapshot_label(command))
            &&& pre.history.viewed() == pre.history.states().len() - 1
            &&& pre.history.saved_index() == h.saved_index()
            &&& pre.history.paused()
        },
        ModificationMode::Expose => pre.history == h,
        _ => {
            &&& pre.history.states() == h.snapshot_states()
            &&& pre.history.labels() == h.snapshot_labels(command)
            &&& pre.history.viewed() == pre.history.states().len() - 1
            &&& pre.history.saved_index() == h.saved_index()
            &&& pre.history.paused()
        },
    }
}

/// Whether running the macro's `lines` as a script at `depth` took `pre`
/// to `mid` with the result `res`, as far as the script's first command
/// decides: beyond the recursion limit nothing runs.
pub open spec fn macro_ran(pre: Ed, mid: Ed, lines: Seq<Seq<char>>, depth: usize, res: EdResult<()>) -> bool {
    &&& mid.wf()
    &&& mid.error == pre.error
    &&& mid.recursion_limit == pre.recursion_limit
    &&& if depth >= pre.recursion_limit {
        res == Err::<(), EdError>(EdError::InfiniteRecursion) && mid == pre
    } else if lines.len() == 0 {
        res is Ok && mid == pre
    } else {
        script_start(pre, mid, lines[0], res)
    }
}

/// Whether `new` is `mid`, the editor after a macro in `mode` ran with the
/// result `res`, once its snapshot is settled: snapshots are paused again
/// as they were (`paused`); a `Default` macro's snapshot is dropped if it
/// holds no change, and with it the changes on error; a `Squash` macro's
/// changes are dropped on error; a `Revert` macro's snapshot is always
/// dropped. On error the selection from before (`orig`) comes back; a
/// `Revert` macro that succeeds leaves the selection `given`, if any.
/// Nested in a macro (`paused`), `Default` and `Squash` leave this to the
/// outer macro.
pub open spec fn macro_settled(mid: Ed, new: Ed, mode: ModificationMode, paused: bool, orig: (usize, usize), given: Option<(usize, usize)>, res: EdResult<()>) -> bool {
    &&& new.clipboard == mid.clipboard
    &&& new.same_settings(mid)
    &&& new.history.paused() == paused
    &&& match mode {
        ModificationMode::Default => if paused {
            history_kept(mid.history, new.history) && new.selection == mid.selection
        } else if res is Err {
            mid.history.present_deleted(new.history) && new.selection == orig
        } else {
            mid.history.present_deduped(new.history) && new.selection == mid.selection
        },
        ModificationMode::Revert => {
            &&& mid.history.present_deleted(new.history)
            &&& new.selection == (if res is Err {
                orig
            } else {
                match given {
                    Some(s) => s,
                    None => mid.selection,
                }
            })
        },
        ModificationMode::Squash => if res is Err && !paused {
            mid.history.present_deleted(new.history) && new.selection == orig
        } else {
            history_kept(mid.history, new.history) && new.selection == mid.selection
        },
        ModificationMode::Expose => history_kept(mid.history, new.history) && new.selection == mid.selection,
    }
}

/// What `:` does, run by the command `command` with the argument `arg` at
/// recursion depth `depth`: a given selection is checked first; then the
/// macro named by the first word of `arg` is looked up (an error if none
/// is); then it is made ready ([`macro_prepared`]), its lines run as a
/// script ([`macro_ran`]) and its snapshot is settled ([`macro_settled`]).
/// The result is the script's.
pub open spec fn macro_outcome(old: Ed, new: Ed, selection: Option<SelV>, command: Seq<char>, arg: Seq<char>, depth: usize, r: EdResult<()>) -> bool {
    let name = macro_name_spec(arg);
    let check = checked_selection(old.lines(), selection, old.selection);
    if selection is Some && check is Err {
        r matches Err(e) && selection_fault_is(e, check->Err_0, old.lines().len() as usize) && new == old
    } else if !defined(old.macros@, name) {
        r matches Err(e) && e matches EdError::MacroUndefined(n) && n@ == name && new == old
    } else {
        let given = if selection is Some {
            Some(check->Ok_0)
        } else {
            None
        };
        exists|i: int, pre: Ed, mid: Ed|
            #![trigger macro_ran(pre, mid, inclusive_pieces(old.macros@[i].1.input@), depth, r)]
            {
                let m = old.macros@[i].1;
                &&& first_named(old.macros@, name, i)
                &&& macro_prepared(old, pre, m.modification_mode, command, given)
                &&& macro_ran(pre, mid, inclusive_pieces(m.input@), depth, r)
                &&& macro_settled(mid, new, m.modification_mode, old.history.paused(), old.selection, given, r)
            }
    }
}

/// The index of the first of `macros` named `name`, if any is.
fn find_macro(macros: &Vec<(String, Macro)>, name: &String) -> (r: Option<usize>)
    ensures
        match r {
            Some(i) => first_named(macros@, name@, i as int),
            None => !defined(macros@, name@),
        },
{
    let mut k: usize = 0;
    while k < macros.len()
        invariant
            k <= macros@.len(),
            forall|j: int| 0 <= j < k ==> #[trigger] macros@[j].0@ != name@,
        decreases macros@.len() - k,
    {
        if macros[k].0 == *name {
            return Some(k);
        }
        k = k + 1;
    }
    None
}

/// The label of the snapshot a reverting macro run by `command` makes.
fn revert_label(command: &str) -> (r: String)
    ensures
        r@ == revert_snapshot_label(command@),
{
    proof {
        reveal_strlit("revert_snapshot: ");
    }
    let mut v: Vec<char> = Vec::new();
    push_str(&mut v, "revert_snapshot: ");
    push_str(&mut v, command);
    string_from_chars(v.as_slice())
}

/// Makes `state` ready to run a macro in `mode`, run by `command`, on the
/// selection `given` if one was given.
fn prepare_macro(state: &mut Ed, mode: ModificationMode, command: &str, given: Option<(usize, usize)>)
    requires
        old(state).wf(),
    ensures
        macro_prepared(*old(state), *final(state), mode, command@, given),
        final(state).error == old(state).error,
        final(state).recursion_limit == old(state).recursion_limit,
        final(state).macros == old(state).macros,
{
    match mode {
        ModificationMode::Revert => {
            let label = revert_label(command);
            state.history.force_create_snapshot(label);
            state.history.set_dont_snapshot(true);
        },
        ModificationMode::Expose => {},
        _ => {
            state.history.snapshot(command.to_owned());
            state.history.set_dont_snapshot(true);
        },
    }
    if let Some(s) = given {
        state.selection = s;
    }
}

/// Settles the snapshot of a macro in `mode` that ended with `res`, as
/// [`macro_settled`] states; `paused` and `orig` are whether snapshots
/// were paused, and the selection, before the macro.
fn settle_macro(state: &mut Ed, mode: ModificationMode, paused: bool, orig: (usize, usize), given: Option<(usize, usize)>, res: &EdResult<()>)
    requires
        old(state).wf(),
    ensures
        macro_settled(*old(state), *final(state), mode, paused, orig, given, *res),
        final(state).wf(),
        final(state).error == old(state).error,
        final(state).recursion_limit == old(state).recursion_limit,
{
    state.history.set_dont_snapshot(paused);
    match mode {
        ModificationMode::Default => {
            if !paused {
                if res.is_err() {
                    state.history.delete_present();
                    state.selection = orig;
                } else {
                    state.history.dedup_present();
                }
            }
        },
        ModificationMode::Revert => {
            state.history.delete_present();
            if res.is_err() {
                state.selection = orig;
            } else if let Some(s) = given {
                state.selection = s;
            }
        },
        ModificationMode::Squash => {
            if res.is_err() && !paused {
                state.history.delete_present();
                state.selection = orig;
            }
        },
        ModificationMode::Expose => {},
    }
}

/// `:`: runs the macro named by the first word of `clean` (on the given
/// selection, if any), as [`macro_outcome`] states; `clean_command` is the
/// whole command, which labels the macro's snapshot.
pub fn run_macro<'a, U: UI, I: IO>(state: &mut Ed, ui: &mut Scripted<U>, io: &mut Logged<I>, recursion_depth: usize, selection: Option<Sel<'a>>, clean_command: &str, clean: &str) -> (r: EdResult<()>)
    requires
        old(state).wf(),
    ensures
        final(state).wf(),
        final(state).error == old(state).error,
        final(state).recursion_limit == old(state).recursion_limit,
        macro_outcome(*old(state), *final(state), opt_sel_view(selection), clean_command@, clean@, recursion_depth, r),
        (selection is Some && checked_selection(old(state).lines(), opt_sel_view(selection), old(state).selection) is Err)
            || !defined(old(state).macros@, macro_name_spec(clean@)) ==> untouched(*old(ui), *final(ui), *old(io), *final(io)),
    decreases old(state).recursion_limit - recursion_depth, 3int,
{
    let given = if selection.is_some() {
        match checked(state, selection) {
            Ok(s) => Some(s),
            Err(e) => {
                return Err(e);
            },
        }
    } else {
        None
    };
    let name = macro_name(clean);
    let i = match find_macro(&state.macros, &name) {
        Some(i) => i,
        None => {
            return Err(EdError::MacroUndefined(name));
        },
    };
    let mode = state.macros[i].1.modification_mode;
    let input = chars_of(state.macros[i].1.input.as_str());
    let lines = split_inclusive(&input);
    let ghost old_state = *old(state);
    let orig_dont_snapshot = state.history.snapshots_paused();
    let orig_selection = state.selection;
    prepare_macro(state, mode, clean_command, given);
    let ghost pre = *state;
    let res = if recursion_depth < state.recursion_limit {
        run_script(state, ui, io, &lines, recursion_depth)
    } else {
        Err(EdError::InfiniteRecursion)
    };
    let ghost mid = *state;
    assert(macro_ran(pre, mid, inclusive_pieces(old_state.macros@[i as int].1.input@), recursion_depth, res));
    settle_macro(state, mode, orig_dont_snapshot, orig_selection, given, &res);
    proof {
        let name = macro_name_spec(clean@);
        let m = old_state.macros@[i as int].1;
        assert(first_named(old_state.macros@, name, i as int));
        assert(m.modification_mode == mode);
        assert(macro_prepared(old_state, pre, m.modification_mode, clean_command@, given));
        assert(macro_settled(mid, *state, m.modification_mode, old_state.history.paused(), old_state.selection, given, res));
        let check = checked_selection(old_state.lines(), opt_sel_view(selection), old_state.selection);
        let given2 = if opt_sel_view(selection) is Some {
            Some(check->Ok_0)
        } else {
            None
        };
        assert(given == given2);
        assert(defined(old_state.macros@, name));
        assert(macro_ran(pre, mid, inclusive_pieces(m.input@), recursion_depth, res));
    }
    res
}

} // verus!
