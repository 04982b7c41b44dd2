//! The commands that take lines of input: `a`, `i`, `A`, `I` and `c`.
//!
//! Each checks everything it was given before asking the UI for input, so
//! no typed text is lost to an invalid index. What is done with the input
//! is a function of its own, with a contract over the input given.
use vstd::prelude::*;
use crate::buffer::buffer::{Clipboard, index_valid, index_error, line_valid, line_error, selection_valid};
use crate::buffer::editing::{
    strings_view, fresh_lines, all_valid, first_invalid, is_invalid_text_error, make_lines,
    inline_appended, inline_inserted,
};
use crate::buffer::line::LineView;
use crate::cmd::commands::{
    PrintingFlags, print_flags, prints, flags_fault_is, pnl_flags, checked, checked_selection,
    selection_fault_is, clipped, sat_sub_one,
};
use crate::cmd::flags::flags_ok;
use crate::cmd::selection::{Sel, SelV, Lookup, lookup_is, opt_sel_view, interpret_index_from_selection, index_from_selection_spec};
use crate::ed::Ed;
use crate::error::{EdError, EdResult};
use crate::ui::UI;
use crate::cmd::global::{Scripted, script_input};
use crate::vecops::spliced;

verus! {

/// Why an input command's index is unusable.
pub enum TargetFault {
    /// It could not be interpreted.
    Lookup(Lookup),
    /// It was checked and refused with this error.
    Refused(EdError),
}

/// Whether `e` reports `f`.
pub open spec fn target_fault_is(e: EdError, f: TargetFault) -> bool {
    match f {
        TargetFault::Lookup(l) => lookup_is(e, l),
        TargetFault::Refused(x) => e == x,
    }
}

/// The index `a` and `A` (after the selection's end) or `i` and `I`
/// (before its start) work at: `a` and `i` need a place to insert at, `A`
/// and `I` a line to join with.
pub open spec fn input_target(s: Seq<LineView>, sel: Option<SelV>, old: (usize, usize), command: char) -> Result<usize, TargetFault> {
    let after = command == 'a' || command == 'A';
    let len = s.len();
    match index_from_selection_spec(s, sel, old, after) {
        Err(f) => Err(TargetFault::Lookup(f)),
        Ok(i) => {
            let index = if command == 'i' { sat_sub_one(i) } else { i };
            if command == 'a' || command == 'i' {
                if index_valid(len, index as int) { Ok(index) } else { Err(TargetFault::Refused(index_error(len as usize, index))) }
            } else {
                if line_valid(len, index as int) { Ok(index) } else { Err(TargetFault::Refused(line_error(len as usize, index))) }
            }
        },
    }
}

/// The index an input command works at.
fn target<'a>(state: &Ed, selection: Option<Sel<'a>>, command: char) -> (r: EdResult<usize>)
    requires
        state.wf(),
    ensures
        match input_target(state.lines(), opt_sel_view(selection), state.selection, command) {
            Ok(i) => r == Ok::<usize, EdError>(i),
            Err(f) => r matches Err(e) && target_fault_is(e, f),
        },
{
    let after = command == 'a' || command == 'A';
    let i = match interpret_index_from_selection(state, selection, state.selection, after) {
        Ok(i) => i,
        Err(e) => {
            return Err(e);
        },
    };
    let index = if command == 'i' { i.saturating_sub(1) } else { i };
    if command == 'a' || command == 'i' {
        match state.buffer().verify_index(index) {
            Ok(()) => Ok(index),
            Err(e) => Err(e),
        }
    } else {
        match state.buffer().verify_line(index) {
            Ok(()) => Ok(index),
            Err(e) => Err(e),
        }
    }
}

/// Whether `new` is `old` after the input `texts` was given to `command`
/// at `index`: nothing happens without input; `a` and `i` insert the
/// lines after `index`, `A` (`I`) joins the first (last) of them to the
/// end (start) of line `index`, cutting the old line into the clipboard.
/// The new lines are selected.
pub open spec fn input_done(old: Ed, new: Ed, cmd: Seq<char>, index: usize, command: char, texts: Seq<Seq<char>>, r: EdResult<()>) -> bool {
    let n = texts.len();
    if n == 0 {
        r is Ok && new == old
    } else if !all_valid(texts) {
        r matches Err(e) && is_invalid_text_error(e, texts[first_invalid(texts)]) && new == old
    } else if command == 'a' || command == 'i' {
        &&& r is Ok
        &&& new.edited(old, cmd, spliced(old.lines(), index as int, index as int, fresh_lines(texts)))
        &&& new.clipboard == old.clipboard
        &&& new.selection == ((index + 1) as usize, (index + n) as usize)
    } else {
        let joined = if command == 'A' {
            inline_appended(texts, old.lines()[index - 1])
        } else {
            inline_inserted(texts, old.lines()[index - 1])
        };
        &&& r is Ok
        &&& new.edited(old, cmd, spliced(old.lines(), index - 1, index as int, joined))
        &&& new.clipboard@ == clipped(old.lines(), index - 1, index as int)
        &&& new.selection == (index, (index + n - 1) as usize)
    }
}

/// Whether `new` is `old` after some input was given to `command` at
/// `index`.
pub open spec fn input_by_some_input(old: Ed, new: Ed, cmd: Seq<char>, index: usize, command: char, r: EdResult<()>) -> bool {
    exists|texts: Seq<Seq<char>>| input_done(old, new, cmd, index, command, texts, r)
}

/// Puts the input `input` given to `command` (`a`, `i`, `A` or `I`) in
/// place at `index`, as [`input`] does once it has the input.
pub fn insert_input(state: &mut Ed, full_command: &str, input: Vec<String>, index: usize, command: char) -> (r: EdResult<()>)
    requires
        old(state).wf(),
        command == 'a' || command == 'i' || command == 'A' || command == 'I',
        if command == 'a' || command == 'i' {
            index_valid(old(state).lines().len(), index as int)
        } else {
            line_valid(old(state).lines().len(), index as int)
        },
    ensures
        final(state).wf(),
        input_done(*old(state), *final(state), full_command@, index, command, strings_view(input@), r),
{
    if input.len() == 0 {
        return Ok(());
    }
    let made = make_lines(&input);
    if let Err(e) = made {
        proof {
            let k = first_invalid(strings_view(input@));
            crate::buffer::editing::lemma_first_invalid_nonneg(strings_view(input@));
            assert(0 <= k < input@.len());
            assert(strings_view(input@)[k] == input@[k]@);
        }
        return Err(e);
    }
    let n = input.len();
    let old_len = state.buffer().len();
    let ghost texts = strings_view(input@);
    assert(texts.len() == n);
    proof {
        state.history.lemma_wf();
        if command == 'A' || command == 'I' {
            let line = state.lines()[index - 1];
            assert(inline_appended(texts, line).len() == n);
            assert(inline_inserted(texts, line).len() == n);
        }
    }
    let buffer = state.history.current_mut(full_command.to_owned());
    if command == 'a' || command == 'i' {
        let _ = buffer.insert(input, index);
        let new_len = buffer.len();
        state.selection = (index + 1, index + n);
    } else {
        let cut = if command == 'A' {
            buffer.inline_append(input, index)
        } else {
            buffer.inline_insert(input, index)
        };
        let new_len = buffer.len();
        assert(new_len == old_len - 1 + n);
        match cut {
            Ok(c) => {
                state.clipboard = Clipboard::from_lines(c.as_slice());
            },
            Err(_) => {
                assert(false);
            },
        }
        state.selection = (index, index + (n - 1));
    }
    Ok(())
}

/// The outcome of `a`, `i`, `A` and `I` whatever input the UI gave: the
/// flags and index are checked before input is asked for, then the input
/// is put in place as [`insert_input`] does (the UI's errors are passed on
/// with nothing changed).
pub open spec fn input_outcome(old: Ed, new: Ed, oldf: PrintingFlags, newf: PrintingFlags, cmd: Seq<char>, selection: Option<SelV>, command: char, flags: Seq<char>, r: EdResult<()>) -> bool {
    if !flags_ok(flags, "pnl"@) {
        r matches Err(e) && flags_fault_is(e, flags, "pnl"@) && new == old && newf == oldf
    } else {
        &&& newf == print_flags(flags)
        &&& match input_target(old.lines(), selection, old.selection, command) {
            Err(f) => r matches Err(e) && target_fault_is(e, f) && new == old,
            Ok(index) => {
                ||| r is Err && r->Err_0 is UI && new == old
                ||| input_by_some_input(old, new, cmd, index, command, r)
            },
        }
    }
}

/// `a`, `i`, `A` and `I`: adds lines given by the UI after (`a`) or before
/// (`i`) the selection, or joined to the end of its last line (`A`) or the
/// start of its first (`I`).
///
/// While a script runs, the input is the script's lines up to the first
/// that is `.` alone, and what is done with it is stated exactly.
pub fn input<'a, U: UI>(state: &mut Ed, ui: &mut Scripted<U>, pflags: &mut PrintingFlags, full_command: &str, selection: Option<Sel<'a>>, command: char, flags: &str) -> (r: EdResult<()>)
    requires
        old(state).wf(),
        command == 'a' || command == 'i' || command == 'A' || command == 'I',
    ensures
        final(state).wf(),
        final(state).error == old(state).error,
        input_outcome(*old(state), *final(state), *old(pflags), *final(pflags), full_command@, opt_sel_view(selection), command, flags@, r),
        old(ui).scripts().len() > 0 && flags_ok(flags@, "pnl"@) ==> match input_target(old(state).lines(), opt_sel_view(selection), old(state).selection, command) {
            Ok(index) => input_done(*old(state), *final(state), full_command@, index, command, script_input(old(ui).scripts().last(), '.'), r),
            Err(_) => true,
        },
        !flags_ok(flags@, "pnl"@) || input_target(old(state).lines(), opt_sel_view(selection), old(state).selection, command) is Err
            ==> *final(ui) == *old(ui),
{
    let f = match pnl_flags(flags) {
        Ok(f) => f,
        Err(e) => {
            return Err(e);
        },
    };
    *pflags = f;
    let index = match target(state, selection, command) {
        Ok(i) => i,
        Err(e) => {
            return Err(e);
        },
    };
    let lines = match ui.get_input(state, '.') {
        Ok(l) => l,
        Err(e) => {
            return Err(EdError::UI(e));
        },
    };
    let ghost texts = strings_view(lines@);
    let r = insert_input(state, full_command, lines, index, command);
    assert(input_done(*old(state), *state, full_command@, index, command, texts, r));
    assert(input_by_some_input(*old(state), *state, full_command@, index, command, r));
    r
}

/// Whether `new` is `old` after the selected lines `sel` were replaced by
/// the input `texts` (cut into the clipboard). The lines after the change
/// are selected (or, when all were deleted, as after `d`).
pub open spec fn change_done(old: Ed, new: Ed, cmd: Seq<char>, sel: (usize, usize), texts: Seq<Seq<char>>, r: EdResult<()>) -> bool {
    let lines = spliced(old.lines(), sel.0 - 1, sel.1 as int, fresh_lines(texts));
    let len = lines.len() as int;
    let a = if (sel.0 as int) < len { sel.0 as int } else { len };
    let b = if sel.0 + sat_sub_one(texts.len() as usize) < len { sel.0 + sat_sub_one(texts.len() as usize) } else { len };
    if !all_valid(texts) {
        r matches Err(e) && is_invalid_text_error(e, texts[first_invalid(texts)]) && new == old
    } else {
        &&& r is Ok
        &&& new.edited(old, cmd, lines)
        &&& new.clipboard@ == clipped(old.lines(), sel.0 - 1, sel.1 as int)
        &&& new.selection == ((if a < 1 { 1 } else { a }) as usize, b as usize)
    }
}

/// Whether `new` is `old` after the selected lines `sel` were replaced by
/// some input.
pub open spec fn changed_by_some_input(old: Ed, new: Ed, cmd: Seq<char>, sel: (usize, usize), r: EdResult<()>) -> bool {
    exists|texts: Seq<Seq<char>>| change_done(old, new, cmd, sel, texts, r)
}

/// Replaces the selected lines `selection` with `input`, as [`change`]
/// does once it has the input.
pub fn change_lines(state: &mut Ed, full_command: &str, selection: (usize, usize), input: Vec<String>) -> (r: EdResult<()>)
    requires
        old(state).wf(),
        selection_valid(old(state).lines().len(), selection),
    ensures
        final(state).wf(),
        final(state).error == old(state).error,
        change_done(*old(state), *final(state), full_command@, selection, strings_view(input@), r),
{
    let made = make_lines(&input);
    if let Err(e) = made {
        proof {
            let k = first_invalid(strings_view(input@));
            crate::buffer::editing::lemma_first_invalid_nonneg(strings_view(input@));
            assert(0 <= k < input@.len());
            assert(strings_view(input@)[k] == input@[k]@);
        }
        return Err(e);
    }
    let n = input.len();
    proof {
        state.history.lemma_wf();
    }
    let buffer = state.history.current_mut(full_command.to_owned());
    let cut = match buffer.change(input, selection) {
        Ok(c) => c,
        Err(_) => {
            assert(false);
            return Err(EdError::NoOp);
        },
    };
    let len = buffer.len();
    state.clipboard = Clipboard::from_lines(cut.as_slice());
    let a = if selection.0 < len { selection.0 } else { len };
    let last = n.saturating_sub(1);
    let b = if selection.0 as u128 + (last as u128) < len as u128 { selection.0 + last } else { len };
    state.selection = (if a < 1 { 1 } else { a }, b);
    Ok(())
}

/// The outcome of `c` whatever input the UI gave: the selection and flags
/// are checked before input is asked for; `C` is not available. Deleting
/// every line and then printing is refused.
pub open spec fn change_outcome(old: Ed, new: Ed, oldf: PrintingFlags, newf: PrintingFlags, cmd: Seq<char>, selection: Option<SelV>, command: char, flags: Seq<char>, r: EdResult<()>) -> bool {
    let len = old.lines().len();
    match checked_selection(old.lines(), selection, old.selection) {
        Err(f) => r matches Err(e) && selection_fault_is(e, f, len as usize) && new == old && newf == oldf,
        Ok(sel) => if !flags_ok(flags, "pnl"@) {
            r matches Err(e) && flags_fault_is(e, flags, "pnl"@) && new == old && newf == oldf
        } else if command == 'C' {
            r == Err::<(), EdError>(EdError::CommandUndefined('C')) && new == old && newf == print_flags(flags)
        } else {
            &&& newf == print_flags(flags)
            &&& {
                ||| r is Err && r->Err_0 is UI && new == old
                ||| r == Err::<(), EdError>(EdError::PrintAfterWipe) && new == old && sel.0 == 1 && sel.1 == len
                    && prints(print_flags(flags))
                ||| changed_by_some_input(old, new, cmd, sel, r)
            }
        },
    }
}

/// `c`: replaces the selected lines with lines given by the UI.
///
/// While a script runs, the input is the script's lines up to the first
/// that is `.` alone, and what is done with it is stated exactly.
pub fn change<'a, U: UI>(state: &mut Ed, ui: &mut Scripted<U>, pflags: &mut PrintingFlags, full_command: &str, selection: Option<Sel<'a>>, command: char, flags: &str) -> (r: EdResult<()>)
    requires
        old(state).wf(),
    ensures
        final(state).wf(),
        final(state).error == old(state).error,
        change_outcome(*old(state), *final(state), *old(pflags), *final(pflags), full_command@, opt_sel_view(selection), command, flags@, r),
        old(ui).scripts().len() > 0 && flags_ok(flags@, "pnl"@) && command != 'C' ==> match checked_selection(old(state).lines(), opt_sel_view(selection), old(state).selection) {
            Ok(sel) => {
                let texts = script_input(old(ui).scripts().last(), '.');
                if texts.len() == 0 && sel.0 == 1 && sel.1 == old(state).lines().len() && prints(print_flags(flags@)) {
                    r == Err::<(), EdError>(EdError::PrintAfterWipe) && *final(state) == *old(state)
                } else {
                    change_done(*old(state), *final(state), full_command@, sel, texts, r)
                }
            },
            Err(_) => true,
        },
        checked_selection(old(state).lines(), opt_sel_view(selection), old(state).selection) is Err || !flags_ok(flags@, "pnl"@)
            || command == 'C' ==> *final(ui) == *old(ui),
{
    let sel = match checked(state, selection) {
        Ok(s) => s,
        Err(e) => {
            return Err(e);
        },
    };
    let f = match pnl_flags(flags) {
        Ok(f) => f,
        Err(e) => {
            return Err(e);
        },
    };
    *pflags = f;
    if command == 'C' {
        return Err(EdError::CommandUndefined(command));
    }
    let lines = match ui.get_input(state, '.') {
        Ok(l) => l,
        Err(e) => {
            return Err(EdError::UI(e));
        },
    };
    if lines.len() == 0 && sel.0 == 1 && sel.1 == state.buffer().len() && (pflags.p || pflags.n || pflags.l) {
        return Err(EdError::PrintAfterWipe);
    }
    let ghost texts = strings_view(lines@);
    let r = change_lines(state, full_command, sel, lines);
    assert(change_done(*old(state), *state, full_command@, sel, texts, r));
    assert(changed_by_some_input(*old(state), *state, full_command@, sel, r));
    r
}

} // verus!
