//! The editing commands, acting on the editor's state.
//!
//! Each command first interprets and checks everything it was given, and
//! only then changes the buffer (taking an undo snapshot labelled with the
//! full command), so a failing command leaves the state as it was.
use vstd::prelude::*;
use crate::buffer::buffer::{Clipboard, pub_view, selection_valid, selection_error, unclipped};
use crate::buffer::line::LineView;
use crate::cmd::flags::{parse_flags, flags_ok, first_bad_flag, flag_error};
use crate::cmd::selection::{
    Sel, SelV, Ind, IndV, Lookup, lookup_is, opt_sel_view, interpret_selection, interpret_selection_spec,
    interpret_index_from_selection, index_from_selection_spec, parse_index_chars, parse_index_spec, index_fault_is,
    interpret_index, interpret_spec, ind_or, ind_view, opt_ind_view, char_at, sat_add, sat_sub,
};
use crate::buffer::editing::reflowed_lines;
use crate::text::{chars_of, is_digit, parse_usize, parse_usize_spec};
use crate::vecops::moved;
use crate::buffer::buffer::{index_valid, index_error};
use crate::buffer::editing::joined_line;
use crate::ed::Ed;
use crate::error::{EdError, EdResult};
use crate::vecops::spliced;

verus! {

/// Which printing a command asked for after it ran.
#[derive(Debug)]
pub struct PrintingFlags {
    /// Print the selection.
    pub p: bool,
    /// Print it with line numbers.
    pub n: bool,
    /// Print it literally.
    pub l: bool,
}

impl Default for PrintingFlags {
    fn default() -> (f: PrintingFlags)
        ensures
            !f.p && !f.n && !f.l,
    {
        PrintingFlags { p: false, n: false, l: false }
    }
}

/// The printing flags given in `tail`.
pub open spec fn print_flags(tail: Seq<char>) -> PrintingFlags {
    PrintingFlags { p: tail.contains('p'), n: tail.contains('n'), l: tail.contains('l') }
}

/// Whether `f` asks for any printing.
pub open spec fn prints(f: PrintingFlags) -> bool {
    f.p || f.n || f.l
}

/// Whether `e` is the error [`crate::cmd::flags::parse_flags`] gives for
/// the flags `input` when only `allowed` are allowed.
pub open spec fn flags_fault_is(e: EdError, input: Seq<char>, allowed: Seq<char>) -> bool {
    exists|i: int| first_bad_flag(input, allowed, i) && e == flag_error(allowed, input[i])
}

/// Parses the printing flags `p`, `n` and `l`.
pub fn pnl_flags(tail: &str) -> (r: EdResult<PrintingFlags>)
    ensures
        r is Ok <==> flags_ok(tail@, "pnl"@),
        r matches Ok(f) ==> f == print_flags(tail@),
        r matches Err(e) ==> flags_fault_is(e, tail@, "pnl"@),
{
    let allowed = "pnl";
    proof {
        reveal_strlit("pnl");
        assert(!allowed@.contains('\n')) by {
            if allowed@.contains('\n') {
                let k = choose|k: int| 0 <= k < allowed@.len() && #[trigger] allowed@[k] == '\n';
                assert(allowed@[k] == '\n');
            }
        }
    }
    match parse_flags(tail, allowed) {
        Ok(v) => {
            assert(allowed@[0] == 'p' && allowed@[1] == 'n' && allowed@[2] == 'l');
            Ok(PrintingFlags { p: v[0], n: v[1], l: v[2] })
        },
        Err(e) => Err(e),
    }
}

/// Why a selection is unusable.
pub enum SelectionFault {
    /// It could not be interpreted.
    Lookup(Lookup),
    /// It denotes lines that don't all exist, or no lines.
    Invalid((usize, usize)),
}

/// The lines that `sel` denotes in `s` (with `old` for `.`), if they all
/// exist and there is at least one.
pub open spec fn checked_selection(s: Seq<LineView>, sel: Option<SelV>, old: (usize, usize)) -> Result<(usize, usize), SelectionFault> {
    match interpret_selection_spec(s, sel, old) {
        Err(f) => Err(SelectionFault::Lookup(f)),
        Ok(x) => if selection_valid(s.len(), x) {
            Ok(x)
        } else {
            Err(SelectionFault::Invalid(x))
        },
    }
}

/// Whether `e` reports fault `f` in a buffer of `len` lines.
pub open spec fn selection_fault_is(e: EdError, f: SelectionFault, len: usize) -> bool {
    match f {
        SelectionFault::Lookup(l) => lookup_is(e, l),
        SelectionFault::Invalid(x) => e == selection_error(len, x),
    }
}

/// Whether `r` is the outcome `spec` describes in a buffer of `len` lines.
pub open spec fn checked_is(r: EdResult<(usize, usize)>, spec: Result<(usize, usize), SelectionFault>, len: usize) -> bool {
    match r {
        Ok(x) => spec == Ok::<(usize, usize), SelectionFault>(x),
        Err(e) => spec is Err && selection_fault_is(e, spec->Err_0, len),
    }
}

/// Interprets `selection` (`.` standing for the current selection) and
/// checks that it denotes existing lines.
pub fn checked<'a>(state: &Ed, selection: Option<Sel<'a>>) -> (r: EdResult<(usize, usize)>)
    requires
        state.wf(),
    ensures
        checked_is(r, checked_selection(state.lines(), opt_sel_view(selection), state.selection), state.lines().len() as usize),
{
    let sel = match interpret_selection(state, selection, state.selection) {
        Ok(s) => s,
        Err(e) => {
            return Err(e);
        },
    };
    match state.buffer().verify_selection(sel) {
        Ok(()) => Ok(sel),
        Err(e) => Err(e),
    }
}

/// The public forms of lines `a..b` (0-based) of `s`: what a clipboard
/// holds after they are cut or copied.
pub open spec fn clipped(s: Seq<LineView>, a: int, b: int) -> Seq<(char, Seq<char>)> {
    s.subrange(a, b).map_values(|l: LineView| pub_view(l))
}

/// The selection after deleting lines from `start` on, leaving `len`
/// lines: the line now at `start`, else the last line, else `(1, 0)`.
pub open spec fn after_delete(start: usize, len: nat) -> (usize, usize) {
    let s = if start < len { start as int } else { len as int };
    ((if s < 1 { 1 } else { s }) as usize, s as usize)
}

/// Whether `new` is `old` after cutting the lines of `sel`.
pub open spec fn cut_done(old: Ed, new: Ed, cmd: Seq<char>, sel: (usize, usize)) -> bool {
    let lines = spliced(old.lines(), sel.0 - 1, sel.1 as int, Seq::empty());
    &&& new.edited(old, cmd, lines)
    &&& new.clipboard@ == clipped(old.lines(), sel.0 - 1, sel.1 as int)
    &&& new.selection == after_delete(sel.0, lines.len())
}

/// The outcome of `d`: the selection must exist and the flags be `pnl`
/// ones; printing after deleting every line is refused.
pub open spec fn cut_outcome(old: Ed, new: Ed, oldf: PrintingFlags, newf: PrintingFlags, cmd: Seq<char>, selection: Option<SelV>, tail: Seq<char>, r: EdResult<()>) -> bool {
    let len = old.lines().len();
    match checked_selection(old.lines(), selection, old.selection) {
        Err(f) => r matches Err(e) && selection_fault_is(e, f, len as usize) && new == old && newf == oldf,
        Ok(sel) => if !flags_ok(tail, "pnl"@) {
            r matches Err(e) && flags_fault_is(e, tail, "pnl"@) && new == old && newf == oldf
        } else if sel.0 == 1 && sel.1 == len && prints(print_flags(tail)) {
            r == Err::<(), EdError>(EdError::PrintAfterWipe) && new == old && newf == print_flags(tail)
        } else {
            r is Ok && newf == print_flags(tail) && cut_done(old, new, cmd, sel)
        },
    }
}

/// `d`: cuts the selected lines into the clipboard.
pub fn cut<'a>(state: &mut Ed, pflags: &mut PrintingFlags, full_command: &str, selection: Option<Sel<'a>>, tail: &str) -> (r: EdResult<()>)
    requires
        old(state).wf(),
    ensures
        final(state).wf(),
        final(state).error == old(state).error,
        cut_outcome(*old(state), *final(state), *old(pflags), *final(pflags), full_command@, opt_sel_view(selection), tail@, r),
{
    let sel = match checked(state, selection) {
        Ok(s) => s,
        Err(e) => {
            return Err(e);
        },
    };
    let flags = match pnl_flags(tail) {
        Ok(f) => f,
        Err(e) => {
            return Err(e);
        },
    };
    *pflags = flags;
    let len = state.buffer().len();
    if sel.0 == 1 && sel.1 == len && (pflags.p || pflags.n || pflags.l) {
        return Err(EdError::PrintAfterWipe);
    }
    proof {
        state.history.lemma_wf();
    }
    let buffer = state.history.current_mut(full_command.to_owned());
    let cut = match buffer.cut(sel) {
        Ok(c) => c,
        Err(_) => {
            assert(false);
            return Err(EdError::PrintAfterWipe);
        },
    };
    let new_len = buffer.len();
    state.clipboard = Clipboard::from_lines(cut.as_slice());
    let s = if sel.0 < new_len { sel.0 } else { new_len };
    state.selection = (if s < 1 { 1 } else { s }, s);
    Ok(())
}

/// The outcome of `y`: the selected lines are copied into the clipboard
/// and selected.
pub open spec fn copy_outcome(old: Ed, new: Ed, oldf: PrintingFlags, newf: PrintingFlags, selection: Option<SelV>, tail: Seq<char>, r: EdResult<()>) -> bool {
    let len = old.lines().len();
    match checked_selection(old.lines(), selection, old.selection) {
        Err(f) => r matches Err(e) && selection_fault_is(e, f, len as usize) && new == old && newf == oldf,
        Ok(sel) => if !flags_ok(tail, "pnl"@) {
            r matches Err(e) && flags_fault_is(e, tail, "pnl"@) && new == old && newf == oldf
        } else {
            &&& r is Ok
            &&& newf == print_flags(tail)
            &&& new.history == old.history
            &&& new.same_settings(old)
            &&& new.clipboard@ == clipped(old.lines(), sel.0 - 1, sel.1 as int)
            &&& new.selection == sel
        },
    }
}

/// `y`: copies the selected lines into the clipboard.
pub fn copy<'a>(state: &mut Ed, pflags: &mut PrintingFlags, selection: Option<Sel<'a>>, tail: &str) -> (r: EdResult<()>)
    requires
        old(state).wf(),
    ensures
        final(state).wf(),
        final(state).error == old(state).error,
        copy_outcome(*old(state), *final(state), *old(pflags), *final(pflags), opt_sel_view(selection), tail@, r),
{
    let sel = match checked(state, selection) {
        Ok(s) => s,
        Err(e) => {
            return Err(e);
        },
    };
    let flags = match pnl_flags(tail) {
        Ok(f) => f,
        Err(e) => {
            return Err(e);
        },
    };
    *pflags = flags;
    let lines = match state.buffer().copy(sel) {
        Ok(c) => c,
        Err(_) => {
            assert(false);
            return Err(EdError::NoOp);
        },
    };
    state.clipboard = Clipboard::from_lines(lines.as_slice());
    state.selection = sel;
    Ok(())
}

/// The outcome of `x` (`before` false) and `X` (`before` true): the
/// clipboard is pasted after (before) the line the selection ends (starts)
/// at, and the pasted lines are selected.
pub open spec fn paste_outcome(old: Ed, new: Ed, oldf: PrintingFlags, newf: PrintingFlags, cmd: Seq<char>, selection: Option<SelV>, before: bool, tail: Seq<char>, r: EdResult<()>) -> bool {
    let len = old.lines().len();
    if !flags_ok(tail, "pnl"@) {
        r matches Err(e) && flags_fault_is(e, tail, "pnl"@) && new == old && newf == oldf
    } else {
        match index_from_selection_spec(old.lines(), selection, old.selection, !before) {
            Err(f) => r matches Err(e) && lookup_is(e, f) && new == old && newf == print_flags(tail),
            Ok(i) => {
                let index = if before { sat_sub_one(i) } else { i };
                let n = old.clipboard@.len();
                if !index_valid(len, index as int) {
                    r == Err::<(), EdError>(index_error(len as usize, index)) && new == old && newf == print_flags(tail)
                } else {
                    &&& r is Ok
                    &&& newf == print_flags(tail)
                    &&& new.edited(old, cmd, spliced(old.lines(), index as int, index as int, unclipped(old.clipboard@)))
                    &&& new.clipboard == old.clipboard
                    &&& new.selection == (if n != 0 { ((index + 1) as usize, (index + n) as usize) } else { old.selection })
                }
            },
        }
    }
}

/// `i - 1`, or 0.
pub open spec fn sat_sub_one(i: usize) -> usize {
    if i == 0 { 0 } else { (i - 1) as usize }
}

/// `x` and `X`: pastes the clipboard after (`X`: before) the selection.
pub fn paste<'a>(state: &mut Ed, pflags: &mut PrintingFlags, full_command: &str, selection: Option<Sel<'a>>, command: char, tail: &str) -> (r: EdResult<()>)
    requires
        old(state).wf(),
    ensures
        final(state).wf(),
        final(state).error == old(state).error,
        paste_outcome(*old(state), *final(state), *old(pflags), *final(pflags), full_command@, opt_sel_view(selection), command == 'X', tail@, r),
{
    let flags = match pnl_flags(tail) {
        Ok(f) => f,
        Err(e) => {
            return Err(e);
        },
    };
    *pflags = flags;
    let mut index = match interpret_index_from_selection(state, selection, state.selection, command != 'X') {
        Ok(i) => i,
        Err(e) => {
            return Err(e);
        },
    };
    if command == 'X' {
        index = index.saturating_sub(1);
    }
    if let Err(e) = state.buffer().verify_index(index) {
        return Err(e);
    }
    let lines = state.clipboard.to_lines();
    proof {
        state.history.lemma_wf();
    }
    let buffer = state.history.current_mut(full_command.to_owned());
    let n = match buffer.paste(index, &lines) {
        Ok(n) => n,
        Err(_) => {
            assert(false);
            return Err(EdError::NoOp);
        },
    };
    let new_len = buffer.len();
    if n != 0 {
        state.selection = (index + 1, index + n);
    }
    Ok(())
}

/// The outcome of `j`: the selected lines are joined into one (cut into the
/// clipboard), which is selected.
pub open spec fn join_outcome(old: Ed, new: Ed, oldf: PrintingFlags, newf: PrintingFlags, cmd: Seq<char>, selection: Option<SelV>, tail: Seq<char>, r: EdResult<()>) -> bool {
    let len = old.lines().len();
    match checked_selection(old.lines(), selection, old.selection) {
        Err(f) => r matches Err(e) && selection_fault_is(e, f, len as usize) && new == old && newf == oldf,
        Ok(sel) => if !flags_ok(tail, "pnl"@) {
            r matches Err(e) && flags_fault_is(e, tail, "pnl"@) && new == old && newf == oldf
        } else {
            &&& r is Ok
            &&& newf == print_flags(tail)
            &&& new.edited(old, cmd, spliced(old.lines(), sel.0 - 1, sel.1 as int, seq![joined_line(old.lines(), sel.0 - 1, sel.1 as int)]))
            &&& new.clipboard@ == clipped(old.lines(), sel.0 - 1, sel.1 as int)
            &&& new.selection == (sel.0, sel.0)
        },
    }
}

/// `j`: joins the selected lines into one.
pub fn join<'a>(state: &mut Ed, pflags: &mut PrintingFlags, full_command: &str, selection: Option<Sel<'a>>, tail: &str) -> (r: EdResult<()>)
    requires
        old(state).wf(),
    ensures
        final(state).wf(),
        final(state).error == old(state).error,
        join_outcome(*old(state), *final(state), *old(pflags), *final(pflags), full_command@, opt_sel_view(selection), tail@, r),
{
    let sel = match checked(state, selection) {
        Ok(s) => s,
        Err(e) => {
            return Err(e);
        },
    };
    let flags = match pnl_flags(tail) {
        Ok(f) => f,
        Err(e) => {
            return Err(e);
        },
    };
    *pflags = flags;
    proof {
        state.history.lemma_wf();
    }
    let buffer = state.history.current_mut(full_command.to_owned());
    let cut = match buffer.join(sel) {
        Ok(c) => c,
        Err(_) => {
            assert(false);
            return Err(EdError::NoOp);
        },
    };
    state.clipboard = Clipboard::from_lines(cut.as_slice());
    state.selection = (sel.0, sel.0);
    Ok(())
}

/// The tag `k`/`K` take from their argument: its only character, or `\0`
/// when there is none.
pub open spec fn tag_of(tail: Seq<char>) -> char {
    if tail.len() == 0 { '\0' } else { tail[0] }
}

/// The lines after tagging the last (and, `both`, the first) selected line.
pub open spec fn tagged(s: Seq<LineView>, sel: (usize, usize), tag: char, both: bool) -> Seq<LineView> {
    let t = s.update(sel.1 - 1, LineView { tag, ..s[sel.1 - 1] });
    if both { t.update(sel.0 - 1, LineView { tag, ..t[sel.0 - 1] }) } else { t }
}

/// The outcome of `k` (`both`) and `K`: the first and last (`K`: only the
/// last) selected lines get the tag given; no snapshot is taken.
pub open spec fn tag_outcome(old: Ed, new: Ed, selection: Option<SelV>, both: bool, tail: Seq<char>, r: EdResult<()>) -> bool {
    let len = old.lines().len();
    match checked_selection(old.lines(), selection, old.selection) {
        Err(f) => r matches Err(e) && selection_fault_is(e, f, len as usize) && new == old,
        Ok(sel) => if tail.len() > 1 {
            r matches Err(EdError::TagInvalid(t)) && t@ == tail && new == old
        } else {
            &&& r is Ok
            &&& new.wf()
            &&& new.history.states() == old.history.states().update(old.history.viewed(), tagged(old.lines(), sel, tag_of(tail), both))
            &&& new.history.labels() == old.history.labels()
            &&& new.history.viewed() == old.history.viewed()
            &&& new.history.saved_index() == old.history.saved_index()
            &&& new.history.paused() == old.history.paused()
            &&& new.clipboard == old.clipboard
            &&& new.selection == old.selection
            &&& new.same_settings(old)
        },
    }
}

/// `k` and `K`: tags the first and last (`K`: only the last) selected
/// lines with the character given.
pub fn tag<'a>(state: &mut Ed, selection: Option<Sel<'a>>, command: char, tail: &str) -> (r: EdResult<()>)
    requires
        old(state).wf(),
    ensures
        final(state).wf(),
        final(state).error == old(state).error,
        tag_outcome(*old(state), *final(state), opt_sel_view(selection), command == 'k', tail@, r),
{
    let sel = match checked(state, selection) {
        Ok(s) => s,
        Err(e) => {
            return Err(e);
        },
    };
    if tail.unicode_len() > 1 {
        return Err(EdError::TagInvalid(tail.to_owned()));
    }
    let ch = if tail.unicode_len() == 0 { '\0' } else { tail.get_char(0) };
    let ghost s = state.lines();
    let buffer = state.history.viewed_mut();
    let _ = buffer.tag_line(sel.1, ch);
    if command == 'k' {
        let _ = buffer.tag_line(sel.0, ch);
    }
    Ok(())
}

/// The index `m`/`t` (not `before`) or `M`/`T` (`before`) default to.
pub open spec fn default_target(before: bool) -> IndV {
    if before { IndV::Literal(1) } else { IndV::BufferLen }
}

/// The selection after transferring `sel` to after line `target`: the
/// lines at their new place.
pub open spec fn transferred(sel: (usize, usize), target: usize, copy: bool) -> (usize, usize) {
    let n = sel.1 - sel.0 + 1;
    if copy || target < sel.0 {
        ((target + 1) as usize, (target + n) as usize)
    } else {
        ((target - n + 1) as usize, target)
    }
}

/// Whether `new` and `newf` are the outcome of transferring (`copy`, or
/// moving) the lines of `sel` to after line `target`, with flags `ftail`.
pub open spec fn transfer_done(old: Ed, new: Ed, newf: PrintingFlags, cmd: Seq<char>, sel: (usize, usize), target: usize, copy: bool, ftail: Seq<char>, r: EdResult<()>) -> bool {
    let len = old.lines().len();
    &&& newf == print_flags(ftail)
    &&& if !selection_valid(len, sel) {
        r == Err::<(), EdError>(selection_error(len as usize, sel)) && new == old
    } else if !index_valid(len, target as int) {
        r == Err::<(), EdError>(index_error(len as usize, target)) && new == old
    } else if !copy && sel.0 <= target < sel.1 {
        r == Err::<(), EdError>(EdError::NoOp) && new == old
    } else {
        let lines = if copy {
            spliced(old.lines(), target as int, target as int, unclipped(clipped(old.lines(), sel.0 - 1, sel.1 as int)))
        } else {
            moved(old.lines(), sel.0 - 1, sel.1 as int, target as int)
        };
        &&& r is Ok
        &&& new.edited(old, cmd, lines)
        &&& new.clipboard == old.clipboard
        &&& new.selection == transferred(sel, target, copy)
    }
}

/// The outcome of `m` and `t` (after the index given, by default the last
/// line) and `M` and `T` (before it, by default the first line): the
/// selected lines are moved (`m`, `M`) or copied (`t`, `T`) there.
pub open spec fn transfer_outcome(old: Ed, new: Ed, oldf: PrintingFlags, newf: PrintingFlags, cmd: Seq<char>, selection: Option<SelV>, command: char, tail: Seq<char>, r: EdResult<()>) -> bool {
    let before = command == 'M' || command == 'T';
    let copy = command == 't' || command == 'T';
    match interpret_selection_spec(old.lines(), selection, old.selection) {
        Err(f) => r matches Err(e) && lookup_is(e, f) && new == old && newf == oldf,
        Ok(sel) => match parse_index_spec(tail) {
            Err(f) => r matches Err(e) && index_fault_is(e, f) && new == old && newf == oldf,
            Ok(p) => match interpret_spec(old.lines(), ind_or(p.1, default_target(before)), old.selection.1) {
                Err(f) => r matches Err(e) && lookup_is(e, f) && new == old && newf == oldf,
                Ok(index) => {
                    let ftail = tail.subrange(p.0, tail.len() as int);
                    if !flags_ok(ftail, "pnl"@) {
                        r matches Err(e) && flags_fault_is(e, ftail, "pnl"@) && new == old && newf == oldf
                    } else {
                        transfer_done(old, new, newf, cmd, sel, if before { sat_sub_one(index) } else { index }, copy, ftail, r)
                    }
                },
            },
        },
    }
}

/// `m`, `M`, `t` and `T`: moves or copies the selected lines to after (or
/// before) the index given.
pub fn transfer<'a>(state: &mut Ed, pflags: &mut PrintingFlags, full_command: &str, selection: Option<Sel<'a>>, command: char, tail: &str) -> (r: EdResult<()>)
    requires
        old(state).wf(),
        command == 'm' || command == 'M' || command == 't' || command == 'T',
    ensures
        final(state).wf(),
        final(state).error == old(state).error,
        transfer_outcome(*old(state), *final(state), *old(pflags), *final(pflags), full_command@, opt_sel_view(selection), command, tail@, r),
{
    let before = command == 'M' || command == 'T';
    let copy = command == 't' || command == 'T';
    let sel = match interpret_selection(state, selection, state.selection) {
        Ok(s) => s,
        Err(e) => {
            return Err(e);
        },
    };
    let (ind_end, ind) = match parse_index_chars(tail) {
        Ok(x) => x,
        Err(e) => {
            return Err(e);
        },
    };
    let target_ind = match ind {
        Some(i) => i,
        None => if before { Ind::Literal(1) } else { Ind::BufferLen },
    };
    assert(ind_view(target_ind) == ind_or(opt_ind_view(ind), default_target(before)));
    let index = match interpret_index(state, target_ind, state.selection.1) {
        Ok(i) => i,
        Err(e) => {
            return Err(e);
        },
    };
    let ftail = tail.substring_char(ind_end, tail.unicode_len());
    let flags = match pnl_flags(ftail) {
        Ok(f) => f,
        Err(e) => {
            return Err(e);
        },
    };
    *pflags = flags;
    let target = if before { index.saturating_sub(1) } else { index };
    if let Err(e) = state.buffer().verify_selection(sel) {
        return Err(e);
    }
    if let Err(e) = state.buffer().verify_index(target) {
        return Err(e);
    }
    if !copy && sel.0 <= target && target < sel.1 {
        return Err(EdError::NoOp);
    }
    let n = sel.1 - sel.0 + 1;
    proof {
        state.history.lemma_wf();
    }
    if copy {
        let copied = match state.buffer().copy(sel) {
            Ok(c) => c,
            Err(_) => {
                assert(false);
                return Err(EdError::NoOp);
            },
        };
        let lines = Clipboard::from_lines(copied.as_slice()).to_lines();
        let buffer = state.history.current_mut(full_command.to_owned());
        let _ = buffer.paste(target, &lines);
        let new_len = buffer.len();
        state.selection = (target + 1, target + n);
    } else {
        let buffer = state.history.current_mut(full_command.to_owned());
        let _ = buffer.mov(sel, target);
        state.selection = if target < sel.0 { (target + 1, target + n) } else { (target - n + 1, target) };
    }
    Ok(())
}

/// The number of ASCII digits `s` starts with.
pub open spec fn leading_digits(s: Seq<char>) -> nat
    decreases s.len(),
{
    if s.len() > 0 && is_digit(s[0]) {
        1 + leading_digits(s.drop_first())
    } else {
        0
    }
}

proof fn lemma_leading_digits(s: Seq<char>, i: int)
    requires
        0 <= i <= s.len(),
        forall|j: int| 0 <= j < i ==> is_digit(#[trigger] s[j]),
        i == s.len() || !is_digit(s[i]),
    ensures
        leading_digits(s) == i,
    decreases i,
{
    if i > 0 {
        lemma_leading_digits(s.drop_first(), i - 1);
    }
}

/// The number of ASCII digits `s` starts with.
fn count_leading_digits(s: &Vec<char>) -> (n: usize)
    ensures
        n == leading_digits(s@),
        n <= s@.len(),
{
    let mut i: usize = 0;
    while i < s.len() && '0' <= char_at(s, i) && char_at(s, i) <= '9'
        invariant
            i <= s@.len(),
            forall|j: int| 0 <= j < i ==> is_digit(#[trigger] s@[j]),
        decreases s@.len() - i,
    {
        i = i + 1;
    }
    proof {
        lemma_leading_digits(s@, i as int);
    }
    i
}

/// The message of a number too large to parse.
pub open spec fn too_large_message() -> Seq<char> {
    "number too large to fit in target type"@
}

/// The outcome of `J`: the selected lines are reflowed to lines of at most
/// the width given (by default 80) where possible (cut into the
/// clipboard), and the new lines selected.
pub open spec fn reflow_outcome(old: Ed, new: Ed, oldf: PrintingFlags, newf: PrintingFlags, cmd: Seq<char>, selection: Option<SelV>, tail: Seq<char>, r: EdResult<()>) -> bool {
    let len = old.lines().len();
    let k = leading_digits(tail) as int;
    let digits = tail.subrange(0, k);
    match interpret_selection_spec(old.lines(), selection, old.selection) {
        Err(f) => r matches Err(e) && lookup_is(e, f) && new == old && newf == oldf,
        Ok(sel) => if k > 0 && parse_usize_spec(digits) is None {
            r matches Err(EdError::ReflowNotInt { error, text }) && error@ == too_large_message() && text@ == digits
                && new == old && newf == oldf
        } else if !flags_ok(tail.subrange(k, tail.len() as int), "pnl"@) {
            r matches Err(e) && flags_fault_is(e, tail.subrange(k, tail.len() as int), "pnl"@) && new == old && newf == oldf
        } else if !selection_valid(len, sel) {
            r == Err::<(), EdError>(selection_error(len as usize, sel)) && new == old
                && newf == print_flags(tail.subrange(k, tail.len() as int))
        } else {
            let width: usize = if k == 0 { 80 } else { parse_usize_spec(digits)->0 };
            let lines = reflowed_lines(old.lines(), sel.0 - 1, sel.1 as int, width as int);
            let end = sel.0 - 1 + lines.len();
            &&& r is Ok
            &&& newf == print_flags(tail.subrange(k, tail.len() as int))
            &&& new.edited(old, cmd, spliced(old.lines(), sel.0 - 1, sel.1 as int, lines))
            &&& new.clipboard@ == clipped(old.lines(), sel.0 - 1, sel.1 as int)
            &&& new.selection == ((if end < 1 { 1 } else if sel.0 < end { sel.0 as int } else { end }) as usize, end as usize)
        },
    }
}

/// `J`: reflows the selected lines to the width given (default 80).
pub fn reflow<'a>(state: &mut Ed, pflags: &mut PrintingFlags, full_command: &str, selection: Option<Sel<'a>>, tail: &str) -> (r: EdResult<()>)
    requires
        old(state).wf(),
    ensures
        final(state).wf(),
        reflow_outcome(*old(state), *final(state), *old(pflags), *final(pflags), full_command@, opt_sel_view(selection), tail@, r),
{
    let sel = match interpret_selection(state, selection, state.selection) {
        Ok(s) => s,
        Err(e) => {
            return Err(e);
        },
    };
    let chars = chars_of(tail);
    let k = count_leading_digits(&chars);
    let width = if k == 0 {
        80
    } else {
        match parse_usize(&chars, 0, k) {
            Some(w) => w,
            None => {
                let message = "number too large to fit in target type";
                proof {
                    reveal_strlit("number too large to fit in target type");
                }
                return Err(EdError::ReflowNotInt { error: message.to_owned(), text: tail.substring_char(0, k).to_owned() });
            },
        }
    };
    let flags = match pnl_flags(tail.substring_char(k, chars.len())) {
        Ok(f) => f,
        Err(e) => {
            return Err(e);
        },
    };
    *pflags = flags;
    if let Err(e) = state.buffer().verify_selection(sel) {
        return Err(e);
    }
    proof {
        state.history.lemma_wf();
    }
    let buffer = state.history.current_mut(full_command.to_owned());
    let (end, cut) = match buffer.reflow(sel, width) {
        Ok(x) => x,
        Err(_) => {
            assert(false);
            return Err(EdError::NoOp);
        },
    };
    state.clipboard = Clipboard::from_lines(cut.as_slice());
    let start = if end < 1 { 1 } else if sel.0 < end { sel.0 } else { end };
    state.selection = (start, end);
    Ok(())
}

/// The selection `z` (forwards) or `Z` shows: `nr` lines after (before)
/// line `index` of a buffer of `len` lines, as far as there are lines.
pub open spec fn scrolled(index: usize, nr: usize, forwards: bool, len: nat) -> (usize, usize) {
    if forwards {
        let a = if len < index + 1 { len as int } else { index + 1 };
        let b = if len < index + nr { len as int } else { index + nr };
        (a as usize, b as usize)
    } else {
        let a = sat_sub(index, nr);
        let b = sat_sub(index, 1);
        ((if a < 1 { 1 } else { a }) as usize, (if b < 1 { 1 } else { b }) as usize)
    }
}

/// The outcome of `z` and `Z`: the lines after the selection's end (`Z`:
/// before its start) are selected and printed, as many as given (by
/// default `default_len`).
pub open spec fn scroll_outcome(old: Ed, new: Ed, oldf: PrintingFlags, newf: PrintingFlags, selection: Option<SelV>, forwards: bool, tail: Seq<char>, default_len: usize, r: EdResult<()>) -> bool {
    let len = old.lines().len();
    let k = leading_digits(tail) as int;
    let digits = tail.subrange(0, k);
    let ftail = tail.subrange(k, tail.len() as int);
    match interpret_selection_spec(old.lines(), selection, old.selection) {
        Err(f) => r matches Err(e) && lookup_is(e, f) && new == old && newf == oldf,
        Ok(sel) => {
            let index = if forwards { sel.1 } else { sel.0 };
            if !index_valid(len, index as int) {
                r == Err::<(), EdError>(index_error(len as usize, index)) && new == old && newf == oldf
            } else if k > 0 && parse_usize_spec(digits) is None {
                r matches Err(EdError::ScrollNotInt(t)) && t@ == digits && new == old && newf == oldf
            } else if k > 0 && parse_usize_spec(digits) == Some(0usize) {
                r == Err::<(), EdError>(EdError::NoOp) && new == old && newf == oldf
            } else if !flags_ok(ftail, "pnl"@) {
                r matches Err(e) && flags_fault_is(e, ftail, "pnl"@) && new == old && newf == oldf
            } else {
                let nr: usize = if k == 0 { default_len } else { parse_usize_spec(digits)->0 };
                let to = scrolled(index, nr, forwards, len);
                &&& newf == PrintingFlags { p: true, n: ftail.contains('n'), l: ftail.contains('l') }
                &&& if selection_valid(len, to) {
                    r is Ok && new.history == old.history && new.clipboard == old.clipboard && new.same_settings(old)
                        && new.selection == to
                } else {
                    r == Err::<(), EdError>(selection_error(len as usize, to)) && new == old
                }
            }
        },
    }
}

/// The selection `z` (forwards) or `Z` shows.
fn scroll_target(index: usize, nr: usize, forwards: bool, len: usize) -> (r: (usize, usize))
    ensures
        r == scrolled(index, nr, forwards, len as nat),
{
    if forwards {
        let next = index.saturating_add(1);
        let last = index.saturating_add(nr);
        let a = if len < next { len } else { next };
        let b = if len < last { len } else { last };
        (a, b)
    } else {
        let a = index.saturating_sub(nr);
        let b = index.saturating_sub(1);
        (if a < 1 { 1 } else { a }, if b < 1 { 1 } else { b })
    }
}

/// `z` and `Z`: selects (and so prints) the lines after (`Z`: before) the
/// selection.
pub fn scroll<'a>(state: &mut Ed, pflags: &mut PrintingFlags, selection: Option<Sel<'a>>, command: char, tail: &str, default_scroll_length: usize) -> (r: EdResult<()>)
    requires
        old(state).wf(),
    ensures
        final(state).wf(),
        final(state).error == old(state).error,
        scroll_outcome(*old(state), *final(state), *old(pflags), *final(pflags), opt_sel_view(selection), command == 'z', tail@, default_scroll_length, r),
{
    let sel = match interpret_selection(state, selection, state.selection) {
        Ok(s) => s,
        Err(e) => {
            return Err(e);
        },
    };
    let forwards = command == 'z';
    let index = if forwards { sel.1 } else { sel.0 };
    if let Err(e) = state.buffer().verify_index(index) {
        return Err(e);
    }
    let chars = chars_of(tail);
    let k = count_leading_digits(&chars);
    let nr = if k == 0 {
        default_scroll_length
    } else {
        match parse_usize(&chars, 0, k) {
            Some(0) => {
                return Err(EdError::NoOp);
            },
            Some(n) => n,
            None => {
                return Err(EdError::ScrollNotInt(tail.substring_char(0, k).to_owned()));
            },
        }
    };
    let flags = match pnl_flags(tail.substring_char(k, chars.len())) {
        Ok(f) => f,
        Err(e) => {
            return Err(e);
        },
    };
    *pflags = PrintingFlags { p: true, n: flags.n, l: flags.l };
    let to = scroll_target(index, nr, forwards, state.buffer().len());
    if let Err(e) = state.buffer().verify_selection(to) {
        return Err(e);
    }
    state.selection = to;
    Ok(())
}

} // verus!
