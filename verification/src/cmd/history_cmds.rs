//! The commands that report on or move through the undo history (`u`,
//! `U`), and the status command.
use vstd::prelude::*;
use crate::cmd::commands::flags_fault_is;
use crate::cmd::flags::{parse_flags, flags_ok};
use crate::cmd::selection::{Sel, IndexFault};
use crate::cmd::undo_index::{
    HistoryIndV, parse_history_index_chars, parse_history_index_spec, history_fault_is, interpret_history_index,
    interpret_history_spec, opt_history_ind_view,
};
use crate::ed::Ed;
use crate::error::{EdError, EdResult};
use crate::text::{decimal_chars, decimal_of, push_str, push_chars, string_from_chars};
use crate::ui::UI;
use crate::cmd::global::Scripted;

verus! {

/// The message `u` prints after moving `steps` snapshots forward (`redo`)
/// or back, to the snapshot labelled `label`.
pub open spec fn undo_message(steps: nat, redo: bool, label: Seq<char>) -> Seq<char> {
    (if redo { "Redid "@ } else { "Undid "@ }) + decimal_chars(steps) + " operation(s) to right after "@ + label + "."@
}

/// Builds the message `u` prints.
pub fn undo_message_of(steps: usize, redo: bool, label: &str) -> (r: String)
    ensures
        r@ == undo_message(steps as nat, redo, label@),
{
    let mut m: Vec<char> = Vec::new();
    if redo {
        push_str(&mut m, "Redid ");
    } else {
        push_str(&mut m, "Undid ");
    }
    let digits = decimal_of(steps);
    push_chars(&mut m, &digits);
    push_str(&mut m, " operation(s) to right after ");
    push_str(&mut m, label);
    push_str(&mut m, ".");
    string_from_chars(m.as_slice())
}

/// The message `u` prints when it moves from the snapshot `old` views to
/// the snapshot `target`.
pub open spec fn undo_move_message(old: Ed, target: int) -> Seq<char> {
    let viewed = old.history.viewed();
    if target > viewed {
        undo_message((target - viewed) as nat, true, old.history.labels()[target])
    } else {
        undo_message((viewed - target) as nat, false, old.history.labels()[target])
    }
}

/// The snapshot `u` goes to: the one the index given denotes, by default
/// the one before the viewed one.
pub open spec fn undo_target(ind: Option<HistoryIndV>, viewed: int, len: nat) -> usize {
    match ind {
        Some(i) => interpret_history_spec(i, viewed as usize, len as usize),
        None => if viewed == 0 { 0 } else { (viewed - 1) as usize },
    }
}

/// The selection kept within a buffer of `len` lines after undoing.
pub open spec fn clamped(sel: (usize, usize), len: nat) -> (usize, usize) {
    if sel.1 > len && len != 0 {
        (if sel.0 > len { len as usize } else { sel.0 }, len as usize)
    } else {
        sel
    }
}

/// The outcome of `u`: no selection is taken; the history index given
/// (none: one step back) is viewed and a message on the move printed; the
/// selection is then kept within the buffer.
pub open spec fn undo_outcome(old: Ed, new: Ed, selection_given: bool, arguments: Seq<char>, r: EdResult<()>) -> bool {
    let len = old.history.states().len();
    let viewed = old.history.viewed();
    if selection_given {
        r == Err::<(), EdError>(EdError::SelectionForbidden) && new == old
    } else {
        match parse_history_index_spec(arguments) {
            Err(f) => r matches Err(e) && history_fault_is(e, f) && new == old,
            Ok(p) => {
                let rest = arguments.subrange(p.0, arguments.len() as int);
                let target = undo_target(p.1, viewed, len);
                if !flags_ok(rest, ""@) {
                    r matches Err(e) && flags_fault_is(e, rest, ""@) && new == old
                } else if target >= len {
                    r == Err::<(), EdError>(EdError::UndoIndexTooBig {
                        index: target,
                        history_len: len as usize,
                        relative_redo_limit: (len - viewed - 1) as usize,
                    }) && new == old
                } else if target == viewed {
                    r == Err::<(), EdError>(EdError::NoOp) && new == old
                } else {
                    &&& new.wf()
                    &&& new.history.states() == old.history.states()
                    &&& new.history.labels() == old.history.labels()
                    &&& new.history.viewed() == target
                    &&& new.history.saved_index() == old.history.saved_index()
                    &&& new.history.paused() == old.history.paused()
                    &&& new.clipboard == old.clipboard
                    &&& new.same_settings(old)
                    &&& ((r is Err && r->Err_0 is UI && new.selection == old.selection)
                        || (r is Ok && new.selection == clamped(old.selection, new.lines().len())))
                }
            },
        }
    }
}

/// `u`: views another snapshot of the history (by default the previous),
/// printing how far it moved.
pub fn undo<'a, U: UI>(state: &mut Ed, ui: &mut Scripted<U>, selection: Option<Sel<'a>>, arguments: &str) -> (r: EdResult<()>)
    requires
        old(state).wf(),
    ensures
        final(state).wf(),
        final(state).error == old(state).error,
        undo_outcome(*old(state), *final(state), selection is Some, arguments@, r),
        r is Ok ==> final(ui).shown() == old(ui).shown().push(undo_move_message(*old(state), final(state).history.viewed())),
{
    if selection.is_some() {
        return Err(EdError::SelectionForbidden);
    }
    let (i, ind) = match parse_history_index_chars(arguments) {
        Ok(x) => x,
        Err(e) => {
            return Err(e);
        },
    };
    let rest = arguments.substring_char(i, arguments.unicode_len());
    proof {
        reveal_strlit("");
    }
    if let Err(e) = parse_flags(rest, "") {
        return Err(e);
    }
    let viewed = state.history.viewed_i();
    proof {
        state.history.lemma_wf();
    }
    let target = match ind {
        Some(x) => match interpret_history_index(state, x, viewed) {
            Ok(t) => t,
            Err(e) => {
                assert(false);
                return Err(e);
            },
        },
        None => viewed.saturating_sub(1),
    };
    if target == viewed {
        return Err(EdError::NoOp);
    }
    let message = match state.history.set_viewed_i(target) {
        Ok(label) => {
            if target > viewed {
                undo_message_of(target - viewed, true, label)
            } else {
                undo_message_of(viewed - target, false, label)
            }
        },
        Err(e) => {
            return Err(e);
        },
    };
    if let Err(e) = ui.print_message(message.as_str()) {
        return Err(EdError::UI(e));
    }
    let len = state.buffer().len();
    if state.selection.1 > len && len != 0 {
        let start = if state.selection.0 > len { len } else { state.selection.0 };
        state.selection = (start, len);
    }
    Ok(())
}

/// The line of the history listing for snapshot `hi` labelled `label`:
/// marked `>` when viewed, and `(saved)` when saved.
pub open spec fn listing_line(label: Seq<char>, viewed: bool, saved: bool) -> Seq<char> {
    seq![if viewed { '>' } else { ' ' }, ' '] + label + (if saved { " (saved)"@ } else { ""@ }) + seq!['\n']
}

/// The lines of the listing for snapshots `a..b`.
pub open spec fn listing(labels: Seq<Seq<char>>, viewed: int, saved: Option<usize>, a: int, b: int) -> Seq<char>
    decreases b - a,
{
    if a >= b {
        Seq::empty()
    } else {
        listing(labels, viewed, saved, a, b - 1) + listing_line(labels[b - 1], b - 1 == viewed, saved == Some((b - 1) as usize))
    }
}

/// The snapshots `U` lists: ten around the viewed one `i` (the first or
/// last ten near either end).
pub open spec fn listing_range(i: int, len: int) -> (int, int) {
    if i < 10 {
        (0, if len < 10 { len } else { 10 })
    } else if (if len < 10 { 0 } else { len - 10 }) <= i {
        (if len < 10 { 0 } else { len - 10 }, len)
    } else {
        (i - 5, i + 4)
    }
}

/// The outcome of `U`: no selection or flags are taken, and the listing
/// of the snapshots around the viewed one is printed.
pub open spec fn manage_history_outcome(old: Ed, new: Ed, selection_given: bool, tail: Seq<char>, r: EdResult<()>) -> bool {
    &&& new == old
    &&& if selection_given {
        r == Err::<(), EdError>(EdError::SelectionForbidden)
    } else if !flags_ok(tail, ""@) {
        r matches Err(e) && flags_fault_is(e, tail, ""@)
    } else {
        r is Ok || (r is Err && r->Err_0 is UI)
    }
}

/// The listing `U` prints.
pub fn history_listing(state: &Ed) -> (r: String)
    requires
        state.wf(),
    ensures
        ({
            let range = listing_range(state.history.viewed(), state.history.states().len() as int);
            r@ == listing(state.history.labels(), state.history.viewed(), state.history.saved_index(), range.0, range.1)
        }),
{
    proof {
        state.history.lemma_wf();
    }
    let i = state.history.viewed_i();
    let view = state.history.snapshots();
    let len = view.len();
    let low = if len < 10 { 0 } else { len - 10 };
    let (a, b) = if i < 10 {
        (0, if len < 10 { len } else { 10 })
    } else if low <= i {
        (low, len)
    } else {
        (i - 5, i + 4)
    };
    let saved = state.history.saved_i();
    let mut m: Vec<char> = Vec::new();
    let mut hi = a;
    while hi < b
        invariant
            a <= hi <= b <= len,
            len == view@.len(),
            len == state.history.states().len(),
            i == state.history.viewed(),
            saved == state.history.saved_index(),
            forall|k: int| 0 <= k < view@.len() ==> (#[trigger] view@[k]).0@ == state.history.labels()[k],
            m@ == listing(state.history.labels(), i as int, saved, a as int, hi as int),
        decreases b - hi,
    {
        let ghost before = m@;
        m.push(if hi == i { '>' } else { ' ' });
        m.push(' ');
        push_str(&mut m, view[hi].0.as_str());
        if saved == Some(hi) {
            push_str(&mut m, " (saved)");
        } else {
            push_str(&mut m, "");
        }
        m.push('\n');
        proof {
            reveal_strlit("");
            assert(view@[hi as int].0@ == state.history.labels()[hi as int]);
            assert(m@ =~= before + listing_line(state.history.labels()[hi as int], hi == i, saved == Some(hi)));
        }
        hi = hi + 1;
    }
    string_from_chars(m.as_slice())
}

/// `U`: prints the snapshots around the viewed one, with their labels.
pub fn manage_history<'a, U: UI>(state: &mut Ed, ui: &mut Scripted<U>, selection: Option<Sel<'a>>, tail: &str) -> (r: EdResult<()>)
    requires
        old(state).wf(),
    ensures
        final(state).wf(),
        final(state).error == old(state).error,
        manage_history_outcome(*old(state), *final(state), selection is Some, tail@, r),
        r is Ok ==> ({
            let range = listing_range(old(state).history.viewed(), old(state).history.states().len() as int);
            final(ui).shown() == old(ui).shown().push(
                listing(old(state).history.labels(), old(state).history.viewed(), old(state).history.saved_index(), range.0, range.1),
            )
        }),
{
    if selection.is_some() {
        return Err(EdError::SelectionForbidden);
    }
    proof {
        reveal_strlit("");
    }
    if let Err(e) = parse_flags(tail, "") {
        return Err(e);
    }
    let listing = history_listing(state);
    match ui.print_message(listing.as_str()) {
        Ok(()) => Ok(()),
        Err(e) => Err(EdError::UI(e)),
    }
}

/// The message of the status command: the selection, when asked for by
/// `s` or `a` or by giving no flags.
pub open spec fn status_message(sel: (usize, usize), flags: Seq<char>) -> Seq<char> {
    if flags.contains('s') || flags.contains('a') || flags.len() == 0 {
        seq!['('] + decimal_chars(sel.0 as nat) + seq![','] + decimal_chars(sel.1 as nat) + seq![')']
    } else {
        Seq::empty()
    }
}

/// Builds the status message.
pub fn status_message_of(sel: (usize, usize), flags: &str, any: bool) -> (r: String)
    requires
        any == (flags@.contains('s') || flags@.contains('a') || flags@.len() == 0),
    ensures
        r@ == status_message(sel, flags@),
{
    let mut m: Vec<char> = Vec::new();
    if any {
        m.push('(');
        let a = decimal_of(sel.0);
        push_chars(&mut m, &a);
        m.push(',');
        let b = decimal_of(sel.1);
        push_chars(&mut m, &b);
        m.push(')');
        assert(m@ =~= seq!['('] + decimal_chars(sel.0 as nat) + seq![','] + decimal_chars(sel.1 as nat) + seq![')']);
    }
    string_from_chars(m.as_slice())
}

/// The outcome of the status command: no selection is taken and the flags
/// must be among `as`; the status message is printed.
pub open spec fn status_outcome(old: Ed, new: Ed, selection_given: bool, flags: Seq<char>, r: EdResult<()>) -> bool {
    &&& new == old
    &&& if selection_given {
        r == Err::<(), EdError>(EdError::SelectionForbidden)
    } else if !flags_ok(flags, "as"@) {
        r matches Err(e) && flags_fault_is(e, flags, "as"@)
    } else {
        r is Ok || (r is Err && r->Err_0 is UI)
    }
}

/// The status command: prints the selection.
pub fn status<'a, U: UI>(state: &mut Ed, ui: &mut Scripted<U>, selection: Option<Sel<'a>>, clean: &str) -> (r: EdResult<()>)
    requires
        old(state).wf(),
    ensures
        final(state).wf(),
        status_outcome(*old(state), *final(state), selection is Some, clean@, r),
        r is Ok ==> final(ui).shown() == old(ui).shown().push(status_message(old(state).selection, clean@)),
{
    if selection.is_some() {
        return Err(EdError::SelectionForbidden);
    }
    let allowed = "as";
    proof {
        reveal_strlit("as");
        assert(!allowed@.contains('\n')) by {
            if allowed@.contains('\n') {
                let k = choose|k: int| 0 <= k < allowed@.len() && #[trigger] allowed@[k] == '\n';
                assert(allowed@[k] == '\n');
            }
        }
    }
    let flags = match parse_flags(clean, allowed) {
        Ok(f) => f,
        Err(e) => {
            return Err(e);
        },
    };
    assert(allowed@[0] == 'a' && allowed@[1] == 's');
    let message = status_message_of(state.selection, clean, flags[1] || flags[0] || clean.unicode_len() == 0);
    match ui.print_message(message.as_str()) {
        Ok(()) => Ok(()),
        Err(e) => Err(EdError::UI(e)),
    }
}

} // verus!
