//! Running a command: parsing its selection and command character and
//! handing it to the command it names.
use vstd::prelude::*;
use crate::cmd::commands::{
    PrintingFlags, cut, copy, paste, join, tag, transfer, scroll, pnl_flags, checked, cut_outcome, copy_outcome,
    paste_outcome, join_outcome, tag_outcome, transfer_outcome,
};
use crate::cmd::substitution::substitute_outcome;
use crate::cmd::commands::{scroll_outcome, checked_selection, prints, selection_fault_is, flags_fault_is};
use crate::cmd::input::{input_outcome, change_outcome, input_done, change_done, input_target};
use crate::cmd::commands::print_flags;
use crate::cmd::flags::flags_ok;
use crate::cmd::history_cmds::{undo_outcome, manage_history_outcome};
use crate::cmd::io_cmds::{filename_outcome, read_outcome, write_outcome, shell_outcome};
use crate::cmd::flags::parse_flags;
use crate::cmd::history_cmds::{undo, manage_history, status};
use crate::cmd::input::{input, change};
use crate::cmd::io_cmds::{filename, read_from_file, write_to_file, run_command};
use crate::io::{IO, Logged};
use crate::cmd::path::{is_whitespace, char_is_whitespace};
use crate::buffer::line::LineView;
use crate::cmd::selection::{Sel, parse_selection_chars, parse_selection_spec, char_at, trim_newlines};
use crate::cmd::substitution::substitute;
use crate::cmd::global::{Scripted, mark_matching, get_marked, script_input};
use crate::cmd::macros::{run_macro, macro_outcome, macro_prepared, history_kept, ModificationMode};
use crate::buffer::finding::{mark_hit, is_marked, unmarked, unmarked_upto, marked, marks_after};
use crate::buffer::buffer::{selection_valid, selection_error};
use crate::text::regex_valid;
use crate::cmd::expressions::{parse_expressions, parse_expressions_spec};
use crate::cmd::selection::{interpret_selection, interpret_selection_spec, opt_sel_view, lookup_is, SelV};
use crate::buffer::editing::strings_view;
use crate::ed::{Ed, untouched};
use crate::error::{EdError, EdResult};
use crate::error_consts::{HELP_TEXT, NO_ERROR};
use crate::text::{chars_of, decimal_of, push_chars, string_from_chars};
use crate::ui::UI;

verus! {

/// Whether `new` is `mid` with the snapshot a command that ran others took
/// settled: snapshots are paused again as before (`paused`), and unless they
/// were, the snapshot is dropped when it holds no change.
pub open spec fn global_settled(mid: Ed, new: Ed, paused: bool) -> bool {
    &&& new.clipboard == mid.clipboard
    &&& new.same_settings(mid)
    &&& new.selection == mid.selection
    &&& new.history.paused() == paused
    &&& if paused {
        history_kept(mid.history, new.history)
    } else {
        mid.history.present_deduped(new.history)
    }
}

/// Whether the command `c` among `g`, `v`, `G` and `V` asks for the
/// commands interactively.
pub open spec fn global_interactive_of(c: char) -> bool {
    c == 'G' || c == 'V'
}

/// Whether the command `c` among `g`, `v`, `G` and `V` runs on the lines
/// that don't match.
pub open spec fn global_inverse_of(c: char) -> bool {
    c == 'v' || c == 'V'
}

/// What `g`, `v`, `G` or `V` did when run by `command` at recursion depth
/// `depth`: a snapshot labelled with the command is taken and snapshots
/// paused (as for a macro in the default mode), the command runs as
/// [`global_outcome`] states, and the snapshot is settled
/// ([`global_settled`]).
pub open spec fn global_ran(old: Ed, new: Ed, command: Seq<char>, depth: usize, r: EdResult<bool>) -> bool {
    let c = command_of(command)->Some_0;
    exists|pre: Ed, mid: Ed, rc: EdResult<()>|
        #![trigger global_outcome(pre, mid, selection_of(command), trim_newlines(tail_of(command)), global_interactive_of(c), global_inverse_of(c), depth, rc)]
        {
            &&& macro_prepared(old, pre, ModificationMode::Default, trim_newlines(command), None)
            &&& global_outcome(pre, mid, selection_of(command), trim_newlines(tail_of(command)), global_interactive_of(c), global_inverse_of(c), depth, rc)
            &&& global_settled(mid, new, old.history.paused())
            &&& finished(rc, no_flags(), new, r)
        }
}

/// `ed` with the selection `sel`.
pub open spec fn with_selection(ed: Ed, sel: (usize, usize)) -> Ed {
    Ed { selection: sel, ..ed }
}

/// What an input command (`a`, `i`, `A`, `I`, `c`) did while a script
/// with the remaining lines `script` runs: the input is the script's lines
/// up to the first that is `.` alone, put in place as the command's own
/// contract states, and the selection printed as its flags ask.
pub open spec fn scripted_input_ran(old: Ed, new: Ed, command: Seq<char>, script: Seq<Seq<char>>, r: EdResult<bool>) -> bool {
    let cmd = trim_newlines(command);
    let sel = selection_of(command);
    let arg = trim_newlines(tail_of(command));
    let texts = script_input(script, '.');
    let f = print_flags(arg);
    match command_of(command) {
        Some(c) => if (c == 'a' || c == 'i' || c == 'A' || c == 'I') && flags_ok(arg, "pnl"@) {
            match input_target(old.lines(), sel, old.selection, c) {
                Ok(index) => exists|rc: EdResult<()>| #[trigger] input_done(old, new, cmd, index, c, texts, rc) && finished(rc, f, new, r),
                Err(_) => true,
            }
        } else if c == 'c' && flags_ok(arg, "pnl"@) {
            match checked_selection(old.lines(), sel, old.selection) {
                Ok(s) => if texts.len() == 0 && s.0 == 1 && s.1 == old.lines().len() && prints(f) {
                    r == Err::<bool, EdError>(EdError::PrintAfterWipe) && new == old
                } else {
                    exists|rc: EdResult<()>| #[trigger] change_done(old, new, cmd, s, texts, rc) && finished(rc, f, new, r)
                },
                Err(_) => true,
            }
        } else {
            true
        },
        None => true,
    }
}

/// The command character of `command`, whose selection ends at `offset`:
/// the next character, unless only whitespace follows.
pub open spec fn command_char(command: Seq<char>, offset: int) -> Option<char> {
    let rest = command.subrange(offset, command.len() as int);
    if exists|i: int| 0 <= i < rest.len() && !is_whitespace(#[trigger] rest[i]) {
        Some(rest[0])
    } else {
        None
    }
}

/// The command character of `command`, if it parses.
pub open spec fn command_of(command: Seq<char>) -> Option<char> {
    match parse_selection_spec(command) {
        Ok(p) => command_char(command, p.0),
        Err(_) => None,
    }
}

/// Whether `command` is given with a selection.
pub open spec fn has_selection(command: Seq<char>) -> bool {
    match parse_selection_spec(command) {
        Ok(p) => p.1 is Some,
        Err(_) => false,
    }
}

/// The selection written at the start of `command`, parsed.
pub open spec fn selection_of(command: Seq<char>) -> Option<SelV> {
    match parse_selection_spec(command) {
        Ok(p) => p.1,
        Err(_) => None,
    }
}

/// What follows the command character of `command`.
pub open spec fn tail_of(command: Seq<char>) -> Seq<char> {
    match parse_selection_spec(command) {
        Ok(p) => command.subrange(p.0 + 1, command.len() as int),
        Err(_) => Seq::empty(),
    }
}

/// The printing flags before a command runs: none.
pub open spec fn no_flags() -> PrintingFlags {
    PrintingFlags { p: false, n: false, l: false }
}

/// Whether `c` names a command.
pub open spec fn known_command(c: char) -> bool {
    ||| c == 'q' || c == 'Q' || c == 'h' || c == 'H' || c == '=' || c == '#' || c == 'P'
    ||| c == 'f' || c == 'e' || c == 'E' || c == 'r' || c == 'w' || c == 'W' || c == '!' || c == '|'
    ||| c == 'p' || c == 'n' || c == 'l' || c == 'z' || c == 'Z'
    ||| c == 'a' || c == 'i' || c == 'A' || c == 'I' || c == 'c' || c == 'C'
    ||| c == 'd' || c == 'y' || c == 'x' || c == 'X' || c == 'U' || c == 'u'
    ||| c == 'k' || c == 'K' || c == 'm' || c == 't' || c == 'j' || c == 's'
    ||| c == 'g' || c == 'v' || c == 'G' || c == 'V' || c == ':'
}

/// Whether `r` is what [`run`] ends with after a command ended with `rc`
/// and settled on printing flags `f`, leaving the state `new`: a failure
/// is handed on; after a success the selection is printed if `f` asks for
/// it, which fails if the selection isn't valid or the user interface
/// fails.
pub open spec fn finished(rc: EdResult<()>, f: PrintingFlags, new: Ed, r: EdResult<bool>) -> bool {
    match rc {
        Err(e) => r == Err::<bool, EdError>(e),
        Ok(()) => if prints(f) {
            if selection_valid(new.lines().len(), new.selection) {
                r == Ok::<bool, EdError>(false) || (r is Err && r->Err_0 is UI)
            } else {
                r == Err::<bool, EdError>(selection_error(new.lines().len() as usize, new.selection))
            }
        } else {
            r == Ok::<bool, EdError>(false)
        },
    }
}

/// What running `command` did when it succeeded, for the commands that act
/// by themselves (not `g`, `v`, `G`, `V`, which run others): what the
/// command's own outcome states of its success, for the printing flags it
/// settled on.
pub open spec fn command_ran(old: Ed, new: Ed, command: Seq<char>, r: EdResult<bool>) -> bool {
    let cmd = trim_newlines(command);
    let sel = selection_of(command);
    let tail = tail_of(command);
    let arg = trim_newlines(tail);
    match command_of(command) {
        Some(c) => if c == 'd' {
            exists|f: PrintingFlags, rc: EdResult<()>| #[trigger] cut_outcome(old, new, no_flags(), f, cmd, sel, arg, rc) && finished(rc, f, new, r)
        } else if c == 'y' {
            exists|f: PrintingFlags, rc: EdResult<()>| #[trigger] copy_outcome(old, new, no_flags(), f, sel, arg, rc) && finished(rc, f, new, r)
        } else if c == 'x' {
            exists|f: PrintingFlags, rc: EdResult<()>| #[trigger] paste_outcome(old, new, no_flags(), f, cmd, sel, false, arg, rc) && finished(rc, f, new, r)
        } else if c == 'X' {
            exists|f: PrintingFlags, rc: EdResult<()>| #[trigger] paste_outcome(old, new, no_flags(), f, cmd, sel, true, arg, rc) && finished(rc, f, new, r)
        } else if c == 'j' {
            exists|f: PrintingFlags, rc: EdResult<()>| #[trigger] join_outcome(old, new, no_flags(), f, cmd, sel, arg, rc) && finished(rc, f, new, r)
        } else if c == 'k' {
            exists|rc: EdResult<()>| #[trigger] tag_outcome(old, new, sel, true, arg, rc) && finished(rc, no_flags(), new, r)
        } else if c == 'K' {
            exists|rc: EdResult<()>| #[trigger] tag_outcome(old, new, sel, false, arg, rc) && finished(rc, no_flags(), new, r)
        } else if c == 'm' || c == 't' {
            exists|f: PrintingFlags, rc: EdResult<()>| #[trigger] transfer_outcome(old, new, no_flags(), f, cmd, sel, c, arg, rc) && finished(rc, f, new, r)
        } else if c == 's' {
            exists|f: PrintingFlags, rc: EdResult<()>| #[trigger] substitute_outcome(old, new, no_flags(), f, cmd, sel, tail, rc) && finished(rc, f, new, r)
        } else if c == 'a' || c == 'i' || c == 'A' || c == 'I' {
            exists|f: PrintingFlags, rc: EdResult<()>| #[trigger] input_outcome(old, new, no_flags(), f, cmd, sel, c, arg, rc) && finished(rc, f, new, r)
        } else if c == 'c' || c == 'C' {
            exists|f: PrintingFlags, rc: EdResult<()>| #[trigger] change_outcome(old, new, no_flags(), f, cmd, sel, c, arg, rc) && finished(rc, f, new, r)
        } else if c == 'z' {
            exists|f: PrintingFlags, rc: EdResult<()>| #[trigger] scroll_outcome(old, new, no_flags(), f, sel, true, arg, 3, rc) && finished(rc, f, new, r)
        } else if c == 'Z' {
            exists|f: PrintingFlags, rc: EdResult<()>| #[trigger] scroll_outcome(old, new, no_flags(), f, sel, false, arg, 3, rc) && finished(rc, f, new, r)
        } else if c == 'u' {
            exists|rc: EdResult<()>| #[trigger] undo_outcome(old, new, sel is Some, arg, rc) && finished(rc, no_flags(), new, r)
        } else if c == 'U' {
            exists|rc: EdResult<()>| #[trigger] manage_history_outcome(old, new, sel is Some, arg, rc) && finished(rc, no_flags(), new, r)
        } else if c == 'f' {
            if sel is Some {
                r == Err::<bool, EdError>(EdError::SelectionForbidden) && new == old
            } else {
                exists|rc: EdResult<()>| #[trigger] filename_outcome(old, new, arg, rc) && finished(rc, no_flags(), new, r)
            }
        } else if c == 'e' || c == 'E' || c == 'r' {
            exists|rc: EdResult<()>| #[trigger] read_outcome(old, new, cmd, sel, c, arg, rc) && finished(rc, no_flags(), new, r)
        } else if c == 'w' || c == 'W' {
            exists|rc: EdResult<bool>| #[trigger] write_outcome(old, new, sel, c, arg, rc) && r == rc
        } else if c == '!' || c == '|' {
            exists|rc: EdResult<()>| #[trigger] shell_outcome(old, new, cmd, sel, c, arg, rc) && finished(rc, no_flags(), new, r)
        } else if c == 'p' || c == 'n' || c == 'l' {
            let flags = seq![c] + tail;
            match checked_selection(old.lines(), sel, old.selection) {
                Err(f) => r matches Err(e) && selection_fault_is(e, f, old.lines().len() as usize) && new == old,
                Ok(x) => if !flags_ok(flags, "pnl"@) {
                    r matches Err(e) && flags_fault_is(e, flags, "pnl"@) && new == old
                } else {
                    new == with_selection(old, x) && finished(Ok(()), print_flags(flags), new, r)
                },
            }
        } else if c == '=' || c == '#' {
            match checked_selection(old.lines(), sel, old.selection) {
                Err(f) => r matches Err(e) && selection_fault_is(e, f, old.lines().len() as usize) && new == old,
                Ok(x) => if c == '=' && !flags_ok(arg, ""@) {
                    r matches Err(e) && flags_fault_is(e, arg, ""@) && new == old
                } else {
                    new == with_selection(old, x) && (r == Ok::<bool, EdError>(false) || (c == '=' && r is Err && r->Err_0 is UI))
                },
            }
        } else if c == 'h' || c == 'H' || c == 'P' {
            let allowed = if c == 'P' { "nl"@ } else { ""@ };
            if sel is Some {
                r == Err::<bool, EdError>(EdError::SelectionForbidden) && new == old
            } else if c == 'h' && arg == seq!['e', 'l', 'p'] {
                new == old && (r == Ok::<bool, EdError>(false) || (r is Err && r->Err_0 is UI))
            } else if !flags_ok(arg, allowed) {
                r matches Err(e) && flags_fault_is(e, arg, allowed) && new == old
            } else if c == 'h' {
                new == old && (r == Ok::<bool, EdError>(false) || (r is Err && r->Err_0 is UI))
            } else if c == 'H' {
                new == Ed { print_errors: !old.print_errors, ..old } && r == Ok::<bool, EdError>(false)
            } else {
                &&& new == Ed {
                    n: if arg.contains('n') { !old.n } else { old.n },
                    l: if arg.contains('l') { !old.l } else { old.l },
                    ..old
                }
                &&& r == Ok::<bool, EdError>(false)
            }
        } else {
            true
        },
        None => true,
    }
}

/// The command character after position `offset`, if any.
fn find_command_char(chars: &Vec<char>, offset: usize) -> (r: Option<char>)
    requires
        offset <= chars@.len(),
    ensures
        r == command_char(chars@, offset as int),
{
    let ghost rest = chars@.subrange(offset as int, chars@.len() as int);
    let mut i = offset;
    while i < chars.len()
        invariant
            offset <= i <= chars@.len(),
            rest == chars@.subrange(offset as int, chars@.len() as int),
            forall|j: int| 0 <= j < i - offset ==> is_whitespace(#[trigger] rest[j]),
        decreases chars@.len() - i,
    {
        if !char_is_whitespace(char_at(chars, i)) {
            assert(!is_whitespace(rest[i - offset]));
            return Some(char_at(chars, offset));
        }
        i = i + 1;
    }
    None
}

/// Whether `s` is exactly `elp` (making the command `help`).
fn is_elp(s: &str) -> (r: bool)
    ensures
        r == (s@ == seq!['e', 'l', 'p']),
{
    if s.unicode_len() != 3 {
        return false;
    }
    let r = s.get_char(0) == 'e' && s.get_char(1) == 'l' && s.get_char(2) == 'p';
    proof {
        if r {
            assert(s@ =~= seq!['e', 'l', 'p']);
        }
    }
    r
}

/// `s` without its trailing newlines.
fn trimmed(s: &str) -> (r: &str)
    ensures
        r@ == trim_newlines(s@),
{
    let chars = chars_of(s);
    let mut n = chars.len();
    assert(chars@.take(n as int) =~= chars@);
    while n > 0 && char_at(&chars, n - 1) == '\n'
        invariant
            n <= chars@.len(),
            chars@ == s@,
            trim_newlines(s@) == trim_newlines(chars@.take(n as int)),
        decreases n,
    {
        assert(chars@.take(n as int).drop_last() =~= chars@.take(n - 1));
        n = n - 1;
    }
    assert(trim_newlines(chars@.take(n as int)) == chars@.take(n as int));
    s.substring_char(0, n)
}

/// The `=` command's message: the selection as `(a,b)`.
fn selection_message(sel: (usize, usize)) -> (r: String)
    ensures
        r@ == seq!['('] + crate::text::decimal_chars(sel.0 as nat) + seq![','] + crate::text::decimal_chars(sel.1 as nat) + seq![')'],
{
    let mut m: Vec<char> = Vec::new();
    m.push('(');
    let a = decimal_of(sel.0);
    push_chars(&mut m, &a);
    m.push(',');
    let b = decimal_of(sel.1);
    push_chars(&mut m, &b);
    m.push(')');
    assert(m@ =~= seq!['('] + crate::text::decimal_chars(sel.0 as nat) + seq![','] + crate::text::decimal_chars(sel.1 as nat) + seq![')']);
    string_from_chars(m.as_slice())
}

/// Whether `command` is the quit command `c` alone: no selection, no
/// arguments.
pub open spec fn bare_quit(command: Seq<char>, c: char) -> bool {
    &&& command_of(command) == Some(c)
    &&& !has_selection(command)
    &&& trim_newlines(tail_of(command)).len() == 0
}

/// Runs one command: parses its selection and command character, hands it
/// to the command it names, and prints the selection afterwards if the
/// command's flags asked for it. Returns whether the editor should quit.
///
/// `recursion_depth` counts how deeply commands run commands (`g`, `v`,
/// `G`, `V`); beyond the state's recursion limit nothing is run.
#[verifier::rlimit(100)]
#[verifier::spinoff_prover]
pub fn run<U: UI, I: IO>(state: &mut Ed, ui: &mut Scripted<U>, io: &mut Logged<I>, command: &str, recursion_depth: usize) -> (r: EdResult<bool>)
    requires
        old(state).wf(),
    ensures
        final(state).wf(),
        final(state).recursion_limit == old(state).recursion_limit,
        final(state).error == old(state).error,
        recursion_depth > old(state).recursion_limit ==> r == Err::<bool, EdError>(EdError::InfiniteRecursion)
            && *final(state) == *old(state) && untouched(*old(ui), *final(ui), *old(io), *final(io)),
        r == Ok::<bool, EdError>(true) ==> command_of(command@) == Some('w') || command_of(command@)
            == Some('W') || ((command_of(command@) == Some('Q') || (command_of(command@) == Some('q')
            && old(state).history.saved_index() == Some(old(state).history.viewed() as usize)))
            && !has_selection(command@) && *final(state) == *old(state)),
        recursion_depth <= old(state).recursion_limit && parse_selection_spec(command@) is Err ==> r is Err
            && *final(state) == *old(state) && untouched(*old(ui), *final(ui), *old(io), *final(io)),
        recursion_depth <= old(state).recursion_limit ==> match command_of(command@) {
            Some(c) => !known_command(c) ==> r == Err::<bool, EdError>(EdError::CommandUndefined(c))
                && *final(state) == *old(state) && untouched(*old(ui), *final(ui), *old(io), *final(io)),
            None => true,
        },
        recursion_depth <= old(state).recursion_limit ==> command_ran(*old(state), *final(state), command@, r),
        recursion_depth <= old(state).recursion_limit && old(ui).scripts().len() > 0 ==> scripted_input_ran(*old(state), *final(state), command@, old(ui).scripts().last(), r),
        recursion_depth <= old(state).recursion_limit && (command_of(command@) == Some('g') || command_of(command@) == Some('v')
            || command_of(command@) == Some('G') || command_of(command@) == Some('V')) ==> global_ran(*old(state), *final(state), command@, recursion_depth, r),
        recursion_depth <= old(state).recursion_limit && command_of(command@) == Some(':') ==> exists|rc: EdResult<()>|
            #[trigger] macro_outcome(*old(state), *final(state), selection_of(command@), trim_newlines(command@), trim_newlines(tail_of(command@)), recursion_depth, rc)
            && finished(rc, no_flags(), *final(state), r),
        recursion_depth <= old(state).recursion_limit && bare_quit(command@, 'Q') ==> r == Ok::<bool, EdError>(true)
            && *final(state) == *old(state) && untouched(*old(ui), *final(ui), *old(io), *final(io)),
        recursion_depth <= old(state).recursion_limit && bare_quit(command@, 'q') ==> if old(state).history.saved_index()
            == Some(old(state).history.viewed() as usize) {
            r == Ok::<bool, EdError>(true) && *final(state) == *old(state) && untouched(*old(ui), *final(ui), *old(io), *final(io))
        } else {
            r == Err::<bool, EdError>(EdError::UnsavedChanges) && *final(state) == *old(state) && untouched(
                *old(ui),
                *final(ui),
                *old(io),
                *final(io),
            )
        },
    decreases old(state).recursion_limit + 1 - recursion_depth, 1int,
{
    if recursion_depth > state.recursion_limit {
        return Err(EdError::InfiniteRecursion);
    }
    let mut pflags = PrintingFlags { p: false, n: false, l: false };
    let (cmd_i, selection) = match parse_selection_chars(command) {
        Ok(x) => x,
        Err(e) => {
            return Err(e);
        },
    };
    let chars = chars_of(command);
    let len = chars.len();
    let ch = find_command_char(&chars, cmd_i);
    assert(command_of(command@) == ch);
    let ghost before = *state;
    let ghost mut rc: EdResult<()> = Ok(());
    let ret: EdResult<bool> = match ch {
        None => {
            if selection.is_some() {
                let sel = match checked(state, selection) {
                    Ok(s) => s,
                    Err(e) => {
                        return Err(e);
                    },
                };
                state.selection = sel;
                pflags.p = true;
            } else {
                if let Err(e) = state.buffer().verify_selection(state.selection) {
                    return Err(e);
                }
                let lines = state.selection.1 - state.selection.0 + 1;
                if let Err(e) = scroll(state, &mut pflags, None, 'z', "", lines) {
                    return Err(e);
                }
            }
            Ok(false)
        },
        Some(c) => {
            let tail = command.substring_char(cmd_i + 1, len);
            let clean = trimmed(tail);
            let clean_command = trimmed(command);
            proof {
                assert(tail@ == tail_of(command@));
                assert(opt_sel_view(selection) == selection_of(command@));
                assert(command_of(command@) == Some(c));
            }
            match c {
                'q' | 'Q' => {
                    if selection.is_some() {
                        return Err(EdError::SelectionForbidden);
                    }
                    proof {
                        reveal_strlit("");
                    }
                    if let Err(e) = parse_flags(clean, "") {
                        return Err(e);
                    }
                    if state.history.saved() || c == 'Q' {
                        Ok(true)
                    } else {
                        Err(EdError::UnsavedChanges)
                    }
                },
                'h' => {
                    if selection.is_some() {
                        return Err(EdError::SelectionForbidden);
                    }
                    if is_elp(clean) {
                        if let Err(e) = ui.print_message(HELP_TEXT) {
                            return Err(EdError::UI(e));
                        }
                    } else {
                        proof {
                            reveal_strlit("");
                        }
                        if let Err(e) = parse_flags(clean, "") {
                            return Err(e);
                        }
                        let printed = match &state.error {
                            Some(e) => {
                                let msg = e.message();
                                ui.print_message(msg.as_str())
                            },
                            None => ui.print_message(NO_ERROR),
                        };
                        if let Err(e) = printed {
                            return Err(EdError::UI(e));
                        }
                    }
                    Ok(false)
                },
                'H' => {
                    if selection.is_some() {
                        return Err(EdError::SelectionForbidden);
                    }
                    proof {
                        reveal_strlit("");
                    }
                    if let Err(e) = parse_flags(clean, "") {
                        return Err(e);
                    }
                    state.print_errors = !state.print_errors;
                    Ok(false)
                },
                '=' | '#' => {
                    let sel = match checked(state, selection) {
                        Ok(s) => s,
                        Err(e) => {
                            return Err(e);
                        },
                    };
                    if c == '=' {
                        proof {
                            reveal_strlit("");
                        }
                        if let Err(e) = parse_flags(clean, "") {
                            return Err(e);
                        }
                    }
                    state.selection = sel;
                    if c == '=' {
                        let msg = selection_message(sel);
                        if let Err(e) = ui.print_message(msg.as_str()) {
                            return Err(EdError::UI(e));
                        }
                    }
                    Ok(false)
                },
                'P' => {
                    if selection.is_some() {
                        return Err(EdError::SelectionForbidden);
                    }
                    let allowed = "nl";
                    proof {
                        reveal_strlit("nl");
                        assert(!allowed@.contains('\n')) by {
                            if allowed@.contains('\n') {
                                let k = choose|k: int| 0 <= k < allowed@.len() && #[trigger] allowed@[k] == '\n';
                                assert(allowed@[k] == '\n');
                            }
                        }
                    }
                    let flags = match parse_flags(clean, allowed) {
                        Ok(f) => f,
                        Err(e) => {
                            return Err(e);
                        },
                    };
                    assert(flags@.len() == 2);
                    assert(flags@[0] == clean@.contains(allowed@[0]));
                    assert(flags@[1] == clean@.contains(allowed@[1]));
                    if flags[1] {
                        state.l = !state.l;
                    }
                    if flags[0] {
                        state.n = !state.n;
                    }
                    Ok(false)
                },                ':' => {
                    let res = run_macro(state, ui, io, recursion_depth, selection, clean_command, clean);
                    assert(macro_outcome(*old(state), *state, opt_sel_view(selection), clean_command@, clean@, recursion_depth, res));
                    match res {
                        Ok(()) => Ok(false),
                        Err(e) => {
                            assert(command_ran(*old(state), *state, command@, Err::<bool, EdError>(e)));
                            return Err(e);
                        },
                    }
                },
                'g' | 'v' | 'G' | 'V' => {
                    proof {
                        state.history.lemma_wf();
                    }
                    let ghost start = *state;
                    state.history.snapshot(clean_command.to_owned());
                    let orig_dont_snapshot = state.history.snapshots_paused();
                    state.history.set_dont_snapshot(true);
                    let ghost pre = *state;
                    assert(macro_prepared(start, pre, ModificationMode::Default, clean_command@, None));
                    let res = if c == 'g' || c == 'v' {
                        global(state, ui, io, selection, c, clean, recursion_depth)
                    } else {
                        global_interactive(state, ui, io, selection, c, clean, recursion_depth)
                    };
                    let ghost mid = *state;
                    assert(global_outcome(pre, mid, opt_sel_view(selection), clean@, global_interactive_of(c), global_inverse_of(c), recursion_depth, res));
                    state.history.set_dont_snapshot(orig_dont_snapshot);
                    if !orig_dont_snapshot {
                        state.history.dedup_present();
                    }
                    proof {
                        rc = res;
                    }
                    assert(global_settled(mid, *state, start.history.paused()));
                    match res {
                        Ok(()) => Ok(false),
                        Err(e) => {
                            assert(command_ran(*old(state), *state, command@, Err::<bool, EdError>(e)));
                            return Err(e);
                        },
                    }
                },
                'f' => {
                    if selection.is_some() {
                        return Err(EdError::SelectionForbidden);
                    }
                    let res = filename(state, ui, clean);
                    proof {
                        rc = res;
                    }
                    assert(filename_outcome(*old(state), *state, clean@, res));
                    match res {
                        Ok(()) => Ok(false),
                        Err(e) => {
                            assert(command_ran(*old(state), *state, command@, Err::<bool, EdError>(e)));
                            return Err(e);
                        },
                    }
                },
                '!' | '|' => {
                    let res = run_command(state, ui, io, clean_command, selection, c, clean);
                    proof {
                        rc = res;
                    }
                    assert(shell_outcome(*old(state), *state, clean_command@, opt_sel_view(selection), c, clean@, res));
                    match res {
                        Ok(()) => Ok(false),
                        Err(e) => {
                            assert(command_ran(*old(state), *state, command@, Err::<bool, EdError>(e)));
                            return Err(e);
                        },
                    }
                },
                'e' | 'E' | 'r' => {
                    let res = read_from_file(state, ui, io, clean_command, selection, c, clean);
                    proof {
                        rc = res;
                    }
                    assert(read_outcome(*old(state), *state, clean_command@, opt_sel_view(selection), c, clean@, res));
                    match res {
                        Ok(()) => Ok(false),
                        Err(e) => {
                            assert(command_ran(*old(state), *state, command@, Err::<bool, EdError>(e)));
                            return Err(e);
                        },
                    }
                },
                'w' | 'W' => {
                    let res = write_to_file(state, ui, io, selection, c, clean);
                    assert(write_outcome(*old(state), *state, opt_sel_view(selection), c, clean@, res));
                    match res {
                        Ok(q) => {
                            assert(command_of(command@) == Some(c));
                            Ok(q)
                        },
                        Err(e) => {
                            assert(command_ran(*old(state), *state, command@, Err::<bool, EdError>(e)));
                            return Err(e);
                        },
                    }
                },
                'p' | 'n' | 'l' => {
                    let sel = match checked(state, selection) {
                        Ok(s) => s,
                        Err(e) => {
                            return Err(e);
                        },
                    };
                    proof {
                        assert(chars@[cmd_i as int] == c);
                        assert(command@.subrange(cmd_i as int, len as int) =~= seq![c] + tail@);
                    }
                    let flags = match pnl_flags(command.substring_char(cmd_i, len)) {
                        Ok(f) => f,
                        Err(e) => {
                            return Err(e);
                        },
                    };
                    pflags = flags;
                    state.selection = sel;
                    Ok(false)
                },
                'z' | 'Z' => {
                    let res = scroll(state, &mut pflags, selection, c, clean, 3);
                    proof {
                        rc = res;
                    }
                    assert(scroll_outcome(*old(state), *state, no_flags(), pflags, opt_sel_view(selection), c == 'z', clean@, 3, res));
                    match res {
                        Ok(()) => Ok(false),
                        Err(e) => {
                            assert(command_ran(*old(state), *state, command@, Err::<bool, EdError>(e)));
                            return Err(e);
                        },
                    }
                },
                'a' | 'i' | 'A' | 'I' => {
                    let res = input(state, ui, &mut pflags, clean_command, selection, c, clean);
                    proof {
                        rc = res;
                    }
                    assert(input_outcome(*old(state), *state, no_flags(), pflags, clean_command@, opt_sel_view(selection), c, clean@, res));
                    match res {
                        Ok(()) => Ok(false),
                        Err(e) => {
                            assert(command_ran(*old(state), *state, command@, Err::<bool, EdError>(e)));
                            return Err(e);
                        },
                    }
                },
                'c' | 'C' => {
                    let res = change(state, ui, &mut pflags, clean_command, selection, c, clean);
                    proof {
                        rc = res;
                    }
                    assert(change_outcome(*old(state), *state, no_flags(), pflags, clean_command@, opt_sel_view(selection), c, clean@, res));
                    match res {
                        Ok(()) => Ok(false),
                        Err(e) => {
                            assert(command_ran(*old(state), *state, command@, Err::<bool, EdError>(e)));
                            return Err(e);
                        },
                    }
                },
                'd' => {
                    let res = cut(state, &mut pflags, clean_command, selection, clean);
                    proof {
                        rc = res;
                    }
                    assert(cut_outcome(*old(state), *state, no_flags(), pflags, clean_command@, opt_sel_view(selection), clean@, res));
                    match res {
                        Ok(()) => Ok(false),
                        Err(e) => {
                            assert(command_ran(*old(state), *state, command@, Err::<bool, EdError>(e)));
                            return Err(e);
                        },
                    }
                },
                'y' => {
                    let res = copy(state, &mut pflags, selection, clean);
                    proof {
                        rc = res;
                    }
                    assert(copy_outcome(*old(state), *state, no_flags(), pflags, opt_sel_view(selection), clean@, res));
                    match res {
                        Ok(()) => Ok(false),
                        Err(e) => {
                            assert(command_ran(*old(state), *state, command@, Err::<bool, EdError>(e)));
                            return Err(e);
                        },
                    }
                },
                'x' | 'X' => {
                    let res = paste(state, &mut pflags, clean_command, selection, c, clean);
                    proof {
                        rc = res;
                    }
                    assert(paste_outcome(*old(state), *state, no_flags(), pflags, clean_command@, opt_sel_view(selection), c == 'X', clean@, res));
                    match res {
                        Ok(()) => Ok(false),
                        Err(e) => {
                            assert(command_ran(*old(state), *state, command@, Err::<bool, EdError>(e)));
                            return Err(e);
                        },
                    }
                },
                'U' => {
                    let res = manage_history(state, ui, selection, clean);
                    proof {
                        rc = res;
                    }
                    assert(manage_history_outcome(*old(state), *state, selection is Some, clean@, res));
                    match res {
                        Ok(()) => Ok(false),
                        Err(e) => {
                            assert(command_ran(*old(state), *state, command@, Err::<bool, EdError>(e)));
                            return Err(e);
                        },
                    }
                },
                'u' => {
                    let res = undo(state, ui, selection, clean);
                    proof {
                        rc = res;
                    }
                    assert(undo_outcome(*old(state), *state, selection is Some, clean@, res));
                    match res {
                        Ok(()) => Ok(false),
                        Err(e) => {
                            assert(command_ran(*old(state), *state, command@, Err::<bool, EdError>(e)));
                            return Err(e);
                        },
                    }
                },
                'k' | 'K' => {
                    let res = tag(state, selection, c, clean);
                    proof {
                        rc = res;
                    }
                    assert(tag_outcome(*old(state), *state, opt_sel_view(selection), c == 'k', clean@, res));
                    match res {
                        Ok(()) => Ok(false),
                        Err(e) => {
                            assert(command_ran(*old(state), *state, command@, Err::<bool, EdError>(e)));
                            return Err(e);
                        },
                    }
                },
                'm' | 't' => {
                    let res = transfer(state, &mut pflags, clean_command, selection, c, clean);
                    proof {
                        rc = res;
                    }
                    assert(transfer_outcome(*old(state), *state, no_flags(), pflags, clean_command@, opt_sel_view(selection), c, clean@, res));
                    match res {
                        Ok(()) => Ok(false),
                        Err(e) => {
                            assert(command_ran(*old(state), *state, command@, Err::<bool, EdError>(e)));
                            return Err(e);
                        },
                    }
                },
                'j' => {
                    let res = join(state, &mut pflags, clean_command, selection, clean);
                    proof {
                        rc = res;
                    }
                    assert(join_outcome(*old(state), *state, no_flags(), pflags, clean_command@, opt_sel_view(selection), clean@, res));
                    match res {
                        Ok(()) => Ok(false),
                        Err(e) => {
                            assert(command_ran(*old(state), *state, command@, Err::<bool, EdError>(e)));
                            return Err(e);
                        },
                    }
                },
                's' => {
                    let res = substitute(state, &mut pflags, clean_command, selection, tail);
                    proof {
                        rc = res;
                    }
                    assert(substitute_outcome(*old(state), *state, no_flags(), pflags, clean_command@, opt_sel_view(selection), tail@, res));
                    match res {
                        Ok(()) => Ok(false),
                        Err(e) => {
                            assert(command_ran(*old(state), *state, command@, Err::<bool, EdError>(e)));
                            return Err(e);
                        },
                    }
                },
                _ => Err(EdError::CommandUndefined(c)),
            }
        },
    };
    let quit = match ret {
        Ok(q) => q,
        Err(e) => {
            return Err(e);
        },
    };
    if pflags.p || pflags.n || pflags.l {
        if let Err(e) = state.buffer().verify_selection(state.selection) {
            return Err(e);
        }
        if let Err(e) = ui.print_selection(state, state.selection, state.n != pflags.n, state.l != pflags.l) {
            return Err(EdError::UI(e));
        }
    }
    Ok(quit)
}

/// The macro name `:` is given: the first word of its argument.
pub open spec fn macro_name_spec(s: Seq<char>) -> Seq<char> {
    let t = s.skip(crate::cmd::path::leading_whitespace(s) as int);
    t.take(first_space(t) as int)
}

/// The position of the first space in `s` (its length if none).
pub open spec fn first_space(s: Seq<char>) -> nat
    decreases s.len(),
{
    if s.len() == 0 || s[0] == ' ' {
        0
    } else {
        1 + first_space(s.drop_first())
    }
}

proof fn lemma_first_space(s: Seq<char>, i: int)
    requires
        0 <= i <= s.len(),
        forall|j: int| 0 <= j < i ==> #[trigger] s[j] != ' ',
        i == s.len() || s[i] == ' ',
    ensures
        first_space(s) == i,
    decreases i,
{
    if i > 0 {
        lemma_first_space(s.drop_first(), i - 1);
    }
}

/// The macro name `:` is given.
pub(crate) fn macro_name(clean: &str) -> (r: String)
    ensures
        r@ == macro_name_spec(clean@),
{
    let chars = chars_of(clean);
    let len = chars.len();
    let mut i: usize = 0;
    while i < len && char_is_whitespace(char_at(&chars, i))
        invariant
            i <= len,
            len == chars@.len(),
            chars@ == clean@,
            forall|j: int| 0 <= j < i ==> is_whitespace(#[trigger] chars@[j]),
        decreases len - i,
    {
        i = i + 1;
    }
    proof {
        crate::cmd::path::lemma_leading_whitespace_is(clean@, i as int);
    }
    let mut k = i;
    while k < len && char_at(&chars, k) != ' '
        invariant
            i <= k <= len,
            len == chars@.len(),
            forall|j: int| i <= j < k ==> #[trigger] chars@[j] != ' ',
        decreases len - k,
    {
        k = k + 1;
    }
    proof {
        let t = clean@.skip(i as int);
        assert forall|j: int| 0 <= j < k - i implies #[trigger] t[j] != ' ' by {
            assert(t[j] == chars@[i + j]);
        }
        lemma_first_space(t, k - i);
        assert(t.take(k - i) =~= clean@.subrange(i as int, k as int));
    }
    clean.substring_char(i, k).to_owned()
}

/// Why the arguments of `g`, `v`, `G` or `V` are unusable.
pub enum GlobalFault {
    /// The selection could not be interpreted.
    Lookup(crate::cmd::selection::Lookup),
    /// The argument list ends in an escaped separator.
    EscapedEnd(Seq<char>),
    /// Too few (or, for `G` and `V`, not two) arguments.
    WrongNr(Seq<char>, nat),
    /// `G` and `V` take no commands: what follows the pattern.
    Flag(char),
}

/// The selection and arguments of `g` and `v` (`interactive` false: a
/// pattern and commands) or `G` and `V` (only a pattern).
pub open spec fn global_args(s: Seq<LineView>, selection: Option<SelV>, old: (usize, usize), tail: Seq<char>, interactive: bool) -> Result<((usize, usize), Seq<Seq<char>>), GlobalFault> {
    match interpret_selection_spec(s, selection, old) {
        Err(f) => Err(GlobalFault::Lookup(f)),
        Ok(sel) => match parse_expressions_spec(tail) {
            None => Err(GlobalFault::EscapedEnd(tail)),
            Some(x) => if !interactive && x.len() < 2 {
                Err(GlobalFault::WrongNr("2 or more"@, x.len()))
            } else if interactive && x.len() != 2 {
                Err(GlobalFault::WrongNr("2"@, x.len()))
            } else if interactive && x[1].len() > 0 && x[1] != seq!['\n'] {
                Err(GlobalFault::Flag(x[1][0]))
            } else {
                Ok((sel, x))
            },
        },
    }
}

/// Whether `e` reports `f`.
pub open spec fn global_fault_is(e: EdError, f: GlobalFault) -> bool {
    match f {
        GlobalFault::Lookup(l) => lookup_is(e, l),
        GlobalFault::EscapedEnd(t) => e matches EdError::ArgumentListEscapedEnd(x) && x@ == t,
        GlobalFault::WrongNr(expected_text, n) => e matches EdError::ArgumentsWrongNr { expected, received } && expected@ == expected_text
            && received == n,
        GlobalFault::Flag(c) => e == EdError::FlagUndefined(c),
    }
}

/// Whether `new` is `old` with at most the history's states changed: the
/// labels, the viewed and saved snapshot, the clipboard, the selection and
/// the settings are kept.
pub open spec fn kept_but_states(old: Ed, new: Ed) -> bool {
    &&& new.wf()
    &&& new.history.labels() == old.history.labels()
    &&& new.history.viewed() == old.history.viewed()
    &&& new.history.saved_index() == old.history.saved_index()
    &&& new.history.paused() == old.history.paused()
    &&& new.clipboard == old.clipboard
    &&& new.selection == old.selection
    &&& new.same_settings(old)
}

/// The outcome of `g`, `v`, `G` and `V` (`inverse` for `v` and `V`) run at
/// nesting depth `depth`, as far as it doesn't depend on the commands run:
/// unusable arguments are refused with nothing changed, as is nesting
/// beyond the recursion limit; a selection that isn't valid, a regex that
/// isn't, or one that no selected line matches (`inverse`: that every
/// selected line matches) is refused with the text unchanged.
pub open spec fn global_outcome(old: Ed, new: Ed, selection: Option<SelV>, tail: Seq<char>, interactive: bool, inverse: bool, depth: usize, r: EdResult<()>) -> bool {
    let s = old.lines();
    match global_args(s, selection, old.selection, tail, interactive) {
        Err(f) => r matches Err(e) && global_fault_is(e, f) && new == old,
        Ok(args) => {
            let sel = args.0;
            let pattern = args.1[0];
            if depth >= old.recursion_limit {
                r == Err::<(), EdError>(EdError::InfiniteRecursion) && new == old
            } else if !selection_valid(s.len(), sel) {
                r == Err::<(), EdError>(selection_error(s.len() as usize, sel)) && kept_but_states(old, new)
                    && new.history.states() == old.history.states()
            } else if !regex_valid(pattern) {
                r matches Err(EdError::RegexInvalid { regex: rx, error: _ }) && rx@ == pattern && kept_but_states(old, new)
                    && new.history.states() == old.history.states()
            } else if !(exists|i: int| 0 <= i < s.len() && #[trigger] mark_hit(s, pattern, sel, inverse, i)) {
                &&& r matches Err(EdError::RegexNoMatch(rx)) && rx@ == pattern
                &&& kept_but_states(old, new)
                &&& new.history.states() == old.history.states().update(
                    old.history.viewed(),
                    marked(s, pattern, sel, inverse, (depth + 1) as nat),
                )
            } else {
                true
            }
        },
    }
}

/// Whether `s` holds only whitespace.
pub open spec fn blank_text(s: Seq<char>) -> bool {
    forall|i: int| 0 <= i < s.len() ==> is_whitespace(#[trigger] s[i])
}

/// The command that `g` or `v` with argument `tail` runs first on each
/// matched line, when the argument gives all its commands (its list ends
/// with a blank expression, so no input is asked for): the first
/// expression after the regex.
pub open spec fn global_first_command(tail: Seq<char>) -> Option<Seq<char>> {
    match parse_expressions_spec(tail) {
        Some(x) => if x.len() >= 3 && blank_text(x[x.len() - 1]) {
            Some(x[1])
        } else {
            None
        },
        None => None,
    }
}

/// Whether the first command `g` or `v` with argument `tail` runs (if the
/// argument gives it) parses and names a command.
pub open spec fn first_command_usable(tail: Seq<char>) -> bool {
    match global_first_command(tail) {
        Some(f) => parse_selection_spec(f) is Ok && match command_of(f) {
            Some(c) => known_command(c),
            None => true,
        },
        None => true,
    }
}

/// Whether no line of `s` is marked at depth `depth`: after `g`, `v`,
/// `G` or `V` ran its commands on every line it marked.
pub open spec fn no_marks(s: Seq<LineView>, depth: nat) -> bool {
    forall|j: int| 0 <= j < s.len() ==> !is_marked(#[trigger] s[j], depth)
}

/// Whether `g`, `v`, `G` or `V` gets to run commands: its arguments are
/// usable and none of the refusals of [`global_outcome`] applies.
pub open spec fn global_runs(old: Ed, selection: Option<SelV>, tail: Seq<char>, interactive: bool, inverse: bool, depth: usize) -> bool {
    let s = old.lines();
    match global_args(s, selection, old.selection, tail, interactive) {
        Err(_) => false,
        Ok(args) => {
            &&& depth < old.recursion_limit
            &&& selection_valid(s.len(), args.0)
            &&& regex_valid(args.1[0])
            &&& exists|i: int| 0 <= i < s.len() && #[trigger] mark_hit(s, args.1[0], args.0, inverse, i)
        },
    }
}

/// Whether `s` holds only whitespace.
fn blank(s: &str) -> (b: bool)
    ensures
        b == (forall|i: int| 0 <= i < s@.len() ==> is_whitespace(#[trigger] s@[i])),
{
    let chars = chars_of(s);
    let mut i: usize = 0;
    while i < chars.len()
        invariant
            i <= chars@.len(),
            chars@ == s@,
            forall|j: int| 0 <= j < i ==> is_whitespace(#[trigger] s@[j]),
        decreases chars@.len() - i,
    {
        if !char_is_whitespace(char_at(&chars, i)) {
            return false;
        }
        i = i + 1;
    }
    true
}

/// Whether `command`, run on `old`, quits at once (as [`run`] promises):
/// `Q`, or `q` on a saved buffer, without selection or arguments.
pub open spec fn quits(old: Ed, command: Seq<char>) -> bool {
    &&& !has_selection(command)
    &&& trim_newlines(tail_of(command)).len() == 0
    &&& (command_of(command) == Some('Q') || (command_of(command) == Some('q')
        && old.history.saved_index() == Some(old.history.viewed() as usize)))
}

/// What a script whose first command is `first` gives, as far as that
/// command decides: the script stops at once, with nothing changed, when
/// `first` doesn't parse or names no command (failing with that error), or
/// when it quits (succeeding).
pub open spec fn script_start(old: Ed, new: Ed, first: Seq<char>, r: EdResult<()>) -> bool {
    &&& parse_selection_spec(first) is Err ==> r is Err && new == old
    &&& match command_of(first) {
        Some(c) => !known_command(c) ==> r == Err::<(), EdError>(EdError::CommandUndefined(c)) && new == old,
        None => true,
    }
    &&& quits(old, first) ==> r is Ok && new == old
}

/// Runs `commands` as a script, one command line after the other, until the
/// script is used up or a command quits; a command's error ends it and is
/// returned.
pub(crate) fn run_script<U: UI, I: IO>(state: &mut Ed, ui: &mut Scripted<U>, io: &mut Logged<I>, commands: &Vec<String>, recursion_depth: usize) -> (r: EdResult<()>)
    requires
        old(state).wf(),
        recursion_depth < old(state).recursion_limit,
    ensures
        final(state).wf(),
        final(state).error == old(state).error,
        final(state).recursion_limit == old(state).recursion_limit,
        commands@.len() == 0 ==> r is Ok && *final(state) == *old(state),
        commands@.len() > 0 ==> script_start(*old(state), *final(state), commands@[0]@, r),
    decreases old(state).recursion_limit - recursion_depth, 2int,
{
    let mut copy: Vec<String> = Vec::new();
    let mut j: usize = 0;
    while j < commands.len()
        invariant
            j <= commands@.len(),
            strings_view(copy@) == strings_view(commands@).take(j as int),
        decreases commands@.len() - j,
    {
        let line = commands[j].clone();
        let ghost before = strings_view(copy@);
        copy.push(line);
        assert(strings_view(copy@) =~= before.push(commands@[j as int]@));
        assert(strings_view(commands@).take(j + 1) =~= strings_view(commands@).take(j as int).push(commands@[j as int]@));
        j = j + 1;
    }
    assert(strings_view(commands@).take(commands@.len() as int) =~= strings_view(commands@));
    ui.push_script(copy);
    let n = commands.len();
    let first = match ui.next_line() {
        Some(l) => l,
        None => {
            ui.pop_script();
            return Ok(());
        },
    };
    assert(first@ == commands@[0]@);
    match run(state, ui, io, first.as_str(), recursion_depth + 1) {
        Ok(true) => {
            ui.pop_script();
            return Ok(());
        },
        Ok(false) => {},
        Err(e) => {
            ui.pop_script();
            return Err(e);
        },
    }
    let mut k: usize = 1;
    while k < n
        invariant
            state.wf(),
            state.recursion_limit == old(state).recursion_limit,
            state.error == old(state).error,
            recursion_depth < state.recursion_limit,
            n == commands@.len(),
            n > 0,
            parse_selection_spec(commands@[0]@) is Ok,
            match command_of(commands@[0]@) {
                Some(c) => known_command(c),
                None => true,
            },
            !quits(*old(state), commands@[0]@),
        decreases n - k,
    {
        let line = match ui.next_line() {
            Some(l) => l,
            None => {
                break;
            },
        };
        match run(state, ui, io, line.as_str(), recursion_depth + 1) {
            Ok(true) => {
                break;
            },
            Ok(false) => {},
            Err(e) => {
                ui.pop_script();
                return Err(e);
            },
        }
        k = k + 1;
    }
    ui.pop_script();
    Ok(())
}

/// The first character of `s`, which must not be empty.
fn first_char(s: &str) -> (c: char)
    requires
        s@.len() > 0,
    ensures
        c == s@[0],
{
    s.get_char(0)
}

/// `g` and `v`: runs commands on every selected line that the regex
/// matches (`v`: doesn't). The commands follow the pattern, separated
/// like it; when the list isn't closed by a separator, more are taken as
/// input. Without commands, the lines are printed.
///
/// The matching lines are marked first; then, as long as a marked line
/// remains (at most `usize::MAX` times), the first one is selected, its
/// mark dropped, and the commands run on it.
pub fn global<'a, U: UI, I: IO>(state: &mut Ed, ui: &mut Scripted<U>, io: &mut Logged<I>, selection: Option<Sel<'a>>, command: char, tail: &str, recursion_depth: usize) -> (r: EdResult<()>)
    requires
        old(state).wf(),
        recursion_depth <= old(state).recursion_limit,
    ensures
        final(state).wf(),
        final(state).error == old(state).error,
        final(state).recursion_limit == old(state).recursion_limit,
        global_outcome(*old(state), *final(state), opt_sel_view(selection), tail@, false, command == 'v', recursion_depth, r),
        global_runs(*old(state), opt_sel_view(selection), tail@, false, command == 'v', recursion_depth) ==> match global_first_command(tail@) {
            Some(f) => (parse_selection_spec(f) is Err ==> r is Err) && match command_of(f) {
                Some(c) => !known_command(c) ==> r == Err::<(), EdError>(EdError::CommandUndefined(c)),
                None => true,
            },
            None => true,
        },
        r is Ok ==> no_marks(final(state).lines(), (recursion_depth + 1) as nat),
        !global_runs(*old(state), opt_sel_view(selection), tail@, false, command == 'v', recursion_depth) ==> untouched(
            *old(ui),
            *final(ui),
            *old(io),
            *final(io),
        ),
    decreases old(state).recursion_limit + 1 - recursion_depth, 0int,
{
    let sel = match interpret_selection(state, selection, state.selection) {
        Ok(s) => s,
        Err(e) => {
            return Err(e);
        },
    };
    let expressions = match parse_expressions(tail) {
        Ok(x) => x,
        Err(e) => {
            return Err(e);
        },
    };
    if expressions.len() < 2 {
        let expected = "2 or more";
        proof {
            reveal_strlit("2 or more");
        }
        return Err(EdError::ArgumentsWrongNr { expected, received: expressions.len() });
    }
    if recursion_depth >= state.recursion_limit {
        return Err(EdError::InfiniteRecursion);
    }
    proof {
        assert(expressions@[0]@ == strings_view(expressions@)[0]);
    }
    if let Err(e) = mark_matching(state, sel, expressions[0].as_str(), command == 'v', recursion_depth + 1) {
        return Err(e);
    }
    proof {
        let args = global_args(old(state).lines(), opt_sel_view(selection), old(state).selection, tail@, false)->Ok_0;
        assert(args.0 == sel);
        assert(args.1[0] == expressions@[0]@);
        let inverse = command == 'v';
        let i = choose|i: int| 0 <= i < old(state).lines().len() && #[trigger] mark_hit(old(state).lines(), expressions@[0]@, sel, inverse, i);
        assert(mark_hit(old(state).lines(), args.1[0], args.0, inverse, i));
    }
    assert(global_runs(*old(state), opt_sel_view(selection), tail@, false, command == 'v', recursion_depth));
    proof {
        let d = (recursion_depth + 1) as nat;
        let inverse = command == 'v';
        let pat = expressions@[0]@;
        let i = choose|i: int| 0 <= i < old(state).lines().len() && #[trigger] mark_hit(old(state).lines(), pat, sel, inverse, i);
        state.history.lemma_wf();
        old(state).history.lemma_wf();
        assert(state.lines() == marked(old(state).lines(), pat, sel, inverse, d));
        let m = old(state).lines()[i].matched;
        let kept = if m.len() > d { m.subrange(0, d as int) } else { m };
        assert(marks_after(m, d, true) =~= kept + Seq::new((d - kept.len()) as nat, |k: int| false).push(true));
        assert(state.lines()[i] == marked(old(state).lines(), pat, sel, inverse, d)[i]);
        assert(is_marked(state.lines()[i], d));
    }
    let mut commands: Vec<String> = Vec::new();
    let mut j: usize = 1;
    while j < expressions.len()
        invariant
            1 <= j <= expressions@.len(),
            strings_view(commands@) == strings_view(expressions@).subrange(1, j as int),
        decreases expressions@.len() - j,
    {
        let ghost before = strings_view(commands@);
        let e = expressions[j].clone();
        commands.push(e);
        assert(strings_view(commands@) =~= before.push(expressions@[j as int]@));
        assert(strings_view(expressions@).subrange(1, j + 1) =~= strings_view(expressions@).subrange(1, j as int).push(
            expressions@[j as int]@,
        ));
        j = j + 1;
    }
    let ghost x = strings_view(expressions@);
    assert(strings_view(commands@) =~= x.subrange(1, x.len() as int));
    let ghost built = commands@;
    proof {
        assert(built.len() == x.len() - 1);
        assert(built[0]@ == strings_view(built)[0]);
        assert(built[built.len() - 1]@ == strings_view(built)[built.len() - 1]);
    }
    let last_blank = match commands.last() {
        Some(l) => blank(l.as_str()),
        None => false,
    };
    assert(last_blank == blank_text(x[x.len() - 1]));
    if !last_blank {
        assert(tail@.len() > 0);
        let mut input = match ui.get_input(state, first_char(tail)) {
            Ok(i) => i,
            Err(e) => {
                return Err(EdError::UI(e));
            },
        };
        commands.append(&mut input);
    } else {
        commands.pop();
    }
    if commands.len() == 0 {
        commands.push(String::from_str("p\n"));
    }
    proof {
        if global_first_command(tail@) is Some {
            assert(built[0]@ == x[1]);
            assert(commands@.len() > 0 && commands@[0] == built[0]);
        }
    }
    let mut rounds: usize = 0;
    while rounds < usize::MAX
        invariant
            state.wf(),
            state.recursion_limit == old(state).recursion_limit,
            state.error == old(state).error,
            recursion_depth < state.recursion_limit,
            global_args(old(state).lines(), opt_sel_view(selection), old(state).selection, tail@, false) is Ok,
            global_runs(*old(state), opt_sel_view(selection), tail@, false, command == 'v', recursion_depth),
            rounds == 0 ==> exists|i: int| 0 <= i < state.lines().len() && #[trigger] is_marked(state.lines()[i], (recursion_depth + 1) as nat),
            global_first_command(tail@) matches Some(f) ==> commands@.len() > 0 && commands@[0]@ == f,
            rounds > 0 ==> first_command_usable(tail@),
        decreases usize::MAX - rounds,
    {
        let ghost before = *state;
        let index = match get_marked(state, recursion_depth + 1) {
            Some(i) => i,
            None => {
                proof {
                    let d = (recursion_depth + 1) as nat;
                    state.history.lemma_wf();
                    before.history.lemma_wf();
                    assert(state.lines() == unmarked_upto(before.lines(), d, before.lines().len() as int));
                    assert forall|j: int| 0 <= j < state.lines().len() implies !is_marked(#[trigger] state.lines()[j], d) by {
                        assert(state.lines()[j] == unmarked(before.lines()[j], d));
                    }
                }
                return Ok(());
            },
        };
        state.selection = (index, index);
        if let Err(e) = run_script(state, ui, io, &commands, recursion_depth) {
            return Err(e);
        }
        rounds = rounds + 1;
    }
    Err(EdError::InfiniteRecursion)
}

/// `G` and `V`: for every selected line that the regex matches (`V`:
/// doesn't), prints the line and runs the commands then given as input on
/// it.
pub fn global_interactive<'a, U: UI, I: IO>(state: &mut Ed, ui: &mut Scripted<U>, io: &mut Logged<I>, selection: Option<Sel<'a>>, command: char, tail: &str, recursion_depth: usize) -> (r: EdResult<()>)
    requires
        old(state).wf(),
        recursion_depth <= old(state).recursion_limit,
    ensures
        final(state).wf(),
        final(state).error == old(state).error,
        final(state).recursion_limit == old(state).recursion_limit,
        global_outcome(*old(state), *final(state), opt_sel_view(selection), tail@, true, command == 'V', recursion_depth, r),
        r is Ok ==> no_marks(final(state).lines(), (recursion_depth + 1) as nat),
        !global_runs(*old(state), opt_sel_view(selection), tail@, true, command == 'V', recursion_depth) ==> untouched(
            *old(ui),
            *final(ui),
            *old(io),
            *final(io),
        ),
    decreases old(state).recursion_limit + 1 - recursion_depth, 0int,
{
    let sel = match interpret_selection(state, selection, state.selection) {
        Ok(s) => s,
        Err(e) => {
            return Err(e);
        },
    };
    let expressions = match parse_expressions(tail) {
        Ok(x) => x,
        Err(e) => {
            return Err(e);
        },
    };
    if expressions.len() != 2 {
        let expected = "2";
        proof {
            reveal_strlit("2");
        }
        return Err(EdError::ArgumentsWrongNr { expected, received: expressions.len() });
    }
    proof {
        assert(strings_view(expressions@)[1] == expressions@[1]@);
    }
    let flags = expressions[1].as_str();
    if flags.unicode_len() > 0 && !(flags.unicode_len() == 1 && flags.get_char(0) == '\n') {
        proof {
            if flags@ == seq!['\n'] {
                assert(flags@.len() == 1 && flags@[0] == '\n');
            }
        }
        return Err(EdError::FlagUndefined(flags.get_char(0)));
    }
    proof {
        if flags@.len() == 1 && flags@[0] == '\n' {
            assert(flags@ =~= seq!['\n']);
        }
    }
    if recursion_depth >= state.recursion_limit {
        return Err(EdError::InfiniteRecursion);
    }
    proof {
        assert(expressions@[0]@ == strings_view(expressions@)[0]);
    }
    if let Err(e) = mark_matching(state, sel, expressions[0].as_str(), command == 'V', recursion_depth + 1) {
        return Err(e);
    }
    proof {
        let args = global_args(old(state).lines(), opt_sel_view(selection), old(state).selection, tail@, true)->Ok_0;
        assert(args.0 == sel);
        assert(args.1[0] == expressions@[0]@);
        let inverse = command == 'V';
        let i = choose|i: int| 0 <= i < old(state).lines().len() && #[trigger] mark_hit(old(state).lines(), expressions@[0]@, sel, inverse, i);
        assert(mark_hit(old(state).lines(), args.1[0], args.0, inverse, i));
    }
    assert(global_runs(*old(state), opt_sel_view(selection), tail@, true, command == 'V', recursion_depth));
    assert(tail@.len() > 0);
    let separator = first_char(tail);
    let mut rounds: usize = 0;
    while rounds < usize::MAX
        invariant
            state.wf(),
            state.recursion_limit == old(state).recursion_limit,
            state.error == old(state).error,
            recursion_depth < state.recursion_limit,
            global_args(old(state).lines(), opt_sel_view(selection), old(state).selection, tail@, true) is Ok,
            global_runs(*old(state), opt_sel_view(selection), tail@, true, command == 'V', recursion_depth),
        decreases usize::MAX - rounds,
    {
        let ghost before = *state;
        let index = match get_marked(state, recursion_depth + 1) {
            Some(i) => i,
            None => {
                proof {
                    let d = (recursion_depth + 1) as nat;
                    state.history.lemma_wf();
                    before.history.lemma_wf();
                    assert(state.lines() == unmarked_upto(before.lines(), d, before.lines().len() as int));
                    assert forall|j: int| 0 <= j < state.lines().len() implies !is_marked(#[trigger] state.lines()[j], d) by {
                        assert(state.lines()[j] == unmarked(before.lines()[j], d));
                    }
                }
                return Ok(());
            },
        };
        if let Err(e) = ui.print_selection(state, (index, index), state.n, state.l) {
            return Err(EdError::UI(e));
        }
        let input = match ui.get_input(state, separator) {
            Ok(i) => i,
            Err(e) => {
                return Err(EdError::UI(e));
            },
        };
        state.selection = (index, index);
        if let Err(e) = run_script(state, ui, io, &input, recursion_depth) {
            return Err(e);
        }
        rounds = rounds + 1;
    }
    Err(EdError::InfiniteRecursion)
}

/// `state` with `error` as its last error.
pub open spec fn with_error(state: Ed, error: Option<EdError>) -> Ed {
    Ed { error, ..state }
}

impl Ed {
    /// Runs one command given at the top level, as [`run`] does, and keeps
    /// the error it ends in as the last error (which `h` prints). Returns
    /// whether the editor should quit.
    pub fn run_command<U: UI, I: IO>(&mut self, ui: &mut Scripted<U>, io: &mut Logged<I>, command: &str) -> (r: EdResult<bool>)
        requires
            old(self).wf(),
        ensures
            final(self).wf(),
            final(self).recursion_limit == old(self).recursion_limit,
            r matches Err(e) ==> final(self).error == Some(e),
            r is Ok ==> command_ran(*old(self), *final(self), command@, r),
            r is Ok ==> final(self).error == old(self).error,
            r is Err ==> command_ran(*old(self), with_error(*final(self), old(self).error), command@, r),
            old(ui).scripts().len() > 0 ==> scripted_input_ran(*old(self), with_error(*final(self), old(self).error), command@, old(ui).scripts().last(), r),
            command_of(command@) == Some(':') ==> exists|rc: EdResult<()>|
                #[trigger] macro_outcome(*old(self), with_error(*final(self), old(self).error), selection_of(command@), trim_newlines(command@), trim_newlines(tail_of(command@)), 0, rc)
                && finished(rc, no_flags(), with_error(*final(self), old(self).error), r),
            command_of(command@) == Some('g') || command_of(command@) == Some('v') || command_of(command@) == Some('G')
                || command_of(command@) == Some('V') ==> global_ran(*old(self), with_error(*final(self), old(self).error), command@, 0, r),
            bare_quit(command@, 'Q') ==> r == Ok::<bool, EdError>(true) && *final(self) == *old(self),
            bare_quit(command@, 'q') ==> if old(self).history.saved_index() == Some(old(self).history.viewed() as usize) {
                r == Ok::<bool, EdError>(true) && *final(self) == *old(self)
            } else {
                r == Err::<bool, EdError>(EdError::UnsavedChanges) && final(self).error == Some(EdError::UnsavedChanges)
                    && with_error(*final(self), old(self).error) == *old(self)
            },
            match command_of(command@) {
                Some(c) => !known_command(c) ==> r == Err::<bool, EdError>(EdError::CommandUndefined(c)),
                None => true,
            },
            r == Ok::<bool, EdError>(true) ==> command_of(command@) == Some('w') || command_of(command@)
                == Some('W') || ((command_of(command@) == Some('Q') || (command_of(command@) == Some('q')
                && old(self).history.saved_index() == Some(old(self).history.viewed() as usize)))
                && !has_selection(command@) && *final(self) == *old(self)),
    {
        let r = run(self, ui, io, command, 0);
        let ghost after = *self;
        match r {
            Ok(quit) => {
                assert(with_error(*self, old(self).error) == after);
                Ok(quit)
            },
            Err(e) => {
                self.error = Some(e.duplicate());
                assert(with_error(*self, old(self).error) == after);
                Err(e)
            },
        }
    }
}

} // verus!
