//! The `s` command: regex substitution over the selected lines.
use vstd::prelude::*;
use crate::buffer::buffer::{Clipboard, selection_valid, selection_error};
use crate::buffer::line::LineView;
use crate::buffer::editing::{concat_texts, selection_text, substituted, terminated_lines, strings_view};
use crate::cmd::commands::{PrintingFlags, clipped, flags_fault_is};
use crate::cmd::expressions::{parse_expressions, parse_expressions_spec};
use crate::cmd::flags::{parse_flags, flags_ok};
use crate::cmd::selection::{Sel, SelV, lookup_is, opt_sel_view, interpret_selection, interpret_selection_spec, trim_newlines, char_at};
use crate::ed::{Ed, Substitution};
use crate::error::{EdError, EdResult};
use crate::text::{chars_of, lines_of, regex_valid, regex_is_match, compile_pattern, pattern_is_match, string_from_chars};
use crate::vecops::spliced;

verus! {

/// Why the arguments of `s` are unusable.
pub enum SubstitutionArgsFault {
    /// No arguments were given and no `s` ran before.
    Unset,
    /// The argument list ends in an escaped separator.
    EscapedEnd(Seq<char>),
    /// Not three arguments were given.
    WrongNr(nat),
    /// The flags (the third argument) are not `gpnl` ones.
    Flags(Seq<char>),
}

/// The arguments `s` works with: the pattern, the replacement, whether
/// to replace every match, and the printing flags. Given as
/// `/pattern/replacement/flags` in `tail` (trailing newlines ignored), or,
/// when `tail` is empty, those of the last `s`.
pub open spec fn substitution_args(prev: Option<Substitution>, tail: Seq<char>) -> Result<(Seq<char>, Seq<char>, bool, PrintingFlags), SubstitutionArgsFault> {
    let t = trim_newlines(tail);
    if t.len() == 0 {
        match prev {
            None => Err(SubstitutionArgsFault::Unset),
            Some(s) => Ok((s.pattern@, s.substitute@, s.global, PrintingFlags { p: s.p, n: s.n, l: s.l })),
        }
    } else {
        match parse_expressions_spec(t) {
            None => Err(SubstitutionArgsFault::EscapedEnd(t)),
            Some(x) => if x.len() != 3 {
                Err(SubstitutionArgsFault::WrongNr(x.len()))
            } else if !flags_ok(x[2], "gpnl"@) {
                Err(SubstitutionArgsFault::Flags(x[2]))
            } else {
                Ok((x[0], x[1], x[2].contains('g'), PrintingFlags { p: x[2].contains('p'), n: x[2].contains('n'), l: x[2].contains('l') }))
            },
        }
    }
}

/// Whether `e` reports `f`.
pub open spec fn args_fault_is(e: EdError, f: SubstitutionArgsFault) -> bool {
    match f {
        SubstitutionArgsFault::Unset => e == EdError::DefaultSArgsUnset,
        SubstitutionArgsFault::EscapedEnd(t) => e matches EdError::ArgumentListEscapedEnd(x) && x@ == t,
        SubstitutionArgsFault::WrongNr(n) => e matches EdError::ArgumentsWrongNr { expected, received } && expected@ == "none or 3"@
            && received == n,
        SubstitutionArgsFault::Flags(t) => flags_fault_is(e, t, "gpnl"@),
    }
}

/// The lines replacing lines `sel` after substituting `replacement` (its
/// escapes interpreted) for the first (or, `global`, every) match of
/// `pattern` in their text.
pub open spec fn substituted_lines(s: Seq<LineView>, sel: (usize, usize), pattern: Seq<char>, replacement: Seq<char>, global: bool) -> Seq<LineView> {
    terminated_lines(lines_of(substituted(pattern, selection_text(s, sel.0 - 1, sel.1 as int), replacement, global)))
}

/// The selection after replacing lines from `start` on, the last new line
/// being `end`: the new lines, or when there are none the line before.
pub open spec fn after_replace(start: usize, end: int) -> (usize, usize) {
    ((if end < 1 { 1 } else if (start as int) < end { start as int } else { end }) as usize, end as usize)
}

/// Whether `new` is `old` after a successful substitution: the lines are
/// replaced (and cut into the clipboard), and the new lines selected.
pub open spec fn substitution_done(old: Ed, new: Ed, cmd: Seq<char>, sel: (usize, usize), pattern: Seq<char>, replacement: Seq<char>, global: bool) -> bool {
    let lines = substituted_lines(old.lines(), sel, pattern, replacement, global);
    &&& new.history_edited(old, cmd, spliced(old.lines(), sel.0 - 1, sel.1 as int, lines))
    &&& new.clipboard@ == clipped(old.lines(), sel.0 - 1, sel.1 as int)
    &&& new.selection == after_replace(sel.0, sel.0 - 1 + lines.len())
}

/// The outcome of a substitution with the given arguments, before the
/// arguments are saved.
pub open spec fn substitution_result(old: Ed, new: Ed, cmd: Seq<char>, sel: (usize, usize), pattern: Seq<char>, replacement: Seq<char>, global: bool, r: EdResult<()>) -> bool {
    let len = old.lines().len();
    if !regex_valid(pattern) {
        r matches Err(EdError::RegexInvalid { regex, error: _ }) && regex@ == pattern && new == old
    } else if !selection_valid(len, sel) {
        r == Err::<(), EdError>(selection_error(len as usize, sel)) && new == old
    } else if !regex_is_match(pattern, selection_text(old.lines(), sel.0 - 1, sel.1 as int)) {
        r matches Err(EdError::RegexNoMatch(x)) && x@ == pattern && new == old
    } else {
        r is Ok && substitution_done(old, new, cmd, sel, pattern, replacement, global)
    }
}

/// The outcome of `s`: the arguments given are saved for a later `s`
/// alone once they succeed; everything else is as before.
pub open spec fn substitute_outcome(old: Ed, new: Ed, oldf: PrintingFlags, newf: PrintingFlags, cmd: Seq<char>, selection: Option<SelV>, tail: Seq<char>, r: EdResult<()>) -> bool {
    match interpret_selection_spec(old.lines(), selection, old.selection) {
        Err(f) => r matches Err(e) && lookup_is(e, f) && new == old && newf == oldf,
        Ok(sel) => match substitution_args(old.prev_s, tail) {
            Err(f) => r matches Err(e) && args_fault_is(e, f) && new == old && newf == oldf,
            Ok(args) => {
                &&& newf == args.3
                &&& if r is Ok && trim_newlines(tail).len() > 0 {
                    &&& substitution_result(old, new, cmd, sel, args.0, args.1, args.2, r)
                    &&& new.prev_s matches Some(s) && s.pattern@ == args.0 && s.substitute@ == args.1
                        && s.global == args.2 && s.p == newf.p && s.n == newf.n && s.l == newf.l
                    &&& new.file@ == old.file@ && new.prev_shell_command@ == old.prev_shell_command@
                    &&& new.print_errors == old.print_errors && new.error == old.error && new.n == old.n
                    &&& new.l == old.l && new.recursion_limit == old.recursion_limit
                } else {
                    &&& substitution_result(old, new, cmd, sel, args.0, args.1, args.2, r)
                    &&& r is Ok ==> new.same_settings(old)
                }
            },
        },
    }
}

/// Substitutes in lines `sel`, as `s` does once it has its arguments.
fn substitute_in(state: &mut Ed, full_command: &str, sel: (usize, usize), pattern: &str, replacement: &str, global: bool) -> (r: EdResult<()>)
    requires
        old(state).wf(),
    ensures
        final(state).wf(),
        substitution_result(*old(state), *final(state), full_command@, sel, pattern@, replacement@, global, r),
        r is Ok ==> final(state).same_settings(*old(state)),
{
    let regex = match compile_pattern(pattern) {
        Ok(p) => p,
        Err(error) => {
            return Err(EdError::RegexInvalid { regex: pattern.to_owned(), error });
        },
    };
    if let Err(e) = state.buffer().verify_selection(sel) {
        return Err(e);
    }
    let text = concat_texts(&state.buffer().inner, sel.0 - 1, sel.1);
    let joined = string_from_chars(text.as_slice());
    if !pattern_is_match(&regex, joined.as_str()) {
        return Err(EdError::RegexNoMatch(pattern.to_owned()));
    }
    proof {
        state.history.lemma_wf();
    }
    let buffer = state.history.current_mut(full_command.to_owned());
    let (end, cut) = match buffer.replace_matches((pattern, replacement), sel, global, false) {
        Ok(x) => x,
        Err(_) => {
            assert(false);
            return Err(EdError::NoOp);
        },
    };
    state.clipboard = Clipboard::from_lines(cut.as_slice());
    let start = if end < 1 { 1 } else if sel.0 < end { sel.0 } else { end };
    state.selection = (start, end);
    Ok(())
}

/// `tail` without its trailing newlines.
fn trimmed(tail: &str) -> (r: &str)
    ensures
        r@ == trim_newlines(tail@),
{
    let chars = chars_of(tail);
    let mut n = chars.len();
    assert(chars@.take(n as int) =~= chars@);
    while n > 0 && char_at(&chars, n - 1) == '\n'
        invariant
            n <= chars@.len(),
            chars@ == tail@,
            trim_newlines(tail@) == trim_newlines(chars@.take(n as int)),
        decreases n,
    {
        assert(chars@.take(n as int).drop_last() =~= chars@.take(n - 1));
        n = n - 1;
    }
    assert(trim_newlines(chars@.take(n as int)) == chars@.take(n as int));
    tail.substring_char(0, n)
}

/// `s`: substitutes in the selected lines, with the arguments given as
/// `/pattern/replacement/flags` (flags among `gpnl`) or, without
/// arguments, those of the last `s`.
pub fn substitute<'a>(state: &mut Ed, pflags: &mut PrintingFlags, full_command: &str, selection: Option<Sel<'a>>, tail: &str) -> (r: EdResult<()>)
    requires
        old(state).wf(),
    ensures
        final(state).wf(),
        final(state).error == old(state).error,
        substitute_outcome(*old(state), *final(state), *old(pflags), *final(pflags), full_command@, opt_sel_view(selection), tail@, r),
{
    let sel = match interpret_selection(state, selection, state.selection) {
        Ok(s) => s,
        Err(e) => {
            return Err(e);
        },
    };
    let t = trimmed(tail);
    if t.unicode_len() == 0 {
        let (pattern, replacement, global) = match &state.prev_s {
            None => {
                return Err(EdError::DefaultSArgsUnset);
            },
            Some(s) => {
                *pflags = PrintingFlags { p: s.p, n: s.n, l: s.l };
                (s.pattern.clone(), s.substitute.clone(), s.global)
            },
        };
        substitute_in(state, full_command, sel, pattern.as_str(), replacement.as_str(), global)
    } else {
        let expressions = match parse_expressions(t) {
            Ok(x) => x,
            Err(e) => {
                return Err(e);
            },
        };
        if expressions.len() != 3 {
            let expected = "none or 3";
            proof {
                reveal_strlit("none or 3");
            }
            return Err(EdError::ArgumentsWrongNr { expected, received: expressions.len() });
        }
        let allowed = "gpnl";
        proof {
            reveal_strlit("gpnl");
            assert(!allowed@.contains('\n')) by {
                if allowed@.contains('\n') {
                    let k = choose|k: int| 0 <= k < allowed@.len() && #[trigger] allowed@[k] == '\n';
                    assert(allowed@[k] == '\n');
                }
            }
            assert(strings_view(expressions@)[2] == expressions@[2]@);
        }
        let flags = match parse_flags(expressions[2].as_str(), allowed) {
            Ok(f) => f,
            Err(e) => {
                return Err(e);
            },
        };
        assert(allowed@[0] == 'g' && allowed@[1] == 'p' && allowed@[2] == 'n' && allowed@[3] == 'l');
        let global = flags[0];
        *pflags = PrintingFlags { p: flags[1], n: flags[2], l: flags[3] };
        proof {
            assert(strings_view(expressions@)[0] == expressions@[0]@);
            assert(strings_view(expressions@)[1] == expressions@[1]@);
        }
        let res = substitute_in(state, full_command, sel, expressions[0].as_str(), expressions[1].as_str(), global);
        if res.is_ok() {
            state.prev_s = Some(Substitution {
                pattern: expressions[0].clone(),
                substitute: expressions[1].clone(),
                global,
                p: pflags.p,
                n: pflags.n,
                l: pflags.l,
            });
        }
        res
    }
}

} // verus!
