//! The commands that run other commands on every line matching a regex
//! (`g`, `v`, `G`, `V`), and the scripted input they run them with.
use vstd::prelude::*;
use crate::buffer::buffer::{selection_valid, selection_error};
use crate::buffer::editing::strings_view;
use crate::buffer::finding::{marked, is_marked, unmarked_upto, mark_hit};
use crate::buffer::line::LineView;
use crate::cmd::expressions::{parse_expressions, parse_expressions_spec};
use crate::cmd::selection::{Sel, SelV, lookup_is, opt_sel_view, interpret_selection, interpret_selection_spec, char_at};
use crate::ed::Ed;
use crate::error::{EdError, EdResult};
use crate::io::IO;
use crate::text::{chars_of, regex_valid};
use crate::ui::{UI, UIError};

verus! {

/// A user interface with scripts: while a script is running, commands and
/// input lines are taken from it; everything else goes to the user
/// interface it wraps.
pub struct Scripted<U: UI> {
    /// The user interface.
    pub ui: U,
    /// The running scripts, innermost last, each with its lines in reverse.
    scripts: Vec<Vec<String>>,
    /// The messages handed to the user interface so far, oldest first.
    shown: Ghost<Seq<Seq<char>>>,
}

impl<U: UI> Scripted<U> {
    /// The running scripts' remaining lines, innermost script last.
    pub closed spec fn scripts(&self) -> Seq<Seq<Seq<char>>> {
        self.scripts@.map_values(|s: Vec<String>| strings_view(s@).reverse())
    }

    /// The messages handed to the wrapped interface to show, oldest first.
    pub closed spec fn shown(&self) -> Seq<Seq<char>> {
        self.shown@
    }

    /// The user interface wrapped.
    pub closed spec fn wrapped(&self) -> U {
        self.ui
    }

    /// Wraps `ui`, with no script running.
    pub fn new(ui: U) -> (s: Scripted<U>)
        ensures
            s.scripts() == Seq::<Seq<Seq<char>>>::empty(),
            s.wrapped() == ui,
            s.shown() == Seq::<Seq<char>>::empty(),
    {
        let s = Scripted { ui, scripts: Vec::new(), shown: Ghost(Seq::empty()) };
        assert(s.scripts() =~= Seq::<Seq<Seq<char>>>::empty());
        s
    }

    /// Starts running the script `lines`.
    pub fn push_script(&mut self, lines: Vec<String>)
        ensures
            final(self).scripts() == old(self).scripts().push(strings_view(lines@)),
            final(self).wrapped() == old(self).wrapped(),
    {
        let mut reversed: Vec<String> = Vec::new();
        let mut i = lines.len();
        let ghost l = strings_view(lines@);
        while i > 0
            invariant
                i <= lines@.len(),
                l == strings_view(lines@),
                strings_view(reversed@) == l.subrange(i as int, l.len() as int).reverse(),
            decreases i,
        {
            i = i - 1;
            let ghost before = strings_view(reversed@);
            let line = lines[i].clone();
            assert(line@ == l[i as int]);
            reversed.push(line);
            let ghost want = l.subrange(i as int, l.len() as int).reverse();
            assert(strings_view(reversed@) =~= before.push(l[i as int]));
            assert forall|k: int| 0 <= k < want.len() implies #[trigger] want[k] == before.push(l[i as int])[k] by {
                if k < before.len() {
                    assert(before[k] == l.subrange(i + 1, l.len() as int)[l.len() - i - 2 - k]);
                }
            }
            assert(strings_view(reversed@) =~= want);
        }
        assert(l.subrange(0, l.len() as int) =~= l);
        let ghost old_scripts = self.scripts@;
        self.scripts.push(reversed);
        assert(strings_view(reversed@).reverse() =~= l);
        assert(self.scripts() =~= old(self).scripts().push(l));
    }

    /// Stops running the innermost script.
    pub fn pop_script(&mut self)
        ensures
            final(self).scripts() == (if old(self).scripts().len() > 0 { old(self).scripts().drop_last() } else { old(self).scripts() }),
            final(self).wrapped() == old(self).wrapped(),
    {
        if self.scripts.len() > 0 {
            self.scripts.pop();
            assert(self.scripts() =~= old(self).scripts().drop_last());
        }
    }

    /// Whether a script is running.
    pub fn scripted(&self) -> (b: bool)
        ensures
            b == (self.scripts().len() > 0),
    {
        self.scripts.len() > 0
    }

    /// The next line of the innermost script, if one is running and has
    /// lines left.
    pub fn next_line(&mut self) -> (r: Option<String>)
        ensures
            final(self).wrapped() == old(self).wrapped(),
            old(self).scripts().len() == 0 ==> r is None && final(self).scripts() == old(self).scripts(),
            old(self).scripts().len() > 0 && old(self).scripts().last().len() == 0 ==> r is None && final(self).scripts()
                == old(self).scripts(),
            old(self).scripts().len() > 0 && old(self).scripts().last().len() > 0 ==> (r matches Some(l) && l@
                == old(self).scripts().last()[0] && final(self).scripts() == old(self).scripts().update(
                old(self).scripts().len() - 1,
                old(self).scripts().last().drop_first(),
            )),
    {
        let n = self.scripts.len();
        if n == 0 {
            return None;
        }
        if self.scripts[n - 1].len() == 0 {
            return None;
        }
        let ghost top = self.scripts@[n - 1];
        let line = self.scripts[n - 1].pop();
        proof {
            assert(strings_view(self.scripts@[n - 1]@) =~= strings_view(top@).drop_last());
            assert(strings_view(top@).drop_last().reverse() =~= strings_view(top@).reverse().drop_first());
            assert(self.scripts() =~= old(self).scripts().update(n - 1, old(self).scripts().last().drop_first()));
        }
        line
    }
}

/// How many of `lines` come before the first one that is `terminator`
/// alone on a line (all of them if none is).
pub open spec fn input_end(lines: Seq<Seq<char>>, terminator: char) -> nat
    decreases lines.len(),
{
    if lines.len() == 0 || terminator_line(lines[0], terminator) {
        0
    } else {
        1 + input_end(lines.drop_first(), terminator)
    }
}

/// The input a script with the remaining `lines` gives for a request
/// ended by `terminator`: its lines up to the first that is `terminator`
/// alone.
pub open spec fn script_input(lines: Seq<Seq<char>>, terminator: char) -> Seq<Seq<char>> {
    lines.take(input_end(lines, terminator) as int)
}

/// Whether `line` is `terminator` alone on a line.
pub open spec fn terminator_line(line: Seq<char>, terminator: char) -> bool {
    line == seq![terminator] || line == seq![terminator, '\n']
}

proof fn lemma_input_end(lines: Seq<Seq<char>>, terminator: char, k: int)
    requires
        0 <= k <= lines.len(),
        forall|j: int| 0 <= j < k ==> !terminator_line(#[trigger] lines[j], terminator),
        k == lines.len() || terminator_line(lines[k], terminator),
    ensures
        input_end(lines, terminator) == k,
    decreases k,
{
    if k > 0 {
        assert(!terminator_line(lines[0], terminator));
        let rest = lines.drop_first();
        assert forall|j: int| 0 <= j < k - 1 implies !terminator_line(#[trigger] rest[j], terminator) by {
            assert(rest[j] == lines[j + 1]);
        }
        if k < lines.len() {
            assert(rest[k - 1] == lines[k]);
        }
        lemma_input_end(rest, terminator, k - 1);
    }
}

/// Whether `line` is `terminator` alone on a line.
fn is_terminator(line: &str, terminator: char) -> (b: bool)
    ensures
        b == terminator_line(line@, terminator),
{
    let chars = chars_of(line);
    let b = (chars.len() == 1 && char_at(&chars, 0) == terminator)
        || (chars.len() == 2 && char_at(&chars, 0) == terminator && char_at(&chars, 1) == '\n');
    proof {
        if chars@.len() == 1 && chars@[0] == terminator {
            assert(line@ =~= seq![terminator]);
        }
        if chars@.len() == 2 && chars@[0] == terminator && chars@[1] == '\n' {
            assert(line@ =~= seq![terminator, '\n']);
        }
    }
    b
}

impl<U: UI> UI for Scripted<U> {
    /// Hands the message to the wrapped interface; the scripts are left as
    /// they are.
    fn print_message(&mut self, data: &str) -> (r: Result<(), UIError>)
        ensures
            final(self).scripts() == old(self).scripts(),
            final(self).shown() == old(self).shown().push(data@),
    {
        proof {
            self.shown@ = self.shown@.push(data@);
        }
        self.ui.print_message(data)
    }

    /// While a script runs, its next line (an empty command when it has
    /// none left); else the wrapped interface's command.
    fn get_command(&mut self, state: &Ed) -> (r: Result<String, UIError>)
        ensures
            old(self).scripts().len() > 0 ==> final(self).wrapped() == old(self).wrapped() && if old(self).scripts().last().len() > 0 {
                r matches Ok(l) && l@ == old(self).scripts().last()[0] && final(self).scripts() == old(self).scripts().update(
                    old(self).scripts().len() - 1,
                    old(self).scripts().last().drop_first(),
                )
            } else {
                r matches Ok(l) && l@ == Seq::<char>::empty() && final(self).scripts() == old(self).scripts()
            },
            old(self).scripts().len() == 0 ==> final(self).scripts() == old(self).scripts(),
    {
        if self.scripted() {
            match self.next_line() {
                Some(l) => Ok(l),
                None => Ok(String::new()),
            }
        } else {
            self.ui.get_command(state)
        }
    }

    /// While a script runs, its next lines up to the first that is
    /// `terminator` alone (which is taken too, and not returned); else the
    /// wrapped interface's input.
    fn get_input(&mut self, state: &Ed, terminator: char) -> (r: Result<Vec<String>, UIError>)
        ensures
            old(self).scripts().len() > 0 ==> {
                let last = old(self).scripts().last();
                let n = input_end(last, terminator) as int;
                &&& final(self).wrapped() == old(self).wrapped()
                &&& r matches Ok(v) && strings_view(v@) == last.take(n)
                &&& final(self).scripts() == old(self).scripts().update(
                    old(self).scripts().len() - 1,
                    last.skip(if n < last.len() { n + 1 } else { n }),
                )
            },
            old(self).scripts().len() == 0 ==> final(self).scripts() == old(self).scripts(),
    {
        if self.scripted() {
            let ghost s0 = self.scripts();
            let ghost last = s0.last();
            let ghost top = s0.len() - 1;
            let ghost w = self.wrapped();
            let mut lines: Vec<String> = Vec::new();
            let bound = self.scripts[self.scripts.len() - 1].len();
            assert(bound == last.len());
            assert(last.skip(0) =~= last);
            assert(s0.update(top, last) =~= s0);
            let mut k: usize = 0;
            let mut done = false;
            while !done && k < bound
                invariant
                    s0 == old(self).scripts(),
                    s0.len() > 0,
                    top == s0.len() - 1,
                    last == s0.last(),
                    bound == last.len(),
                    self.wrapped() == w,
                    w == old(self).wrapped(),
                    k <= bound,
                    forall|j: int| 0 <= j < k ==> !terminator_line(#[trigger] last[j], terminator),
                    strings_view(lines@) == last.take(k as int),
                    !done ==> self.scripts() == s0.update(top, last.skip(k as int)),
                    done ==> k < bound && terminator_line(last[k as int], terminator) && self.scripts() == s0.update(
                        top,
                        last.skip(k + 1),
                    ),
                decreases bound - k, if done { 0int } else { 1int },
            {
                proof {
                    assert(self.scripts().last() == last.skip(k as int));
                    assert(last.skip(k as int)[0] == last[k as int]);
                }
                match self.next_line() {
                    Some(l) => {
                        proof {
                            assert(last.skip(k as int).drop_first() =~= last.skip(k + 1));
                        }
                        if is_terminator(l.as_str(), terminator) {
                            done = true;
                        } else {
                            let ghost before = strings_view(lines@);
                            lines.push(l);
                            assert(strings_view(lines@) =~= before.push(last[k as int]));
                            assert(last.take(k + 1) =~= last.take(k as int).push(last[k as int]));
                            k = k + 1;
                        }
                    },
                    None => {
                        assert(false);
                    },
                }
            }
            proof {
                lemma_input_end(last, terminator, k as int);
            }
            Ok(lines)
        } else {
            self.ui.get_input(state, terminator)
        }
    }

    /// Hands the lines to the wrapped interface; the scripts are left as
    /// they are.
    fn print_selection(&mut self, state: &Ed, selection: (usize, usize), numbered: bool, literal: bool) -> (r: Result<(), UIError>)
        ensures
            final(self).scripts() == old(self).scripts(),
    {
        self.ui.print_selection(state, selection, numbered, literal)
    }
}

/// Marks the lines of `selection` in the viewed buffer that the regex
/// `pattern` matches (or, `inverse`, doesn't) at nesting depth `depth`,
/// dropping the marks at that depth and deeper from all lines first. No
/// snapshot is taken.
pub fn mark_matching(state: &mut Ed, selection: (usize, usize), pattern: &str, inverse: bool, depth: usize) -> (r: EdResult<()>)
    requires
        old(state).wf(),
    ensures
        final(state).wf(),
        final(state).clipboard == old(state).clipboard,
        final(state).selection == old(state).selection,
        final(state).same_settings(*old(state)),
        final(state).history.viewed() == old(state).history.viewed(),
        final(state).history.labels() == old(state).history.labels(),
        final(state).history.saved_index() == old(state).history.saved_index(),
        final(state).history.paused() == old(state).history.paused(),
        r is Ok <==> selection_valid(old(state).lines().len(), selection) && regex_valid(pattern@)
            && exists|i: int| 0 <= i < old(state).lines().len() && #[trigger] mark_hit(old(state).lines(), pattern@, selection, inverse, i),
        !selection_valid(old(state).lines().len(), selection) ==> r == Err::<(), EdError>(
            selection_error(old(state).lines().len() as usize, selection),
        ) && final(state).history.states() == old(state).history.states(),
        selection_valid(old(state).lines().len(), selection) && !regex_valid(pattern@) ==> (r matches Err(
            EdError::RegexInvalid { regex: rx, error: _ },
        ) && rx@ == pattern@) && final(state).history.states() == old(state).history.states(),
        selection_valid(old(state).lines().len(), selection) && regex_valid(pattern@) ==> final(state).history.states()
            == old(state).history.states().update(old(state).history.viewed(), marked(old(state).lines(), pattern@, selection, inverse, depth as nat)),
        selection_valid(old(state).lines().len(), selection) && regex_valid(pattern@) && r is Err ==> (r matches Err(
            EdError::RegexNoMatch(rx),
        ) && rx@ == pattern@),
{
    proof {
        state.history.lemma_wf();
    }
    let ghost before = state.history.states();
    let buffer = state.history.viewed_mut();
    let r = buffer.mark_matching_at(pattern, selection, inverse, depth);
    proof {
        if !(selection_valid(old(state).lines().len(), selection) && regex_valid(pattern@)) {
            assert(state.history.states() =~= before);
        }
    }
    r
}

/// The first line marked at depth `depth` in the viewed buffer, dropping
/// the marks at that depth and deeper from it and the lines before it.
pub fn get_marked(state: &mut Ed, depth: usize) -> (r: Option<usize>)
    requires
        old(state).wf(),
    ensures
        final(state).wf(),
        final(state).clipboard == old(state).clipboard,
        final(state).selection == old(state).selection,
        final(state).same_settings(*old(state)),
        final(state).history.viewed() == old(state).history.viewed(),
        final(state).history.labels() == old(state).history.labels(),
        final(state).history.saved_index() == old(state).history.saved_index(),
        final(state).history.paused() == old(state).history.paused(),
        r matches Some(k) ==> 1 <= k <= old(state).lines().len() && is_marked(old(state).lines()[k - 1], depth as nat)
            && (forall|j: int| 0 <= j < k - 1 ==> !is_marked(#[trigger] old(state).lines()[j], depth as nat))
            && final(state).history.states() == old(state).history.states().update(
            old(state).history.viewed(),
            unmarked_upto(old(state).lines(), depth as nat, k as int),
        ),
        r is None ==> (forall|j: int| 0 <= j < old(state).lines().len() ==> !is_marked(#[trigger] old(state).lines()[j], depth as nat))
            && final(state).history.states() == old(state).history.states().update(
            old(state).history.viewed(),
            unmarked_upto(old(state).lines(), depth as nat, old(state).lines().len() as int),
        ),
{
    let buffer = state.history.viewed_mut();
    buffer.get_marked_at(depth)
}

} // verus!
