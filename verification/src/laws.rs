//! Properties of the editor that span several operations, proved over the
//! contracts of those operations.
use vstd::prelude::*;
use crate::buffer::buffer::{selection_valid, index_valid, unclipped, pub_view, pasted_line};
use crate::buffer::editing::{fresh_lines, all_valid};
use crate::error::EdResult;
use crate::buffer::line::LineView;
use crate::buffer::vecbuffer::VecBuffer;
use crate::cmd::commands::clipped;
use crate::cmd::history_cmds::{undo_outcome, undo_target};
use crate::cmd::path::{substituted_from, SubstitutionFault};
use crate::buffer::finding::{marked, mark_hit, marks_after, is_marked, first_tagged, nearest_match};
use crate::cmd::path::prefixed;
use crate::text::regex_valid;
use crate::text::regex_is_match;
use crate::cmd::selection::{IndV, Lookup, interpret_spec, interpret_selection_spec};
use crate::cmd::undo_index::{HistoryIndV, interpret_history_spec};
use crate::cmd::commands::scrolled;
use crate::cmd::selection::trim_newlines;
use crate::cmd::undo_index::{parse_history_index_spec, history_from, HistoryScan};
use crate::cmd::flags::flags_ok;
use crate::cmd::io_cmds::{write_outcome, write_target, read_outcome};
use crate::cmd::substitution::{substitute_outcome, substitution_args};
use crate::cmd::commands::PrintingFlags;
use crate::cmd::selection::SelV;
use crate::cmd::path::parse_path_spec;
use crate::ed::Ed;
use crate::error::EdError;
use crate::vecops::{spliced, moved, lemma_move_back_restores};

verus! {

/// Cutting lines and pasting what was cut back where it was restores the
/// buffer: `Buffer::cut` of `sel` leaves `spliced(s, sel.0 - 1, sel.1, [])`
/// and hands out `s[sel.0 - 1..sel.1]`; `Buffer::paste` of those at line
/// `sel.0 - 1` gives `s` again.
pub proof fn law_cut_then_paste_restores(s: Seq<LineView>, sel: (usize, usize))
    requires
        selection_valid(s.len(), sel),
    ensures
        ({
            let cut = s.subrange(sel.0 - 1, sel.1 as int);
            let after = spliced(s, sel.0 - 1, sel.1 as int, Seq::empty());
            &&& index_valid(after.len(), sel.0 - 1)
            &&& spliced(after, sel.0 - 1, sel.0 - 1, cut) == s
        }),
{
    let cut = s.subrange(sel.0 - 1, sel.1 as int);
    let after = spliced(s, sel.0 - 1, sel.1 as int, Seq::empty());
    assert(spliced(after, sel.0 - 1, sel.0 - 1, cut) =~= s);
}

/// Inserting lines and then cutting the lines inserted restores the
/// buffer, and the cut lines are the ones inserted: `Buffer::insert` of
/// `texts` at `index` followed by `Buffer::cut` of
/// `(index + 1, index + texts.len())`.
pub proof fn law_insert_then_cut_restores(s: Seq<LineView>, texts: Seq<Seq<char>>, index: int)
    requires
        0 <= index <= s.len(),
        texts.len() > 0,
    ensures
        ({
            let n = texts.len() as int;
            let after = spliced(s, index, index, fresh_lines(texts));
            &&& spliced(after, index, index + n, Seq::empty()) == s
            &&& after.subrange(index, index + n) == fresh_lines(texts)
        }),
{
    let n = texts.len() as int;
    let after = spliced(s, index, index, fresh_lines(texts));
    assert(spliced(after, index, index + n, Seq::empty()) =~= s);
    assert(after.subrange(index, index + n) =~= fresh_lines(texts));
}

/// Moving the selected lines and then moving them back from where they
/// went restores the buffer: `Buffer::mov` of `sel` to after line `index`
/// puts them at lines `index + 1..=index + n` when moving up (`index <
/// sel.0`), and moving those to after line `sel.1` undoes it; when moving
/// down (`index >= sel.1`) they end at line `index`, and moving them to
/// after line `sel.0 - 1` undoes it.
pub proof fn law_move_then_move_back_restores(s: Seq<LineView>, sel: (usize, usize), index: int)
    requires
        selection_valid(s.len(), sel),
        0 <= index <= s.len(),
        index < sel.0 || index >= sel.1,
    ensures
        ({
            let a = sel.0 - 1;
            let b = sel.1 as int;
            let n = b - a;
            let m = moved(s, a, b, index);
            if index < sel.0 {
                moved(m, index, index + n, b) == s
            } else {
                moved(m, index - n, index, a) == s
            }
        }),
{
    let a = sel.0 - 1;
    let b = sel.1 as int;
    let n = b - a;
    if index < sel.0 {
        lemma_move_back_restores(s, a, b, index);
    } else {
        let m = moved(s, a, b, index);
        let r = moved(m, index - n, index, a);
        assert forall|i: int| 0 <= i < s.len() implies r[i] == s[i] by {
            if i < a {
            } else if i < b {
            } else if i < index {
            } else {
            }
        }
        assert(r =~= s);
    }
}

/// Lines that go through the clipboard keep their tags and texts (and
/// lose their marks).
pub proof fn law_clipboard_keeps_lines(s: Seq<LineView>, a: int, b: int)
    requires
        0 <= a <= b <= s.len(),
    ensures
        unclipped(clipped(s, a, b)).len() == b - a,
        forall|i: int| 0 <= i < b - a ==> (#[trigger] unclipped(clipped(s, a, b))[i]) == (LineView {
            matched: Seq::empty(),
            ..s[a + i]
        }),
{
    assert forall|i: int| 0 <= i < b - a implies (#[trigger] unclipped(clipped(s, a, b))[i]) == (LineView {
        matched: Seq::empty(),
        ..s[a + i]
    }) by {
        assert(clipped(s, a, b)[i] == pub_view(s[a + i]));
        assert(unclipped(clipped(s, a, b))[i] == pasted_line(clipped(s, a, b)[i]));
    }
}

/// No history is lost: a change made while snapshotting keeps every
/// earlier snapshot, and adds one holding the new text.
pub proof fn law_edit_keeps_history(old: Ed, new: Ed, cause: Seq<char>, lines: Seq<LineView>)
    requires
        old.wf(),
        new.edited(old, cause, lines),
        !old.history.paused(),
    ensures
        new.history.states().len() > old.history.states().len(),
        new.history.states().subrange(0, old.history.states().len() as int) == old.history.states(),
        new.history.states().last() == lines,
{
    old.history.lemma_wf();
    let n = old.history.states().len() as int;
    let states = old.history.snapshot_states();
    assert(states.len() >= n + 1);
    assert(new.history.states().subrange(0, n) =~= old.history.states());
}

/// Writing the whole buffer to a file saves it: after `w` without a
/// selection succeeds in writing to a file (snapshots not paused), the
/// viewed snapshot is the saved one, which is what `q` needs to quit (see
/// [`crate::cmd::run::run`]).
pub proof fn law_write_saves(old: Ed, new: Ed, path: Seq<char>, r: crate::error::EdResult<bool>)
    requires
        write_outcome(old, new, None, 'w', path, r),
        r is Ok,
        write_target(path, old.file@) is File,
        !old.history.paused(),
    ensures
        new.history.saved_index() == Some(new.history.viewed() as usize),
{
}

/// Opening a file gives a saved buffer: after `e` without a selection
/// succeeds in reading a file (not a command's output; snapshots not
/// paused), the viewed snapshot is the saved one.
pub proof fn law_open_saves(old: Ed, new: Ed, cmd: Seq<char>, path: Seq<char>, r: crate::error::EdResult<()>)
    requires
        read_outcome(old, new, cmd, None, 'e', path, r),
        r is Ok,
        !(parse_path_spec(path) is Some && parse_path_spec(path)->Some_0 is Command),
        !old.history.paused(),
    ensures
        new.history.saved_index() == Some(new.history.viewed() as usize),
{
}

/// `s` without arguments repeats the last `s`: after `s` with arguments
/// `tail` succeeded, `s` with no arguments (`blank`) takes the same
/// pattern, replacement, `g` flag and printing flags as `tail` gave.
pub proof fn law_repeat_substitution(
    old: Ed,
    new: Ed,
    oldf: PrintingFlags,
    newf: PrintingFlags,
    cmd: Seq<char>,
    selection: Option<SelV>,
    tail: Seq<char>,
    blank: Seq<char>,
)
    requires
        substitute_outcome(old, new, oldf, newf, cmd, selection, tail, Ok(())),
        trim_newlines(tail).len() > 0,
        trim_newlines(blank).len() == 0,
    ensures
        substitution_args(new.prev_s, blank) == substitution_args(old.prev_s, tail),
{
}

/// `s` with no arguments does what `s` with the last arguments given
/// does: once `s` with arguments `tail` succeeded (leaving `mid`), every
/// outcome of a later `s` with no arguments (`blank`) on `mid` is an
/// outcome of `s` with `tail` there, on any selection and flags.
pub proof fn law_blank_substitution_repeats(
    old: Ed,
    mid: Ed,
    new: Ed,
    f0: PrintingFlags,
    f1: PrintingFlags,
    oldf: PrintingFlags,
    newf: PrintingFlags,
    first_cmd: Seq<char>,
    first_selection: Option<SelV>,
    cmd: Seq<char>,
    selection: Option<SelV>,
    tail: Seq<char>,
    blank: Seq<char>,
    r: EdResult<()>,
)
    requires
        substitute_outcome(old, mid, f0, f1, first_cmd, first_selection, tail, Ok(())),
        trim_newlines(tail).len() > 0,
        trim_newlines(blank).len() == 0,
        substitute_outcome(mid, new, oldf, newf, cmd, selection, blank, r),
    ensures
        substitution_args(mid.prev_s, blank) == substitution_args(mid.prev_s, tail),
        substitute_outcome(mid, new, oldf, newf, cmd, selection, tail, r),
{
}

/// Changing lines is cutting them and inserting the new lines where they
/// were: `Buffer::change` of `sel` with `texts` succeeds exactly when
/// `Buffer::cut` of `sel` and then `Buffer::insert` of `texts` at line
/// `sel.0 - 1` both do, and then leaves the same lines and hands out the
/// same cut lines. (With invalid texts on a valid selection the change is
/// refused whole, while the cut alone would succeed.)
pub proof fn law_change_is_cut_then_insert(s: Seq<LineView>, sel: (usize, usize), texts: Seq<Seq<char>>)
    requires
        all_valid(texts) || !selection_valid(s.len(), sel),
    ensures
        ({
            let a = sel.0 - 1;
            let after_cut = spliced(s, a, sel.1 as int, Seq::empty());
            let both = selection_valid(s.len(), sel) && index_valid(after_cut.len(), a) && all_valid(texts);
            &&& (selection_valid(s.len(), sel) && all_valid(texts)) == both
            &&& both ==> spliced(after_cut, a, a, fresh_lines(texts)) == spliced(s, a, sel.1 as int, fresh_lines(texts))
        }),
{
    let a = sel.0 - 1;
    if selection_valid(s.len(), sel) {
        let after_cut = spliced(s, a, sel.1 as int, Seq::empty());
        assert(spliced(after_cut, a, a, fresh_lines(texts)) =~= spliced(s, a, sel.1 as int, fresh_lines(texts)));
    }
}

/// A change makes the text unsaved: after a snapshotting edit the viewed
/// snapshot is not the saved one (when the saved snapshot exists).
pub proof fn law_edit_unsaves(old: Ed, new: Ed, cause: Seq<char>, lines: Seq<LineView>)
    requires
        old.wf(),
        new.edited(old, cause, lines),
        !old.history.paused(),
        old.history.saved_index() matches Some(i) ==> i < old.history.states().len(),
    ensures
        new.history.saved_index() != Some(new.history.viewed() as usize),
{
    old.history.lemma_wf();
    new.history.lemma_wf();
    law_edit_keeps_history(old, new, cause, lines);
}

/// The history index `u` takes when given nothing parses as none.
proof fn lemma_empty_history_index()
    ensures
        parse_history_index_spec(Seq::empty()) == Ok::<(int, Option<crate::cmd::undo_index::HistoryIndV>), crate::cmd::selection::IndexFault>((0, None)),
        flags_ok(Seq::<char>::empty(), Seq::<char>::empty()),
{
    assert(trim_newlines(Seq::<char>::empty()) == Seq::<char>::empty());
}

/// Undo gives back the text from before a change: after a snapshotting
/// edit made while viewing the newest snapshot, `u` alone views the text
/// as it was.
pub proof fn law_edit_then_undo_restores(a: Ed, b: Ed, c: Ed, cause: Seq<char>, lines: Seq<LineView>, r: crate::error::EdResult<()>)
    requires
        a.wf(),
        b.edited(a, cause, lines),
        !a.history.paused(),
        a.history.viewed() == a.history.states().len() - 1,
        undo_outcome(b, c, false, Seq::empty(), r),
    ensures
        c.lines() == a.lines(),
        c.history.states() == b.history.states(),
{
    a.history.lemma_wf();
    b.history.lemma_wf();
    lemma_empty_history_index();
    reveal_strlit("");
    let n = a.history.states().len() as int;
    assert(b.history.states() =~= a.history.states().push(lines));
    assert(b.history.viewed() == n);
    assert(undo_target(None, n, (n + 1) as nat) == (n - 1) as usize);
}

/// Undoing and redoing the same number of steps views the same snapshot:
/// `History::set_viewed_i` to any snapshot and back restores the viewed
/// text, the history itself being unchanged by both.
pub proof fn law_undo_then_redo_restores(a: Ed, b: Ed, c: Ed)
    requires
        a.wf(),
        b.wf(),
        c.wf(),
        b.history.states() == a.history.states(),
        c.history.states() == b.history.states(),
        c.history.viewed() == a.history.viewed(),
    ensures
        c.lines() == a.lines(),
{
}

/// For [`VecBuffer`], snapshotting, editing and undoing one step gives back
/// the text from before the edit: `VecBuffer::snapshot` appends a copy of
/// the viewed text and views it, an edit changes only the viewed text, and
/// `VecBuffer::undo(1)` views the snapshot before.
pub proof fn law_vecbuffer_snapshot_edit_undo(v1: VecBuffer, v2: VecBuffer, v3: VecBuffer, v4: VecBuffer, lines: Seq<LineView>)
    requires
        0 <= v1.position() < v1.states().len(),
        v2.states() == v1.states().subrange(0, v1.position() + 1).push(v1.lines()),
        v2.position() == v1.position() + 1,
        v3.edited_from(v2, lines),
        v4.position() == v3.position() - 1,
        v4.states() == v3.states(),
    ensures
        v4.lines() == v1.lines(),
{
    assert(v4.states()[v4.position()] == v2.states()[v1.position()]);
}

/// Command substitution leaves a command without `%`, `!` or `\` as it
/// is.
pub proof fn law_plain_command_unchanged(c: Seq<char>, file: Seq<char>, prev: Seq<char>, i: int)
    requires
        0 <= i <= c.len(),
        forall|j: int| 0 <= j < c.len() ==> #[trigger] c[j] != '%' && c[j] != '!' && c[j] != '\\',
    ensures
        substituted_from(c, i, false, file, prev) == Ok::<Seq<char>, crate::cmd::path::SubstitutionFault>(c.subrange(i, c.len() as int)),
    decreases c.len() - i,
{
    if i < c.len() {
        law_plain_command_unchanged(c, file, prev, i + 1);
        assert(seq![c[i]] + c.subrange(i + 1, c.len() as int) =~= c.subrange(i, c.len() as int));
    } else {
        assert(c.subrange(i, c.len() as int) =~= Seq::<char>::empty());
    }
}

/// A snapshot taken while nothing changes can be dropped again: taking a
/// snapshot of the newest state appends a copy of it, so the last two
/// snapshots hold the same state and dropping the last one (as
/// `History::dedup_present` does) gives back the history as it was.
pub proof fn law_unchanged_snapshot_is_dropped(a: Ed)
    requires
        a.wf(),
        !a.history.paused(),
        a.history.viewed() == a.history.states().len() - 1,
    ensures
        ({
            let s = a.history.snapshot_states();
            &&& s.len() >= 2
            &&& s[s.len() - 1] == s[s.len() - 2]
            &&& s.drop_last() == a.history.states()
        }),
{
    a.history.lemma_wf();
    let s = a.history.snapshot_states();
    assert(s.drop_last() =~= a.history.states());
}

/// Whether the marks `m` hold a mark at depth `d`.
spec fn has_mark(m: Seq<bool>, d: int) -> bool {
    m.len() > d && m[d]
}

/// A line's marks at `depth` after marking hold a mark exactly when the
/// line was hit.
proof fn lemma_marks_after_marks(m: Seq<bool>, depth: nat, hit: bool)
    ensures
        ({
            let n = marks_after(m, depth, hit);
            &&& (n.len() > depth && n[depth as int]) == hit
            &&& n.len() <= depth + 1
            &&& forall|d: int| 0 <= d < depth ==> #[trigger] has_mark(n, d) == has_mark(m, d)
        }),
{
    let kept = if m.len() > depth { m.subrange(0, depth as int) } else { m };
    assert(kept.len() <= depth);
    if hit {
        let n = kept + Seq::new((depth - kept.len()) as nat, |i: int| false).push(true);
        assert(n.len() == depth + 1);
        assert(n[depth as int] == true);
        assert forall|d: int| 0 <= d < depth implies #[trigger] has_mark(n, d) == has_mark(m, d) by {
            if d < kept.len() {
                assert(n[d] == kept[d]);
            } else {
                assert(n[d] == false);
            }
        }
    }
}

/// Marking for `g`, `v`, `G` and `V` (`Buffer::mark_matching_at`, which
/// leaves `marked(..)`) marks at `depth` exactly the lines inside the
/// selection `sel` whose text the regex matches (`inverse`: does not
/// match); no line outside the selection is ever marked, and every line
/// keeps its text and tag.
pub proof fn law_marking_stays_in_selection(s: Seq<LineView>, pattern: Seq<char>, sel: (usize, usize), inverse: bool, depth: nat, i: int)
    requires
        0 <= i < s.len(),
    ensures
        ({
            let new = marked(s, pattern, sel, inverse, depth);
            &&& new.len() == s.len()
            &&& is_marked(new[i], depth) <==> (sel.0 - 1 <= i && i < sel.1 && regex_is_match(pattern, s[i].text) != inverse)
            &&& (i < sel.0 - 1 || i >= sel.1) ==> !is_marked(new[i], depth)
            &&& new[i].text == s[i].text
            &&& new[i].tag == s[i].tag
            &&& new[i].matched.len() <= depth + 1
            &&& forall|d: nat| d < depth ==> #[trigger] is_marked(new[i], d) == is_marked(s[i], d)
        }),
{
    lemma_marks_after_marks(s[i].matched, depth, mark_hit(s, pattern, sel, inverse, i));
    let new = marked(s, pattern, sel, inverse, depth);
    assert forall|d: nat| d < depth implies #[trigger] is_marked(new[i], d) == is_marked(s[i], d) by {
        assert(has_mark(new[i].matched, d as int) == has_mark(s[i].matched, d as int));
    }
}

/// An index with an offset denotes its base moved by exactly that offset:
/// `ind-o` is `o` lines before what `ind` denotes (line 0 when that would
/// be before the start), `ind+o` is `o` lines after (saturating at the
/// largest number); offsets of 0 change nothing, and errors of the base
/// are passed on. So `$-1` on a buffer of `k >= 1` lines is line `k - 1`;
/// a number `n` is line `n`, `.` the current line, `$` the last.
pub proof fn law_index_offsets(s: Seq<LineView>, base: IndV, o: usize, old: usize, n: usize)
    ensures
        ({
            let b = interpret_spec(s, base, old);
            let sub = interpret_spec(s, IndV::Sub(Box::new(base), o), old);
            let add = interpret_spec(s, IndV::Add(Box::new(base), o), old);
            &&& b is Err ==> sub == b && add == b
            &&& b matches Ok(v) ==> (sub matches Ok(w) && (if o <= v { w + o == v } else { w == 0 }))
            &&& b matches Ok(v) ==> (add matches Ok(w) && (if v + o <= usize::MAX { w == v + o } else { w == usize::MAX }))
            &&& o == 0 ==> sub == b && add == b
        }),
        1 <= s.len() <= usize::MAX ==> interpret_spec(s, IndV::Sub(Box::new(IndV::BufferLen), 1), old) == Ok::<usize, Lookup>((s.len() - 1) as usize),
        interpret_spec(s, IndV::BufferLen, old) == Ok::<usize, Lookup>(s.len() as usize),
        interpret_spec(s, IndV::Selection, old) == Ok::<usize, Lookup>(old),
        interpret_spec(s, IndV::Literal(n), old) == Ok::<usize, Lookup>(n),
{
}

/// Substitution in a shell command consumes only the escapes `\%` and
/// `\!`: a command with no `%` or `!` that doesn't end in a lone
/// backslash comes out exactly as given, every other escape (`\c`, and
/// `\\`) included.
pub proof fn law_other_escapes_kept(c: Seq<char>, file: Seq<char>, prev: Seq<char>)
    requires
        forall|j: int| 0 <= j < c.len() ==> #[trigger] c[j] != '%' && c[j] != '!',
        c.len() == 0 || c.last() != '\\',
    ensures
        substituted_from(c, 0, false, file, prev) == Ok::<Seq<char>, SubstitutionFault>(c),
{
    lemma_escapes_kept_from(c, file, prev, 0, false);
    assert(c.subrange(0, c.len() as int) =~= c);
}

proof fn lemma_escapes_kept_from(c: Seq<char>, file: Seq<char>, prev: Seq<char>, i: int, escaped: bool)
    requires
        0 <= i <= c.len(),
        forall|j: int| 0 <= j < c.len() ==> #[trigger] c[j] != '%' && c[j] != '!',
        c.len() == 0 || c.last() != '\\',
        escaped ==> i < c.len(),
    ensures
        substituted_from(c, i, escaped, file, prev) == Ok::<Seq<char>, SubstitutionFault>(
            (if escaped { seq!['\\'] } else { Seq::<char>::empty() }) + c.subrange(i, c.len() as int),
        ),
    decreases c.len() - i,
{
    if i < c.len() {
        let ch = c[i];
        let rest = c.subrange(i + 1, c.len() as int);
        assert(c.subrange(i, c.len() as int) =~= seq![ch] + rest);
        if ch == '\\' {
            if escaped {
                lemma_escapes_kept_from(c, file, prev, i + 1, false);
                assert(seq!['\\', '\\'] + (Seq::<char>::empty() + rest) =~= seq!['\\'] + (seq![ch] + rest));
            } else {
                assert(i + 1 < c.len());
                lemma_escapes_kept_from(c, file, prev, i + 1, true);
                assert(seq!['\\'] + rest =~= Seq::<char>::empty() + (seq![ch] + rest));
            }
        } else {
            lemma_escapes_kept_from(c, file, prev, i + 1, false);
            if escaped {
                assert(seq!['\\', ch] + (Seq::<char>::empty() + rest) =~= seq!['\\'] + (seq![ch] + rest));
            } else {
                assert(seq![ch] + (Seq::<char>::empty() + rest) =~= Seq::<char>::empty() + (seq![ch] + rest));
            }
        }
    } else {
        assert(c.subrange(i, c.len() as int) =~= Seq::<char>::empty());
        assert(Seq::<char>::empty() + Seq::<char>::empty() =~= Seq::<char>::empty());
    }
}

/// The history index `$` denotes the newest snapshot, `.` the one given
/// as current, and offsets move by exactly their amount (saturating).
pub proof fn law_history_indices(current: usize, len: usize, base: HistoryIndV, o: usize)
    requires
        len > 0,
    ensures
        interpret_history_spec(HistoryIndV::Last, current, len) + 1 == len,
        interpret_history_spec(HistoryIndV::Current, current, len) == current,
        ({
            let v = interpret_history_spec(base, current, len);
            let sub = interpret_history_spec(HistoryIndV::Sub(Box::new(base), o), current, len);
            let add = interpret_history_spec(HistoryIndV::Add(Box::new(base), o), current, len);
            &&& if o <= v { sub + o == v } else { sub == 0 }
            &&& if v + o <= usize::MAX { add == v + o } else { add == usize::MAX }
        }),
{
}

/// `u$` goes to the newest snapshot: when `u` with an argument that is `$`
/// succeeds, the newest snapshot is viewed, and the viewed lines are its.
pub proof fn law_undo_to_last_views_newest(old: Ed, new: Ed, arguments: Seq<char>, r: EdResult<()>)
    requires
        old.wf(),
        undo_outcome(old, new, false, arguments, r),
        parse_history_index_spec(arguments) matches Ok(p) && p.1 == Some(HistoryIndV::Last),
        r is Ok,
    ensures
        new.history.viewed() == new.history.states().len() - 1,
        new.history.states() == old.history.states(),
        new.lines() == old.history.states().last(),
{
    old.history.lemma_wf();
}

/// `z` shows the lines right after line `index`: as many as asked (`nr`),
/// as far as there are lines, starting with the next one; `Z` shows the
/// lines right before line `index`, ending with the one before it.
pub proof fn law_scroll_shows_next_lines(index: usize, nr: usize, len: nat)
    requires
        nr >= 1,
        len <= usize::MAX,
    ensures
        index < len ==> ({
            let to = scrolled(index, nr, true, len);
            &&& to.0 == index + 1
            &&& to.0 > index
            &&& to.1 - to.0 + 1 == (if nr <= len - index { nr as int } else { len - index })
        }),
        index == len ==> scrolled(index, nr, true, len) == (index, index),
        index > 1 ==> ({
            let to = scrolled(index, nr, false, len);
            &&& to.1 + 1 == index
            &&& to.0 == (if nr < index { index - nr } else { 1 })
        }),
{
}

/// A tag index `'t` denotes the first line tagged `t`, and fails exactly
/// when no line is; a pattern index `/re/` (`?re?`) denotes the nearest
/// line after (before) line `.` that the regex matches, none between them
/// matching.
pub proof fn law_searched_indices(s: Seq<LineView>, t: char, pattern: Seq<char>, old: usize)
    requires
        s.len() <= usize::MAX,
    ensures
        interpret_spec(s, IndV::Tag(t), old) matches Ok(k) ==> 1 <= k <= s.len() && s[k - 1].tag == t
            && forall|j: int| 0 <= j < k - 1 ==> #[trigger] s[j].tag != t,
        interpret_spec(s, IndV::Tag(t), old) is Err <==> forall|j: int| 0 <= j < s.len() ==> #[trigger] s[j].tag != t,
        interpret_spec(s, IndV::Pattern(pattern), old) matches Ok(k) ==> old < k <= s.len()
            && regex_is_match(pattern, s[k - 1].text)
            && forall|j: int| old < j < k ==> !regex_is_match(pattern, #[trigger] s[j - 1].text),
        interpret_spec(s, IndV::RevPattern(pattern), old) matches Ok(k) ==> 1 <= k < old
            && regex_is_match(pattern, s[k - 1].text)
            && forall|j: int| k < j < old ==> !regex_is_match(pattern, #[trigger] s[j - 1].text),
{
    if exists|k: int| first_tagged(s, t, k) {
        let c = choose|k: int| first_tagged(s, t, k);
        assert(first_tagged(s, t, c));
    }
    if old != 0 && old <= s.len() && regex_valid(pattern) {
        if exists|k: int| nearest_match(s, pattern, old as int, false, k) {
            let c = choose|k: int| nearest_match(s, pattern, old as int, false, k);
            assert(nearest_match(s, pattern, old as int, false, c));
        }
        if exists|k: int| nearest_match(s, pattern, old as int, true, k) {
            let c = choose|k: int| nearest_match(s, pattern, old as int, true, k);
            assert(nearest_match(s, pattern, old as int, true, c));
        }
    }
    if interpret_spec(s, IndV::Tag(t), old) is Err {
        assert forall|j: int| 0 <= j < s.len() implies #[trigger] s[j].tag != t by {
            if s[j].tag == t {
                lemma_first_tag_exists(s, t, j);
            }
        }
    }
}

/// If line `j` (0-based) is tagged `t`, some line is the first so tagged.
proof fn lemma_first_tag_exists(s: Seq<LineView>, t: char, j: int)
    requires
        0 <= j < s.len(),
        s[j].tag == t,
    ensures
        exists|k: int| first_tagged(s, t, k),
    decreases j,
{
    if forall|m: int| 0 <= m < j ==> #[trigger] s[m].tag != t {
        assert(first_tagged(s, t, j + 1));
    } else {
        let m = choose|m: int| 0 <= m < j && #[trigger] s[m].tag == t;
        lemma_first_tag_exists(s, t, m);
    }
}

/// Substitution in `a + b`, from a position in `b` on, is substitution in
/// `b` from there.
proof fn lemma_substitution_suffix(a: Seq<char>, b: Seq<char>, i: int, escaped: bool, file: Seq<char>, prev: Seq<char>)
    requires
        a.len() <= i <= a.len() + b.len(),
    ensures
        substituted_from(a + b, i, escaped, file, prev) == substituted_from(b, i - a.len(), escaped, file, prev),
    decreases a.len() + b.len() - i,
{
    if i < a.len() + b.len() {
        assert((a + b)[i] == b[i - a.len()]);
        lemma_substitution_suffix(a, b, i + 1, false, file, prev);
        lemma_substitution_suffix(a, b, i + 1, true, file, prev);
    }
}

/// Substitution in `a + b` where `a` holds no `%`, `!` or backslash, from
/// position `i` of `a` on: the rest of `a` as it is, then `b` substituted.
proof fn lemma_substitution_plain_prefix(a: Seq<char>, b: Seq<char>, i: int, file: Seq<char>, prev: Seq<char>)
    requires
        0 <= i <= a.len(),
        forall|j: int| 0 <= j < a.len() ==> #[trigger] a[j] != '%' && a[j] != '!' && a[j] != '\\',
    ensures
        substituted_from(a + b, i, false, file, prev) == prefixed(a.subrange(i, a.len() as int), substituted_from(b, 0, false, file, prev)),
    decreases a.len() - i,
{
    if i < a.len() {
        assert((a + b)[i] == a[i]);
        lemma_substitution_plain_prefix(a, b, i + 1, file, prev);
        let rest = a.subrange(i + 1, a.len() as int);
        assert(seq![a[i]] + rest =~= a.subrange(i, a.len() as int));
        match substituted_from(b, 0, false, file, prev) {
            Ok(x) => {
                assert(seq![a[i]] + (rest + x) =~= a.subrange(i, a.len() as int) + x);
            },
            Err(_) => {},
        }
    } else {
        lemma_substitution_suffix(a, b, i, false, file, prev);
        assert(a.subrange(i, a.len() as int) =~= Seq::<char>::empty());
        match substituted_from(b, 0, false, file, prev) {
            Ok(x) => {
                assert(Seq::<char>::empty() + x =~= x);
            },
            Err(_) => {},
        }
    }
}

/// What the substitutions in a shell command do: `%` becomes the file
/// (an error when there is none), `!` the previous command (an error when
/// there is none), `\%` and `\!` a plain `%` and `!`, `\\` stays `\\`;
/// and text free of these passes through in front of whatever follows.
pub proof fn law_substitution_pieces(a: Seq<char>, b: Seq<char>, file: Seq<char>, prev: Seq<char>)
    requires
        forall|j: int| 0 <= j < a.len() ==> #[trigger] a[j] != '%' && a[j] != '!' && a[j] != '\\',
    ensures
        substituted_from(a + b, 0, false, file, prev) == prefixed(a, substituted_from(b, 0, false, file, prev)),
        substituted_from(seq!['%'], 0, false, file, prev) == (if file.len() == 0 {
            Err::<Seq<char>, SubstitutionFault>(SubstitutionFault::FileUnset)
        } else {
            Ok::<Seq<char>, SubstitutionFault>(file)
        }),
        substituted_from(seq!['!'], 0, false, file, prev) == (if prev.len() == 0 {
            Err::<Seq<char>, SubstitutionFault>(SubstitutionFault::CommandUnset)
        } else {
            Ok::<Seq<char>, SubstitutionFault>(prev)
        }),
        substituted_from(seq!['\\', '%'], 0, false, file, prev) == Ok::<Seq<char>, SubstitutionFault>(seq!['%']),
        substituted_from(seq!['\\', '!'], 0, false, file, prev) == Ok::<Seq<char>, SubstitutionFault>(seq!['!']),
        substituted_from(seq!['\\', '\\'], 0, false, file, prev) == Ok::<Seq<char>, SubstitutionFault>(seq!['\\', '\\']),
{
    lemma_substitution_plain_prefix(a, b, 0, file, prev);
    assert(a.subrange(0, a.len() as int) =~= a);
    let e = Seq::<char>::empty();
    assert(substituted_from(seq!['%'], 1, false, file, prev) == Ok::<Seq<char>, SubstitutionFault>(e));
    assert(substituted_from(seq!['!'], 1, false, file, prev) == Ok::<Seq<char>, SubstitutionFault>(e));
    assert(file + e =~= file);
    assert(prev + e =~= prev);
    assert(substituted_from(seq!['\\', '%'], 2, false, file, prev) == Ok::<Seq<char>, SubstitutionFault>(e));
    assert(substituted_from(seq!['\\', '%'], 1, true, file, prev) == Ok::<Seq<char>, SubstitutionFault>(seq!['%'] + e));
    assert(seq!['%'] + e =~= seq!['%']);
    assert(substituted_from(seq!['\\', '!'], 2, false, file, prev) == Ok::<Seq<char>, SubstitutionFault>(e));
    assert(substituted_from(seq!['\\', '!'], 1, true, file, prev) == Ok::<Seq<char>, SubstitutionFault>(seq!['!'] + e));
    assert(seq!['!'] + e =~= seq!['!']);
    assert(substituted_from(seq!['\\', '\\'], 2, false, file, prev) == Ok::<Seq<char>, SubstitutionFault>(e));
    assert(substituted_from(seq!['\\', '\\'], 1, true, file, prev) == Ok::<Seq<char>, SubstitutionFault>(seq!['\\', '\\'] + e));
    assert(seq!['\\', '\\'] + e =~= seq!['\\', '\\']);
}

/// A selection denotes the lines its two indices denote (a lone index
/// that line twice); no selection is the current one; an index that
/// can't be interpreted makes the selection fail with its error.
pub proof fn law_selection_ends(s: Seq<LineView>, a: IndV, b: IndV, old: (usize, usize))
    ensures
        interpret_selection_spec(s, None, old) == Ok::<(usize, usize), Lookup>(old),
        interpret_spec(s, a, old.0) matches Ok(x) ==> interpret_selection_spec(s, Some(SelV::Lone(a)), old)
            == Ok::<(usize, usize), Lookup>((x, x)),
        interpret_spec(s, a, old.0) is Ok && interpret_spec(s, b, old.1) is Ok ==> interpret_selection_spec(
            s,
            Some(SelV::Pair(a, b)),
            old,
        ) == Ok::<(usize, usize), Lookup>((interpret_spec(s, a, old.0)->Ok_0, interpret_spec(s, b, old.1)->Ok_0)),
        interpret_spec(s, a, old.0) matches Err(f) ==> interpret_selection_spec(s, Some(SelV::Pair(a, b)), old)
            == Err::<(usize, usize), Lookup>(f),
{
}

} // verus!
