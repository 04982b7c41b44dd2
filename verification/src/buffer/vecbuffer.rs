//! Holds the [`VecBuffer`], a vector based buffer with undo history and a
//! clipboard, whose errors are constant strings.
use vstd::prelude::*;
use crate::buffer::buffer::{Buffer, lines_view, pub_view, selection_valid, index_valid, line_valid};
use crate::buffer::editing::{
    strings_view, fresh_lines, all_valid, joined_line, reflowed_lines,
    terminated_lines, concat_texts, lines_from_pieces, selection_text, lemma_lines_view_splice,
};
use crate::buffer::finding::{first_tagged, has_tag, nearest_match, any_match, marked, mark_hit, is_marked, unmarked_upto};
use crate::buffer::iters::TaggedLinesIter;
use crate::buffer::line::{Line, LineView};
use crate::buffer::substitute::{substitute, unescaped};
use crate::buffer::verify::{verify_index, verify_line, verify_selection, selection_check, line_check};
use crate::error::EdError;
use crate::error_consts::{
    INDEX_TOO_BIG, INVALID_LINE_TEXT, INVALID_REGEX, INVALID_UNDO_STEPS, MOVE_INTO_SELF, NO_MATCH,
    UNDO_HISTORY_TOO_LARGE,
};
use crate::text::{
    chars_of, lines_of, split_lines, string_from_chars, compile_pattern, pattern_is_match,
    pattern_replace_all, pattern_replace_first, regex_valid, regex_is_match, regex_replace_all,
    regex_replace_first,
};
use crate::vecops::{spliced, moved, splice};

verus! {

/// VecBuffer, the default buffer implementation: a vector of snapshots of
/// the text, one of which is viewed (and edited), a clipboard and a flag
/// for whether the text is saved.
pub struct VecBuffer {
    saved: bool,
    history: Vec<Buffer>,
    buffer_i: usize,
    clipboard: Vec<Line>,
}

impl VecBuffer {
    #[verifier::type_invariant]
    spec fn inv(&self) -> bool {
        self.history@.len() >= 1 && self.buffer_i < self.history@.len()
    }

    /// The snapshots of the text, oldest first.
    pub closed spec fn states(&self) -> Seq<Seq<LineView>> {
        self.history@.map_values(|b: Buffer| b@)
    }

    /// The index of the viewed snapshot.
    pub closed spec fn position(&self) -> int {
        self.buffer_i as int
    }

    /// The lines in the clipboard.
    pub closed spec fn clip(&self) -> Seq<LineView> {
        lines_view(self.clipboard@)
    }

    /// Whether the text is considered saved.
    pub closed spec fn is_saved(&self) -> bool {
        self.saved
    }

    /// The viewed text.
    pub open spec fn lines(&self) -> Seq<LineView> {
        self.states()[self.position()]
    }

    /// `self` is `old` with only its viewed text replaced by `lines` (and
    /// the saved flag cleared).
    pub open spec fn edited_from(&self, old: VecBuffer, lines: Seq<LineView>) -> bool {
        &&& self.states() == old.states().update(old.position(), lines)
        &&& self.position() == old.position()
        &&& !self.is_saved()
    }

    /// Create a new empty buffer. It is considered saved while unchanged.
    pub fn new() -> (b: VecBuffer)
        ensures
            b.states() == seq![Seq::<LineView>::empty()],
            b.position() == 0,
            b.clip() == Seq::<LineView>::empty(),
            b.is_saved(),
    {
        let mut history = Vec::new();
        history.push(Buffer::new());
        let b = VecBuffer { saved: true, history, buffer_i: 0, clipboard: Vec::new() };
        assert(b.states() =~= seq![Seq::<LineView>::empty()]);
        assert(b.clip() =~= Seq::<LineView>::empty());
        b
    }

    /// Number of lines in the viewed text.
    pub fn len(&self) -> (n: usize)
        ensures
            n == self.lines().len(),
            0 <= self.position() < self.states().len(),
    {
        proof {
            use_type_invariant(self);
        }
        self.history[self.buffer_i].len()
    }

    /// Whether the viewed text has no lines.
    pub fn is_empty(&self) -> (b: bool)
        ensures
            b == (self.lines().len() == 0),
    {
        self.len() == 0
    }

    /// Whether the text is considered saved.
    pub fn saved(&self) -> (b: bool)
        ensures
            b == self.is_saved(),
    {
        self.saved
    }

    /// The viewed text as a [`Buffer`].
    fn current(&self) -> (b: &Buffer)
        ensures
            b@ == self.lines(),
    {
        proof {
            use_type_invariant(self);
        }
        &self.history[self.buffer_i]
    }

    /// `self` is `old` unchanged.
    pub open spec fn same_as(&self, old: VecBuffer) -> bool {
        &&& self.states() == old.states()
        &&& self.position() == old.position()
        &&& self.clip() == old.clip()
        &&& self.is_saved() == old.is_saved()
    }

    /// The first line tagged `tag`.
    pub fn get_tag(&self, tag: char) -> (r: Result<usize, &'static str>)
        ensures
            r is Ok <==> has_tag(self.lines(), tag),
            r matches Ok(k) ==> first_tagged(self.lines(), tag, k as int),
            r is Err ==> r == Err::<usize, &'static str>(NO_MATCH),
    {
        match self.current().get_tag(tag) {
            Ok(k) => Ok(k),
            Err(_) => Err(NO_MATCH),
        }
    }

    /// The nearest line after (or, `backwards`, before) line `curr_line`
    /// that the regex `pattern` matches.
    pub fn get_matching(&self, pattern: &str, curr_line: usize, backwards: bool) -> (r: Result<usize, &'static str>)
        ensures
            r is Ok <==> curr_line <= self.lines().len() && regex_valid(pattern@)
                && any_match(self.lines(), pattern@, curr_line as int, backwards),
            r matches Ok(k) ==> nearest_match(self.lines(), pattern@, curr_line as int, backwards, k as int),
            r matches Err(e) ==> e == (if curr_line > self.lines().len() {
                INDEX_TOO_BIG
            } else if !regex_valid(pattern@) {
                INVALID_REGEX
            } else {
                NO_MATCH
            }),
    {
        if let Err(e) = verify_index(self, curr_line) {
            return Err(e);
        }
        match self.current().get_matching(pattern, curr_line, backwards) {
            Ok(k) => Ok(k),
            Err(EdError::RegexInvalid { .. }) => Err(INVALID_REGEX),
            Err(_) => Err(NO_MATCH),
        }
    }

    /// The viewed text as a mutable [`Buffer`], with the snapshot index.
    fn edit_state(&mut self) -> (i: usize)
        ensures
            i == old(self).position(),
            i < old(self).states().len(),
            final(self).same_as(*old(self)),
    {
        proof {
            use_type_invariant(&*self);
        }
        self.buffer_i
    }

    /// Sets the tag of line `index`.
    pub fn tag_line(&mut self, index: usize, tag: char) -> (r: Result<(), &'static str>)
        ensures
            r matches Err(e) ==> line_check(old(self).lines().len(), index) == Some(e) && final(self).same_as(*old(self)),
            r is Ok ==> line_check(old(self).lines().len(), index) is None
                && final(self).states() == old(self).states().update(
                    old(self).position(),
                    old(self).lines().update(index - 1, LineView { tag, ..old(self).lines()[index - 1] }),
                ) && final(self).position() == old(self).position() && final(self).clip() == old(self).clip()
                && final(self).is_saved() == old(self).is_saved(),
    {
        if let Err(e) = verify_line(self, index) {
            return Err(e);
        }
        let i = self.edit_state();
        let ghost before = self.history@;
        let _ = self.history[i].tag_line(index, tag);
        assert(self.states() =~= old(self).states().update(i as int, self.history@[i as int]@));
        Ok(())
    }

    /// Inserts the given lines after line `index` (0 inserts before the
    /// first line). Every text must be exactly one newline terminated line.
    pub fn insert(&mut self, data: Vec<&str>, index: usize) -> (r: Result<(), &'static str>)
        ensures
            r is Ok <==> index <= old(self).lines().len() && all_valid(strs_view(data@)),
            r matches Err(e) ==> final(self).same_as(*old(self)) && e == (if index > old(self).lines().len() {
                INDEX_TOO_BIG
            } else {
                INVALID_LINE_TEXT
            }),
            r is Ok ==> final(self).edited_from(*old(self), spliced(
                old(self).lines(),
                index as int,
                index as int,
                fresh_lines(strs_view(data@)),
            )) && final(self).clip() == old(self).clip(),
    {
        if let Err(e) = verify_index(self, index) {
            return Err(e);
        }
        let owned = to_strings(&data);
        let i = self.edit_state();
        match self.history[i].insert(owned, index) {
            Ok(()) => {},
            Err(_) => {
                assert(self.states() =~= old(self).states());
                return Err(INVALID_LINE_TEXT);
            },
        }
        self.saved = false;
        assert(self.states() =~= old(self).states().update(i as int, self.history@[i as int]@));
        Ok(())
    }

    /// Cuts the selected lines into the clipboard.
    pub fn cut(&mut self, selection: (usize, usize)) -> (r: Result<(), &'static str>)
        ensures
            r matches Err(e) ==> selection_check(old(self).lines().len(), selection) == Some(e)
                && final(self).same_as(*old(self)),
            r is Ok ==> selection_check(old(self).lines().len(), selection) is None
                && final(self).edited_from(*old(self), spliced(
                    old(self).lines(),
                    selection.0 - 1,
                    selection.1 as int,
                    Seq::empty(),
                )) && final(self).clip() == old(self).lines().subrange(selection.0 - 1, selection.1 as int),
    {
        if let Err(e) = verify_selection(self, selection) {
            return Err(e);
        }
        let i = self.edit_state();
        match self.history[i].cut(selection) {
            Ok(c) => {
                self.clipboard = c;
            },
            Err(_) => {
                assert(false);
                return Err(INDEX_TOO_BIG);
            },
        }
        self.saved = false;
        assert(self.states() =~= old(self).states().update(i as int, self.history@[i as int]@));
        Ok(())
    }

    /// Replaces the selected lines with the given ones, cutting them into
    /// the clipboard.
    pub fn change(&mut self, data: Vec<&str>, selection: (usize, usize)) -> (r: Result<(), &'static str>)
        ensures
            r is Ok <==> selection_check(old(self).lines().len(), selection) is None && all_valid(strs_view(data@)),
            r matches Err(e) ==> final(self).same_as(*old(self)) && (selection_check(old(self).lines().len(), selection) == Some(e)
                || (selection_check(old(self).lines().len(), selection) is None && e == INVALID_LINE_TEXT)),
            r is Ok ==> final(self).edited_from(*old(self), spliced(
                old(self).lines(),
                selection.0 - 1,
                selection.1 as int,
                fresh_lines(strs_view(data@)),
            )) && final(self).clip() == old(self).lines().subrange(selection.0 - 1, selection.1 as int),
    {
        if let Err(e) = verify_selection(self, selection) {
            return Err(e);
        }
        let owned = to_strings(&data);
        let i = self.edit_state();
        match self.history[i].change(owned, selection) {
            Ok(c) => {
                self.clipboard = c;
            },
            Err(_) => {
                assert(self.states() =~= old(self).states());
                return Err(INVALID_LINE_TEXT);
            },
        }
        self.saved = false;
        assert(self.states() =~= old(self).states().update(i as int, self.history@[i as int]@));
        Ok(())
    }

    /// Moves the selected lines to after line `index`.
    pub fn mov(&mut self, selection: (usize, usize), index: usize) -> (r: Result<(), &'static str>)
        ensures
            r is Ok <==> selection_check(old(self).lines().len(), selection) is None
                && index <= old(self).lines().len() && (index < selection.0 || index >= selection.1),
            r matches Err(e) ==> final(self).same_as(*old(self)) && e == (if selection_check(old(self).lines().len(), selection) is Some {
                selection_check(old(self).lines().len(), selection)->0
            } else if index > old(self).lines().len() {
                INDEX_TOO_BIG
            } else {
                MOVE_INTO_SELF
            }),
            r is Ok ==> final(self).edited_from(*old(self), moved(
                old(self).lines(),
                selection.0 - 1,
                selection.1 as int,
                index as int,
            )) && final(self).clip() == old(self).clip(),
    {
        if let Err(e) = verify_selection(self, selection) {
            return Err(e);
        }
        if let Err(e) = verify_index(self, index) {
            return Err(e);
        }
        if !(index < selection.0 || index >= selection.1) {
            return Err(MOVE_INTO_SELF);
        }
        let i = self.edit_state();
        let _ = self.history[i].mov(selection, index);
        self.saved = false;
        assert(self.states() =~= old(self).states().update(i as int, self.history@[i as int]@));
        Ok(())
    }

    /// Inserts a copy of the selected lines after line `index`.
    pub fn mov_copy(&mut self, selection: (usize, usize), index: usize) -> (r: Result<(), &'static str>)
        ensures
            r is Ok <==> selection_check(old(self).lines().len(), selection) is None
                && index <= old(self).lines().len(),
            r matches Err(e) ==> final(self).same_as(*old(self)) && e == (if selection_check(old(self).lines().len(), selection) is Some {
                selection_check(old(self).lines().len(), selection)->0
            } else {
                INDEX_TOO_BIG
            }),
            r is Ok ==> final(self).edited_from(*old(self), spliced(
                old(self).lines(),
                index as int,
                index as int,
                old(self).lines().subrange(selection.0 - 1, selection.1 as int),
            )) && final(self).clip() == old(self).clip(),
    {
        if let Err(e) = verify_selection(self, selection) {
            return Err(e);
        }
        if let Err(e) = verify_index(self, index) {
            return Err(e);
        }
        let i = self.edit_state();
        let _ = self.history[i].mov_copy(selection, index);
        self.saved = false;
        assert(self.states() =~= old(self).states().update(i as int, self.history@[i as int]@));
        Ok(())
    }

    /// Copies the selected lines into the clipboard.
    pub fn copy(&mut self, selection: (usize, usize)) -> (r: Result<(), &'static str>)
        ensures
            r matches Err(e) ==> selection_check(old(self).lines().len(), selection) == Some(e)
                && final(self).same_as(*old(self)),
            r is Ok ==> selection_check(old(self).lines().len(), selection) is None
                && final(self).states() == old(self).states() && final(self).position() == old(self).position()
                && final(self).is_saved() == old(self).is_saved()
                && final(self).clip() == old(self).lines().subrange(selection.0 - 1, selection.1 as int),
    {
        if let Err(e) = verify_selection(self, selection) {
            return Err(e);
        }
        let i = self.edit_state();
        match self.history[i].copy(selection) {
            Ok(c) => {
                self.clipboard = c;
            },
            Err(_) => {
                assert(false);
                return Err(INDEX_TOO_BIG);
            },
        }
        Ok(())
    }

    /// Inserts copies of the clipboard's lines after line `index`, returning
    /// how many were inserted.
    pub fn paste(&mut self, index: usize) -> (r: Result<usize, &'static str>)
        ensures
            r is Ok <==> index <= old(self).lines().len(),
            r is Err ==> r == Err::<usize, &'static str>(INDEX_TOO_BIG) && final(self).same_as(*old(self)),
            r matches Ok(n) ==> n == old(self).clip().len() && final(self).edited_from(*old(self), spliced(
                old(self).lines(),
                index as int,
                index as int,
                old(self).clip(),
            )) && final(self).clip() == old(self).clip(),
    {
        if let Err(e) = verify_index(self, index) {
            return Err(e);
        }
        let i = self.edit_state();
        let n = match self.history[i].paste(index, &self.clipboard) {
            Ok(n) => n,
            Err(_) => {
                assert(false);
                return Err(INDEX_TOO_BIG);
            },
        };
        self.saved = false;
        assert(self.states() =~= old(self).states().update(i as int, self.history@[i as int]@));
        Ok(n)
    }

    /// Joins the selected lines into one.
    pub fn join(&mut self, selection: (usize, usize)) -> (r: Result<(), &'static str>)
        ensures
            r matches Err(e) ==> selection_check(old(self).lines().len(), selection) == Some(e)
                && final(self).same_as(*old(self)),
            r is Ok ==> selection_check(old(self).lines().len(), selection) is None
                && final(self).edited_from(*old(self), spliced(
                    old(self).lines(),
                    selection.0 - 1,
                    selection.1 as int,
                    seq![joined_line(old(self).lines(), selection.0 - 1, selection.1 as int)],
                )) && final(self).clip() == old(self).clip(),
    {
        if let Err(e) = verify_selection(self, selection) {
            return Err(e);
        }
        let i = self.edit_state();
        let _ = self.history[i].join(selection);
        self.saved = false;
        assert(self.states() =~= old(self).states().update(i as int, self.history@[i as int]@));
        Ok(())
    }

    /// Reflows the selected lines within `width` columns, returning the new
    /// end of the reflowed lines.
    pub fn reflow(&mut self, selection: (usize, usize), width: usize) -> (r: Result<usize, &'static str>)
        ensures
            r matches Err(e) ==> selection_check(old(self).lines().len(), selection) == Some(e)
                && final(self).same_as(*old(self)),
            r matches Ok(end) ==> {
                let new = reflowed_lines(old(self).lines(), selection.0 - 1, selection.1 as int, width as int);
                &&& selection_check(old(self).lines().len(), selection) is None
                &&& final(self).edited_from(*old(self), spliced(old(self).lines(), selection.0 - 1, selection.1 as int, new))
                &&& final(self).clip() == old(self).clip()
                &&& end == selection.0 - 1 + new.len()
            },
    {
        if let Err(e) = verify_selection(self, selection) {
            return Err(e);
        }
        let i = self.edit_state();
        let end = match self.history[i].reflow(selection, width) {
            Ok((end, _)) => end,
            Err(_) => {
                assert(false);
                return Err(INDEX_TOO_BIG);
            },
        };
        self.saved = false;
        assert(self.states() =~= old(self).states().update(i as int, self.history@[i as int]@));
        Ok(end)
    }

    /// The tags and texts of the selected lines.
    pub fn get_selection(&self, selection: (usize, usize)) -> (r: Result<TaggedLinesIter<'_>, &'static str>)
        ensures
            r matches Err(e) ==> selection_check(self.lines().len(), selection) == Some(e),
            r matches Ok(it) ==> selection_check(self.lines().len(), selection) is None
                && it@ == self.lines().subrange(selection.0 - 1, selection.1 as int).map_values(|l: LineView| pub_view(l)),
    {
        if let Err(e) = verify_selection(self, selection) {
            return Err(e);
        }
        match self.current().get_tagged_lines(selection) {
            Ok(it) => Ok(it),
            Err(_) => {
                assert(false);
                Err(INDEX_TOO_BIG)
            },
        }
    }
}

/// The text a [`VecBuffer`] substitution works on: the selected lines'
/// texts run together, without the final newline (which thus can't be
/// matched or removed).
pub open spec fn substitution_source(s: Seq<LineView>, a: int, b: int) -> Seq<char> {
    let t = selection_text(s, a, b);
    if t.len() > 0 { t.drop_last() } else { t }
}

/// The substitution result for a [`VecBuffer`].
pub open spec fn vec_substituted(pattern: Seq<char>, text: Seq<char>, replacement: Seq<char>, global: bool) -> Seq<char> {
    if global {
        regex_replace_all(pattern, text, unescaped(replacement, false))
    } else {
        regex_replace_first(pattern, text, unescaped(replacement, false))
    }
}

impl VecBuffer {
    /// Marks the lines of `selection` that the regex `pattern` matches (or,
    /// `inverse`, doesn't), unmarking all others.
    pub fn mark_matching(&mut self, pattern: &str, selection: (usize, usize), inverse: bool) -> (r: Result<(), &'static str>)
        ensures
            r is Ok <==> selection_check(old(self).lines().len(), selection) is None && regex_valid(pattern@),
            r matches Err(e) ==> final(self).same_as(*old(self)) && (selection_check(old(self).lines().len(), selection) == Some(e)
                || (selection_check(old(self).lines().len(), selection) is None && e == INVALID_REGEX)),
            r is Ok ==> final(self).states() == old(self).states().update(
                old(self).position(),
                marked(old(self).lines(), pattern@, selection, inverse, 0),
            ) && final(self).position() == old(self).position() && final(self).clip() == old(self).clip()
                && final(self).is_saved() == old(self).is_saved(),
    {
        if let Err(e) = verify_selection(self, selection) {
            return Err(e);
        }
        let i = self.edit_state();
        let res = self.history[i].mark_matching_at(pattern, selection, inverse, 0);
        assert(self.states() =~= old(self).states().update(i as int, self.history@[i as int]@));
        match res {
            Err(EdError::RegexInvalid { .. }) => {
                assert(self.states() =~= old(self).states());
                Err(INVALID_REGEX)
            },
            _ => Ok(()),
        }
    }

    /// The first marked line, if any, unmarking it and all lines before it.
    pub fn get_marked(&mut self) -> (r: Result<Option<usize>, &'static str>)
        ensures
            r is Ok,
            r matches Ok(Some(k)) ==> 1 <= k <= old(self).lines().len() && is_marked(old(self).lines()[k - 1], 0)
                && (forall|j: int| 0 <= j < k - 1 ==> !is_marked(#[trigger] old(self).lines()[j], 0))
                && final(self).states() == old(self).states().update(old(self).position(), unmarked_upto(old(self).lines(), 0, k as int)),
            r matches Ok(None) ==> (forall|j: int| 0 <= j < old(self).lines().len() ==> !is_marked(#[trigger] old(self).lines()[j], 0))
                && final(self).states() == old(self).states().update(old(self).position(), unmarked_upto(old(self).lines(), 0, old(self).lines().len() as int)),
            final(self).position() == old(self).position(),
            final(self).clip() == old(self).clip(),
            final(self).is_saved() == old(self).is_saved(),
    {
        let i = self.edit_state();
        let r = self.history[i].get_marked_at(0);
        assert(self.states() =~= old(self).states().update(i as int, self.history@[i as int]@));
        Ok(r)
    }

    /// Substitutes `pattern.1` (escapes interpreted) for the first, or every
    /// (`global`), match of the regex `pattern.0` in the selected lines' text
    /// (without its final newline), returning the new end of the selection.
    ///
    /// Once the selection is found valid the text counts as unsaved, even if
    /// the regex is then refused or doesn't match.
    pub fn search_replace(&mut self, pattern: (&str, &str), selection: (usize, usize), global: bool) -> (r: Result<usize, &'static str>)
        ensures
            r is Ok <==> selection_check(old(self).lines().len(), selection) is None && regex_valid(pattern.0@)
                && regex_is_match(pattern.0@, substitution_source(old(self).lines(), selection.0 - 1, selection.1 as int)),
            r matches Err(e) ==> final(self).states() == old(self).states() && final(self).position() == old(self).position()
                && final(self).clip() == old(self).clip() && if selection_check(old(self).lines().len(), selection) is Some {
                    selection_check(old(self).lines().len(), selection) == Some(e) && final(self).is_saved() == old(self).is_saved()
                } else {
                    !final(self).is_saved() && e == (if !regex_valid(pattern.0@) { INVALID_REGEX } else { NO_MATCH })
                },
            r matches Ok(end) ==> {
                let text = substitution_source(old(self).lines(), selection.0 - 1, selection.1 as int);
                let new = terminated_lines(lines_of(vec_substituted(pattern.0@, text, pattern.1@, global)));
                &&& final(self).edited_from(*old(self), spliced(old(self).lines(), selection.0 - 1, selection.1 as int, new))
                &&& final(self).clip() == old(self).clip()
                &&& end == selection.0 - 1 + new.len()
            },
    {
        if let Err(e) = verify_selection(self, selection) {
            return Err(e);
        }
        proof {
            use_type_invariant(&*self);
        }
        self.saved = false;
        let regex = match compile_pattern(pattern.0) {
            Ok(p) => p,
            Err(_) => {
                return Err(INVALID_REGEX);
            },
        };
        let i = self.edit_state();
        let a = selection.0 - 1;
        let b = selection.1;
        let ghost lines = self.history@[i as int].inner@;
        let mut all = concat_texts(&self.history[i].inner, a, b);
        proof {
            assert(lines_view(lines).subrange(a as int, b as int) =~= self.lines().subrange(a as int, b as int));
        }
        if all.len() > 0 {
            all.pop();
        }
        let joined = string_from_chars(all.as_slice());
        if !pattern_is_match(&regex, joined.as_str()) {
            return Err(NO_MATCH);
        }
        let replace = substitute(pattern.1);
        let after = if global {
            pattern_replace_all(&regex, joined.as_str(), replace.as_str())
        } else {
            pattern_replace_first(&regex, joined.as_str(), replace.as_str())
        };
        let after_chars = chars_of(after.as_str());
        let pieces = split_lines(&after_chars);
        let new = lines_from_pieces(pieces, Ghost(after_chars@));
        let ghost newv = new@;
        proof {
            assert(new@.len() == lines_view(new@).len());
            lemma_lines_view_splice(lines, a as int, b as int, new@);
        }
        let len_before = self.history[i].inner.len();
        let _ = splice(&mut self.history[i].inner, a, b, new);
        let end = self.history[i].inner.len() - (len_before - b);
        assert(self.states() =~= old(self).states().update(i as int, self.history@[i as int]@));
        Ok(end)
    }
}

impl VecBuffer {
    /// The numbers of steps [`VecBuffer::undo`] accepts: positive to undo
    /// (at most back to the first snapshot), negative to redo (at most to
    /// the last one), as the range `pos - len + 1 .. pos + 1`.
    pub fn undo_range(&self) -> (r: Result<core::ops::Range<isize>, &'static str>)
        ensures
            r is Ok <==> old_len_ok(self.states().len() as int),
            r is Err ==> r == Err::<core::ops::Range<isize>, &'static str>(UNDO_HISTORY_TOO_LARGE),
            r matches Ok(range) ==> range.start == self.position() - self.states().len() + 1
                && range.end == self.position() + 1,
    {
        proof {
            use_type_invariant(self);
        }
        if self.history.len() < isize::MAX as usize && self.buffer_i < self.history.len() {
            let len = self.history.len() as isize;
            let pos = self.buffer_i as isize;
            Ok(core::ops::Range { start: pos - len + 1, end: pos + 1 })
        } else {
            Err(UNDO_HISTORY_TOO_LARGE)
        }
    }

    /// Views the snapshot `steps` before (negative: after) the viewed one.
    ///
    /// Errors if there is no such snapshot. The text counts as unsaved
    /// after.
    pub fn undo(&mut self, steps: isize) -> (r: Result<(), &'static str>)
        ensures
            r is Ok <==> old_len_ok(old(self).states().len() as int) && 0 <= old(self).position() - steps < old(self).states().len(),
            r matches Err(e) ==> final(self).same_as(*old(self)) && e == (if !old_len_ok(old(self).states().len() as int) {
                UNDO_HISTORY_TOO_LARGE
            } else {
                INVALID_UNDO_STEPS
            }),
            r is Ok ==> final(self).position() == old(self).position() - steps && final(self).states()
                == old(self).states() && final(self).clip() == old(self).clip() && !final(self).is_saved(),
    {
        let range = match self.undo_range() {
            Ok(r) => r,
            Err(e) => {
                return Err(e);
            },
        };
        if !(range.start <= steps && steps < range.end) {
            return Err(INVALID_UNDO_STEPS);
        }
        proof {
            use_type_invariant(&*self);
        }
        self.saved = false;
        if steps < 0 {
            self.buffer_i = self.buffer_i + ((0 - steps) as usize);
        } else {
            self.buffer_i = self.buffer_i - (steps as usize);
        }
        Ok(())
    }

    /// Puts lines read from a file into the buffer: after line `index`, or,
    /// when `index` is `None`, in place of the whole history, which then
    /// holds only them and counts as saved. Returns the number of lines.
    /// Every text must be exactly one newline terminated line.
    pub fn read_from(&mut self, data: Vec<&str>, index: Option<usize>) -> (r: Result<usize, &'static str>)
        ensures
            final(self).clip() == old(self).clip(),
            r matches Ok(n) ==> n == data@.len(),
            index matches Some(i) ==> {
                &&& r is Ok <==> i <= old(self).lines().len() && all_valid(strs_view(data@))
                &&& r matches Err(e) ==> final(self).same_as(*old(self)) && e == (if i > old(self).lines().len() {
                    INDEX_TOO_BIG
                } else {
                    INVALID_LINE_TEXT
                })
                &&& r is Ok ==> final(self).edited_from(*old(self), spliced(
                    old(self).lines(),
                    i as int,
                    i as int,
                    fresh_lines(strs_view(data@)),
                ))
            },
            index is None ==> {
                &&& r is Ok <==> all_valid(strs_view(data@))
                &&& final(self).position() == 0
                &&& r is Err ==> r == Err::<usize, &'static str>(INVALID_LINE_TEXT)
                    && final(self).states() == seq![Seq::<LineView>::empty()]
                    && final(self).is_saved() == old(self).is_saved()
                &&& r is Ok ==> final(self).states() == seq![fresh_lines(strs_view(data@))]
                    && final(self).is_saved()
            },
    {
        let n = data.len();
        match index {
            Some(i) => {
                match self.insert(data, i) {
                    Ok(()) => Ok(n),
                    Err(e) => Err(e),
                }
            },
            None => {
                let mut taken = VecBuffer::new();
                std::mem::swap(&mut taken, self);
                let VecBuffer { saved, history: _, buffer_i: _, clipboard } = taken;
                let mut history = Vec::new();
                history.push(Buffer::new());
                *self = VecBuffer { saved, history, buffer_i: 0, clipboard };
                assert(self.states() =~= seq![Seq::<LineView>::empty()]);
                match self.insert(data, 0) {
                    Ok(()) => {
                        proof {
                            use_type_invariant(&*self);
                        }
                        self.saved = true;
                        assert(spliced(Seq::<LineView>::empty(), 0, 0, fresh_lines(strs_view(data@)))
                            =~= fresh_lines(strs_view(data@)));
                        assert(self.states() =~= seq![fresh_lines(strs_view(data@))]);
                        Ok(n)
                    },
                    Err(e) => Err(e),
                }
            },
        }
    }

    /// Records that `selection` (every line when `None`) was written out,
    /// which the caller does with the texts of [`VecBuffer::get_selection`]:
    /// the text is saved if that was all of it. Errors as `get_selection`
    /// does on a selection that isn't valid.
    pub fn write_to(&mut self, selection: Option<(usize, usize)>) -> (r: Result<(), &'static str>)
        ensures
            final(self).states() == old(self).states(),
            final(self).position() == old(self).position(),
            final(self).clip() == old(self).clip(),
            selection matches Some(sel) ==> {
                &&& r matches Err(e) ==> selection_check(old(self).lines().len(), sel) == Some(e)
                    && final(self).is_saved() == old(self).is_saved()
                &&& r is Ok ==> selection_check(old(self).lines().len(), sel) is None
                    && final(self).is_saved() == (old(self).is_saved() || (sel.0 == 1 && sel.1 == old(self).lines().len()))
            },
            selection is None ==> r is Ok && final(self).is_saved(),
    {
        proof {
            use_type_invariant(&*self);
        }
        match selection {
            Some(sel) => {
                if let Err(e) = verify_selection(self, sel) {
                    return Err(e);
                }
                if sel.0 == 1 && sel.1 == self.len() {
                    self.saved = true;
                }
                Ok(())
            },
            None => {
                self.saved = true;
                Ok(())
            },
        }
    }

    /// Drops the snapshots after the viewed one, then appends a copy of the
    /// viewed text and views it: the point undo returns to.
    pub fn snapshot(&mut self) -> (r: Result<(), &'static str>)
        ensures
            r is Ok <==> old_len_ok(old(self).position() + 1),
            r is Ok ==> final(self).states() == old(self).states().subrange(0, old(self).position() + 1).push(
                old(self).lines(),
            ) && final(self).position() == old(self).position() + 1,
            r is Err ==> r == Err::<(), &'static str>(UNDO_HISTORY_TOO_LARGE) && final(self).states()
                == old(self).states().subrange(0, old(self).position() + 1) && final(self).position() == old(self).position(),
            final(self).clip() == old(self).clip(),
            final(self).is_saved() == old(self).is_saved(),
    {
        proof {
            use_type_invariant(&*self);
        }
        let mut taken = VecBuffer::new();
        std::mem::swap(&mut taken, self);
        proof {
            use_type_invariant(&taken);
        }
        let VecBuffer { saved, mut history, buffer_i, clipboard } = taken;
        let pos = buffer_i;
        let n = history.len();
        assert(pos < n);
        history.truncate(pos + 1);
        assert(history@.map_values(|b: Buffer| b@) =~= old(self).states().subrange(0, pos + 1));
        if history.len() < isize::MAX as usize {
            let copy = crate::history::Snapshot::create_snapshot(&history[pos]);
            let ghost c = copy@;
            history.push(copy);
            *self = VecBuffer { saved, history, buffer_i: pos + 1, clipboard };
            assert(self.states() =~= old(self).states().subrange(0, pos + 1).push(c));
            Ok(())
        } else {
            *self = VecBuffer { saved, history, buffer_i: pos, clipboard };
            assert(self.states() =~= old(self).states().subrange(0, pos + 1));
            Err(UNDO_HISTORY_TOO_LARGE)
        }
    }
}

/// Whether a history of `len` snapshots is small enough to step through
/// with `isize` step counts.
pub open spec fn old_len_ok(len: int) -> bool {
    len < isize::MAX
}

/// The texts of a vector of string slices.
pub open spec fn strs_view(v: Seq<&str>) -> Seq<Seq<char>> {
    v.map_values(|s: &str| s@)
}

/// Owned copies of the given texts.
fn to_strings(data: &Vec<&str>) -> (r: Vec<String>)
    ensures
        strings_view(r@) == strs_view(data@),
{
    let mut r: Vec<String> = Vec::new();
    let mut i: usize = 0;
    while i < data.len()
        invariant
            i <= data@.len(),
            strings_view(r@) == strs_view(data@).subrange(0, i as int),
        decreases data@.len() - i,
    {
        let ghost before = r@;
        r.push(String::from_str(data[i]));
        assert(strings_view(r@) =~= strings_view(before).push(data@[i as int]@));
        i = i + 1;
        assert(strings_view(r@) =~= strs_view(data@).subrange(0, i as int));
    }
    assert(strs_view(data@).subrange(0, i as int) =~= strs_view(data@));
    r
}

} // verus!
