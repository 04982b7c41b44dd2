//! The editing operations of [`Buffer`]. Operations that, in `ed`, put the
//! replaced lines into the clipboard return those lines.
use vstd::prelude::*;
use crate::buffer::buffer::{
    Buffer, lines_view, texts_of, line_valid, line_error, index_valid, selection_valid, index_error, selection_error,
};
use crate::buffer::line::{Line, LineText, LineView, valid_line_text, fresh_line};
use crate::error::{EdError, EdResult, InternalError};
use crate::vecops::{spliced, moved, splice, insert_all, move_block};
use crate::text::{
    push_chars, split_lines, lines_of, lemma_lines_of_no_newline, chars_of, string_from_chars,
    Pattern, compile_pattern, pattern_is_match, pattern_replace_first, pattern_replace_all,
    regex_valid, regex_is_match, regex_replace_first, regex_replace_all,
};
use crate::buffer::substitute::{substitute, unescaped};

verus! {

/// The texts held by a vector of strings.
pub open spec fn strings_view(v: Seq<String>) -> Seq<Seq<char>> {
    v.map_values(|s: String| s@)
}

/// Fresh (untagged, unmarked) lines holding the given texts.
pub open spec fn fresh_lines(texts: Seq<Seq<char>>) -> Seq<LineView> {
    texts.map_values(|t: Seq<char>| fresh_line(t))
}

/// Whether every text is a valid single line.
pub open spec fn all_valid(texts: Seq<Seq<char>>) -> bool {
    forall|i: int| 0 <= i < texts.len() ==> valid_line_text(#[trigger] texts[i])
}

/// Index of the first text that isn't a valid single line (`texts.len()`
/// when all are valid).
pub open spec fn first_invalid(texts: Seq<Seq<char>>) -> int
    decreases texts.len(),
{
    if texts.len() == 0 {
        0
    } else if !valid_line_text(texts[0]) {
        0
    } else {
        1 + first_invalid(texts.drop_first())
    }
}

/// The index of the first invalid text is never negative.
pub proof fn lemma_first_invalid_nonneg(texts: Seq<Seq<char>>)
    ensures
        0 <= first_invalid(texts) <= texts.len(),
    decreases texts.len(),
{
    if texts.len() > 0 && valid_line_text(texts[0]) {
        lemma_first_invalid_nonneg(texts.drop_first());
    }
}

/// Whether `e` is the error given for the invalid line text `text`.
pub open spec fn is_invalid_text_error(e: EdError, text: Seq<char>) -> bool {
    e matches EdError::Internal(InternalError::InvalidLineText(le)) && le.text@ == text
}

proof fn lemma_first_invalid(texts: Seq<Seq<char>>, k: int)
    requires
        0 <= k <= texts.len(),
        forall|i: int| 0 <= i < k ==> valid_line_text(#[trigger] texts[i]),
        k < texts.len() ==> !valid_line_text(texts[k]),
    ensures
        first_invalid(texts) == k,
    decreases k,
{
    if k > 0 {
        assert forall|i: int| 0 <= i < k - 1 implies valid_line_text(#[trigger] texts.drop_first()[i]) by {
            assert(texts.drop_first()[i] == texts[i + 1]);
        }
        lemma_first_invalid(texts.drop_first(), k - 1);
    }
}

/// Lines made from the given texts, checking each one.
pub fn make_lines(data: &Vec<String>) -> (r: EdResult<Vec<Line>>)
    ensures
        r is Ok <==> all_valid(strings_view(data@)),
        r matches Ok(v) ==> v@.len() == data@.len() && lines_view(v@) == fresh_lines(
            strings_view(data@),
        ),
        r matches Err(e) ==> first_invalid(strings_view(data@)) < data@.len()
            && is_invalid_text_error(e, data@[first_invalid(strings_view(data@))]@),
{
    let ghost texts = strings_view(data@);
    let mut v: Vec<Line> = Vec::new();
    let mut i: usize = 0;
    while i < data.len()
        invariant
            i <= data@.len(),
            texts == strings_view(data@),
            forall|j: int| 0 <= j < i ==> valid_line_text(#[trigger] texts[j]),
            lines_view(v@) == fresh_lines(texts.subrange(0, i as int)),
        decreases data@.len() - i,
    {
        let text = data[i].clone();
        match Line::new(text) {
            Ok(l) => {
                let ghost old_v = v@;
                assert(texts[i as int] == data@[i as int]@);
                v.push(l);
                assert(v@ == old_v.push(l));
                assert(lines_view(v@) =~= lines_view(old_v).push(l@));
                assert(fresh_lines(texts.subrange(0, i + 1)) =~= fresh_lines(
                    texts.subrange(0, i as int),
                ).push(fresh_line(texts[i as int])));
                i = i + 1;
            },
            Err(e) => {
                proof {
                    assert(texts[i as int] == data@[i as int]@);
                    lemma_first_invalid(texts, i as int);
                    assert(!valid_line_text(texts[i as int]));
                }
                return Err(EdError::Internal(InternalError::InvalidLineText(e)));
            },
        }
    }
    assert(texts.subrange(0, i as int) =~= texts);
    Ok(v)
}

pub proof fn lemma_lines_view_splice(s: Seq<Line>, a: int, b: int, new: Seq<Line>)
    requires
        0 <= a <= b <= s.len(),
    ensures
        lines_view(spliced(s, a, b, new)) == spliced(lines_view(s), a, b, lines_view(new)),
        lines_view(s.subrange(a, b)) == lines_view(s).subrange(a, b),
{
    assert(lines_view(spliced(s, a, b, new)) =~= spliced(lines_view(s), a, b, lines_view(new)));
    assert(lines_view(s.subrange(a, b)) =~= lines_view(s).subrange(a, b));
}

pub proof fn lemma_lines_view_moved(s: Seq<Line>, a: int, b: int, index: int)
    requires
        0 <= a <= b <= s.len(),
        0 <= index <= s.len(),
        index <= a || b <= index,
    ensures
        lines_view(moved(s, a, b, index)) == moved(lines_view(s), a, b, index),
{
    assert(lines_view(moved(s, a, b, index)) =~= moved(lines_view(s), a, b, index));
}

/// Copies of the lines `v[a..b]` (same tag, marks and text).
pub fn copy_lines(v: &Vec<Line>, a: usize, b: usize) -> (r: Vec<Line>)
    requires
        a <= b <= v@.len(),
    ensures
        lines_view(r@) == lines_view(v@).subrange(a as int, b as int),
{
    let mut r: Vec<Line> = Vec::new();
    let mut i = a;
    while i < b
        invariant
            a <= i <= b <= v@.len(),
            lines_view(r@) == lines_view(v@).subrange(a as int, i as int),
        decreases b - i,
    {
        let ghost old_r = r@;
        let l = v[i].create_snapshot();
        r.push(l);
        assert(lines_view(r@) =~= lines_view(old_r).push(v@[i as int]@));
        i = i + 1;
        assert(lines_view(r@) =~= lines_view(v@).subrange(a as int, i as int));
    }
    r
}

impl Buffer {
    /// `i` and `a` commands: inserts the given lines after line `index`
    /// (index 0 inserts before the first line).
    ///
    /// Errors if the index is beyond the buffer's end, or if a given text
    /// isn't exactly one newline terminated line; the buffer is then left
    /// unchanged.
    pub fn insert(&mut self, data: Vec<String>, index: usize) -> (r: EdResult<()>)
        ensures
            r is Ok <==> index_valid(old(self)@.len(), index as int) && all_valid(
                strings_view(data@),
            ),
            r is Err ==> final(self)@ == old(self)@,
            r matches Err(e) ==> (!index_valid(old(self)@.len(), index as int) && e
                == index_error(old(self).inner.len(), index)) || (index_valid(
                old(self)@.len(),
                index as int,
            ) && is_invalid_text_error(e, data@[first_invalid(strings_view(data@))]@)),
            r is Ok ==> final(self)@ == spliced(
                old(self)@,
                index as int,
                index as int,
                fresh_lines(strings_view(data@)),
            ),
    {
        if let Err(e) = self.verify_index(index) {
            return Err(e);
        }
        let lines = match make_lines(&data) {
            Ok(l) => l,
            Err(e) => {
                return Err(e);
            },
        };
        let ghost new = lines@;
        proof {
            lemma_lines_view_splice(self.inner@, index as int, index as int, new);
        }
        insert_all(&mut self.inner, index, lines);
        Ok(())
    }

    /// `d` command: removes the selected lines, returning them (for the
    /// clipboard).
    pub fn cut(&mut self, selection: (usize, usize)) -> (r: EdResult<Vec<Line>>)
        ensures
            r is Ok <==> selection_valid(old(self)@.len(), selection),
            r matches Err(e) ==> e == selection_error(old(self).inner.len(), selection)
                && final(self)@ == old(self)@,
            r matches Ok(cut) ==> final(self)@ == spliced(
                old(self)@,
                selection.0 - 1,
                selection.1 as int,
                Seq::empty(),
            ) && lines_view(cut@) == old(self)@.subrange(selection.0 - 1, selection.1 as int),
    {
        if let Err(e) = self.verify_selection(selection) {
            return Err(e);
        }
        proof {
            lemma_lines_view_splice(self.inner@, selection.0 - 1, selection.1 as int, Seq::empty());
            assert(lines_view(Seq::<Line>::empty()) =~= Seq::<LineView>::empty());
        }
        let removed = splice(&mut self.inner, selection.0 - 1, selection.1, Vec::new());
        Ok(removed)
    }

    /// `c` command: replaces the selected lines with the given ones,
    /// returning the replaced lines (for the clipboard).
    pub fn change(&mut self, data: Vec<String>, selection: (usize, usize)) -> (r: EdResult<
        Vec<Line>,
    >)
        ensures
            r is Ok <==> selection_valid(old(self)@.len(), selection) && all_valid(
                strings_view(data@),
            ),
            r is Err ==> final(self)@ == old(self)@,
            r matches Err(e) ==> (!selection_valid(old(self)@.len(), selection) && e
                == selection_error(old(self).inner.len(), selection)) || (selection_valid(
                old(self)@.len(),
                selection,
            ) && is_invalid_text_error(e, data@[first_invalid(strings_view(data@))]@)),
            r matches Ok(cut) ==> final(self)@ == spliced(
                old(self)@,
                selection.0 - 1,
                selection.1 as int,
                fresh_lines(strings_view(data@)),
            ) && lines_view(cut@) == old(self)@.subrange(selection.0 - 1, selection.1 as int),
    {
        if let Err(e) = self.verify_selection(selection) {
            return Err(e);
        }
        let lines = match make_lines(&data) {
            Ok(l) => l,
            Err(e) => {
                return Err(e);
            },
        };
        proof {
            lemma_lines_view_splice(self.inner@, selection.0 - 1, selection.1 as int, lines@);
        }
        let removed = splice(&mut self.inner, selection.0 - 1, selection.1, lines);
        Ok(removed)
    }

    /// `e` command: replaces the whole buffer with the given lines.
    pub fn replace_buffer(&mut self, data: Vec<String>) -> (r: EdResult<()>)
        ensures
            r is Ok <==> all_valid(strings_view(data@)),
            r is Err ==> final(self)@ == old(self)@,
            r matches Err(e) ==> is_invalid_text_error(
                e,
                data@[first_invalid(strings_view(data@))]@,
            ),
            r is Ok ==> final(self)@ == fresh_lines(strings_view(data@)),
    {
        let lines = match make_lines(&data) {
            Ok(l) => l,
            Err(e) => {
                return Err(e);
            },
        };
        self.inner = lines;
        Ok(())
    }

    /// `m` command: moves the selected lines to after line `index`.
    ///
    /// Errors with `NoOp` when `index` lies inside the selection (but not at
    /// its end), since moving into itself doesn't move.
    pub fn mov(&mut self, selection: (usize, usize), index: usize) -> (r: EdResult<()>)
        ensures
            r is Ok <==> selection_valid(old(self)@.len(), selection) && index_valid(
                old(self)@.len(),
                index as int,
            ) && (index < selection.0 || index >= selection.1),
            r is Err ==> final(self)@ == old(self)@,
            r matches Err(e) ==> if !selection_valid(old(self)@.len(), selection) {
                e == selection_error(old(self).inner.len(), selection)
            } else if !index_valid(old(self)@.len(), index as int) {
                e == index_error(old(self).inner.len(), index)
            } else {
                e == EdError::NoOp
            },
            r is Ok ==> final(self)@ == moved(
                old(self)@,
                selection.0 - 1,
                selection.1 as int,
                index as int,
            ),
    {
        if let Err(e) = self.verify_selection(selection) {
            return Err(e);
        }
        if let Err(e) = self.verify_index(index) {
            return Err(e);
        }
        if index < selection.0 || index >= selection.1 {
            proof {
                lemma_lines_view_moved(self.inner@, selection.0 - 1, selection.1 as int, index as int);
            }
            move_block(&mut self.inner, selection.0 - 1, selection.1, index);
            Ok(())
        } else {
            Err(EdError::NoOp)
        }
    }

    /// `t` command: inserts a copy of the selected lines after line `index`.
    ///
    /// The copies keep the tags and marks of the lines they copy.
    pub fn mov_copy(&mut self, selection: (usize, usize), index: usize) -> (r: EdResult<()>)
        ensures
            r is Ok <==> selection_valid(old(self)@.len(), selection) && index_valid(
                old(self)@.len(),
                index as int,
            ),
            r is Err ==> final(self)@ == old(self)@,
            r matches Err(e) ==> if !selection_valid(old(self)@.len(), selection) {
                e == selection_error(old(self).inner.len(), selection)
            } else {
                e == index_error(old(self).inner.len(), index)
            },
            r is Ok ==> final(self)@ == spliced(
                old(self)@,
                index as int,
                index as int,
                old(self)@.subrange(selection.0 - 1, selection.1 as int),
            ),
    {
        if let Err(e) = self.verify_selection(selection) {
            return Err(e);
        }
        if let Err(e) = self.verify_index(index) {
            return Err(e);
        }
        let data = copy_lines(&self.inner, selection.0 - 1, selection.1);
        proof {
            lemma_lines_view_splice(self.inner@, index as int, index as int, data@);
        }
        insert_all(&mut self.inner, index, data);
        Ok(())
    }

    /// `y` command: copies of the selected lines (for the clipboard).
    pub fn copy(&self, selection: (usize, usize)) -> (r: EdResult<Vec<Line>>)
        ensures
            r is Ok <==> selection_valid(self@.len(), selection),
            r matches Err(e) ==> e == selection_error(self.inner.len(), selection),
            r matches Ok(c) ==> lines_view(c@) == self@.subrange(
                selection.0 - 1,
                selection.1 as int,
            ),
    {
        if let Err(e) = self.verify_selection(selection) {
            return Err(e);
        }
        Ok(copy_lines(&self.inner, selection.0 - 1, selection.1))
    }

    /// `x` command: inserts copies of the clipboard's lines after line
    /// `index`, returning how many lines were inserted.
    pub fn paste(&mut self, index: usize, clipboard: &Vec<Line>) -> (r: EdResult<usize>)
        ensures
            r is Ok <==> index_valid(old(self)@.len(), index as int),
            r matches Err(e) ==> e == index_error(old(self).inner.len(), index) && final(self)@
                == old(self)@,
            r matches Ok(n) ==> n == clipboard@.len() && final(self)@ == spliced(
                old(self)@,
                index as int,
                index as int,
                lines_view(clipboard@),
            ),
    {
        if let Err(e) = self.verify_index(index) {
            return Err(e);
        }
        let data = copy_lines(clipboard, 0, clipboard.len());
        proof {
            assert(lines_view(clipboard@).subrange(0, clipboard@.len() as int) =~= lines_view(
                clipboard@,
            ));
            lemma_lines_view_splice(self.inner@, index as int, index as int, data@);
        }
        insert_all(&mut self.inner, index, data);
        Ok(clipboard.len())
    }
}


} // verus!

verus! {

/// The text left by joining lines with the given texts: each text but the
/// last loses its final character (its newline) before the next one is
/// appended.
pub open spec fn joined_text(texts: Seq<Seq<char>>) -> Seq<char>
    decreases texts.len(),
{
    if texts.len() == 0 {
        Seq::empty()
    } else {
        let prior = joined_text(texts.drop_last());
        (if prior.len() > 0 { prior.drop_last() } else { prior }) + texts.last()
    }
}

pub proof fn lemma_joined_valid(texts: Seq<Seq<char>>)
    requires
        texts.len() > 0,
        all_valid(texts),
    ensures
        valid_line_text(joined_text(texts)),
    decreases texts.len(),
{
    if texts.len() > 1 {
        let init = texts.drop_last();
        assert forall|i: int| 0 <= i < init.len() implies valid_line_text(#[trigger] init[i]) by {
            assert(init[i] == texts[i]);
        }
        lemma_joined_valid(init);
        let prior = joined_text(init);
        let j = prior.drop_last() + texts.last();
        assert(valid_line_text(texts[texts.len() - 1]));
        assert forall|i: int| 0 <= i < j.len() - 1 implies #[trigger] j[i] != '\n' by {
            if i < prior.len() - 1 {
                assert(j[i] == prior[i]);
            } else {
                assert(j[i] == texts.last()[i - (prior.len() - 1)]);
            }
        }
    } else {
        assert(texts.drop_last() =~= Seq::<Seq<char>>::empty());
        assert(joined_text(texts.drop_last()) =~= Seq::<char>::empty());
        assert(joined_text(texts) =~= texts[0]);
    }
}

/// The line view of `l` with its text replaced.
pub open spec fn with_text(l: LineView, text: Seq<char>) -> LineView {
    LineView { text, ..l }
}

/// The line that joining `s[a..b]` leaves: the first line's tag and marks
/// with the joined text.
pub open spec fn joined_line(s: Seq<LineView>, a: int, b: int) -> LineView {
    with_text(s[a], joined_text(texts_of(s.subrange(a, b))))
}

impl Buffer {
    /// `j` command: joins the selected lines into one, which keeps the tag
    /// and marks of the first. Returns the lines as they were (for the
    /// clipboard).
    pub fn join(&mut self, selection: (usize, usize)) -> (r: EdResult<Vec<Line>>)
        ensures
            r is Ok <==> selection_valid(old(self)@.len(), selection),
            r matches Err(e) ==> e == selection_error(old(self).inner.len(), selection)
                && final(self)@ == old(self)@,
            r matches Ok(cut) ==> lines_view(cut@) == old(self)@.subrange(
                selection.0 - 1,
                selection.1 as int,
            ) && final(self)@ == spliced(
                old(self)@,
                selection.0 - 1,
                selection.1 as int,
                seq![joined_line(old(self)@, selection.0 - 1, selection.1 as int)],
            ),
    {
        if let Err(e) = self.verify_selection(selection) {
            return Err(e);
        }
        let a = selection.0 - 1;
        let b = selection.1;
        let ghost texts = texts_of(self@.subrange(a as int, b as int));
        let mut text: Vec<char> = Vec::new();
        let mut i = a;
        while i < b
            invariant
                a <= i <= b <= self.inner@.len(),
                texts == texts_of(self@.subrange(a as int, b as int)),
                text@ == joined_text(texts.subrange(0, i - a)),
                all_valid(texts.subrange(0, i - a)),
            decreases b - i,
        {
            let line_chars = self.inner[i].text.chars();
            proof {
                let t = texts.subrange(0, i - a + 1);
                assert(t.drop_last() =~= texts.subrange(0, i - a));
                assert(t.last() == line_chars@);
            }
            if text.len() > 0 {
                text.pop();
            }
            push_chars(&mut text, &line_chars);
            i = i + 1;
        }
        assert(texts.subrange(0, (b - a) as int) =~= texts);
        proof {
            lemma_joined_valid(texts);
        }
        let first = &self.inner[a];
        let joined = Line { matched: first.create_snapshot().matched, tag: first.tag, text: LineText::from_chars(&text) };
        let mut new: Vec<Line> = Vec::new();
        new.push(joined);
        proof {
            assert(lines_view(new@) =~= seq![with_text(self@[a as int], joined_text(texts))]);
            lemma_lines_view_splice(self.inner@, a as int, b as int, new@);
        }
        let removed = splice(&mut self.inner, a, b, new);
        Ok(removed)
    }
}


/// The lines `I` leaves in place of line `l`: the given texts, the last one
/// joined (without its newline) to the front of the line's text.
pub open spec fn inline_inserted(texts: Seq<Seq<char>>, l: LineView) -> Seq<LineView> {
    fresh_lines(texts.drop_last()).push(fresh_line(texts.last().drop_last() + l.text))
}

/// The lines `A` leaves in place of line `l`: the line's text (without its
/// newline) joined to the first given text, then the other texts.
pub open spec fn inline_appended(texts: Seq<Seq<char>>, l: LineView) -> Seq<LineView> {
    seq![fresh_line(l.text.drop_last() + texts[0])] + fresh_lines(texts.drop_first())
}

proof fn lemma_concat_valid(a: Seq<char>, b: Seq<char>)
    requires
        valid_line_text(a),
        valid_line_text(b),
    ensures
        valid_line_text(a.drop_last() + b),
{
    let j = a.drop_last() + b;
    assert forall|i: int| 0 <= i < j.len() - 1 implies #[trigger] j[i] != '\n' by {
        if i < a.len() - 1 {
            assert(j[i] == a[i]);
        } else {
            assert(j[i] == b[i - (a.len() - 1)]);
        }
    }
}

/// Joins the characters of `a` without its last character to those of `b`.
fn join_two(a: &Vec<char>, b: &Vec<char>) -> (r: Vec<char>)
    requires
        a@.len() > 0,
    ensures
        r@ == a@.drop_last() + b@,
{
    let mut r: Vec<char> = Vec::new();
    push_chars(&mut r, a);
    r.pop();
    push_chars(&mut r, b);
    assert(r@ =~= a@.drop_last() + b@);
    r
}

impl Buffer {
    /// `I` command: inserts the given lines before line `index`, joining the
    /// last of them with that line. Returns the replaced line (for the
    /// clipboard).
    ///
    /// Errors with `NoOp` when no lines are given.
    pub fn inline_insert(&mut self, data: Vec<String>, index: usize) -> (r: EdResult<Vec<Line>>)
        ensures
            r is Ok <==> line_valid(old(self)@.len(), index as int) && data@.len() > 0
                && all_valid(strings_view(data@)),
            r is Err ==> final(self)@ == old(self)@,
            r matches Err(e) ==> if !line_valid(old(self)@.len(), index as int) {
                e == line_error(old(self).inner.len(), index)
            } else if data@.len() == 0 {
                e == EdError::NoOp
            } else {
                is_invalid_text_error(e, data@[first_invalid(strings_view(data@))]@)
            },
            r matches Ok(cut) ==> lines_view(cut@) == old(self)@.subrange(index - 1, index as int)
                && final(self)@ == spliced(
                old(self)@,
                index - 1,
                index as int,
                inline_inserted(strings_view(data@), old(self)@[index - 1]),
            ),
    {
        if let Err(e) = self.verify_line(index) {
            return Err(e);
        }
        if data.len() == 0 {
            return Err(EdError::NoOp);
        }
        let mut lines = match make_lines(&data) {
            Ok(l) => l,
            Err(e) => {
                return Err(e);
            },
        };
        let ghost texts = strings_view(data@);
        let ghost lv = lines_view(lines@);
        let last = lines.pop().unwrap();
        let last_chars = last.text.chars();
        proof {
            assert(lv[lv.len() - 1] == last@);
            assert(fresh_lines(texts)[texts.len() - 1] == fresh_line(texts.last()));
        }
        let line_chars = self.inner[index - 1].text.chars();
        let joined = join_two(&last_chars, &line_chars);
        proof {
            lemma_concat_valid(last_chars@, line_chars@);
            assert(last_chars@ == texts.last());
        }
        lines.push(Line::from_chars(&joined));
        proof {
            assert(lines_view(lines@) =~= inline_inserted(texts, self@[index - 1])) by {
                assert(lv =~= fresh_lines(texts));
                assert(fresh_lines(texts.drop_last()) =~= lv.drop_last());
            }
            lemma_lines_view_splice(self.inner@, index - 1, index as int, lines@);
        }
        let removed = splice(&mut self.inner, index - 1, index, lines);
        Ok(removed)
    }

    /// `A` command: inserts the given lines after line `index`, joining the
    /// first of them with that line. Returns the replaced line (for the
    /// clipboard).
    ///
    /// Errors with `NoOp` when no lines are given.
    pub fn inline_append(&mut self, data: Vec<String>, index: usize) -> (r: EdResult<Vec<Line>>)
        ensures
            r is Ok <==> line_valid(old(self)@.len(), index as int) && data@.len() > 0
                && all_valid(strings_view(data@)),
            r is Err ==> final(self)@ == old(self)@,
            r matches Err(e) ==> if !line_valid(old(self)@.len(), index as int) {
                e == line_error(old(self).inner.len(), index)
            } else if data@.len() == 0 {
                e == EdError::NoOp
            } else {
                is_invalid_text_error(e, data@[first_invalid(strings_view(data@))]@)
            },
            r matches Ok(cut) ==> lines_view(cut@) == old(self)@.subrange(index - 1, index as int)
                && final(self)@ == spliced(
                old(self)@,
                index - 1,
                index as int,
                inline_appended(strings_view(data@), old(self)@[index - 1]),
            ),
    {
        if let Err(e) = self.verify_line(index) {
            return Err(e);
        }
        if data.len() == 0 {
            return Err(EdError::NoOp);
        }
        let lines = match make_lines(&data) {
            Ok(l) => l,
            Err(e) => {
                return Err(e);
            },
        };
        let ghost texts = strings_view(data@);
        let ghost lv = lines_view(lines@);
        let first_chars = lines[0].text.chars();
        proof {
            assert(lv[0] == lines@[0]@);
            assert(fresh_lines(texts)[0] == fresh_line(texts[0]));
        }
        let line_chars = self.inner[index - 1].text.chars();
        let joined = join_two(&line_chars, &first_chars);
        proof {
            lemma_concat_valid(line_chars@, first_chars@);
        }
        let mut new: Vec<Line> = Vec::new();
        new.push(Line::from_chars(&joined));
        let mut rest = lines;
        let _ = splice(&mut rest, 0, 1, Vec::new());
        let ghost nv = new@;
        let ghost rv = rest@;
        new.append(&mut rest);
        proof {
            assert(lines_view(new@) =~= lines_view(nv) + lines_view(rv));
            assert(lines_view(rv) =~= lv.drop_first());
            assert(lines_view(new@) =~= inline_appended(texts, self@[index - 1])) by {
                assert(lv =~= fresh_lines(texts));
                assert(fresh_lines(texts.drop_first()) =~= lv.drop_first());
            }
            lemma_lines_view_splice(self.inner@, index - 1, index as int, new@);
        }
        let removed = splice(&mut self.inner, index - 1, index, new);
        Ok(removed)
    }
}


/// Lines holding the given texts, each with a newline appended.
pub open spec fn terminated_lines(ls: Seq<Seq<char>>) -> Seq<LineView> {
    ls.map_values(|l: Seq<char>| fresh_line(l.push('\n')))
}

/// Buffer lines for the given pieces of text, each terminated by a newline.
pub fn lines_from_pieces(pieces: Vec<Vec<char>>, ghost_src: Ghost<Seq<char>>) -> (r: Vec<Line>)
    requires
        pieces@.len() == lines_of(ghost_src@).len(),
        forall|i: int| 0 <= i < pieces@.len() ==> #[trigger] pieces@[i]@ == lines_of(ghost_src@)[i],
    ensures
        lines_view(r@) == terminated_lines(lines_of(ghost_src@)),
{
    let ghost ls = lines_of(ghost_src@);
    proof {
        lemma_lines_of_no_newline(ghost_src@);
    }
    let mut r: Vec<Line> = Vec::new();
    let mut i: usize = 0;
    while i < pieces.len()
        invariant
            i <= pieces@.len(),
            ls == lines_of(ghost_src@),
            pieces@.len() == ls.len(),
            forall|k: int| 0 <= k < pieces@.len() ==> #[trigger] pieces@[k]@ == ls[k],
            forall|k: int, j: int| 0 <= k < ls.len() && 0 <= j < ls[k].len() ==> #[trigger] ls[k][j] != '\n',
            lines_view(r@) == terminated_lines(ls.subrange(0, i as int)),
        decreases pieces@.len() - i,
    {
        let mut piece: Vec<char> = Vec::new();
        push_chars(&mut piece, &pieces[i]);
        piece.push('\n');
        proof {
            assert(piece@ == ls[i as int].push('\n'));
            assert forall|j: int| 0 <= j < piece@.len() - 1 implies #[trigger] piece@[j] != '\n' by {
                assert(piece@[j] == ls[i as int][j]);
            }
        }
        let ghost old_r = r@;
        r.push(Line::from_chars(&piece));
        assert(lines_view(r@) =~= lines_view(old_r).push(fresh_line(ls[i as int].push('\n'))));
        i = i + 1;
        assert(lines_view(r@) =~= terminated_lines(ls.subrange(0, i as int)));
    }
    assert(ls.subrange(0, i as int) =~= ls);
    r
}

// ---------------------------------------------------------------------------
// Reflow
// ---------------------------------------------------------------------------

/// `s` with every newline turned into a space.
pub open spec fn spaced(s: Seq<char>) -> Seq<char> {
    s.map_values(|c: char| if c == '\n' { ' ' } else { c })
}

/// The text reflow works on: the lines' texts run together with their
/// newlines turned into spaces, without the final one.
pub open spec fn reflow_source(texts: Seq<Seq<char>>) -> Seq<char> {
    let all = spaced(texts.flatten());
    if all.len() > 0 { all.drop_last() } else { all }
}

/// State of the greedy line breaking after a number of characters: the text
/// so far (with some spaces turned into newlines), the width of the current
/// line, and the position of the latest space not yet used for a break.
pub open spec fn reflow_run(c: Seq<char>, width: int, n: nat) -> (Seq<char>, int, Option<int>)
    decreases n,
{
    if n == 0 {
        (c, 0, None)
    } else {
        let prior = reflow_run(c, width, (n - 1) as nat);
        let i = n - 1;
        let w = prior.1 + 1;
        let latest = if c[i] == ' ' { Some(i) } else { prior.2 };
        if w > width {
            match latest {
                Some(sp) => (prior.0.update(sp, '\n'), i - sp, None),
                None => (prior.0, w, latest),
            }
        } else {
            (prior.0, w, latest)
        }
    }
}

/// `c` broken into lines no wider than `width` where possible: scanning
/// from the start, whenever a line grows beyond `width` its latest space
/// becomes a newline.
pub open spec fn reflowed(c: Seq<char>, width: int) -> Seq<char> {
    reflow_run(c, width, c.len()).0
}

proof fn lemma_reflow_run_shape(c: Seq<char>, width: int, n: nat)
    requires
        n <= c.len(),
    ensures
        reflow_run(c, width, n).0.len() == c.len(),
        0 <= reflow_run(c, width, n).1 <= n,
        reflow_run(c, width, n).2 matches Some(sp) ==> 0 <= sp < n,
        forall|j: int| n <= j < c.len() ==> #[trigger] reflow_run(c, width, n).0[j] == c[j],
    decreases n,
{
    if n > 0 {
        lemma_reflow_run_shape(c, width, (n - 1) as nat);
    }
}

fn reflow_chars(c: &mut Vec<char>, width: usize)
    ensures
        final(c)@ == reflowed(old(c)@, width as int),
{
    let ghost orig = c@;
    let mut w: usize = 0;
    let mut latest: Option<usize> = None;
    let mut i: usize = 0;
    while i < c.len()
        invariant
            i <= c@.len(),
            c@.len() == orig.len(),
            (c@, w as int, match latest { Some(x) => Some(x as int), None => None })
                == reflow_run(orig, width as int, i as nat),
            w <= i,
        decreases c@.len() - i,
    {
        proof {
            lemma_reflow_run_shape(orig, width as int, i as nat);
            lemma_reflow_run_shape(orig, width as int, (i + 1) as nat);
        }
        w = w + 1;
        if c[i] == ' ' {
            latest = Some(i);
        }
        if w > width {
            if let Some(sp) = latest {
                c.set(sp, '\n');
                w = i - sp;
                latest = None;
            }
        }
        i = i + 1;
    }
}

/// The characters of the texts of `lines[a..b]`, run together.
pub fn concat_texts(lines: &Vec<Line>, a: usize, b: usize) -> (r: Vec<char>)
    requires
        a <= b <= lines@.len(),
    ensures
        r@ == texts_of(lines_view(lines@).subrange(a as int, b as int)).flatten(),
{
    let ghost ts = texts_of(lines_view(lines@).subrange(a as int, b as int));
    let mut r: Vec<char> = Vec::new();
    let mut i = a;
    while i < b
        invariant
            a <= i <= b <= lines@.len(),
            ts == texts_of(lines_view(lines@).subrange(a as int, b as int)),
            r@ == ts.subrange(0, i - a).flatten(),
        decreases b - i,
    {
        let t = lines[i].text.chars();
        proof {
            let p = ts.subrange(0, i - a + 1);
            assert(p.drop_last() =~= ts.subrange(0, i - a));
            assert(p.last() == t@);
            ts.subrange(0, i - a).lemma_flatten_push(t@);
            assert(p =~= ts.subrange(0, i - a).push(t@));
        }
        push_chars(&mut r, &t);
        i = i + 1;
    }
    assert(ts.subrange(0, (b - a) as int) =~= ts);
    r
}


/// The lines reflowing `s[a..b]` within `width` leaves in their place.
pub open spec fn reflowed_lines(s: Seq<LineView>, a: int, b: int, width: int) -> Seq<LineView> {
    terminated_lines(lines_of(reflowed(reflow_source(texts_of(s.subrange(a, b))), width)))
}

/// The text a substitution works on: the selected lines' texts run together.
pub open spec fn selection_text(s: Seq<LineView>, a: int, b: int) -> Seq<char> {
    texts_of(s.subrange(a, b)).flatten()
}

/// The text a substitution in lines `a..b` of `s` works on: their texts
/// run together, without the final newline when `drop_last`.
pub open spec fn replace_source(s: Seq<LineView>, a: int, b: int, drop_last: bool) -> Seq<char> {
    let t = selection_text(s, a, b);
    if drop_last && t.len() > 0 { t.drop_last() } else { t }
}

/// The text after substituting `replacement` (escapes interpreted) for the
/// first, or every (`global`), match of `pattern` in `text`.
pub open spec fn substituted(pattern: Seq<char>, text: Seq<char>, replacement: Seq<char>, global: bool) -> Seq<char> {
    if global {
        regex_replace_all(pattern, text, unescaped(replacement, false))
    } else {
        regex_replace_first(pattern, text, unescaped(replacement, false))
    }
}

impl Buffer {
    /// `J` command: reflows the selected lines to lines no wider than
    /// `width` (where spaces allow), returning the new end of the reflowed
    /// lines and the lines as they were (for the clipboard).
    pub fn reflow(&mut self, selection: (usize, usize), width: usize) -> (r: EdResult<(usize, Vec<Line>)>)
        ensures
            r is Ok <==> selection_valid(old(self)@.len(), selection),
            r matches Err(e) ==> e == selection_error(old(self).inner.len(), selection)
                && final(self)@ == old(self)@,
            r matches Ok((end, cut)) ==> {
                let new = reflowed_lines(old(self)@, selection.0 - 1, selection.1 as int, width as int);
                &&& lines_view(cut@) == old(self)@.subrange(selection.0 - 1, selection.1 as int)
                &&& final(self)@ == spliced(old(self)@, selection.0 - 1, selection.1 as int, new)
                &&& end == selection.0 - 1 + new.len()
            },
    {
        if let Err(e) = self.verify_selection(selection) {
            return Err(e);
        }
        let a = selection.0 - 1;
        let b = selection.1;
        let all = concat_texts(&self.inner, a, b);
        let mut joined: Vec<char> = Vec::new();
        let mut i: usize = 0;
        while i < all.len()
            invariant
                i <= all@.len(),
                joined@ == spaced(all@.subrange(0, i as int)),
            decreases all@.len() - i,
        {
            let c = all[i];
            joined.push(if c == '\n' { ' ' } else { c });
            i = i + 1;
            assert(joined@ =~= spaced(all@.subrange(0, i as int)));
        }
        assert(all@.subrange(0, i as int) =~= all@);
        if joined.len() > 0 {
            joined.pop();
        }
        let ghost src = joined@;
        reflow_chars(&mut joined, width);
        let pieces = split_lines(&joined);
        let new = lines_from_pieces(pieces, Ghost(joined@));
        let n = new.len();
        proof {
            assert(lines_view(self.inner@).subrange(a as int, b as int) =~= self@.subrange(a as int, b as int));
            assert(new@.len() == lines_view(new@).len());
            lemma_lines_view_splice(self.inner@, a as int, b as int, new@);
        }
        let len_before = self.inner.len();
        let removed = splice(&mut self.inner, a, b, new);
        let end = self.inner.len() - (len_before - b);
        Ok((end, removed))
    }

    /// Substitutes `pattern.1` (escapes interpreted) for the first, or every
    /// (`global`), match of the regex `pattern.0` in the selected lines'
    /// text without its final newline (which can be neither matched nor
    /// replaced), then splits the result into lines again. Returns the new
    /// end of the substituted lines and the lines as they were (for the
    /// clipboard).
    ///
    /// Errors if the regex is invalid or doesn't match; the buffer is then
    /// left unchanged.
    pub fn search_replace(&mut self, pattern: (&str, &str), selection: (usize, usize), global: bool) -> (r: EdResult<(usize, Vec<Line>)>)
        ensures
            r is Ok <==> selection_valid(old(self)@.len(), selection) && regex_valid(pattern.0@)
                && regex_is_match(pattern.0@, replace_source(old(self)@, selection.0 - 1, selection.1 as int, true)),
            r is Err ==> final(self)@ == old(self)@,
            r matches Err(e) ==> if !selection_valid(old(self)@.len(), selection) {
                e == selection_error(old(self).inner.len(), selection)
            } else if !regex_valid(pattern.0@) {
                e matches EdError::RegexInvalid { regex: rx, error: _ } && rx@ == pattern.0@
            } else {
                e matches EdError::RegexNoMatch(rx) && rx@ == pattern.0@
            },
            r matches Ok((end, cut)) ==> {
                let text = replace_source(old(self)@, selection.0 - 1, selection.1 as int, true);
                let new = terminated_lines(lines_of(substituted(pattern.0@, text, pattern.1@, global)));
                &&& lines_view(cut@) == old(self)@.subrange(selection.0 - 1, selection.1 as int)
                &&& final(self)@ == spliced(old(self)@, selection.0 - 1, selection.1 as int, new)
                &&& end == selection.0 - 1 + new.len()
            },
    {
        self.replace_matches(pattern, selection, global, true)
    }

    /// Substitutes `pattern.1` (escapes interpreted) for the first, or every
    /// (`global`), match of the regex `pattern.0` in the selected lines'
    /// text (without its final newline when `drop_last`), then splits the
    /// result into lines again. Returns the new end of the substituted lines
    /// and the lines as they were (for the clipboard).
    ///
    /// Errors if the regex is invalid or doesn't match; the buffer is then
    /// left unchanged.
    pub(crate) fn replace_matches(&mut self, pattern: (&str, &str), selection: (usize, usize), global: bool, drop_last: bool) -> (r: EdResult<(usize, Vec<Line>)>)
        ensures
            r is Ok <==> selection_valid(old(self)@.len(), selection) && regex_valid(pattern.0@)
                && regex_is_match(pattern.0@, replace_source(old(self)@, selection.0 - 1, selection.1 as int, drop_last)),
            r is Err ==> final(self)@ == old(self)@,
            r matches Err(e) ==> if !selection_valid(old(self)@.len(), selection) {
                e == selection_error(old(self).inner.len(), selection)
            } else if !regex_valid(pattern.0@) {
                e matches EdError::RegexInvalid { regex: rx, error: _ } && rx@ == pattern.0@
            } else {
                e matches EdError::RegexNoMatch(rx) && rx@ == pattern.0@
            },
            r matches Ok((end, cut)) ==> {
                let text = replace_source(old(self)@, selection.0 - 1, selection.1 as int, drop_last);
                let new = terminated_lines(lines_of(substituted(pattern.0@, text, pattern.1@, global)));
                &&& lines_view(cut@) == old(self)@.subrange(selection.0 - 1, selection.1 as int)
                &&& final(self)@ == spliced(old(self)@, selection.0 - 1, selection.1 as int, new)
                &&& end == selection.0 - 1 + new.len()
            },
    {
        if let Err(e) = self.verify_selection(selection) {
            return Err(e);
        }
        let regex = match compile_pattern(pattern.0) {
            Ok(p) => p,
            Err(error) => {
                return Err(EdError::RegexInvalid { regex: string_from_chars(chars_of(pattern.0).as_slice()), error });
            },
        };
        let a = selection.0 - 1;
        let b = selection.1;
        let mut all = concat_texts(&self.inner, a, b);
        proof {
            assert(lines_view(self.inner@).subrange(a as int, b as int) =~= self@.subrange(a as int, b as int));
        }
        if drop_last && all.len() > 0 {
            all.pop();
        }
        let joined = string_from_chars(all.as_slice());
        if !pattern_is_match(&regex, joined.as_str()) {
            return Err(EdError::RegexNoMatch(string_from_chars(chars_of(pattern.0).as_slice())));
        }
        let replace = substitute(pattern.1);
        let after = if global {
            pattern_replace_all(&regex, joined.as_str(), replace.as_str())
        } else {
            pattern_replace_first(&regex, joined.as_str(), replace.as_str())
        };
        let after_chars = chars_of(after.as_str());
        let pieces = split_lines(&after_chars);
        let new = lines_from_pieces(pieces, Ghost(after_chars@));
        let n = new.len();
        proof {
            assert(new@.len() == lines_view(new@).len());
            lemma_lines_view_splice(self.inner@, a as int, b as int, new@);
        }
        let len_before = self.inner.len();
        let removed = splice(&mut self.inner, a, b, new);
        let end = self.inner.len() - (len_before - b);
        Ok((end, removed))
    }
}

} // verus!
