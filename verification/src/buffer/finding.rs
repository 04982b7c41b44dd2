//! Finding lines in a [`Buffer`]: by tag, by regex, and the marks that
//! `g`-like commands put on matching lines.
use vstd::prelude::*;
use crate::buffer::buffer::{Buffer, lines_view, index_valid, line_valid, selection_valid, index_error, line_error, selection_error};
use crate::buffer::line::{Line, LineView};
use crate::error::{EdError, EdResult};
use crate::text::{chars_of, string_from_chars, compile_pattern, pattern_is_match, regex_valid, regex_is_match};

verus! {

/// Whether line `k` (1-indexed) is the first line tagged `tag`.
pub open spec fn first_tagged(s: Seq<LineView>, tag: char, k: int) -> bool {
    &&& 1 <= k <= s.len()
    &&& s[k - 1].tag == tag
    &&& forall|j: int| 0 <= j < k - 1 ==> #[trigger] s[j].tag != tag
}

/// Whether some line is tagged `tag`.
pub open spec fn has_tag(s: Seq<LineView>, tag: char) -> bool {
    exists|j: int| 0 <= j < s.len() && #[trigger] s[j].tag == tag
}

/// Whether line `k` (1-indexed) is the nearest line after (or, `backwards`,
/// before) line `from` whose text the regex `pattern` matches.
pub open spec fn nearest_match(s: Seq<LineView>, pattern: Seq<char>, from: int, backwards: bool, k: int) -> bool {
    &&& 1 <= k <= s.len()
    &&& regex_is_match(pattern, s[k - 1].text)
    &&& if backwards {
        &&& k < from
        &&& forall|j: int| k < j < from ==> !regex_is_match(pattern, #[trigger] s[j - 1].text)
    } else {
        &&& from < k
        &&& forall|j: int| from < j < k ==> !regex_is_match(pattern, #[trigger] s[j - 1].text)
    }
}

/// Whether any line after (or, `backwards`, before) line `from` is matched
/// by the regex `pattern`.
pub open spec fn any_match(s: Seq<LineView>, pattern: Seq<char>, from: int, backwards: bool) -> bool {
    exists|j: int| 1 <= j <= s.len() && (if backwards { j < from } else { from < j })
        && regex_is_match(pattern, #[trigger] s[j - 1].text)
}

/// The marks of a line after marking at nesting depth `depth`: marks at
/// this depth and deeper are dropped, and when the line is hit it gets a
/// mark at this depth (shallower missing ones filled with `false`).
pub open spec fn marks_after(m: Seq<bool>, depth: nat, hit: bool) -> Seq<bool> {
    let kept = if m.len() > depth { m.subrange(0, depth as int) } else { m };
    if hit {
        kept + Seq::new((depth - kept.len()) as nat, |i: int| false).push(true)
    } else {
        kept
    }
}

/// Whether the line at 0-based position `i` is hit when marking lines of
/// `sel` matched (or, `inverse`, not matched) by `pattern`.
pub open spec fn mark_hit(s: Seq<LineView>, pattern: Seq<char>, sel: (usize, usize), inverse: bool, i: int) -> bool {
    sel.0 - 1 <= i < sel.1 && regex_is_match(pattern, s[i].text) != inverse
}

/// The lines after marking at depth `depth`.
pub open spec fn marked(s: Seq<LineView>, pattern: Seq<char>, sel: (usize, usize), inverse: bool, depth: nat) -> Seq<LineView> {
    Seq::new(s.len(), |i: int| LineView {
        matched: marks_after(s[i].matched, depth, mark_hit(s, pattern, sel, inverse, i)),
        ..s[i]
    })
}

/// Whether line `i` (0-based) holds a mark that is set at depth `depth`.
pub open spec fn is_marked(l: LineView, depth: nat) -> bool {
    l.matched.len() > depth && l.matched[depth as int]
}

/// The line with its marks at `depth` and deeper dropped.
pub open spec fn unmarked(l: LineView, depth: nat) -> LineView {
    if l.matched.len() > depth {
        LineView { matched: l.matched.subrange(0, depth as int), ..l }
    } else {
        l
    }
}

/// The lines after dropping the marks at `depth` of lines `0..n`.
pub open spec fn unmarked_upto(s: Seq<LineView>, depth: nat, n: int) -> Seq<LineView> {
    Seq::new(s.len(), |i: int| if i < n { unmarked(s[i], depth) } else { s[i] })
}

impl Buffer {
    /// `k` command: sets the tag of line `index`.
    pub fn tag_line(&mut self, index: usize, tag: char) -> (r: EdResult<()>)
        ensures
            r is Ok <==> line_valid(old(self)@.len(), index as int),
            r matches Err(e) ==> e == line_error(old(self).inner.len(), index) && final(self)@
                == old(self)@,
            r is Ok ==> final(self)@ == old(self)@.update(
                index - 1,
                LineView { tag, ..old(self)@[index - 1] },
            ),
    {
        if let Err(e) = self.verify_line(index) {
            return Err(e);
        }
        let ghost before = self.inner@;
        self.inner[index - 1].set_tag(tag);
        assert(lines_view(self.inner@) =~= lines_view(before).update(
            index - 1,
            LineView { tag, ..lines_view(before)[index - 1] },
        ));
        Ok(())
    }

    /// `'x` index: the first line tagged `tag`.
    pub fn get_tag(&self, tag: char) -> (r: EdResult<usize>)
        ensures
            r is Ok <==> has_tag(self@, tag),
            r matches Ok(k) ==> first_tagged(self@, tag, k as int),
            r matches Err(e) ==> e == EdError::TagNoMatch(tag),
    {
        let mut i: usize = 0;
        while i < self.inner.len()
            invariant
                i <= self@.len(),
                forall|j: int| 0 <= j < i ==> #[trigger] self@[j].tag != tag,
            decreases self@.len() - i,
        {
            if self.inner[i].tag == tag {
                assert(self@[i as int].tag == tag);
                return Ok(i + 1);
            }
            i = i + 1;
        }
        Err(EdError::TagNoMatch(tag))
    }

    /// `/re/` and `?re?` indices: the nearest line after (or, `backwards`,
    /// before) line `curr_line` that the regex `pattern` matches.
    pub fn get_matching(&self, pattern: &str, curr_line: usize, backwards: bool) -> (r: EdResult<usize>)
        ensures
            r is Ok <==> index_valid(self@.len(), curr_line as int) && regex_valid(pattern@)
                && any_match(self@, pattern@, curr_line as int, backwards),
            r matches Ok(k) ==> nearest_match(self@, pattern@, curr_line as int, backwards, k as int),
            r matches Err(e) ==> if !index_valid(self@.len(), curr_line as int) {
                e == index_error(self.inner.len(), curr_line)
            } else if !regex_valid(pattern@) {
                e matches EdError::RegexInvalid { regex: rx, error: _ } && rx@ == pattern@
            } else {
                e matches EdError::RegexNoMatch(rx) && rx@ == pattern@
            },
    {
        if let Err(e) = self.verify_index(curr_line) {
            return Err(e);
        }
        let regex = match compile_pattern(pattern) {
            Ok(p) => p,
            Err(error) => {
                return Err(EdError::RegexInvalid { regex: string_from_chars(chars_of(pattern).as_slice()), error });
            },
        };
        if backwards {
            let mut k = curr_line;
            while k > 1
                invariant
                    1 <= curr_line <= self@.len() || curr_line == 0,
                    k <= curr_line,
                    curr_line <= self@.len(),
                    backwards,
                    regex_valid(pattern@),
                    regex@ == pattern@,
                    forall|j: int| k <= j < curr_line && j >= 1 ==> !regex_is_match(pattern@, #[trigger] self@[j - 1].text),
                decreases k,
            {
                k = k - 1;
                if pattern_is_match(&regex, self.inner[k - 1].text.as_str()) {
                    assert(self@[k - 1].text == self.inner@[k - 1].text@);
                    assert(regex_is_match(pattern@, self@[k - 1].text));
                    return Ok(k);
                }
                assert(self@[k - 1].text == self.inner@[k - 1].text@);
            }
        } else {
            let mut k = curr_line;
            while k < self.inner.len()
                invariant
                    curr_line <= k <= self@.len(),
                    !backwards,
                    regex_valid(pattern@),
                    regex@ == pattern@,
                    forall|j: int| curr_line < j <= k ==> !regex_is_match(pattern@, #[trigger] self@[j - 1].text),
                decreases self@.len() - k,
            {
                assert(self@[k as int].text == self.inner@[k as int].text@);
                if pattern_is_match(&regex, self.inner[k].text.as_str()) {
                    assert(regex_is_match(pattern@, self@[(k + 1) - 1].text));
                    return Ok(k + 1);
                }
                k = k + 1;
            }
        }
        assert(!any_match(self@, pattern@, curr_line as int, backwards));
        Err(EdError::RegexNoMatch(string_from_chars(chars_of(pattern).as_slice())))
    }
}


/// The marks of a line after marking it at `depth`.
fn update_marks(m: &mut Vec<bool>, depth: usize, hit: bool)
    ensures
        final(m)@ == marks_after(old(m)@, depth as nat, hit),
{
    if m.len() > depth {
        m.truncate(depth);
    }
    let ghost kept = m@;
    assert(kept == (if old(m)@.len() > depth { old(m)@.subrange(0, depth as int) } else { old(m)@ }));
    if hit {
        assert(m@ =~= kept + Seq::new(0, |i: int| false));
        while m.len() < depth
            invariant
                kept.len() <= m@.len() <= depth,
                m@ == kept + Seq::new((m@.len() - kept.len()) as nat, |i: int| false),
            decreases depth - m@.len(),
        {
            let ghost before = m@;
            m.push(false);
            assert(m@ =~= kept + Seq::new((m@.len() - kept.len()) as nat, |i: int| false));
        }
        m.push(true);
    }
}

impl Buffer {
    /// Marks the lines of `selection` that the regex `pattern` matches (or,
    /// `inverse`, doesn't match) at nesting depth `depth`, after dropping
    /// every line's marks at that depth and deeper.
    ///
    /// Errors if the selection or the regex is invalid (nothing changed
    /// then), or if no line was marked.
    pub fn mark_matching_at(&mut self, pattern: &str, selection: (usize, usize), inverse: bool, depth: usize) -> (r: EdResult<()>)
        ensures
            r is Ok <==> selection_valid(old(self)@.len(), selection) && regex_valid(pattern@)
                && exists|i: int| 0 <= i < old(self)@.len() && #[trigger] mark_hit(old(self)@, pattern@, selection, inverse, i),
            !selection_valid(old(self)@.len(), selection) ==> r == Err::<(), EdError>(
                selection_error(old(self).inner.len(), selection),
            ) && final(self)@ == old(self)@,
            selection_valid(old(self)@.len(), selection) && !regex_valid(pattern@) ==> (r matches Err(
                EdError::RegexInvalid { regex: rx, error: _ },
            ) && rx@ == pattern@) && final(self)@ == old(self)@,
            selection_valid(old(self)@.len(), selection) && regex_valid(pattern@) ==> final(self)@
                == marked(old(self)@, pattern@, selection, inverse, depth as nat),
            selection_valid(old(self)@.len(), selection) && regex_valid(pattern@) && r is Err ==> (r matches Err(
                EdError::RegexNoMatch(rx),
            ) && rx@ == pattern@),
    {
        if let Err(e) = self.verify_selection(selection) {
            return Err(e);
        }
        let regex = match compile_pattern(pattern) {
            Ok(p) => p,
            Err(error) => {
                return Err(EdError::RegexInvalid { regex: string_from_chars(chars_of(pattern).as_slice()), error });
            },
        };
        let ghost orig = self@;
        let mut found = false;
        let mut i: usize = 0;
        while i < self.inner.len()
            invariant
                i <= self@.len(),
                self@.len() == orig.len(),
                regex@ == pattern@,
                forall|j: int| 0 <= j < i ==> #[trigger] self@[j] == marked(orig, pattern@, selection, inverse, depth as nat)[j],
                forall|j: int| i <= j < self@.len() ==> #[trigger] self@[j] == orig[j],
                found <==> exists|j: int| 0 <= j < i && #[trigger] mark_hit(orig, pattern@, selection, inverse, j),
            decreases self@.len() - i,
        {
            assert(self@[i as int] == orig[i as int]);
            assert(self@[i as int].text == self.inner@[i as int].text@);
            let in_sel = i + 1 >= selection.0 && i < selection.1;
            let hit = in_sel && (pattern_is_match(&regex, self.inner[i].text.as_str()) != inverse);
            assert(hit == mark_hit(orig, pattern@, selection, inverse, i as int));
            let ghost before = self.inner@;
            let ghost vbefore = self@;
            update_marks(&mut self.inner[i].matched, depth, hit);
            assert(self.inner@ =~= before.update(i as int, self.inner@[i as int]));
            assert(self@ =~= vbefore.update(i as int, self@[i as int]));
            assert(self@[i as int] == marked(orig, pattern@, selection, inverse, depth as nat)[i as int]);
            if hit {
                found = true;
            }
            i = i + 1;
        }
        assert(self@ =~= marked(orig, pattern@, selection, inverse, depth as nat));
        if !found {
            return Err(EdError::RegexNoMatch(string_from_chars(chars_of(pattern).as_slice())));
        }
        Ok(())
    }

    /// The first line marked at depth `depth`, if any. The marks at that
    /// depth and deeper are dropped from that line and every line before it.
    pub fn get_marked_at(&mut self, depth: usize) -> (r: Option<usize>)
        ensures
            r matches Some(k) ==> 1 <= k <= old(self)@.len(),
            r matches Some(k) ==> is_marked(old(self)@[k - 1], depth as nat),
            r matches Some(k) ==> forall|j: int| 0 <= j < k - 1 ==> !is_marked(#[trigger] old(self)@[j], depth as nat),
            r matches Some(k) ==> final(self)@ == unmarked_upto(old(self)@, depth as nat, k as int),
            r is None ==> (forall|j: int| 0 <= j < old(self)@.len() ==> !is_marked(#[trigger] old(self)@[j], depth as nat))
                && final(self)@ == unmarked_upto(old(self)@, depth as nat, old(self)@.len() as int),
    {
        let ghost orig = self@;
        let mut i: usize = 0;
        while i < self.inner.len()
            invariant
                i <= self@.len(),
                self@.len() == orig.len(),
                self@ == unmarked_upto(orig, depth as nat, i as int),
                orig == old(self)@,
                forall|j: int| 0 <= j < i ==> !is_marked(#[trigger] orig[j], depth as nat),
            decreases self@.len() - i,
        {
            assert(self@[i as int] == orig[i as int]);
            assert(self@[i as int].matched == self.inner@[i as int].matched@);
            let len = self.inner[i].matched.len();
            if len > depth {
                let x = self.inner[i].matched[depth];
                assert(x == orig[i as int].matched[depth as int]);
                let ghost before = self.inner@;
                let ghost vbefore = self@;
                self.inner[i].matched.truncate(depth);
                assert(self.inner@ =~= before.update(i as int, self.inner@[i as int]));
                assert(self@ =~= vbefore.update(i as int, self@[i as int]));
                assert(self@[i as int] == unmarked(orig[i as int], depth as nat));
                assert(self@ =~= unmarked_upto(orig, depth as nat, i + 1));
                if x {
                    assert(orig == old(self)@);
                    assert(self.inner@.len() == self@.len());
                    assert(is_marked(orig[i as int], depth as nat));
                    assert(self@ == unmarked_upto(orig, depth as nat, (i + 1) as int));
                    return Some(i + 1);
                }
            } else {
                assert(self@ =~= unmarked_upto(orig, depth as nat, i + 1));
            }
            i = i + 1;
        }
        assert(self@ =~= unmarked_upto(orig, depth as nat, orig.len() as int));
        None
    }

    /// `g`-like commands: marks the lines of `selection` that the regex
    /// `pattern` matches (or, `inverse`, doesn't), at the outermost depth.
    pub fn mark_matching(&mut self, pattern: &str, selection: (usize, usize), inverse: bool) -> (r: EdResult<()>)
        ensures
            r is Ok <==> selection_valid(old(self)@.len(), selection) && regex_valid(pattern@)
                && exists|i: int| 0 <= i < old(self)@.len() && #[trigger] mark_hit(old(self)@, pattern@, selection, inverse, i),
            selection_valid(old(self)@.len(), selection) && regex_valid(pattern@) ==> final(self)@
                == marked(old(self)@, pattern@, selection, inverse, 0),
            !(selection_valid(old(self)@.len(), selection) && regex_valid(pattern@)) ==> final(self)@ == old(self)@,
    {
        self.mark_matching_at(pattern, selection, inverse, 0)
    }

    /// The first marked line, unmarking it and every line before it.
    pub fn get_marked(&mut self) -> (r: EdResult<Option<usize>>)
        ensures
            r matches Ok(Some(k)) ==> 1 <= k <= old(self)@.len() && is_marked(old(self)@[k - 1], 0)
                && (forall|j: int| 0 <= j < k - 1 ==> !is_marked(#[trigger] old(self)@[j], 0))
                && final(self)@ == unmarked_upto(old(self)@, 0, k as int),
            r matches Ok(None) ==> (forall|j: int| 0 <= j < old(self)@.len() ==> !is_marked(#[trigger] old(self)@[j], 0))
                && final(self)@ == unmarked_upto(old(self)@, 0, old(self)@.len() as int),
            r is Ok,
    {
        Ok(self.get_marked_at(0))
    }
}

} // verus!
