//! The line buffer and the clipboard.
use vstd::prelude::*;
use crate::buffer::line::{Line, LineView, PubLine};
use crate::buffer::iters::{LinesIter, TaggedLinesIter};
use crate::error::{EdError, EdResult};
use crate::history::Snapshot;
use crate::buffer::editing::copy_lines;

verus! {

/// The abstract form of a vector of lines.
pub open spec fn lines_view(v: Seq<Line>) -> Seq<LineView> {
    v.map_values(|l: Line| l@)
}

/// The texts of a sequence of lines.
pub open spec fn texts_of(v: Seq<LineView>) -> Seq<Seq<char>> {
    v.map_values(|l: LineView| l.text)
}

/// A clipboard entry: a tag and the text of a line.
pub open spec fn pub_view(l: LineView) -> (char, Seq<char>) {
    (l.tag, l.text)
}

/// The lines a clipboard's content becomes when pasted: same tags and
/// texts, no marks.
pub open spec fn unclipped(c: Seq<(char, Seq<char>)>) -> Seq<LineView> {
    c.map_values(|p: (char, Seq<char>)| pasted_line(p))
}

/// The line a clipboard entry becomes when pasted.
pub open spec fn pasted_line(p: (char, Seq<char>)) -> LineView {
    LineView { tag: p.0, matched: Seq::empty(), text: p.1 }
}

/// A vector of [`PubLine`], the form in which lines are cut and pasted.
#[derive(Debug, PartialEq, Eq)]
pub struct Clipboard {
    inner: Vec<PubLine>,
}

impl View for Clipboard {
    type V = Seq<(char, Seq<char>)>;

    closed spec fn view(&self) -> Seq<(char, Seq<char>)> {
        self.inner@.map_values(|l: PubLine| (l.tag, l.text@))
    }
}

impl Clipboard {
    /// An empty clipboard.
    pub fn new() -> (c: Clipboard)
        ensures
            c@ == Seq::<(char, Seq<char>)>::empty(),
    {
        let c = Clipboard { inner: Vec::new() };
        assert(c@ =~= Seq::<(char, Seq<char>)>::empty());
        c
    }

    /// Number of lines held.
    pub fn len(&self) -> (n: usize)
        ensures
            n == self@.len(),
    {
        self.inner.len()
    }

    /// The line at position `i`.
    pub fn get(&self, i: usize) -> (l: &PubLine)
        requires
            i < self@.len(),
        ensures
            (l.tag, l.text@) == self@[i as int],
    {
        &self.inner[i]
    }

    /// Appends a line.
    pub fn push(&mut self, l: PubLine)
        ensures
            final(self)@ == old(self)@.push((l.tag, l.text@)),
    {
        let ghost t = (l.tag, l.text@);
        self.inner.push(l);
        assert(self@ =~= old(self)@.push(t));
    }

    /// The public forms (tag and text) of the given lines.
    pub fn from_lines(lines: &[Line]) -> (c: Clipboard)
        ensures
            c@ == lines_view(lines@).map_values(|l: LineView| pub_view(l)),
    {
        let mut c = Clipboard::new();
        let mut i: usize = 0;
        while i < lines.len()
            invariant
                i <= lines@.len(),
                c@ == lines_view(lines@.subrange(0, i as int)).map_values(|l: LineView| pub_view(l)),
            decreases lines@.len() - i,
        {
            c.push(PubLine::from_line(&lines[i]));
            i = i + 1;
            assert(c@ =~= lines_view(lines@.subrange(0, i as int)).map_values(|l: LineView| pub_view(l)));
        }
        assert(lines@.subrange(0, i as int) =~= lines@);
        c
    }

    /// Lines for the buffer made from the clipboard's content: same tags
    /// and texts, no marks.
    pub fn to_lines(&self) -> (v: Vec<Line>)
        ensures
            lines_view(v@) == unclipped(self@),
            v@.len() == self@.len(),
            forall|i: int| 0 <= i < v@.len() ==> (#[trigger] v@[i])@ == (LineView {
                tag: self@[i].0,
                matched: Seq::empty(),
                text: self@[i].1,
            }),
    {
        let mut v: Vec<Line> = Vec::new();
        let mut i: usize = 0;
        while i < self.inner.len()
            invariant
                i <= self@.len(),
                self@.len() == self.inner@.len(),
                v@.len() == i,
                forall|j: int| 0 <= j < i ==> (#[trigger] v@[j])@ == (LineView {
                    tag: self@[j].0,
                    matched: Seq::empty(),
                    text: self@[j].1,
                }),
            decreases self@.len() - i,
        {
            v.push(Line::from_pub_line(&self.inner[i]));
            i = i + 1;
        }
        assert(lines_view(v@) =~= unclipped(self@));
        v
    }
}

/// The lines of a text, each one a [`Line`].
///
/// Lines are numbered from 1: line `i` is `inner[i - 1]`. Index 0 is valid
/// to insert at (before the first line), but holds no line.
#[derive(Debug)]
pub struct Buffer {
    pub inner: Vec<Line>,
}

impl View for Buffer {
    type V = Seq<LineView>;

    open spec fn view(&self) -> Seq<LineView> {
        lines_view(self.inner@)
    }
}

/// Whether `index` is valid to operate on in a buffer of `len` lines.
pub open spec fn index_valid(len: nat, index: int) -> bool {
    index <= len
}

/// Whether a line exists at `index` in a buffer of `len` lines.
pub open spec fn line_valid(len: nat, index: int) -> bool {
    1 <= index <= len
}

/// Whether all lines of `sel` exist and it isn't empty.
pub open spec fn selection_valid(len: nat, sel: (usize, usize)) -> bool {
    line_valid(len, sel.0 as int) && line_valid(len, sel.1 as int) && sel.0 <= sel.1
}

/// The error [`Buffer::verify_index`] gives for `index` in a buffer of `len` lines.
pub open spec fn index_error(len: usize, index: usize) -> EdError {
    EdError::IndexTooBig { index, buffer_len: len }
}

/// The error [`Buffer::verify_line`] gives for a nonexistent line.
pub open spec fn line_error(len: usize, index: usize) -> EdError {
    if index == 0 { EdError::Line0Invalid } else { index_error(len, index) }
}

/// The error [`Buffer::verify_selection`] gives for an invalid selection.
pub open spec fn selection_error(len: usize, sel: (usize, usize)) -> EdError {
    if !line_valid(len as nat, sel.0 as int) {
        line_error(len, sel.0)
    } else if !line_valid(len as nat, sel.1 as int) {
        line_error(len, sel.1)
    } else {
        EdError::SelectionEmpty(sel)
    }
}

impl Buffer {
    /// An empty buffer.
    pub fn new() -> (b: Buffer)
        ensures
            b@ == Seq::<LineView>::empty(),
    {
        let b = Buffer { inner: Vec::new() };
        assert(b@ =~= Seq::<LineView>::empty());
        b
    }

    /// Number of lines in the buffer.
    pub fn len(&self) -> (n: usize)
        ensures
            n == self@.len(),
    {
        self.inner.len()
    }

    /// Verify that an index is valid to operate on.
    ///
    /// Doesn't mean that there exists a line at the index.
    pub fn verify_index(&self, index: usize) -> (r: EdResult<()>)
        ensures
            r is Ok <==> index_valid(self@.len(), index as int),
            r matches Err(e) ==> e == index_error(self.inner.len(), index),
    {
        let buffer_len = self.inner.len();
        if index > buffer_len {
            Err(EdError::IndexTooBig { index, buffer_len })
        } else {
            Ok(())
        }
    }

    /// Verify that a line exists at given index.
    pub fn verify_line(&self, index: usize) -> (r: EdResult<()>)
        ensures
            r is Ok <==> line_valid(self@.len(), index as int),
            r matches Err(e) ==> e == line_error(self.inner.len(), index),
    {
        if index == 0 {
            Err(EdError::Line0Invalid)
        } else {
            self.verify_index(index)
        }
    }

    /// Verify that all the lines in selection exist and it isn't inverted.
    pub fn verify_selection(&self, selection: (usize, usize)) -> (r: EdResult<()>)
        ensures
            r is Ok <==> selection_valid(self@.len(), selection),
            r matches Err(e) ==> e == selection_error(self.inner.len(), selection),
    {
        if let Err(e) = self.verify_line(selection.0) {
            return Err(e);
        }
        if let Err(e) = self.verify_line(selection.1) {
            return Err(e);
        }
        if selection.0 > selection.1 {
            Err(EdError::SelectionEmpty(selection))
        } else {
            Ok(())
        }
    }

    /// Get the texts of the lines in the given selection.
    pub fn get_lines(&self, selection: (usize, usize)) -> (r: EdResult<LinesIter<'_>>)
        ensures
            r is Ok <==> selection_valid(self@.len(), selection),
            r matches Err(e) ==> e == selection_error(self.inner.len(), selection),
            r matches Ok(it) ==> it@ == texts_of(
                self@.subrange(selection.0 - 1, selection.1 as int),
            ),
    {
        if let Err(e) = self.verify_selection(selection) {
            return Err(e);
        }
        let mut lines: Vec<&str> = Vec::new();
        let mut i = selection.0 - 1;
        while i < selection.1
            invariant
                selection.0 - 1 <= i <= selection.1 <= self@.len(),
                lines@.len() == i - (selection.0 - 1),
                forall|j: int| 0 <= j < lines@.len() ==> (#[trigger] lines@[j])@
                    == self@[selection.0 - 1 + j].text,
            decreases selection.1 - i,
        {
            lines.push(self.inner[i].text.as_str());
            i = i + 1;
        }
        let it = LinesIter::new(lines);
        assert(it@ =~= texts_of(self@.subrange(selection.0 - 1, selection.1 as int)));
        Ok(it)
    }

    /// Get the lines in the given selection with their tags.
    pub fn get_tagged_lines(&self, selection: (usize, usize)) -> (r: EdResult<TaggedLinesIter<'_>>)
        ensures
            r is Ok <==> selection_valid(self@.len(), selection),
            r matches Err(e) ==> e == selection_error(self.inner.len(), selection),
            r matches Ok(it) ==> it@ == self@.subrange(selection.0 - 1, selection.1 as int)
                .map_values(|l: LineView| pub_view(l)),
    {
        if let Err(e) = self.verify_selection(selection) {
            return Err(e);
        }
        let mut lines: Vec<(char, &str)> = Vec::new();
        let mut i = selection.0 - 1;
        while i < selection.1
            invariant
                selection.0 - 1 <= i <= selection.1 <= self@.len(),
                lines@.len() == i - (selection.0 - 1),
                forall|j: int| 0 <= j < lines@.len() ==> (#[trigger] lines@[j]).0
                    == self@[selection.0 - 1 + j].tag && lines@[j].1@ == self@[selection.0 - 1 + j].text,
            decreases selection.1 - i,
        {
            lines.push((self.inner[i].tag, self.inner[i].text.as_str()));
            i = i + 1;
        }
        let it = TaggedLinesIter::new(lines);
        assert(it@ =~= self@.subrange(selection.0 - 1, selection.1 as int).map_values(
            |l: LineView| pub_view(l),
        ));
        Ok(it)
    }
}


/// Whether two lines are the same: same tag, marks and text.
pub fn same_line(a: &Line, b: &Line) -> (r: bool)
    ensures
        r == (a@ == b@),
{
    if a.tag != b.tag {
        return false;
    }
    if a.matched.len() != b.matched.len() {
        assert(a@.matched.len() != b@.matched.len());
        return false;
    }
    let mut i: usize = 0;
    while i < a.matched.len()
        invariant
            i <= a.matched@.len(),
            a.matched@.len() == b.matched@.len(),
            forall|j: int| 0 <= j < i ==> a.matched@[j] == b.matched@[j],
        decreases a.matched@.len() - i,
    {
        if a.matched[i] != b.matched[i] {
            return false;
        }
        i = i + 1;
    }
    assert(a.matched@ =~= b.matched@);
    let ta = a.text.as_str();
    let tb = b.text.as_str();
    let ca = crate::text::chars_of(ta);
    let cb = crate::text::chars_of(tb);
    if ca.len() != cb.len() {
        assert(a@.text.len() != b@.text.len());
        return false;
    }
    let mut k: usize = 0;
    while k < ca.len()
        invariant
            k <= ca@.len(),
            ca@.len() == cb@.len(),
            ca@ == a@.text,
            cb@ == b@.text,
            forall|j: int| 0 <= j < k ==> ca@[j] == cb@[j],
        decreases ca@.len() - k,
    {
        if ca[k] != cb[k] {
            assert(ca@[k as int] != cb@[k as int]);
            return false;
        }
        k = k + 1;
    }
    assert(ca@ =~= cb@);
    true
}

impl Snapshot for Buffer {
    /// A copy of every line (tags, marks and text kept).
    fn create_snapshot(&self) -> (r: Buffer) {
        let r = Buffer { inner: copy_lines(&self.inner, 0, self.inner.len()) };
        assert(lines_view(self.inner@).subrange(0, self.inner@.len() as int) =~= self@);
        r
    }

    fn same_state(&self, other: &Buffer) -> (r: bool) {
        if self.inner.len() != other.inner.len() {
            assert(self@.len() != other@.len());
            return false;
        }
        let mut i: usize = 0;
        while i < self.inner.len()
            invariant
                i <= self@.len(),
                self@.len() == other@.len(),
                forall|j: int| 0 <= j < i ==> self@[j] == other@[j],
            decreases self@.len() - i,
        {
            if !same_line(&self.inner[i], &other.inner[i]) {
                assert(self@[i as int] != other@[i as int]);
                return false;
            }
            i = i + 1;
        }
        assert(self@ =~= other@);
        true
    }

    open spec fn initial_view() -> Seq<LineView> {
        Seq::empty()
    }

    fn initial_state() -> (r: Buffer) {
        Buffer::new()
    }
}

impl Default for Buffer {
    fn default() -> (r: Buffer)
        ensures
            r@ == Seq::<LineView>::empty(),
    {
        Buffer::new()
    }
}

} // verus!
