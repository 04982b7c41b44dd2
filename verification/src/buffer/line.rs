//! The text storage structures for single lines.
use vstd::prelude::*;
use crate::text::{chars_of, string_from_chars};

verus! {

/// Whether `s` is the text of exactly one line: it ends with a newline and
/// holds no other newline.
pub open spec fn valid_line_text(s: Seq<char>) -> bool {
    &&& s.len() > 0
    &&& s.last() == '\n'
    &&& forall|i: int| 0 <= i < s.len() - 1 ==> #[trigger] s[i] != '\n'
}

/// Error type for [`LineText`]: holds the text that was refused.
#[derive(Debug, PartialEq, Eq)]
pub struct LineTextError {
    pub text: String,
}

/// An immutable text container for a single line of text.
///
/// Upon creation it verifies that the text is newline terminated and holds
/// no other newline; that property is kept as the type's invariant.
#[derive(Debug, PartialEq, Eq)]
pub struct LineText {
    inner: String,
}

impl View for LineText {
    type V = Seq<char>;

    closed spec fn view(&self) -> Seq<char> {
        self.inner@
    }
}

impl LineText {
    #[verifier::type_invariant]
    spec fn inv(&self) -> bool {
        valid_line_text(self.inner@)
    }

    /// Creates a new `LineText`, or returns the text back inside a
    /// [`LineTextError`] if it isn't exactly one newline terminated line.
    pub fn new(text: String) -> (r: Result<LineText, LineTextError>)
        ensures
            r is Ok <==> valid_line_text(text@),
            r matches Ok(t) ==> t@ == text@,
            r matches Err(e) ==> e.text@ == text@,
    {
        let chars = chars_of(text.as_str());
        let n = chars.len();
        if n == 0 || chars[n - 1] != '\n' {
            return Err(LineTextError { text });
        }
        let mut i: usize = 0;
        while i < n - 1
            invariant
                n == chars@.len(),
                n > 0,
                i <= n - 1,
                chars@ == text@,
                forall|j: int| 0 <= j < i ==> #[trigger] chars@[j] != '\n',
            decreases n - 1 - i,
        {
            if chars[i] == '\n' {
                return Err(LineTextError { text });
            }
            i = i + 1;
        }
        Ok(LineText { inner: text })
    }

    /// Creates a `LineText` from characters already known to be one line.
    pub fn from_chars(chars: &Vec<char>) -> (t: LineText)
        requires
            valid_line_text(chars@),
        ensures
            t@ == chars@,
    {
        LineText { inner: string_from_chars(chars.as_slice()) }
    }

    /// The text, newline included.
    pub fn as_str(&self) -> (s: &str)
        ensures
            s@ == self@,
    {
        self.inner.as_str()
    }

    /// The text as characters.
    pub fn chars(&self) -> (v: Vec<char>)
        ensures
            v@ == self@,
            valid_line_text(v@),
    {
        proof {
            use_type_invariant(self);
        }
        chars_of(self.inner.as_str())
    }

    /// A copy of this text.
    pub fn duplicate(&self) -> (t: LineText)
        ensures
            t@ == self@,
    {
        proof {
            use_type_invariant(self);
        }
        LineText { inner: self.inner.clone() }
    }
}

/// The state of a [`Line`] as contracts speak of it.
pub struct LineView {
    pub tag: char,
    pub matched: Seq<bool>,
    pub text: Seq<char>,
}

/// The abstract form of a freshly created line holding `text`: untagged and
/// unmarked.
pub open spec fn fresh_line(text: Seq<char>) -> LineView {
    LineView { tag: '\0', matched: Seq::empty(), text }
}

/// Text data and metadata for a single line of text.
///
/// `tag` is set by the `k` command and found again by `'x` indices;
/// `matched` holds, per nesting depth of `g`-like commands, whether the line
/// is marked for processing.
#[derive(Debug)]
pub struct Line {
    pub matched: Vec<bool>,
    pub tag: char,
    pub text: LineText,
}

impl View for Line {
    type V = LineView;

    open spec fn view(&self) -> LineView {
        LineView { tag: self.tag, matched: self.matched@, text: self.text@ }
    }
}

impl Line {
    /// Creates a new untagged line, or errors if `text` isn't exactly one
    /// newline terminated line.
    pub fn new(text: String) -> (r: Result<Line, LineTextError>)
        ensures
            r is Ok <==> valid_line_text(text@),
            r matches Ok(l) ==> l@ == fresh_line(text@),
            r matches Err(e) ==> e.text@ == text@,
    {
        match LineText::new(text) {
            Ok(t) => Ok(Line { matched: Vec::new(), tag: '\0', text: t }),
            Err(e) => Err(e),
        }
    }

    /// Creates an untagged line from an existing line text.
    pub fn from_text(text: LineText) -> (l: Line)
        ensures
            l@ == fresh_line(text@),
    {
        Line { matched: Vec::new(), tag: '\0', text }
    }

    /// Creates an untagged line from characters known to be one line.
    pub fn from_chars(chars: &Vec<char>) -> (l: Line)
        requires
            valid_line_text(chars@),
        ensures
            l@ == fresh_line(chars@),
    {
        Line { matched: Vec::new(), tag: '\0', text: LineText::from_chars(chars) }
    }

    /// Get the current value of the tag field.
    pub fn tag(&self) -> (c: char)
        ensures
            c == self@.tag,
    {
        self.tag
    }

    /// Set the tag to the given character.
    pub fn set_tag(&mut self, new: char)
        ensures
            final(self)@ == (LineView { tag: new, ..old(self)@ }),
    {
        self.tag = new;
    }

    /// A copy of the line with the same tag, marks and text.
    pub fn create_snapshot(&self) -> (l: Line)
        ensures
            l@ == self@,
    {
        let mut matched: Vec<bool> = Vec::new();
        let mut i: usize = 0;
        while i < self.matched.len()
            invariant
                i <= self.matched@.len(),
                matched@ == self.matched@.subrange(0, i as int),
            decreases self.matched@.len() - i,
        {
            matched.push(self.matched[i]);
            i = i + 1;
            assert(matched@ =~= self.matched@.subrange(0, i as int));
        }
        assert(matched@ =~= self.matched@);
        Line { matched, tag: self.tag, text: self.text.duplicate() }
    }

    /// Creates a line from its public form: same tag and text, no marks.
    pub fn from_pub_line(l: &PubLine) -> (r: Line)
        ensures
            r@ == (LineView { tag: l.tag, matched: Seq::empty(), text: l.text@ }),
    {
        Line { matched: Vec::new(), tag: l.tag, text: l.text.duplicate() }
    }
}

/// A fully public version of the [`Line`] struct, used for API interaction
/// and as the clipboard's content.
#[derive(Debug, PartialEq, Eq)]
pub struct PubLine {
    /// The tag set on the line.
    pub tag: char,
    /// The text data for the line.
    pub text: LineText,
}

impl PubLine {
    /// Creates a `PubLine` with the given tag and text, checking the text.
    pub fn new(tag: char, text: &str) -> (r: Result<PubLine, LineTextError>)
        ensures
            r is Ok <==> valid_line_text(text@),
            r matches Ok(l) ==> l.tag == tag && l.text@ == text@,
    {
        let owned = string_from_chars(chars_of(text).as_slice());
        match LineText::new(owned) {
            Ok(t) => Ok(PubLine { tag, text: t }),
            Err(e) => Err(e),
        }
    }

    /// The public form of a line: its tag and text.
    pub fn from_line(l: &Line) -> (r: PubLine)
        ensures
            r.tag == l@.tag,
            r.text@ == l@.text,
    {
        PubLine { tag: l.tag, text: l.text.duplicate() }
    }

    /// A copy of this line.
    pub fn duplicate(&self) -> (r: PubLine)
        ensures
            r.tag == self.tag,
            r.text@ == self.text@,
    {
        PubLine { tag: self.tag, text: self.text.duplicate() }
    }
}

} // verus!
