//! Indices and selections. Since default selections vary between commands
//! and interpreting an index needs the buffer, command text is first parsed
//! into an [`Ind`] or [`Sel`], which is interpreted later.
//!
//! The parsers return byte offsets into the input, as `str` slicing takes
//! them; the `_chars` variants count characters instead.
use vstd::prelude::*;
use crate::error::{EdError, EdResult};
use crate::buffer::buffer::line_valid;
use crate::buffer::finding::{first_tagged, has_tag, nearest_match, any_match};
use crate::buffer::line::LineView;
use crate::ed::Ed;
use crate::text::{chars_of, is_digit, parse_usize, parse_usize_spec, regex_valid, byte_offset, byte_position};

verus! {

/// An index as written in a command, before interpretation.
#[derive(PartialEq, Debug)]
pub enum Ind<'a> {
    /// `.`: the current selection.
    Selection,
    /// `$`: the last line.
    BufferLen,
    /// A line number.
    Literal(usize),
    /// `'x`: the first line tagged `x`.
    Tag(char),
    /// `/re/`: the next line matching `re`.
    Pattern(&'a str),
    /// `?re?`: the previous line matching `re`.
    RevPattern(&'a str),
    /// `ind+n`.
    Add(Box<Ind<'a>>, usize),
    /// `ind-n`.
    Sub(Box<Ind<'a>>, usize),
}

/// A selection as written in a command, before interpretation.
#[derive(PartialEq, Debug)]
pub enum Sel<'a> {
    /// Two indices separated by `,` or `;`.
    Pair(Ind<'a>, Ind<'a>),
    /// A single index.
    Lone(Ind<'a>),
}

/// The mathematical value of an [`Ind`].
pub enum IndV {
    Selection,
    BufferLen,
    Literal(usize),
    Tag(char),
    Pattern(Seq<char>),
    RevPattern(Seq<char>),
    Add(Box<IndV>, usize),
    Sub(Box<IndV>, usize),
}

/// The mathematical value of a [`Sel`].
pub enum SelV {
    Pair(IndV, IndV),
    Lone(IndV),
}

pub open spec fn ind_view<'a>(i: Ind<'a>) -> IndV
    decreases i,
{
    match i {
        Ind::Selection => IndV::Selection,
        Ind::BufferLen => IndV::BufferLen,
        Ind::Literal(n) => IndV::Literal(n),
        Ind::Tag(c) => IndV::Tag(c),
        Ind::Pattern(p) => IndV::Pattern(p@),
        Ind::RevPattern(p) => IndV::RevPattern(p@),
        Ind::Add(inner, n) => IndV::Add(Box::new(ind_view(*inner)), n),
        Ind::Sub(inner, n) => IndV::Sub(Box::new(ind_view(*inner)), n),
    }
}

pub open spec fn opt_ind_view<'a>(i: Option<Ind<'a>>) -> Option<IndV> {
    match i {
        Some(x) => Some(ind_view(x)),
        None => None,
    }
}

pub open spec fn sel_view<'a>(s: Sel<'a>) -> SelV {
    match s {
        Sel::Pair(a, b) => SelV::Pair(ind_view(a), ind_view(b)),
        Sel::Lone(a) => SelV::Lone(ind_view(a)),
    }
}

pub open spec fn opt_sel_view<'a>(s: Option<Sel<'a>>) -> Option<SelV> {
    match s {
        Some(x) => Some(sel_view(x)),
        None => None,
    }
}

/// Why an index could not be parsed; the texts are parts of the input.
pub enum IndexFault {
    /// A special index character after the start of an index.
    SpecialAfterStart(Seq<char>, char),
    /// A line number too large for a `usize`.
    NotInt(Seq<char>),
    /// An offset too large for a `usize`.
    OffsetNotInt(Seq<char>),
    /// An index written right after another one, with the text before it.
    Unrelated(Seq<char>, Seq<char>),
    /// A special index without its argument.
    Unfinished(Seq<char>),
}

/// What the index parser is in the middle of, with where the current part
/// started.
pub enum Scan {
    Default(int),
    Tag,
    Pattern(int),
    RevPattern(int),
    Offset(int, bool),
}

/// `s` without its trailing newlines.
pub open spec fn trim_newlines(s: Seq<char>) -> Seq<char>
    decreases s.len(),
{
    if s.len() > 0 && s.last() == '\n' {
        trim_newlines(s.drop_last())
    } else {
        s
    }
}

/// `cur`, or `.` when there is no index yet.
pub open spec fn or_selection(cur: Option<IndV>) -> IndV {
    match cur {
        Some(x) => x,
        None => IndV::Selection,
    }
}

/// `cur` moved `offset` lines down (or, `neg`, up).
pub open spec fn stepped(neg: bool, cur: Option<IndV>, offset: usize) -> IndV {
    if neg {
        IndV::Sub(Box::new(or_selection(cur)), offset)
    } else {
        IndV::Add(Box::new(or_selection(cur)), offset)
    }
}

/// The result of a plain index ending at `i`.
pub open spec fn default_end(s: Seq<char>, start: int, i: int, cur: Option<IndV>) -> Result<(int, Option<IndV>), IndexFault> {
    if start < i {
        if cur is Some {
            Err(IndexFault::Unrelated(s.take(start), s.subrange(start, i)))
        } else {
            match parse_usize_spec(s.subrange(start, i)) {
                Some(v) => Ok((i, Some(IndV::Literal(v)))),
                None => Err(IndexFault::NotInt(s.subrange(start, i))),
            }
        }
    } else {
        Ok((i, cur))
    }
}

/// The result of an offset ending at `i`.
pub open spec fn offset_end(s: Seq<char>, start: int, neg: bool, i: int, cur: Option<IndV>) -> Result<(int, Option<IndV>), IndexFault> {
    if start < i {
        match parse_usize_spec(s.subrange(start, i)) {
            Some(o) => Ok((i, Some(stepped(neg, cur, o)))),
            None => Err(IndexFault::OffsetNotInt(s.subrange(start, i))),
        }
    } else {
        Ok((i, Some(stepped(neg, cur, 1))))
    }
}

/// The result when the input ends in state `st`.
pub open spec fn index_end(s: Seq<char>, st: Scan, cur: Option<IndV>) -> Result<(int, Option<IndV>), IndexFault> {
    let n = s.len() as int;
    match st {
        Scan::Default(start) => default_end(s, start, n, cur),
        Scan::Tag => if cur is Some {
            Err(IndexFault::Unrelated(s.take(n - 1), s.subrange(n - 1, n)))
        } else {
            Err(IndexFault::Unfinished(seq!['\'']))
        },
        Scan::Pattern(start) => if cur is Some {
            Err(IndexFault::Unrelated(s.take(start - 1), s.subrange(start - 1, n)))
        } else {
            Ok((n, Some(IndV::Pattern(s.subrange(start, n)))))
        },
        Scan::RevPattern(start) => if cur is Some {
            Err(IndexFault::Unrelated(s.take(start - 1), s.subrange(start - 1, n)))
        } else {
            Ok((n, Some(IndV::RevPattern(s.subrange(start, n)))))
        },
        Scan::Offset(start, neg) => offset_end(s, start, neg, n, cur),
    }
}

/// Whether `c` may only start an index.
pub open spec fn is_special(c: char) -> bool {
    c == '/' || c == '\'' || c == '?' || c == '.' || c == '$'
}

/// The index parser run from character `i` in state `st`, holding the
/// index `cur` parsed so far: the position where the index ends and the
/// index, or why it is invalid.
pub open spec fn index_from(s: Seq<char>, i: int, st: Scan, cur: Option<IndV>) -> Result<(int, Option<IndV>), IndexFault>
    decreases s.len() - i,
{
    if i < 0 || i >= s.len() {
        index_end(s, st, cur)
    } else {
        let c = s[i];
        match st {
            Scan::Default(start) => {
                if c == '+' || c == '-' {
                    if start != i {
                        if cur is Some {
                            Err(IndexFault::Unrelated(s.take(start), s.subrange(start, i)))
                        } else {
                            match parse_usize_spec(s.subrange(start, i)) {
                                Some(v) => index_from(s, i + 1, Scan::Offset(i + 1, c == '-'), Some(IndV::Literal(v))),
                                None => Err(IndexFault::NotInt(s.subrange(start, i))),
                            }
                        }
                    } else {
                        index_from(s, i + 1, Scan::Offset(i + 1, c == '-'), cur)
                    }
                } else if is_special(c) {
                    if start != i {
                        Err(IndexFault::SpecialAfterStart(s.subrange(start, i), c))
                    } else if c == '\'' {
                        index_from(s, i + 1, Scan::Tag, cur)
                    } else if c == '/' {
                        index_from(s, i + 1, Scan::Pattern(i + 1), cur)
                    } else if c == '?' {
                        index_from(s, i + 1, Scan::RevPattern(i + 1), cur)
                    } else if cur is Some {
                        Err(IndexFault::Unrelated(s.take(i), s.subrange(i, i + 1)))
                    } else {
                        index_from(s, i + 1, Scan::Default(i + 1), Some(if c == '.' { IndV::Selection } else { IndV::BufferLen }))
                    }
                } else if is_digit(c) {
                    index_from(s, i + 1, st, cur)
                } else {
                    default_end(s, start, i, cur)
                }
            },
            Scan::Tag => {
                if cur is Some {
                    Err(IndexFault::Unrelated(s.take(i - 1), s.subrange(i - 1, i + 1)))
                } else {
                    index_from(s, i + 1, Scan::Default(i + 1), Some(IndV::Tag(c)))
                }
            },
            Scan::Pattern(start) => {
                if c == '/' {
                    if cur is Some {
                        Err(IndexFault::Unrelated(s.take(start - 1), s.subrange(start - 1, i + 1)))
                    } else {
                        index_from(s, i + 1, Scan::Default(i + 1), Some(IndV::Pattern(s.subrange(start, i))))
                    }
                } else {
                    index_from(s, i + 1, st, cur)
                }
            },
            Scan::RevPattern(start) => {
                if c == '?' {
                    if cur is Some {
                        Err(IndexFault::Unrelated(s.take(start - 1), s.subrange(start - 1, i + 1)))
                    } else {
                        index_from(s, i + 1, Scan::Default(i + 1), Some(IndV::RevPattern(s.subrange(start, i))))
                    }
                } else {
                    index_from(s, i + 1, st, cur)
                }
            },
            Scan::Offset(start, neg) => {
                if c == '+' || c == '-' {
                    if start != i {
                        match parse_usize_spec(s.subrange(start, i)) {
                            Some(o) => index_from(s, i + 1, Scan::Offset(i + 1, c == '-'), Some(stepped(neg, cur, o))),
                            None => Err(IndexFault::OffsetNotInt(s.subrange(start, i))),
                        }
                    } else {
                        index_from(s, i + 1, Scan::Offset(i + 1, c == '-'), Some(stepped(neg, cur, 1)))
                    }
                } else if is_digit(c) {
                    index_from(s, i + 1, st, cur)
                } else {
                    offset_end(s, start, neg, i, cur)
                }
            },
        }
    }
}

/// What [`parse_index`] gives for `input`: where the index at its start
/// ends (trailing newlines of the input ignored) and the index, if any.
pub open spec fn parse_index_spec(input: Seq<char>) -> Result<(int, Option<IndV>), IndexFault> {
    index_from(trim_newlines(input), 0, Scan::Default(0), None)
}

/// Whether error `e` reports fault `f`.
pub open spec fn index_fault_is(e: EdError, f: IndexFault) -> bool {
    match f {
        IndexFault::SpecialAfterStart(p, c) => e matches EdError::IndexSpecialAfterStart { prior_index, special_index }
            && prior_index@ == p && special_index == c,
        IndexFault::NotInt(t) => e matches EdError::IndexNotInt(x) && x@ == t,
        IndexFault::OffsetNotInt(t) => e matches EdError::OffsetNotInt(x) && x@ == t,
        IndexFault::Unrelated(p, u) => e matches EdError::IndicesUnrelated { prior_index, unrelated_index }
            && prior_index@ == p && unrelated_index@ == u,
        IndexFault::Unfinished(t) => e matches EdError::IndexUnfinished(x) && x@ == t,
    }
}

/// Whether `r` is the outcome `spec` describes.
pub open spec fn index_outcome_is<'a>(r: EdResult<(usize, Option<Ind<'a>>)>, spec: Result<(int, Option<IndV>), IndexFault>) -> bool {
    match r {
        Ok(p) => spec is Ok && p.0 == spec->Ok_0.0 && opt_ind_view(p.1) == spec->Ok_0.1,
        Err(e) => spec is Err && index_fault_is(e, spec->Err_0),
    }
}

/// The parser's state, with where the current part started.
#[derive(Clone, Copy)]
enum State {
    Default(usize),
    Tag,
    Pattern(usize),
    RevPattern(usize),
    Offset(usize, bool),
}

spec fn scan_of(st: State) -> Scan {
    match st {
        State::Default(a) => Scan::Default(a as int),
        State::Tag => Scan::Tag,
        State::Pattern(a) => Scan::Pattern(a as int),
        State::RevPattern(a) => Scan::RevPattern(a as int),
        State::Offset(a, neg) => Scan::Offset(a as int, neg),
    }
}

/// The positions a state holds are in range when at character `i`.
spec fn state_ok(st: State, i: int) -> bool {
    match st {
        State::Default(a) => a <= i,
        State::Tag => 1 <= i,
        State::Pattern(a) => 1 <= a <= i,
        State::RevPattern(a) => 1 <= a <= i,
        State::Offset(a, _) => a <= i,
    }
}

/// The character at position `i` of `v`.
pub(crate) fn char_at(v: &Vec<char>, i: usize) -> (c: char)
    requires
        i < v@.len(),
    ensures
        c == v@[i as int],
{
    v[i]
}

/// The characters `a..b` of `input` as a `String`.
pub(crate) fn text_of(input: &str, a: usize, b: usize) -> (r: String)
    requires
        a <= b <= input@.len(),
    ensures
        r@ == input@.subrange(a as int, b as int),
{
    input.substring_char(a, b).to_owned()
}

/// `cur` moved `offset` lines down (or, `neg`, up).
fn offset_ind<'a>(neg: bool, cur: Option<Ind<'a>>, offset: usize) -> (r: Ind<'a>)
    ensures
        ind_view(r) == stepped(neg, opt_ind_view(cur), offset),
{
    let base = match cur {
        Some(x) => x,
        None => Ind::Selection,
    };
    assert(ind_view(base) == or_selection(opt_ind_view(cur)));
    if neg {
        let r = Ind::Sub(Box::new(base), offset);
        assert(ind_view(r) == IndV::Sub(Box::new(ind_view(base)), offset));
        r
    } else {
        let r = Ind::Add(Box::new(base), offset);
        assert(ind_view(r) == IndV::Add(Box::new(ind_view(base)), offset));
        r
    }
}

/// [`parse_index`], with the position where the index ends counted in
/// characters.
pub(crate) fn parse_index_chars<'a>(input: &'a str) -> (r: EdResult<(usize, Option<Ind<'a>>)>)
    ensures
        index_outcome_is(r, parse_index_spec(input@)),
        r matches Ok(p) ==> p.0 <= input@.len(),
{
    let chars = chars_of(input);
    let mut n = chars.len();
    assert(chars@.take(n as int) =~= chars@);
    while n > 0 && chars[n - 1] == '\n'
        invariant
            n <= chars@.len(),
            chars@ == input@,
            trim_newlines(input@) == trim_newlines(chars@.take(n as int)),
        decreases n,
    {
        assert(chars@.take(n as int).drop_last() =~= chars@.take(n - 1));
        n = n - 1;
    }
    let ghost s = chars@.take(n as int);
    assert(trim_newlines(s) == s);
    let ghost goal = parse_index_spec(input@);
    assert forall|a: int, b: int| 0 <= a <= b <= n implies #[trigger] s.subrange(a, b) == input@.subrange(a, b) by {
        assert(s.subrange(a, b) =~= input@.subrange(a, b));
    }
    let mut i: usize = 0;
    let mut st = State::Default(0);
    let mut cur: Option<Ind<'a>> = None;
    while i < n
        invariant
            n <= chars@.len(),
            chars@ == input@,
            s == chars@.take(n as int),
            s.len() == n,
            forall|a: int, b: int| 0 <= a <= b <= n ==> #[trigger] s.subrange(a, b) == input@.subrange(a, b),
            i <= n,
            state_ok(st, i as int),
            index_from(s, i as int, scan_of(st), opt_ind_view(cur)) == goal,
            goal == parse_index_spec(input@),
            st matches State::Tag ==> chars@[i - 1] == '\'',
        decreases n - i,
    {
        let c = char_at(&chars, i);
        assert(s[i as int] == c);
        match st {
            State::Default(start) => {
                if c == '+' || c == '-' {
                    if start != i {
                        if cur.is_some() {
                            return Err(EdError::IndicesUnrelated {
                                prior_index: text_of(input, 0, start),
                                unrelated_index: text_of(input, start, i),
                            });
                        }
                        match parse_usize(&chars, start, i) {
                            Some(v) => {
                                cur = Some(Ind::Literal(v));
                            },
                            None => {
                                return Err(EdError::IndexNotInt(text_of(input, start, i)));
                            },
                        }
                    }
                    st = State::Offset(i + 1, c == '-');
                } else if c == '/' || c == '\'' || c == '?' || c == '.' || c == '$' {
                    if start != i {
                        return Err(EdError::IndexSpecialAfterStart {
                            prior_index: text_of(input, start, i),
                            special_index: c,
                        });
                    }
                    if c == '\'' {
                        st = State::Tag;
                    } else if c == '/' {
                        st = State::Pattern(i + 1);
                    } else if c == '?' {
                        st = State::RevPattern(i + 1);
                    } else {
                        if cur.is_some() {
                            return Err(EdError::IndicesUnrelated {
                                prior_index: text_of(input, 0, i),
                                unrelated_index: text_of(input, i, i + 1),
                            });
                        }
                        cur = Some(if c == '.' { Ind::Selection } else { Ind::BufferLen });
                        st = State::Default(i + 1);
                    }
                } else if '0' <= c && c <= '9' {
                } else {
                    return default_result(input, &chars, start, i, cur, Ghost(s));
                }
            },
            State::Tag => {
                if cur.is_some() {
                    return Err(EdError::IndicesUnrelated {
                        prior_index: text_of(input, 0, i - 1),
                        unrelated_index: text_of(input, i - 1, i + 1),
                    });
                }
                cur = Some(Ind::Tag(c));
                st = State::Default(i + 1);
            },
            State::Pattern(start) => {
                if c == '/' {
                    if cur.is_some() {
                        return Err(EdError::IndicesUnrelated {
                            prior_index: text_of(input, 0, start - 1),
                            unrelated_index: text_of(input, start - 1, i + 1),
                        });
                    }
                    cur = Some(Ind::Pattern(input.substring_char(start, i)));
                    st = State::Default(i + 1);
                }
            },
            State::RevPattern(start) => {
                if c == '?' {
                    if cur.is_some() {
                        return Err(EdError::IndicesUnrelated {
                            prior_index: text_of(input, 0, start - 1),
                            unrelated_index: text_of(input, start - 1, i + 1),
                        });
                    }
                    cur = Some(Ind::RevPattern(input.substring_char(start, i)));
                    st = State::Default(i + 1);
                }
            },
            State::Offset(start, neg) => {
                if c == '+' || c == '-' {
                    let offset = if start != i {
                        match parse_usize(&chars, start, i) {
                            Some(o) => o,
                            None => {
                                return Err(EdError::OffsetNotInt(text_of(input, start, i)));
                            },
                        }
                    } else {
                        1
                    };
                    cur = Some(offset_ind(neg, cur, offset));
                    st = State::Offset(i + 1, c == '-');
                } else if '0' <= c && c <= '9' {
                } else {
                    return offset_result(input, &chars, start, neg, i, cur, Ghost(s));
                }
            },
        }
        i = i + 1;
    }
    match st {
        State::Default(start) => default_result(input, &chars, start, n, cur, Ghost(s)),
        State::Tag => {
            if cur.is_some() {
                Err(EdError::IndicesUnrelated {
                    prior_index: text_of(input, 0, n - 1),
                    unrelated_index: text_of(input, n - 1, n),
                })
            } else {
                assert(input@.subrange(n - 1, n as int) =~= seq!['\'']);
                Err(EdError::IndexUnfinished(text_of(input, n - 1, n)))
            }
        },
        State::Pattern(start) => {
            if cur.is_some() {
                Err(EdError::IndicesUnrelated {
                    prior_index: text_of(input, 0, start - 1),
                    unrelated_index: text_of(input, start - 1, n),
                })
            } else {
                Ok((n, Some(Ind::Pattern(input.substring_char(start, n)))))
            }
        },
        State::RevPattern(start) => {
            if cur.is_some() {
                Err(EdError::IndicesUnrelated {
                    prior_index: text_of(input, 0, start - 1),
                    unrelated_index: text_of(input, start - 1, n),
                })
            } else {
                Ok((n, Some(Ind::RevPattern(input.substring_char(start, n)))))
            }
        },
        State::Offset(start, neg) => offset_result(input, &chars, start, neg, n, cur, Ghost(s)),
    }
}

/// The outcome when a plain index ends at `i`.
fn default_result<'a>(input: &'a str, chars: &Vec<char>, start: usize, i: usize, cur: Option<Ind<'a>>, Ghost(s): Ghost<Seq<char>>) -> (r: EdResult<(usize, Option<Ind<'a>>)>)
    requires
        chars@ == input@,
        i <= s.len() <= input@.len(),
        forall|a: int, b: int| 0 <= a <= b <= s.len() ==> #[trigger] s.subrange(a, b) == input@.subrange(a, b),
    ensures
        index_outcome_is(r, default_end(s, start as int, i as int, opt_ind_view(cur))),
        r matches Ok(p) ==> p.0 == i,
{
    if start < i {
        if cur.is_some() {
            return Err(EdError::IndicesUnrelated {
                prior_index: text_of(input, 0, start),
                unrelated_index: text_of(input, start, i),
            });
        }
        assert(s.subrange(start as int, i as int) == chars@.subrange(start as int, i as int));
        match parse_usize(chars, start, i) {
            Some(v) => Ok((i, Some(Ind::Literal(v)))),
            None => Err(EdError::IndexNotInt(text_of(input, start, i))),
        }
    } else {
        Ok((i, cur))
    }
}

/// The outcome when an offset ends at `i`.
fn offset_result<'a>(input: &'a str, chars: &Vec<char>, start: usize, neg: bool, i: usize, cur: Option<Ind<'a>>, Ghost(s): Ghost<Seq<char>>) -> (r: EdResult<(usize, Option<Ind<'a>>)>)
    requires
        chars@ == input@,
        i <= s.len() <= input@.len(),
        forall|a: int, b: int| 0 <= a <= b <= s.len() ==> #[trigger] s.subrange(a, b) == input@.subrange(a, b),
    ensures
        index_outcome_is(r, offset_end(s, start as int, neg, i as int, opt_ind_view(cur))),
        r matches Ok(p) ==> p.0 == i,
{
    let offset = if start < i {
        assert(s.subrange(start as int, i as int) == chars@.subrange(start as int, i as int));
        match parse_usize(chars, start, i) {
            Some(o) => o,
            None => {
                return Err(EdError::OffsetNotInt(text_of(input, start, i)));
            },
        }
    } else {
        1
    };
    Ok((i, Some(offset_ind(neg, cur, offset))))
}

/// `ind`, or `default` when there is none.
pub open spec fn ind_or(ind: Option<IndV>, default: IndV) -> IndV {
    match ind {
        Some(x) => x,
        None => default,
    }
}

/// What [`parse_selection`] gives for `input`: where the selection at its
/// start ends and the selection, if any. After `;` a missing first index
/// is `.`, after `,` it is line 1; a missing second index is `$`.
pub open spec fn parse_selection_spec(input: Seq<char>) -> Result<(int, Option<SelV>), IndexFault> {
    match parse_index_spec(input) {
        Err(f) => Err(f),
        Ok(first) => {
            let o = first.0;
            if 0 <= o < input.len() && (input[o] == ';' || input[o] == ',') {
                match parse_index_spec(input.subrange(o + 1, input.len() as int)) {
                    Err(f) => Err(f),
                    Ok(second) => Ok((
                        second.0 + 1 + o,
                        Some(SelV::Pair(
                            ind_or(first.1, if input[o] == ';' { IndV::Selection } else { IndV::Literal(1) }),
                            ind_or(second.1, IndV::BufferLen),
                        )),
                    )),
                }
            } else {
                Ok((o, match first.1 {
                    Some(x) => Some(SelV::Lone(x)),
                    None => None,
                }))
            }
        },
    }
}

/// Whether `r` is the outcome `spec` describes.
pub open spec fn selection_outcome_is<'a>(r: EdResult<(usize, Option<Sel<'a>>)>, spec: Result<(int, Option<SelV>), IndexFault>) -> bool {
    match r {
        Ok(p) => spec is Ok && p.0 == spec->Ok_0.0 && opt_sel_view(p.1) == spec->Ok_0.1,
        Err(e) => spec is Err && index_fault_is(e, spec->Err_0),
    }
}

/// [`parse_selection`], with the position where the selection ends counted
/// in characters.
pub(crate) fn parse_selection_chars<'a>(input: &'a str) -> (r: EdResult<(usize, Option<Sel<'a>>)>)
    ensures
        selection_outcome_is(r, parse_selection_spec(input@)),
        r matches Ok(p) ==> p.0 <= input@.len(),
{
    let (offset, ind) = match parse_index_chars(input) {
        Ok(x) => x,
        Err(e) => {
            return Err(e);
        },
    };
    let len = input.unicode_len();
    let next = if offset < len { Some(input.get_char(offset)) } else { None };
    match next {
        Some(sep) if sep == ';' || sep == ',' => {
            let rest = input.substring_char(offset + 1, len);
            let (offset2, ind2) = match parse_index_chars(rest) {
                Ok(x) => x,
                Err(e) => {
                    return Err(e);
                },
            };
            let first = match ind {
                Some(x) => x,
                None => if sep == ';' { Ind::Selection } else { Ind::Literal(1) },
            };
            let second = match ind2 {
                Some(x) => x,
                None => Ind::BufferLen,
            };
            Ok((offset2 + 1 + offset, Some(Sel::Pair(first, second))))
        },
        _ => {
            let sel = match ind {
                Some(x) => Some(Sel::Lone(x)),
                None => None,
            };
            Ok((offset, sel))
        },
    }
}

/// Parses the index at the start of `input`: `.`, `$`, a line number,
/// `'x`, `/re/` or `?re?`, each optionally followed by offsets such as
/// `+2` or `-`, or offsets alone (relative to `.`). Returns the byte
/// offset in `input` where the index ends and the index, `None` if there
/// is none.
pub fn parse_index<'a>(input: &'a str) -> (r: EdResult<(usize, Option<Ind<'a>>)>)
    ensures
        r is Ok <==> parse_index_spec(input@) is Ok,
        r matches Err(e) ==> index_fault_is(e, parse_index_spec(input@)->Err_0),
        r matches Ok(p) ==> p.0 == byte_position(input@, parse_index_spec(input@)->Ok_0.0) && opt_ind_view(p.1)
            == parse_index_spec(input@)->Ok_0.1,
{
    match parse_index_chars(input) {
        Ok((n, ind)) => Ok((byte_offset(input, n), ind)),
        Err(e) => Err(e),
    }
}

/// Parses the selection at the start of `input`: an index, or two indices
/// separated by `,` or `;`. Returns the byte offset in `input` where it
/// ends and the selection, `None` if there is none.
pub fn parse_selection<'a>(input: &'a str) -> (r: EdResult<(usize, Option<Sel<'a>>)>)
    ensures
        r is Ok <==> parse_selection_spec(input@) is Ok,
        r matches Err(e) ==> index_fault_is(e, parse_selection_spec(input@)->Err_0),
        r matches Ok(p) ==> p.0 == byte_position(input@, parse_selection_spec(input@)->Ok_0.0) && opt_sel_view(p.1)
            == parse_selection_spec(input@)->Ok_0.1,
{
    match parse_selection_chars(input) {
        Ok((n, sel)) => Ok((byte_offset(input, n), sel)),
        Err(e) => Err(e),
    }
}

/// Why an index could not be interpreted.
pub enum Lookup {
    /// No line has the tag.
    TagNoMatch(char),
    /// A pattern was searched from line 0.
    Line0,
    /// A pattern was searched from a line beyond the end (the line and the
    /// buffer's length).
    TooBig(usize, usize),
    /// The pattern is not a valid regex.
    BadRegex(Seq<char>),
    /// No line matches the pattern.
    NoMatch(Seq<char>),
}

/// Whether error `e` reports `f`.
pub open spec fn lookup_is(e: EdError, f: Lookup) -> bool {
    match f {
        Lookup::TagNoMatch(t) => e == EdError::TagNoMatch(t),
        Lookup::Line0 => e == EdError::Line0Invalid,
        Lookup::TooBig(i, n) => e == (EdError::IndexTooBig { index: i, buffer_len: n }),
        Lookup::BadRegex(p) => e matches EdError::RegexInvalid { regex, error: _ } && regex@ == p,
        Lookup::NoMatch(p) => e matches EdError::RegexNoMatch(x) && x@ == p,
    }
}

/// The first line tagged `tag` (1-indexed).
pub open spec fn tag_lookup(s: Seq<LineView>, tag: char) -> Result<usize, Lookup> {
    if exists|k: int| first_tagged(s, tag, k) {
        Ok((choose|k: int| first_tagged(s, tag, k)) as usize)
    } else {
        Err(Lookup::TagNoMatch(tag))
    }
}

/// The nearest line after (or, `backwards`, before) line `from` that the
/// regex `pattern` matches; `from` must be a line.
pub open spec fn pattern_lookup(s: Seq<LineView>, pattern: Seq<char>, from: usize, backwards: bool) -> Result<usize, Lookup> {
    if from == 0 {
        Err(Lookup::Line0)
    } else if from > s.len() {
        Err(Lookup::TooBig(from, s.len() as usize))
    } else if !regex_valid(pattern) {
        Err(Lookup::BadRegex(pattern))
    } else if exists|k: int| nearest_match(s, pattern, from as int, backwards, k) {
        Ok((choose|k: int| nearest_match(s, pattern, from as int, backwards, k)) as usize)
    } else {
        Err(Lookup::NoMatch(pattern))
    }
}

/// `a + b`, or `usize::MAX` if that is larger.
pub open spec fn sat_add(a: usize, b: usize) -> usize {
    if a + b > usize::MAX { usize::MAX } else { (a + b) as usize }
}

/// `a - b`, or 0 if that is negative.
pub open spec fn sat_sub(a: usize, b: usize) -> usize {
    if a < b { 0 } else { (a - b) as usize }
}

/// The line (1-indexed) that index `ind` denotes in the lines `s`, with
/// `old` the line `.` denotes.
pub open spec fn interpret_spec(s: Seq<LineView>, ind: IndV, old: usize) -> Result<usize, Lookup>
    decreases ind,
{
    match ind {
        IndV::Selection => Ok(old),
        IndV::BufferLen => Ok(s.len() as usize),
        IndV::Literal(i) => Ok(i),
        IndV::Tag(t) => tag_lookup(s, t),
        IndV::Pattern(p) => pattern_lookup(s, p, old, false),
        IndV::RevPattern(p) => pattern_lookup(s, p, old, true),
        IndV::Add(inner, o) => match interpret_spec(s, *inner, old) {
            Ok(v) => Ok(sat_add(v, o)),
            Err(f) => Err(f),
        },
        IndV::Sub(inner, o) => match interpret_spec(s, *inner, old) {
            Ok(v) => Ok(sat_sub(v, o)),
            Err(f) => Err(f),
        },
    }
}

/// Whether `r` is the outcome `spec` describes.
pub open spec fn lookup_outcome_is(r: EdResult<usize>, spec: Result<usize, Lookup>) -> bool {
    match r {
        Ok(v) => spec == Ok::<usize, Lookup>(v),
        Err(e) => spec is Err && lookup_is(e, spec->Err_0),
    }
}

/// There is only one first tagged line.
proof fn lemma_first_tagged_unique(s: Seq<LineView>, tag: char, a: int, b: int)
    requires
        first_tagged(s, tag, a),
        first_tagged(s, tag, b),
    ensures
        a == b,
{
    if a < b {
        assert(s[a - 1].tag == tag);
    } else if b < a {
        assert(s[b - 1].tag == tag);
    }
}

/// There is only one nearest match.
proof fn lemma_nearest_match_unique(s: Seq<LineView>, pattern: Seq<char>, from: int, backwards: bool, a: int, b: int)
    requires
        nearest_match(s, pattern, from, backwards, a),
        nearest_match(s, pattern, from, backwards, b),
    ensures
        a == b,
{
    if a < b {
        assert(crate::text::regex_is_match(pattern, s[a - 1].text));
    } else if b < a {
        assert(crate::text::regex_is_match(pattern, s[b - 1].text));
    }
}

/// The first line tagged `tag` in the viewed buffer.
fn find_tag(state: &Ed, tag: char) -> (r: EdResult<usize>)
    requires
        state.wf(),
    ensures
        lookup_outcome_is(r, tag_lookup(state.lines(), tag)),
{
    let buffer = state.buffer();
    match buffer.get_tag(tag) {
        Ok(k) => {
            proof {
                let c = choose|k: int| first_tagged(state.lines(), tag, k);
                lemma_first_tagged_unique(state.lines(), tag, k as int, c);
            }
            Ok(k)
        },
        Err(e) => {
            assert(!exists|k: int| first_tagged(state.lines(), tag, k)) by {
                if exists|k: int| first_tagged(state.lines(), tag, k) {
                    let k = choose|k: int| first_tagged(state.lines(), tag, k);
                    assert(state.lines()[k - 1].tag == tag);
                    assert(has_tag(state.lines(), tag));
                }
            }
            Err(e)
        },
    }
}

/// The nearest line after (or, `backwards`, before) line `curr_line` of the
/// viewed buffer that the regex `pattern` matches.
fn find_matching(state: &Ed, pattern: &str, curr_line: usize, backwards: bool) -> (r: EdResult<usize>)
    requires
        state.wf(),
    ensures
        lookup_outcome_is(r, pattern_lookup(state.lines(), pattern@, curr_line, backwards)),
{
    let buffer = state.buffer();
    if let Err(e) = buffer.verify_line(curr_line) {
        return Err(e);
    }
    match buffer.get_matching(pattern, curr_line, backwards) {
        Ok(k) => {
            proof {
                let c = choose|k: int| nearest_match(state.lines(), pattern@, curr_line as int, backwards, k);
                lemma_nearest_match_unique(state.lines(), pattern@, curr_line as int, backwards, k as int, c);
            }
            Ok(k)
        },
        Err(e) => {
            assert(regex_valid(pattern@) ==> !exists|k: int| nearest_match(state.lines(), pattern@, curr_line as int, backwards, k)) by {
                if exists|k: int| nearest_match(state.lines(), pattern@, curr_line as int, backwards, k) {
                    let k = choose|k: int| nearest_match(state.lines(), pattern@, curr_line as int, backwards, k);
                    assert(any_match(state.lines(), pattern@, curr_line as int, backwards));
                }
            }
            Err(e)
        },
    }
}

/// Interprets `index` into a line number (1-indexed, so that 0 can stand
/// for "before the first line"), with `old_selection` the line `.` stands
/// for. The result is not checked against the buffer, except where a
/// pattern is searched from `old_selection`.
pub fn interpret_index<'a>(state: &Ed, index: Ind<'a>, old_selection: usize) -> (r: EdResult<usize>)
    requires
        state.wf(),
    ensures
        lookup_outcome_is(r, interpret_spec(state.lines(), ind_view(index), old_selection)),
    decreases index,
{
    match index {
        Ind::Selection => Ok(old_selection),
        Ind::BufferLen => Ok(state.buffer().len()),
        Ind::Literal(i) => Ok(i),
        Ind::Tag(tag) => find_tag(state, tag),
        Ind::Pattern(pattern) => find_matching(state, pattern, old_selection, false),
        Ind::RevPattern(pattern) => find_matching(state, pattern, old_selection, true),
        Ind::Add(inner, offset) => {
            match interpret_index(state, *inner, old_selection) {
                Ok(v) => Ok(v.saturating_add(offset)),
                Err(e) => Err(e),
            }
        },
        Ind::Sub(inner, offset) => {
            match interpret_index(state, *inner, old_selection) {
                Ok(v) => Ok(v.saturating_sub(offset)),
                Err(e) => Err(e),
            }
        },
    }
}

/// The lines that selection `sel` denotes, with `old` the selection `.`
/// stands for: a missing selection stands for `.` itself.
pub open spec fn interpret_selection_spec(s: Seq<LineView>, sel: Option<SelV>, old: (usize, usize)) -> Result<(usize, usize), Lookup> {
    match sel {
        None => Ok(old),
        Some(SelV::Lone(i)) => match interpret_spec(s, i, old.0) {
            Ok(v) => Ok((v, v)),
            Err(f) => Err(f),
        },
        Some(SelV::Pair(a, b)) => match interpret_spec(s, a, old.0) {
            Err(f) => Err(f),
            Ok(x) => match interpret_spec(s, b, old.1) {
                Ok(y) => Ok((x, y)),
                Err(f) => Err(f),
            },
        },
    }
}

/// Whether `r` is the outcome `spec` describes.
pub open spec fn selection_lookup_is(r: EdResult<(usize, usize)>, spec: Result<(usize, usize), Lookup>) -> bool {
    match r {
        Ok(v) => spec == Ok::<(usize, usize), Lookup>(v),
        Err(e) => spec is Err && lookup_is(e, spec->Err_0),
    }
}

/// Interprets a selection into two line numbers (1-indexed, as indices),
/// with `old_selection` what `.` stands for in each position.
pub fn interpret_selection<'a>(state: &Ed, input: Option<Sel<'a>>, old_selection: (usize, usize)) -> (r: EdResult<(usize, usize)>)
    requires
        state.wf(),
    ensures
        selection_lookup_is(r, interpret_selection_spec(state.lines(), opt_sel_view(input), old_selection)),
{
    let selection = match input {
        Some(s) => s,
        None => Sel::Pair(Ind::Selection, Ind::Selection),
    };
    match selection {
        Sel::Lone(ind) => {
            match interpret_index(state, ind, old_selection.0) {
                Ok(i) => Ok((i, i)),
                Err(e) => Err(e),
            }
        },
        Sel::Pair(ind1, ind2) => {
            let i = match interpret_index(state, ind1, old_selection.0) {
                Ok(i) => i,
                Err(e) => {
                    return Err(e);
                },
            };
            match interpret_index(state, ind2, old_selection.1) {
                Ok(i2) => Ok((i, i2)),
                Err(e) => Err(e),
            }
        },
    }
}

/// The end (or, not `end`, the start) of the selection `sel` denotes.
pub open spec fn index_from_selection_spec(s: Seq<LineView>, sel: Option<SelV>, old: (usize, usize), end: bool) -> Result<usize, Lookup> {
    match interpret_selection_spec(s, sel, old) {
        Ok(x) => Ok(if end { x.1 } else { x.0 }),
        Err(f) => Err(f),
    }
}

/// Interprets a selection given where an index is expected, taking its
/// end (or, not `end`, its start).
pub fn interpret_index_from_selection<'a>(state: &Ed, selection: Option<Sel<'a>>, old_selection: (usize, usize), end: bool) -> (r: EdResult<usize>)
    requires
        state.wf(),
    ensures
        lookup_outcome_is(r, index_from_selection_spec(state.lines(), opt_sel_view(selection), old_selection, end)),
{
    match interpret_selection(state, selection, old_selection) {
        Ok(x) => Ok(if end { x.1 } else { x.0 }),
        Err(e) => Err(e),
    }
}

} // verus!
