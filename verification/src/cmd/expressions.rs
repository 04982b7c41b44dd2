//! Argument lists such as `/pattern/replacement/`, separated by their
//! first character.
use vstd::prelude::*;
use crate::buffer::editing::strings_view;
use crate::cmd::selection::char_at;
use crate::error::{EdError, EdResult};
use crate::text::{chars_of, string_from_chars};

verus! {

/// The pieces of `s` between occurrences of `sep`, as `str::split` gives
/// them: one more piece than there are separators.
pub open spec fn split_on(s: Seq<char>, sep: char) -> Seq<Seq<char>>
    decreases s.len(),
{
    if s.len() == 0 {
        seq![Seq::<char>::empty()]
    } else {
        let p = split_on(s.drop_last(), sep);
        if s.last() == sep {
            p.push(Seq::empty())
        } else {
            p.update(p.len() - 1, p.last().push(s.last()))
        }
    }
}

/// The number of backslashes `s` ends with.
pub open spec fn trailing_backslashes(s: Seq<char>) -> nat
    decreases s.len(),
{
    if s.len() > 0 && s.last() == '\\' {
        1 + trailing_backslashes(s.drop_last())
    } else {
        0
    }
}

/// `e` prepended to a successful result.
pub open spec fn with_first(e: Seq<char>, r: Option<Seq<Seq<char>>>) -> Option<Seq<Seq<char>>> {
    match r {
        Some(x) => Some(seq![e] + x),
        None => None,
    }
}

/// The expressions made of pieces `j..` of `chunks`, with `partial` the
/// text of an expression whose separator was escaped: a piece ending in an
/// odd number of backslashes continues into the next one (that backslash
/// replaced by the separator). `None` when the last piece is escaped.
pub open spec fn expressions_from(chunks: Seq<Seq<char>>, j: int, partial: Option<Seq<char>>, sep: char) -> Option<Seq<Seq<char>>>
    decreases chunks.len() - j,
{
    if j < 0 || j >= chunks.len() {
        if partial is Some { None } else { Some(Seq::empty()) }
    } else {
        let c = chunks[j];
        let base = match partial {
            Some(x) => x,
            None => Seq::empty(),
        };
        if trailing_backslashes(c) % 2 == 1 {
            expressions_from(chunks, j + 1, Some(base + c.drop_last().push(sep)), sep)
        } else {
            with_first(base + c, expressions_from(chunks, j + 1, None, sep))
        }
    }
}

/// What [`parse_expressions`] gives for `input`: no expressions when it is
/// empty, else the expressions separated by its first character.
pub open spec fn parse_expressions_spec(input: Seq<char>) -> Option<Seq<Seq<char>>> {
    if input.len() == 0 {
        Some(Seq::empty())
    } else {
        expressions_from(split_on(input.drop_first(), input[0]), 0, None, input[0])
    }
}

/// The pieces of `v[from..]` between occurrences of `sep`.
fn split_chars(v: &Vec<char>, from: usize, sep: char) -> (r: Vec<Vec<char>>)
    requires
        from <= v@.len(),
    ensures
        r@.map_values(|x: Vec<char>| x@) == split_on(v@.subrange(from as int, v@.len() as int), sep),
{
    let ghost s = v@.subrange(from as int, v@.len() as int);
    let mut pieces: Vec<Vec<char>> = Vec::new();
    let mut cur: Vec<char> = Vec::new();
    let mut i: usize = from;
    assert(s.take(0) =~= Seq::<char>::empty());
    assert(pieces@.map_values(|x: Vec<char>| x@).push(cur@) =~= split_on(s.take(0), sep));
    while i < v.len()
        invariant
            from <= i <= v@.len(),
            s == v@.subrange(from as int, v@.len() as int),
            pieces@.map_values(|x: Vec<char>| x@).push(cur@) == split_on(s.take(i - from), sep),
        decreases v@.len() - i,
    {
        let c = char_at(v, i);
        let ghost prev = pieces@.map_values(|x: Vec<char>| x@).push(cur@);
        assert(s.take(i + 1 - from).drop_last() =~= s.take(i - from));
        assert(s.take(i + 1 - from).last() == c);
        if c == sep {
            let done = cur;
            pieces.push(done);
            cur = Vec::new();
            assert(pieces@.map_values(|x: Vec<char>| x@).push(cur@) =~= prev.push(Seq::empty()));
        } else {
            cur.push(c);
            assert(pieces@.map_values(|x: Vec<char>| x@).push(cur@) =~= prev.update(prev.len() - 1, prev.last().push(c)));
        }
        i = i + 1;
    }
    assert(s.take(i - from) =~= s);
    let ghost whole = pieces@.map_values(|x: Vec<char>| x@).push(cur@);
    pieces.push(cur);
    assert(pieces@.map_values(|x: Vec<char>| x@) =~= whole);
    pieces
}

/// The number of backslashes `v` ends with.
fn count_trailing_backslashes(v: &Vec<char>) -> (n: usize)
    ensures
        n == trailing_backslashes(v@),
{
    let mut k: usize = v.len();
    assert(v@.take(k as int) =~= v@);
    while k > 0 && char_at(v, k - 1) == '\\'
        invariant
            k <= v@.len(),
            trailing_backslashes(v@) == (v@.len() - k) + trailing_backslashes(v@.take(k as int)),
        decreases k,
    {
        assert(v@.take(k as int).drop_last() =~= v@.take(k - 1));
        k = k - 1;
    }
    assert(trailing_backslashes(v@.take(k as int)) == 0);
    v.len() - k
}

/// Splits `input` into expressions separated by its first character.
/// A separator preceded by an odd number of backslashes is escaped: it is
/// kept (without that backslash) instead of splitting. Other backslashes
/// are kept as they are.
pub fn parse_expressions(input: &str) -> (r: EdResult<Vec<String>>)
    ensures
        match parse_expressions_spec(input@) {
            Some(x) => r matches Ok(v) && strings_view(v@) == x,
            None => r matches Err(EdError::ArgumentListEscapedEnd(t)) && t@ == input@,
        },
{
    let chars = chars_of(input);
    if chars.len() == 0 {
        let v: Vec<String> = Vec::new();
        assert(strings_view(v@) =~= Seq::<Seq<char>>::empty());
        return Ok(v);
    }
    let sep = char_at(&chars, 0);
    let chunks = split_chars(&chars, 1, sep);
    let ghost cs = chunks@.map_values(|x: Vec<char>| x@);
    assert(chars@.subrange(1, chars@.len() as int) =~= input@.drop_first());
    let ghost goal = parse_expressions_spec(input@);
    let mut expressions: Vec<String> = Vec::new();
    let mut partial: Option<Vec<char>> = None;
    let mut j: usize = 0;
    while j < chunks.len()
        invariant
            j <= chunks@.len(),
            cs == chunks@.map_values(|x: Vec<char>| x@),
            goal == expressions_from(cs, 0, None, sep),
            goal == parse_expressions_spec(input@),
            ({
                let pv = match partial {
                    Some(p) => Some(p@),
                    None => None,
                };
                match expressions_from(cs, j as int, pv, sep) {
                    Some(rest) => goal == Some(strings_view(expressions@) + rest),
                    None => goal is None,
                }
            }),
        decreases chunks@.len() - j,
    {
        let chunk = &chunks[j];
        assert(cs[j as int] == chunk@);
        let mut base: Vec<char> = match partial {
            Some(p) => p,
            None => Vec::new(),
        };
        let ghost b0 = base@;
        if count_trailing_backslashes(chunk) % 2 == 1 {
            assert(chunk@.len() > 0);
            let last = chunk.len() - 1;
            let mut k: usize = 0;
            while k < last
                invariant
                    k <= last,
                    last + 1 == chunk@.len(),
                    base@ == b0 + chunk@.subrange(0, k as int),
                decreases chunk@.len() - k,
            {
                base.push(char_at(chunk, k));
                k = k + 1;
                assert(base@ =~= b0 + chunk@.subrange(0, k as int));
            }
            base.push(sep);
            assert(base@ =~= b0 + chunk@.drop_last().push(sep));
            partial = Some(base);
        } else {
            let mut k: usize = 0;
            while k < chunk.len()
                invariant
                    k <= chunk@.len(),
                    base@ == b0 + chunk@.subrange(0, k as int),
                decreases chunk@.len() - k,
            {
                base.push(char_at(chunk, k));
                k = k + 1;
                assert(base@ =~= b0 + chunk@.subrange(0, k as int));
            }
            assert(chunk@.subrange(0, k as int) =~= chunk@);
            let ghost before = strings_view(expressions@);
            expressions.push(string_from_chars(base.as_slice()));
            assert(strings_view(expressions@) =~= before.push(base@));
            proof {
                let rest = expressions_from(cs, j + 1, None, sep);
                if let Some(x) = rest {
                    assert(before + (seq![base@] + x) =~= before.push(base@) + x);
                }
            }
            partial = None;
        }
        j = j + 1;
    }
    if partial.is_some() {
        Err(EdError::ArgumentListEscapedEnd(string_from_chars(chars.as_slice())))
    } else {
        assert(strings_view(expressions@) + Seq::<Seq<char>>::empty() =~= strings_view(expressions@));
        Ok(expressions)
    }
}

} // verus!
